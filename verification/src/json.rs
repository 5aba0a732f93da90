//! JSON values.

use vstd::prelude::*;
use vstd::string::*;

use crate::ordered::is_text_before;
use crate::ordered::text_before;
use crate::text::same;

verus! {

/// A JSON number. A number with a fraction or an exponent, or outside the
/// 64-bit ranges, is kept as its text and as its floor, which is held to the
/// range of `i64`.
#[derive(Clone, Debug, PartialEq, Eq)]
pub enum JsonNumber {
    Unsigned(u64),
    Negative(i64),
    Float { text: String, floor: i64 },
}

/// A JSON value. The members of an object stand in ascending order of their
/// names.
#[derive(Debug, PartialEq, Eq)]
pub enum Json {
    Null,
    Bool(bool),
    Number(JsonNumber),
    Text(String),
    Array(Vec<Json>),
    Object(Vec<(String, Json)>),
}

/// What a [`JsonNumber`] is.
pub enum NumberModel {
    Unsigned(u64),
    Negative(i64),
    Float { text: Seq<char>, floor: i64 },
}

/// What a [`Json`] is.
pub enum JsonModel {
    Null,
    Bool(bool),
    Number(NumberModel),
    Text(Seq<char>),
    Array(Seq<JsonModel>),
    Object(Seq<(Seq<char>, JsonModel)>),
}

impl View for JsonNumber {
    type V = NumberModel;

    open spec fn view(&self) -> NumberModel {
        match self {
            JsonNumber::Unsigned(n) => NumberModel::Unsigned(*n),
            JsonNumber::Negative(n) => NumberModel::Negative(*n),
            JsonNumber::Float { text, floor } => NumberModel::Float { text: text@, floor: *floor },
        }
    }
}

pub open spec fn model(j: Json) -> JsonModel
    decreases j,
{
    match j {
        Json::Null => JsonModel::Null,
        Json::Bool(b) => JsonModel::Bool(b),
        Json::Number(n) => JsonModel::Number(n@),
        Json::Text(s) => JsonModel::Text(s@),
        Json::Array(items) => JsonModel::Array(
            Seq::new(
                items@.len(),
                |i: int|
                    if 0 <= i < items@.len() {
                        model(items@[i])
                    } else {
                        JsonModel::Null
                    },
            ),
        ),
        Json::Object(members) => JsonModel::Object(
            Seq::new(
                members@.len(),
                |i: int|
                    if 0 <= i < members@.len() {
                        (members@[i].0@, model(members@[i].1))
                    } else {
                        (Seq::<char>::empty(), JsonModel::Null)
                    },
            ),
        ),
    }
}

impl View for Json {
    type V = JsonModel;

    open spec fn view(&self) -> JsonModel {
        model(*self)
    }
}

/// The value of the first member called `name`.
pub open spec fn find_member(s: Seq<(Seq<char>, JsonModel)>, name: Seq<char>) -> Option<JsonModel>
    decreases s.len(),
{
    if s.len() == 0 {
        None
    } else if s[0].0 == name {
        Some(s[0].1)
    } else {
        find_member(s.drop_first(), name)
    }
}

/// `s` with the member `name` bound to `value`, at the place that the order of
/// the names gives it.
pub open spec fn put_member(
    s: Seq<(Seq<char>, JsonModel)>,
    name: Seq<char>,
    value: JsonModel,
) -> Seq<(Seq<char>, JsonModel)>
    decreases s.len(),
{
    if s.len() == 0 {
        seq![(name, value)]
    } else if s[0].0 == name {
        seq![(name, value)] + s.drop_first()
    } else if text_before(name, s[0].0) {
        seq![(name, value)] + s
    } else {
        seq![s[0]] + put_member(s.drop_first(), name, value)
    }
}

/// The member called `name`, where `j` is an object that has one.
pub open spec fn member(j: JsonModel, name: Seq<char>) -> Option<JsonModel> {
    match j {
        JsonModel::Object(s) => find_member(s, name),
        _ => None,
    }
}

pub open spec fn text_value(j: Option<JsonModel>) -> Option<Seq<char>> {
    match j {
        Some(JsonModel::Text(s)) => Some(s),
        _ => None,
    }
}

pub open spec fn bool_value(j: Option<JsonModel>) -> Option<bool> {
    match j {
        Some(JsonModel::Bool(b)) => Some(b),
        _ => None,
    }
}

pub open spec fn unsigned_value(j: Option<JsonModel>) -> Option<u64> {
    match j {
        Some(JsonModel::Number(NumberModel::Unsigned(n))) => Some(n),
        _ => None,
    }
}

/// The text of the member called `name`.
pub open spec fn text_member(j: JsonModel, name: Seq<char>) -> Option<Seq<char>> {
    text_value(member(j, name))
}

/// What an optional value is.
pub open spec fn opt_model(j: Option<&Json>) -> Option<JsonModel> {
    match j {
        Some(v) => Some(v@),
        None => None,
    }
}

/// The members of an object, as values.
pub open spec fn members_model(s: Seq<(String, Json)>) -> Seq<(Seq<char>, JsonModel)> {
    Seq::new(s.len(), |i: int| (s[i].0@, s[i].1@))
}

/// The values of a list.
pub open spec fn items_model(s: Seq<Json>) -> Seq<JsonModel> {
    Seq::new(s.len(), |i: int| s[i]@)
}

/// An object is its members, and a list its items.
pub proof fn model_of_parts(j: Json)
    ensures
        j is Array ==> j@ == JsonModel::Array(items_model(j->Array_0@)),
        j is Object ==> j@ == JsonModel::Object(members_model(j->Object_0@)),
{
    match j {
        Json::Array(items) => {
            assert(j@->Array_0 =~= items_model(items@));
        },
        Json::Object(members) => {
            assert(j@->Object_0 =~= members_model(members@));
        },
        _ => {},
    }
}

/// A member that was put is found, and the others are as they were.
pub proof fn put_then_find(
    s: Seq<(Seq<char>, JsonModel)>,
    name: Seq<char>,
    value: JsonModel,
    other: Seq<char>,
)
    ensures
        find_member(put_member(s, name, value), name) == Some(value),
        other != name ==> find_member(put_member(s, name, value), other) == find_member(s, other),
    decreases s.len(),
{
    let t = put_member(s, name, value);
    if s.len() == 0 {
        assert(t.drop_first() =~= s);
    } else if s[0].0 == name {
        assert(t.drop_first() =~= s.drop_first());
    } else if text_before(name, s[0].0) {
        assert(t.drop_first() =~= s);
    } else {
        put_then_find(s.drop_first(), name, value, other);
        assert(t.drop_first() =~= put_member(s.drop_first(), name, value));
    }
}

/// Whether a text is that of a zero with a fraction, of either sign.
pub open spec fn zero_text(text: Seq<char>) -> bool {
    text == "0.0"@ || text == "-0.0"@
}

/// Whether two numbers are equal: they are the same, or zeros with a fraction of
/// either sign.
pub open spec fn same_number(a: NumberModel, b: NumberModel) -> bool {
    match (a, b) {
        (NumberModel::Float { text: x, .. }, NumberModel::Float { text: y, .. }) => a == b || (
        zero_text(x) && zero_text(y)),
        _ => a == b,
    }
}

/// Whether two values are equal: of one shape, with the same names and texts and
/// equal numbers.
pub open spec fn same_json(a: JsonModel, b: JsonModel) -> bool
    decreases a,
{
    match (a, b) {
        (JsonModel::Number(x), JsonModel::Number(y)) => same_number(x, y),
        (JsonModel::Array(x), JsonModel::Array(y)) => x.len() == y.len() && forall|i: int|
            0 <= i < x.len() ==> same_json(#[trigger] x[i], y[i]),
        (JsonModel::Object(x), JsonModel::Object(y)) => x.len() == y.len() && forall|i: int|
            0 <= i < x.len() ==> (#[trigger] x[i]).0 == y[i].0 && same_json(x[i].1, y[i].1),
        _ => a == b,
    }
}

/// A value equals itself.
pub proof fn same_json_is_reflexive(a: JsonModel)
    ensures
        same_json(a, a),
    decreases a,
{
    match a {
        JsonModel::Array(x) => {
            assert forall|i: int| 0 <= i < x.len() implies same_json(#[trigger] x[i], x[i]) by {
                same_json_is_reflexive(x[i]);
            }
        },
        JsonModel::Object(x) => {
            assert forall|i: int| 0 <= i < x.len() implies same_json(
                (#[trigger] x[i]).1,
                x[i].1,
            ) by {
                same_json_is_reflexive(x[i].1);
            }
        },
        _ => {},
    }
}

impl JsonNumber {
    /// A number that holds the same.
    pub fn copy(&self) -> (r: JsonNumber)
        ensures
            r@ == self@,
    {
        match self {
            JsonNumber::Unsigned(n) => JsonNumber::Unsigned(*n),
            JsonNumber::Negative(n) => JsonNumber::Negative(*n),
            JsonNumber::Float { text, floor } => JsonNumber::Float {
                text: text.clone(),
                floor: *floor,
            },
        }
    }

    /// Whether two numbers are equal.
    pub fn equals(&self, other: &JsonNumber) -> (r: bool)
        ensures
            r == same_number(self@, other@),
    {
        match (self, other) {
            (JsonNumber::Unsigned(a), JsonNumber::Unsigned(b)) => *a == *b,
            (JsonNumber::Negative(a), JsonNumber::Negative(b)) => *a == *b,
            (
                JsonNumber::Float { text: a, floor: f },
                JsonNumber::Float { text: b, floor: g },
            ) => (same(a.as_str(), b.as_str()) && *f == *g) || (is_zero_text(a.as_str())
                && is_zero_text(b.as_str())),
            _ => false,
        }
    }
}

fn is_zero_text(text: &str) -> (r: bool)
    ensures
        r == zero_text(text@),
{
    same(text, "0.0") || same(text, "-0.0")
}

impl Json {
    /// A value that is the same.
    pub fn copy(&self) -> (r: Json)
        ensures
            r@ == self@,
        decreases self,
    {
        match self {
            Json::Null => Json::Null,
            Json::Bool(b) => Json::Bool(*b),
            Json::Number(n) => Json::Number(n.copy()),
            Json::Text(s) => Json::Text(s.clone()),
            Json::Array(items) => {
                let mut out: Vec<Json> = Vec::new();
                let mut i: usize = 0;
                while i < items.len()
                    invariant
                        i <= items.len(),
                        *self == Json::Array(*items),
                        out.len() == i,
                        forall|k: int| 0 <= k < i ==> (#[trigger] out@[k])@ == items@[k]@,
                    decreases items.len() - i,
                {
                    let item = &items[i];
                    proof {
                        assert(self->Array_0 == *items);
                        assert(decreases_to!(*items => items@[i as int]));
                    }
                    out.push(item.copy());
                    i = i + 1;
                }
                let r = Json::Array(out);
                proof {
                    assert(r@->Array_0 =~= self@->Array_0);
                }
                r
            },
            Json::Object(members) => {
                let mut out: Vec<(String, Json)> = Vec::new();
                let mut i: usize = 0;
                while i < members.len()
                    invariant
                        i <= members.len(),
                        *self == Json::Object(*members),
                        out.len() == i,
                        forall|k: int|
                            0 <= k < i ==> (#[trigger] out@[k]).0@ == members@[k].0@
                                && out@[k].1@ == members@[k].1@,
                    decreases members.len() - i,
                {
                    let name = members[i].0.clone();
                    let entry = &members[i].1;
                    proof {
                        assert(self->Object_0 == *members);
                        assert(decreases_to!(*members => members@[i as int]));
                    }
                    let value = entry.copy();
                    out.push((name, value));
                    i = i + 1;
                }
                let r = Json::Object(out);
                proof {
                    assert(r@->Object_0 =~= self@->Object_0);
                }
                r
            },
        }
    }

    /// Whether two values are equal.
    pub fn equals(&self, other: &Json) -> (r: bool)
        ensures
            r == same_json(self@, other@),
        decreases self,
    {
        match (self, other) {
            (Json::Null, Json::Null) => true,
            (Json::Bool(a), Json::Bool(b)) => *a == *b,
            (Json::Number(a), Json::Number(b)) => a.equals(b),
            (Json::Text(a), Json::Text(b)) => same(a.as_str(), b.as_str()),
            (Json::Array(a), Json::Array(b)) => {
                if a.len() != b.len() {
                    proof {
                        assert(self@->Array_0.len() != other@->Array_0.len());
                    }
                    return false;
                }
                let mut i: usize = 0;
                while i < a.len()
                    invariant
                        i <= a.len(),
                        a.len() == b.len(),
                        *self == Json::Array(*a),
                        *other == Json::Array(*b),
                        forall|k: int| 0 <= k < i ==> same_json((#[trigger] a@[k])@, b@[k]@),
                    decreases a.len() - i,
                {
                    if !a[i].equals(&b[i]) {
                        proof {
                            assert(self@->Array_0[i as int] == a@[i as int]@);
                            assert(other@->Array_0[i as int] == b@[i as int]@);
                        }
                        return false;
                    }
                    i = i + 1;
                }
                proof {
                    assert forall|k: int| 0 <= k < a@.len() implies same_json(
                        #[trigger] self@->Array_0[k],
                        other@->Array_0[k],
                    ) by {
                        assert(same_json(a@[k]@, b@[k]@));
                    }
                }
                true
            },
            (Json::Object(a), Json::Object(b)) => {
                if a.len() != b.len() {
                    proof {
                        assert(self@->Object_0.len() != other@->Object_0.len());
                    }
                    return false;
                }
                let mut i: usize = 0;
                while i < a.len()
                    invariant
                        i <= a.len(),
                        a.len() == b.len(),
                        *self == Json::Object(*a),
                        *other == Json::Object(*b),
                        forall|k: int|
                            0 <= k < i ==> (#[trigger] a@[k]).0@ == b@[k].0@ && same_json(
                                a@[k].1@,
                                b@[k].1@,
                            ),
                    decreases a.len() - i,
                {
                    if !same(a[i].0.as_str(), b[i].0.as_str()) || !a[i].1.equals(&b[i].1) {
                        proof {
                            assert(self@->Object_0[i as int] == (
                                a@[i as int].0@,
                                a@[i as int].1@,
                            ));
                            assert(other@->Object_0[i as int] == (
                                b@[i as int].0@,
                                b@[i as int].1@,
                            ));
                        }
                        return false;
                    }
                    i = i + 1;
                }
                proof {
                    let x = self@->Object_0;
                    let y = other@->Object_0;
                    assert forall|k: int| 0 <= k < x.len() implies (#[trigger] x[k]).0 == y[k].0
                        && same_json(x[k].1, y[k].1) by {
                        assert(a@[k].0@ == b@[k].0@);
                    }
                }
                true
            },
            _ => false,
        }
    }

    /// The member called `name`, where this is an object that has one.
    pub fn get(&self, name: &str) -> (r: Option<&Json>)
        ensures
            opt_model(r) == member(self@, name@),
    {
        match self {
            Json::Object(members) => {
                let ghost all = members_model(members@);
                proof {
                    model_of_parts(*self);
                    assert(all.skip(0) =~= all);
                }
                let mut i: usize = 0;
                while i < members.len()
                    invariant
                        i <= members.len(),
                        all == members_model(members@),
                        self@ == JsonModel::Object(all),
                        find_member(all, name@) == find_member(all.skip(i as int), name@),
                    decreases members.len() - i,
                {
                    proof {
                        assert(all.skip(i as int)[0] == all[i as int]);
                        assert(all.skip(i as int).drop_first() =~= all.skip(i + 1));
                    }
                    if same(members[i].0.as_str(), name) {
                        return Some(&members[i].1);
                    }
                    i = i + 1;
                }
                None
            },
            _ => None,
        }
    }

    /// The text of this value, where it is one.
    pub fn as_text(&self) -> (r: Option<&str>)
        ensures
            match r {
                Some(s) => self@ == JsonModel::Text(s@),
                None => !(self@ is Text),
            },
    {
        match self {
            Json::Text(s) => Some(s.as_str()),
            _ => None,
        }
    }

    /// The text of the member called `name`.
    pub fn get_text(&self, name: &str) -> (r: Option<&str>)
        ensures
            match r {
                Some(s) => text_member(self@, name@) == Some(s@),
                None => text_member(self@, name@) is None,
            },
    {
        match self.get(name) {
            Some(v) => v.as_text(),
            None => None,
        }
    }

    /// The truth value of the member called `name`.
    pub fn get_bool(&self, name: &str) -> (r: Option<bool>)
        ensures
            r == bool_value(member(self@, name@)),
    {
        match self.get(name) {
            Some(Json::Bool(b)) => Some(*b),
            _ => None,
        }
    }

    /// The unsigned number of the member called `name`.
    pub fn get_unsigned(&self, name: &str) -> (r: Option<u64>)
        ensures
            r == unsigned_value(member(self@, name@)),
    {
        match self.get(name) {
            Some(Json::Number(JsonNumber::Unsigned(n))) => Some(*n),
            _ => None,
        }
    }

    pub fn is_object(&self) -> (r: bool)
        ensures
            r == self@ is Object,
    {
        match self {
            Json::Object(_) => true,
            _ => false,
        }
    }

    /// Binds the member `name` to `value`, where this is an object.
    pub fn put(&mut self, name: &str, value: Json)
        ensures
            match old(self)@ {
                JsonModel::Object(s) => final(self)@ == JsonModel::Object(
                    put_member(s, name@, value@),
                ),
                _ => final(self)@ == old(self)@,
            },
    {
        let ghost start = *self;
        proof {
            model_of_parts(start);
        }
        match self {
            Json::Object(members) => {
                put_in(members, name, value);
            },
            _ => {},
        }
        proof {
            model_of_parts(*self);
        }
    }
}

/// Binds the member `name` to `value`.
pub fn put_in(members: &mut Vec<(String, Json)>, name: &str, value: Json)
    ensures
        members_model(final(members)@) == put_member(
            members_model(old(members)@),
            name@,
            value@,
        ),
{
    let ghost all = members_model(members@);
    let mut i: usize = 0;
    proof {
        assert(all.skip(0) =~= all);
        assert(all.take(0) + put_member(all.skip(0), name@, value@) =~= put_member(
            all,
            name@,
            value@,
        ));
    }
    while i < members.len() && !same(members[i].0.as_str(), name) && !is_text_before(
        name,
        members[i].0.as_str(),
    )
        invariant
            i <= members.len(),
            *members == *old(members),
            all == members_model(members@),
            put_member(all, name@, value@) == all.take(i as int) + put_member(
                all.skip(i as int),
                name@,
                value@,
            ),
        decreases members.len() - i,
    {
        proof {
            let rest = all.skip(i as int);
            assert(rest[0] == all[i as int]);
            assert(rest.drop_first() =~= all.skip(i + 1));
            assert(all.take(i as int) + (seq![rest[0]] + put_member(all.skip(i + 1), name@, value@))
                =~= all.take(i + 1) + put_member(all.skip(i + 1), name@, value@));
        }
        i = i + 1;
    }
    let ghost rest = all.skip(i as int);
    if i < members.len() && same(members[i].0.as_str(), name) {
        let owned = name.to_owned();
        members.set(i, (owned, value));
        proof {
            assert(rest[0] == all[i as int]);
            assert(members_model(members@) =~= all.take(i as int) + (seq![(name@, value@)]
                + rest.drop_first()));
        }
    } else {
        let owned = name.to_owned();
        members.insert(i, (owned, value));
        proof {
            if rest.len() > 0 {
                assert(rest[0] == all[i as int]);
                assert(members_model(members@) =~= all.take(i as int) + (seq![(name@, value@)]
                    + rest));
            } else {
                assert(members_model(members@) =~= all.take(i as int) + seq![(name@, value@)]);
            }
        }
    }
}

/// `s` without the first member called `name`.
pub open spec fn drop_member(s: Seq<(Seq<char>, JsonModel)>, name: Seq<char>) -> Seq<
    (Seq<char>, JsonModel),
>
    decreases s.len(),
{
    if s.len() == 0 {
        s
    } else if s[0].0 == name {
        s.drop_first()
    } else {
        seq![s[0]] + drop_member(s.drop_first(), name)
    }
}

/// Takes the first member called `name` out.
pub fn remove_from(members: &mut Vec<(String, Json)>, name: &str)
    ensures
        members_model(final(members)@) == drop_member(members_model(old(members)@), name@),
{
    let ghost all = members_model(members@);
    let mut i: usize = 0;
    proof {
        assert(all.skip(0) =~= all);
        assert(all.take(0) + drop_member(all.skip(0), name@) =~= drop_member(all, name@));
    }
    while i < members.len() && !same(members[i].0.as_str(), name)
        invariant
            i <= members.len(),
            *members == *old(members),
            all == members_model(members@),
            drop_member(all, name@) == all.take(i as int) + drop_member(all.skip(i as int), name@),
        decreases members.len() - i,
    {
        proof {
            let rest = all.skip(i as int);
            assert(rest[0] == all[i as int]);
            assert(rest.drop_first() =~= all.skip(i + 1));
            assert(all.take(i as int) + (seq![rest[0]] + drop_member(all.skip(i + 1), name@))
                =~= all.take(i + 1) + drop_member(all.skip(i + 1), name@));
        }
        i = i + 1;
    }
    let ghost rest = all.skip(i as int);
    if i < members.len() {
        let _gone = members.remove(i);
        proof {
            assert(rest[0] == all[i as int]);
            assert(members_model(members@) =~= all.take(i as int) + rest.drop_first());
        }
    } else {
        proof {
            assert(members_model(members@) =~= all.take(i as int) + rest);
        }
    }
}

} // verus!
