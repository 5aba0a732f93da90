//! The rows of the query projection: what is kept of an entity for queries.

use vstd::prelude::*;
use vstd::string::*;

use crate::json::drop_member;
use crate::json::find_member;
use crate::json::member;
use crate::json::put_member;
use crate::json::remove_from;
use crate::json::Json;
use crate::json::JsonModel;
use crate::text::outcome;
use crate::text::texts;

verus! {

/// The names of the variables that a specification keeps out of queries, in the
/// order in which it declares them. Each variable stands with what is declared
/// of its being queried, if anything is.
pub open spec fn hidden_variables(vars: Seq<(String, Option<bool>)>) -> Seq<Seq<char>> {
    vars.filter(|v: (String, Option<bool>)| v.1 == Some(false)).map_values(
        |v: (String, Option<bool>)| v.0@,
    )
}

/// The names of the variables that a specification keeps out of queries: those
/// that are declared not to be queried.
pub fn unindexed_variables(vars: &Vec<(String, Option<bool>)>) -> (r: Vec<String>)
    ensures
        texts(r@) == hidden_variables(vars@),
{
    let ghost pred = |v: (String, Option<bool>)| v.1 == Some(false);
    let ghost name = |v: (String, Option<bool>)| v.0@;
    let mut out: Vec<String> = Vec::new();
    let mut i: usize = 0;
    proof {
        assert(vars@.take(0) =~= Seq::<(String, Option<bool>)>::empty());
        assert(vars@.take(0).filter(pred) =~= Seq::<(String, Option<bool>)>::empty());
        assert(texts(out@) =~= vars@.take(0).filter(pred).map_values(name));
    }
    while i < vars.len()
        invariant
            i <= vars.len(),
            pred == (|v: (String, Option<bool>)| v.1 == Some(false)),
            name == (|v: (String, Option<bool>)| v.0@),
            texts(out@) == vars@.take(i as int).filter(pred).map_values(name),
        decreases vars.len() - i,
    {
        let ghost before = vars@.take(i as int).filter(pred);
        let ghost last = vars@[i as int];
        proof {
            assert(vars@.take(i + 1).drop_last() =~= vars@.take(i as int));
            assert(vars@.take(i + 1).last() == last);
            reveal(Seq::filter);
        }
        match vars[i].1 {
            Some(false) => {
                let ghost earlier = texts(out@);
                out.push(vars[i].0.clone());
                proof {
                    assert(texts(out@) =~= earlier.push(last.0@));
                    assert(before.push(last).map_values(name) =~= before.map_values(name).push(
                        last.0@,
                    ));
                }
            },
            _ => {},
        }
        i = i + 1;
    }
    proof {
        assert(vars@.take(vars@.len() as int) =~= vars@);
    }
    out
}

/// The fields without the first `n` of the names that are not queried.
pub open spec fn without_fields(
    fields: Seq<(Seq<char>, JsonModel)>,
    hidden: Seq<Seq<char>>,
    n: int,
) -> Seq<(Seq<char>, JsonModel)>
    decreases n,
{
    if n <= 0 {
        fields
    } else {
        drop_member(without_fields(fields, hidden, n - 1), hidden[n - 1])
    }
}

/// The names that a specification keeps out of queries, where there is one.
pub open spec fn hidden_names(unindexed: Option<Vec<String>>) -> Option<Seq<Seq<char>>> {
    match unindexed {
        Some(names) => Some(texts(names@)),
        None => None,
    }
}

/// The fields that the query projection holds: those of the entity without the
/// names that its specification keeps out of queries. Without a specification,
/// all of them; what is no object is kept as it is.
pub open spec fn projected_fields(fields: JsonModel, hidden: Option<Seq<Seq<char>>>) -> JsonModel {
    match (fields, hidden) {
        (JsonModel::Object(members), Some(names)) => JsonModel::Object(
            without_fields(members, names, names.len() as int),
        ),
        _ => fields,
    }
}

/// The state that the query projection holds: that of the entity without its
/// events, or an empty object where the state could not be encoded.
pub open spec fn projected_state(encoded: Result<JsonModel, Seq<char>>) -> JsonModel {
    match encoded {
        Err(_) => JsonModel::Object(Seq::empty()),
        Ok(JsonModel::Object(members)) => JsonModel::Object(
            put_member(members, "events"@, JsonModel::Array(Seq::empty())),
        ),
        Ok(other) => other,
    }
}

/// The fields that the query projection holds. `unindexed` are the names that
/// the entity's specification keeps out of queries, where it has one.
pub fn query_projection_fields(fields: &Json, unindexed: &Option<Vec<String>>) -> (r: Json)
    ensures
        r@ == projected_fields(fields@, hidden_names(*unindexed)),
{
    let names = match unindexed {
        Some(names) => names,
        None => return fields.copy(),
    };
    let copied = fields.copy();
    match copied {
        Json::Object(members) => {
            let mut kept = members;
            let ghost start = crate::json::members_model(kept@);
            proof {
                crate::json::model_of_parts(copied);
            }
            let mut i: usize = 0;
            while i < names.len()
                invariant
                    i <= names.len(),
                    crate::json::members_model(kept@) == without_fields(
                        start,
                        texts(names@),
                        i as int,
                    ),
                decreases names.len() - i,
            {
                proof {
                    assert(texts(names@)[i as int] == names@[i as int]@);
                }
                remove_from(&mut kept, names[i].as_str());
                i = i + 1;
            }
            let r = Json::Object(kept);
            proof {
                crate::json::model_of_parts(r);
            }
            r
        },
        other => other,
    }
}

/// The state that the query projection holds. `encoded` is the encoding of the
/// entity's state, or why there is none.
pub fn query_projection_state(encoded: &Result<Json, String>) -> (r: Json)
    ensures
        r@ == projected_state(outcome(*encoded)),
{
    match encoded {
        Err(_) => {
            let none = Json::Object(Vec::new());
            proof {
                crate::json::model_of_parts(none);
                assert(none@->Object_0 =~= Seq::<(Seq<char>, JsonModel)>::empty());
            }
            none
        },
        Ok(state) => {
            let mut projected = state.copy();
            let empty = Json::Array(Vec::new());
            proof {
                crate::json::model_of_parts(empty);
                assert(empty@->Array_0 =~= Seq::<JsonModel>::empty());
            }
            projected.put("events", empty);
            projected
        },
    }
}

/// An entity as its snapshot or the replay of its journal gives it.
#[derive(Debug, PartialEq, Eq)]
pub struct ReplayedEntity {
    pub status: String,
    pub total_event_count: u64,
    pub sequence_nr: u64,
    pub fields: Json,
    /// The encoding of the whole state, or why there is none.
    pub encoded: Result<Json, String>,
}

/// A row of the query projection.
#[derive(Debug, PartialEq, Eq)]
pub struct ProjectionRow {
    pub status: String,
    pub fields: Json,
    pub state: Json,
    pub sequence_nr: u64,
}

/// What a [`ProjectionRow`] holds.
pub struct RowModel {
    pub status: Seq<char>,
    pub fields: JsonModel,
    pub state: JsonModel,
    pub sequence_nr: u64,
}

impl View for ProjectionRow {
    type V = RowModel;

    open spec fn view(&self) -> RowModel {
        RowModel {
            status: self.status@,
            fields: self.fields@,
            state: self.state@,
            sequence_nr: self.sequence_nr,
        }
    }
}

/// The row of an entity with this status, these fields and this state.
pub open spec fn projected_row(
    status: Seq<char>,
    fields: JsonModel,
    encoded: Result<JsonModel, Seq<char>>,
    sequence_nr: u64,
    hidden: Option<Seq<Seq<char>>>,
) -> RowModel {
    RowModel {
        status,
        fields: projected_fields(fields, hidden),
        state: projected_state(encoded),
        sequence_nr,
    }
}

/// Makes the row of an entity with this status, these fields and this state.
pub fn project_row(
    status: &str,
    fields: &Json,
    encoded: &Result<Json, String>,
    sequence_nr: u64,
    unindexed: &Option<Vec<String>>,
) -> (r: ProjectionRow)
    ensures
        r@ == projected_row(
            status@,
            fields@,
            outcome(*encoded),
            sequence_nr,
            hidden_names(*unindexed),
        ),
{
    ProjectionRow {
        status: status.to_owned(),
        fields: query_projection_fields(fields, unindexed),
        state: query_projection_state(encoded),
        sequence_nr,
    }
}

/// The row of an entity that was loaded.
pub open spec fn row_of(e: ReplayedEntity, hidden: Option<Seq<Seq<char>>>) -> RowModel {
    projected_row(e.status@, e.fields@, outcome(e.encoded), e.sequence_nr, hidden)
}

/// Makes the row of an entity that was loaded: its status and its sequence, its
/// fields without those that are kept out of queries, and its state without its
/// events.
pub fn projection_row(entity: &ReplayedEntity, unindexed: &Option<Vec<String>>) -> (r:
    ProjectionRow)
    ensures
        r@ == row_of(*entity, hidden_names(*unindexed)),
        r.status@ == entity.status@,
        r.sequence_nr == entity.sequence_nr,
        r.fields@ == projected_fields(entity.fields@, hidden_names(*unindexed)),
        r.state@ == projected_state(outcome(entity.encoded)),
{
    project_row(
        entity.status.as_str(),
        &entity.fields,
        &entity.encoded,
        entity.sequence_nr,
        unindexed,
    )
}

/// Whether no member is called `name`.
pub open spec fn unnamed(s: Seq<(Seq<char>, JsonModel)>, name: Seq<char>) -> bool {
    forall|i: int| 0 <= i < s.len() ==> (#[trigger] s[i]).0 != name
}

/// Whether no two members have one name.
pub open spec fn distinct(s: Seq<(Seq<char>, JsonModel)>) -> bool {
    forall|i: int, j: int|
        0 <= i < j < s.len() ==> (#[trigger] s[i]).0 != (#[trigger] s[j]).0
}

proof fn a_dropped_member_is_gone(
    s: Seq<(Seq<char>, JsonModel)>,
    name: Seq<char>,
    other: Seq<char>,
)
    requires
        distinct(s),
    ensures
        distinct(drop_member(s, name)),
        unnamed(drop_member(s, name), name),
        unnamed(s, other) ==> unnamed(drop_member(s, name), other),
    decreases s.len(),
{
    if s.len() > 0 {
        let rest = s.drop_first();
        let kept = drop_member(rest, name);
        assert forall|i: int| 0 <= i < rest.len() implies (#[trigger] rest[i]).0 != s[0].0 by {
            assert(rest[i] == s[i + 1]);
        }
        assert forall|i: int, j: int| 0 <= i < j < rest.len() implies (#[trigger] rest[i]).0 != (
        #[trigger] rest[j]).0 by {
            assert(rest[i] == s[i + 1]);
            assert(rest[j] == s[j + 1]);
        }
        if unnamed(s, other) {
            assert forall|i: int| 0 <= i < rest.len() implies (#[trigger] rest[i]).0 != other by {
                assert(rest[i] == s[i + 1]);
            }
        }
        a_dropped_member_is_gone(rest, name, s[0].0);
        a_dropped_member_is_gone(rest, name, other);
        if s[0].0 != name {
            let all = seq![s[0]] + kept;
            assert forall|i: int| 0 <= i < all.len() implies #[trigger] all[i] == if i == 0 {
                s[0]
            } else {
                kept[i - 1]
            } by {}
        }
    }
}

proof fn an_unnamed_member_is_not_found(s: Seq<(Seq<char>, JsonModel)>, name: Seq<char>)
    requires
        unnamed(s, name),
    ensures
        find_member(s, name) is None,
    decreases s.len(),
{
    if s.len() > 0 {
        assert forall|i: int| 0 <= i < s.drop_first().len() implies (
        #[trigger] s.drop_first()[i]).0 != name by {
            assert(s.drop_first()[i] == s[i + 1]);
        }
        an_unnamed_member_is_not_found(s.drop_first(), name);
    }
}

proof fn hidden_names_are_gone(
    members: Seq<(Seq<char>, JsonModel)>,
    hidden: Seq<Seq<char>>,
    n: int,
    at: int,
)
    requires
        distinct(members),
        0 <= n <= hidden.len(),
        0 <= at < hidden.len(),
    ensures
        distinct(without_fields(members, hidden, n)),
        at < n ==> unnamed(without_fields(members, hidden, n), hidden[at]),
    decreases n,
{
    if n > 0 {
        hidden_names_are_gone(members, hidden, n - 1, at);
        a_dropped_member_is_gone(
            without_fields(members, hidden, n - 1),
            hidden[n - 1],
            hidden[at],
        );
    }
}

proof fn a_hidden_variable_is_listed(vars: Seq<(String, Option<bool>)>, at: int)
    requires
        0 <= at < vars.len(),
        vars[at].1 == Some(false),
    ensures
        exists|i: int|
            0 <= i < hidden_variables(vars).len() && #[trigger] hidden_variables(vars)[i]
                == vars[at].0@,
{
    let pred = |v: (String, Option<bool>)| v.1 == Some(false);
    vars.filter_lemma(pred);
    let kept = vars.filter(pred);
    assert(pred(vars[at]));
    assert(kept.contains(vars[at]));
    let i = choose|i: int| 0 <= i < kept.len() && #[trigger] kept[i] == vars[at];
    assert(hidden_variables(vars)[i] == vars[at].0@);
}

/// No query sees a variable that a specification keeps out of queries.
pub proof fn hidden_variables_are_not_projected(
    e: ReplayedEntity,
    vars: Seq<(String, Option<bool>)>,
    at: int,
)
    requires
        e.fields@ is Object,
        distinct(e.fields@->Object_0),
        0 <= at < vars.len(),
        vars[at].1 == Some(false),
    ensures
        member(row_of(e, Some(hidden_variables(vars))).fields, vars[at].0@) is None,
{
    let hidden = hidden_variables(vars);
    a_hidden_variable_is_listed(vars, at);
    let i = choose|i: int| 0 <= i < hidden.len() && #[trigger] hidden[i] == vars[at].0@;
    let n = hidden.len() as int;
    hidden_names_are_gone(e.fields@->Object_0, hidden, n, i);
    an_unnamed_member_is_not_found(
        without_fields(e.fields@->Object_0, hidden, n),
        hidden[i],
    );
}

proof fn another_member_stays(
    s: Seq<(Seq<char>, JsonModel)>,
    dropped: Seq<char>,
    name: Seq<char>,
)
    requires
        dropped != name,
    ensures
        find_member(drop_member(s, dropped), name) == find_member(s, name),
    decreases s.len(),
{
    if s.len() > 0 {
        another_member_stays(s.drop_first(), dropped, name);
        if s[0].0 != dropped {
            let kept = drop_member(s.drop_first(), dropped);
            assert((seq![s[0]] + kept).drop_first() =~= kept);
        }
    }
}

proof fn shown_fields_stay(
    members: Seq<(Seq<char>, JsonModel)>,
    hidden: Seq<Seq<char>>,
    n: int,
    name: Seq<char>,
)
    requires
        0 <= n <= hidden.len(),
        !hidden.contains(name),
    ensures
        find_member(without_fields(members, hidden, n), name) == find_member(members, name),
    decreases n,
{
    if n > 0 {
        shown_fields_stay(members, hidden, n - 1, name);
        assert(hidden[n - 1] != name) by {
            assert(hidden.contains(hidden[n - 1]));
        }
        another_member_stays(without_fields(members, hidden, n - 1), hidden[n - 1], name);
    }
}

/// Every field that is not kept out of queries stands in the row with its value.
pub proof fn other_fields_are_projected(
    e: ReplayedEntity,
    hidden: Option<Seq<Seq<char>>>,
    name: Seq<char>,
)
    requires
        hidden is Some ==> !hidden->0.contains(name),
    ensures
        member(row_of(e, hidden).fields, name) == member(e.fields@, name),
{
    if e.fields@ is Object && hidden is Some {
        shown_fields_stay(e.fields@->Object_0, hidden->0, hidden->0.len() as int, name);
    }
}

/// A row is of its entity: its status and its sequence are the entity's. Its
/// state is the entity's without the events, and its fields are the entity's,
/// none of them with another value.
pub proof fn a_row_is_of_its_entity(
    entity: &ReplayedEntity,
    unindexed: &Option<Vec<String>>,
    r: ProjectionRow,
    name: Seq<char>,
)
    requires
        call_ensures(projection_row, (entity, unindexed), r),
    ensures
        r@.status == entity.status@,
        r@.sequence_nr == entity.sequence_nr,
        unindexed is None || !(entity.fields@ is Object) ==> r@.fields == entity.fields@,
        entity.encoded is Err ==> r@.state == JsonModel::Object(Seq::empty()),
        entity.encoded is Ok && !(entity.encoded->Ok_0@ is Object) ==> r@.state
            == entity.encoded->Ok_0@,
        entity.encoded is Ok && entity.encoded->Ok_0@ is Object ==> r@.state is Object
            && crate::json::member(r@.state, name) == if name == "events"@ {
            Some(JsonModel::Array(Seq::empty()))
        } else {
            crate::json::member(entity.encoded->Ok_0@, name)
        },
{
    if entity.encoded is Ok && entity.encoded->Ok_0@ is Object {
        crate::json::put_then_find(
            entity.encoded->Ok_0@->Object_0,
            "events"@,
            JsonModel::Array(Seq::empty()),
            name,
        );
    }
}

/// A variable is left out of the rows exactly if it is declared not to be
/// indexed.
pub proof fn only_variables_that_say_so_are_hidden(
    vars: &Vec<(String, Option<bool>)>,
    r: Vec<String>,
    name: Seq<char>,
)
    requires
        call_ensures(unindexed_variables, (vars,), r),
    ensures
        texts(r@).contains(name) <==> exists|i: int|
            0 <= i < vars@.len() && (#[trigger] vars@[i]).0@ == name && vars@[i].1 == Some(false),
{
    let pred = |v: (String, Option<bool>)| v.1 == Some(false);
    let kept = vars@.filter(pred);
    let named = |v: (String, Option<bool>)| v.0@;
    assert(texts(r@) == kept.map_values(named));
    if texts(r@).contains(name) {
        let k = texts(r@).index_of(name);
        let v = kept[k];
        assert(kept.contains(v));
        crate::text::filter_keeps_exactly(vars@, pred, v);
        let i = vars@.index_of(v);
        assert(vars@[i].0@ == name);
    }
    if exists|i: int|
        0 <= i < vars@.len() && (#[trigger] vars@[i]).0@ == name && vars@[i].1 == Some(false) {
        let i = choose|i: int|
            0 <= i < vars@.len() && (#[trigger] vars@[i]).0@ == name && vars@[i].1 == Some(false);
        assert(vars@.contains(vars@[i]));
        crate::text::filter_keeps_exactly(vars@, pred, vars@[i]);
        let k = kept.index_of(vars@[i]);
        assert(kept.map_values(named)[k] == name);
    }
}

} // verus!
