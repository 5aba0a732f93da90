//! Evidence for references: which entities must exist for a write to be valid.

use vstd::prelude::*;
use vstd::string::*;

use crate::json::member;
use crate::json::Json;
use crate::json::JsonModel;
use crate::ordered::OrdMap;
use crate::ordered::OrdSet;
use crate::ordered::Pair;
use crate::ordered::SortKey;
use crate::text::opt_as_str;
use crate::text::opt_text;
use crate::text::same_opt;

verus! {

/// A declared reference: the names under which its value may stand, and the type
/// that it refers to.
#[derive(Clone, Debug, PartialEq, Eq)]
pub struct DeclaredReference {
    pub name: String,
    pub snake_name: String,
    pub pascal_name: String,
    pub target_type: String,
}

/// A variable or a parameter as it is declared: its names, its kind, and the type
/// that it refers to where it is a reference.
#[derive(Clone, Debug, PartialEq, Eq)]
pub struct DeclaredVariable {
    pub name: String,
    pub snake_name: String,
    pub pascal_name: String,
    pub kind: Option<String>,
    pub target_type: Option<String>,
}

/// What a declared reference holds: its three names and its target's type.
pub open spec fn reference_names(d: DeclaredReference) -> (
    Seq<char>,
    Seq<char>,
    Seq<char>,
    Seq<char>,
) {
    (d.name@, d.snake_name@, d.pascal_name@, d.target_type@)
}

/// The references among the first `n` declarations: those of the kind `ref` that
/// name a target.
pub open spec fn references_among(declared: Seq<DeclaredVariable>, n: int) -> Seq<
    (Seq<char>, Seq<char>, Seq<char>, Seq<char>),
>
    decreases n,
{
    if n <= 0 {
        Seq::empty()
    } else {
        let d = declared[n - 1];
        if opt_text(d.kind) == Some("ref"@) && d.target_type is Some {
            references_among(declared, n - 1).push(
                (d.name@, d.snake_name@, d.pascal_name@, d.target_type->0@),
            )
        } else {
            references_among(declared, n - 1)
        }
    }
}

/// The references among declarations.
pub fn declared_references(declared: &Vec<DeclaredVariable>) -> (r: Vec<DeclaredReference>)
    ensures
        r@.map_values(|d: DeclaredReference| reference_names(d)) == references_among(
            declared@,
            declared@.len() as int,
        ),
{
    let ghost names = |d: DeclaredReference| reference_names(d);
    let mut out: Vec<DeclaredReference> = Vec::new();
    let mut i: usize = 0;
    proof {
        assert(out@.map_values(names) =~= references_among(declared@, 0));
    }
    while i < declared.len()
        invariant
            i <= declared.len(),
            names == (|d: DeclaredReference| reference_names(d)),
            out@.map_values(names) == references_among(declared@, i as int),
        decreases declared.len() - i,
    {
        let d = &declared[i];
        let is_reference = same_opt(opt_as_str(&d.kind), Some("ref"));
        if is_reference {
            match &d.target_type {
                Some(target) => {
                    let ghost before = out@.map_values(names);
                    out.push(
                        DeclaredReference {
                            name: d.name.clone(),
                            snake_name: d.snake_name.clone(),
                            pascal_name: d.pascal_name.clone(),
                            target_type: target.clone(),
                        },
                    );
                    proof {
                        assert(out@.map_values(names) =~= before.push(
                            (d.name@, d.snake_name@, d.pascal_name@, target@),
                        ));
                    }
                },
                None => {},
            }
        }
        i = i + 1;
    }
    out
}

/// The value of a reference in `fields`, under the first of its names that is
/// there.
pub open spec fn named_value(fields: JsonModel, d: DeclaredReference) -> Option<JsonModel> {
    match member(fields, d.name@) {
        Some(v) => Some(v),
        None => match member(fields, d.snake_name@) {
            Some(v) => Some(v),
            None => member(fields, d.pascal_name@),
        },
    }
}

/// The value of a reference in `fields`.
pub fn reference_field<'a>(fields: &'a Json, d: &DeclaredReference) -> (r: Option<&'a Json>)
    ensures
        crate::json::opt_model(r) == named_value(fields@, *d),
{
    match fields.get(d.name.as_str()) {
        Some(v) => Some(v),
        None => match fields.get(d.snake_name.as_str()) {
            Some(v) => Some(v),
            None => fields.get(d.pascal_name.as_str()),
        },
    }
}

/// The entity that a value names, if it names one.
pub open spec fn named_entity(value: Option<JsonModel>) -> Option<Seq<char>> {
    match value {
        Some(JsonModel::Text(s)) => if s.len() > 0 {
            Some(s)
        } else {
            None
        },
        _ => None,
    }
}

/// The entity that a state reference names after a write: by the value that the
/// write brings, else by the one that is stored.
pub open spec fn state_target(
    incoming: JsonModel,
    current: JsonModel,
    d: DeclaredReference,
) -> Option<Seq<char>> {
    match named_value(incoming, d) {
        Some(v) => named_entity(Some(v)),
        None => named_entity(named_value(current, d)),
    }
}

/// Whether a write refers to an entity: through a state reference as it will be,
/// or through a parameter of its action.
pub open spec fn refers_to(
    incoming: JsonModel,
    current: JsonModel,
    state_refs: Seq<DeclaredReference>,
    action_refs: Seq<DeclaredReference>,
    target: (Seq<char>, Seq<char>),
) -> bool {
    ||| exists|i: int|
        0 <= i < state_refs.len() && (#[trigger] state_refs[i]).target_type@ == target.0
            && state_target(incoming, current, state_refs[i]) == Some(target.1)
    ||| exists|i: int|
        0 <= i < action_refs.len() && (#[trigger] action_refs[i]).target_type@ == target.0
            && named_entity(named_value(incoming, action_refs[i])) == Some(target.1)
}

/// Whether a type's references make it necessary to read the stored entity.
pub fn needs_current_state(
    state_refs: &Vec<DeclaredReference>,
    action_refs: &Vec<DeclaredReference>,
) -> (r: bool)
    ensures
        r == (state_refs@.len() > 0 || action_refs@.len() > 0),
{
    state_refs.len() > 0 || action_refs.len() > 0
}

fn entity_named_by(value: Option<&Json>) -> (r: Option<String>)
    ensures
        opt_text(r) == named_entity(crate::json::opt_model(value)),
{
    match value {
        Some(Json::Text(s)) => if s.as_str().is_empty() {
            None
        } else {
            Some(s.clone())
        },
        _ => None,
    }
}

/// The entities that a write refers to, each once and in order.
pub fn resolve_reference_targets(
    incoming: &Json,
    current: &Json,
    state_refs: &Vec<DeclaredReference>,
    action_refs: &Vec<DeclaredReference>,
) -> (r: OrdSet<Pair>)
    ensures
        r.wf(),
        forall|t: (Seq<char>, Seq<char>)| #[trigger]
            r@.contains(t) == refers_to(
                incoming@,
                current@,
                state_refs@,
                action_refs@,
                t,
            ),
{
    let mut targets: OrdSet<Pair> = OrdSet::new();
    let mut i: usize = 0;
    while i < state_refs.len()
        invariant
            i <= state_refs.len(),
            targets.wf(),
            forall|t: (Seq<char>, Seq<char>)| #[trigger]
                targets@.contains(t) == exists|k: int|
                    0 <= k < i && (#[trigger] state_refs@[k]).target_type@ == t.0 && state_target(
                        incoming@,
                        current@,
                        state_refs@[k],
                    ) == Some(t.1),
        decreases state_refs.len() - i,
    {
        let ghost before = targets@;
        let d = &state_refs[i];
        let value = match reference_field(incoming, d) {
            Some(v) => Some(v),
            None => reference_field(current, d),
        };
        let ghost mut added: Option<(Seq<char>, Seq<char>)> = None;
        match entity_named_by(value) {
            Some(id) => {
                proof {
                    added = Some((d.target_type@, id@));
                }
                let _fresh = targets.insert(
                    Pair { first: d.target_type.clone(), second: id },
                );
            },
            None => {},
        }
        proof {
            assert forall|t: (Seq<char>, Seq<char>)| #[trigger]
                targets@.contains(t) == exists|k: int|
                    0 <= k < i + 1 && (#[trigger] state_refs@[k]).target_type@ == t.0
                        && state_target(incoming@, current@, state_refs@[k]) == Some(t.1) by {
                if targets@.contains(t) && !before.contains(t) {
                    assert(state_refs@[i as int].target_type@ == t.0);
                }
                if added is Some && t == added->0 {
                    assert(targets@.contains(t));
                }
            }
        }
        i = i + 1;
    }
    let ghost by_state = targets@;
    let mut j: usize = 0;
    while j < action_refs.len()
        invariant
            j <= action_refs.len(),
            targets.wf(),
            forall|t: (Seq<char>, Seq<char>)| #[trigger]
                by_state.contains(t) == exists|k: int|
                    0 <= k < state_refs@.len() && (#[trigger] state_refs@[k]).target_type@ == t.0
                        && state_target(incoming@, current@, state_refs@[k]) == Some(t.1),
            forall|t: (Seq<char>, Seq<char>)| #[trigger]
                targets@.contains(t) == (by_state.contains(t) || exists|k: int|
                    0 <= k < j && (#[trigger] action_refs@[k]).target_type@ == t.0
                        && named_entity(named_value(incoming@, action_refs@[k])) == Some(t.1)),
        decreases action_refs.len() - j,
    {
        let ghost before = targets@;
        let d = &action_refs[j];
        let ghost mut added: Option<(Seq<char>, Seq<char>)> = None;
        match entity_named_by(reference_field(incoming, d)) {
            Some(id) => {
                proof {
                    added = Some((d.target_type@, id@));
                }
                let _fresh = targets.insert(
                    Pair { first: d.target_type.clone(), second: id },
                );
            },
            None => {},
        }
        proof {
            assert forall|t: (Seq<char>, Seq<char>)| #[trigger] targets@.contains(t) == (
            by_state.contains(t) || exists|k: int|
                0 <= k < j + 1 && (#[trigger] action_refs@[k]).target_type@ == t.0
                    && named_entity(named_value(incoming@, action_refs@[k])) == Some(t.1)) by {
                if targets@.contains(t) && !before.contains(t) {
                    assert(action_refs@[j as int].target_type@ == t.0);
                }
                if added is Some && t == added->0 {
                    assert(targets@.contains(t));
                }
            }
        }
        j = j + 1;
    }
    targets
}

/// The evidence for a write: of each entity that it refers to, whether it was
/// found. `found` is in the order of the targets.
pub fn reference_evidence(targets: &OrdSet<Pair>, found: &Vec<bool>) -> (r: OrdMap<Pair, bool>)
    requires
        targets.wf(),
        found@.len() == targets.list().len(),
    ensures
        r.wf(),
        r@.dom() == targets@,
        forall|i: int|
            0 <= i < found@.len() ==> r@[#[trigger] targets.list()[i]] == found@[i],
{
    let ghost list = targets.list();
    let mut evidence: OrdMap<Pair, bool> = OrdMap::new();
    let mut i: usize = 0;
    while i < targets.items.len()
        invariant
            i <= targets.items.len(),
            targets.wf(),
            list == targets.list(),
            list.len() == targets.items.len(),
            found@.len() == list.len(),
            evidence.wf(),
            forall|x: (Seq<char>, Seq<char>)| #[trigger]
                evidence@.contains_key(x) == exists|k: int| 0 <= k < i && #[trigger] list[k] == x,
            forall|k: int| 0 <= k < i ==> evidence@[#[trigger] list[k]] == found@[k],
        decreases targets.items.len() - i,
    {
        let ghost before = evidence@;
        let ghost key = list[i as int];
        proof {
            assert(list[i as int] == targets.items@[i as int]@);
            assert forall|k: int| 0 <= k < i implies #[trigger] list[k] != key by {
                Pair::before_is_irreflexive(key);
            }
        }
        evidence.insert(targets.items[i].duplicate(), found[i]);
        i = i + 1;
    }
    proof {
        assert(evidence@.dom() =~= targets@) by {
            assert forall|x: (Seq<char>, Seq<char>)| evidence@.contains_key(x)
                == targets@.contains(x) by {
                if targets@.contains(x) {
                    assert(list.contains(x));
                    let k = choose|k: int| 0 <= k < list.len() && list[k] == x;
                    assert(list[k] == x);
                }
            }
        }
    }
    evidence
}

/// Facts by name with the first `n` of a list on top of them: a later fact of a
/// name stands for an earlier one.
pub open spec fn facts_on(
    base: Map<Seq<char>, bool>,
    facts: Seq<(String, bool)>,
    n: int,
) -> Map<Seq<char>, bool>
    decreases n,
{
    if n <= 0 {
        base
    } else {
        facts_on(base, facts, n - 1).insert(facts[n - 1].0@, facts[n - 1].1)
    }
}

/// Adds facts to those that are known.
pub fn add_facts(known: &mut OrdMap<String, bool>, facts: &Vec<(String, bool)>)
    requires
        old(known).wf(),
    ensures
        final(known).wf(),
        final(known)@ == facts_on(old(known)@, facts@, facts@.len() as int),
{
    let mut i: usize = 0;
    while i < facts.len()
        invariant
            i <= facts.len(),
            known.wf(),
            known@ == facts_on(old(known)@, facts@, i as int),
        decreases facts.len() - i,
    {
        known.insert(facts[i].0.clone(), facts[i].1);
        i = i + 1;
    }
}

/// What the guards of an action are told: the states of other entities that its
/// guards name, and on top of them the evidence on its references.
pub fn action_evidence(guards: &Vec<(String, bool)>, references: &Vec<(String, bool)>) -> (r:
    OrdMap<String, bool>)
    ensures
        r.wf(),
        r@ == facts_on(
            facts_on(Map::empty(), guards@, guards@.len() as int),
            references@,
            references@.len() as int,
        ),
{
    let mut known: OrdMap<String, bool> = OrdMap::new();
    add_facts(&mut known, guards);
    add_facts(&mut known, references);
    known
}

/// What is known under a name is what the last fact of that name says, else what
/// was known before.
pub proof fn a_fact_is_the_last_one_of_its_name(
    base: Map<Seq<char>, bool>,
    facts: Seq<(String, bool)>,
    n: int,
    name: Seq<char>,
)
    requires
        0 <= n <= facts.len(),
    ensures
        ({
            let known = facts_on(base, facts, n);
            &&& (forall|i: int| 0 <= i < n ==> (#[trigger] facts[i]).0@ != name)
                ==> known.contains_key(name) == base.contains_key(name) && (base.contains_key(name)
                ==> known[name] == base[name])
            &&& (exists|i: int| 0 <= i < n && (#[trigger] facts[i]).0@ == name) ==> exists|i: int|
                {
                    &&& 0 <= i < n
                    &&& (#[trigger] facts[i]).0@ == name
                    &&& known.contains_key(name)
                    &&& known[name] == facts[i].1
                    &&& forall|j: int| i < j < n ==> (#[trigger] facts[j]).0@ != name
                }
        }),
    decreases n,
{
    if n > 0 {
        a_fact_is_the_last_one_of_its_name(base, facts, n - 1, name);
        if facts[n - 1].0@ == name {
            assert(facts_on(base, facts, n)[name] == facts[n - 1].1);
        } else if exists|i: int| 0 <= i < n && (#[trigger] facts[i]).0@ == name {
            let i0 = choose|i: int| 0 <= i < n && (#[trigger] facts[i]).0@ == name;
            assert(i0 < n - 1);
            let before = facts_on(base, facts, n - 1);
            let i = choose|i: int|
                {
                    &&& 0 <= i < n - 1
                    &&& (#[trigger] facts[i]).0@ == name
                    &&& before.contains_key(name)
                    &&& before[name] == facts[i].1
                    &&& forall|j: int| i < j < n - 1 ==> (#[trigger] facts[j]).0@ != name
                };
            assert(facts[i].0@ == name);
        }
    }
}

/// A declared variable is a reference exactly if it says so and names the type
/// that it refers to.
pub proof fn every_declared_reference_is_known(
    declared: Seq<DeclaredVariable>,
    n: int,
    x: (Seq<char>, Seq<char>, Seq<char>, Seq<char>),
)
    requires
        0 <= n <= declared.len(),
    ensures
        references_among(declared, n).contains(x) <==> exists|i: int|
            {
                let d = #[trigger] declared[i];
                &&& 0 <= i < n
                &&& d.kind is Some && d.kind->0@ == "ref"@
                &&& d.target_type is Some && d.target_type->0@ == x.3
                &&& d.name@ == x.0
                &&& d.snake_name@ == x.1
                &&& d.pascal_name@ == x.2
            },
    decreases n,
{
    if n > 0 {
        every_declared_reference_is_known(declared, n - 1, x);
        let before = references_among(declared, n - 1);
        let after = references_among(declared, n);
        let d = declared[n - 1];
        if opt_text(d.kind) == Some("ref"@) && d.target_type is Some {
            let last = (d.name@, d.snake_name@, d.pascal_name@, d.target_type->0@);
            assert(after == before.push(last));
            assert(after[before.len() as int] == last);
            if before.contains(x) {
                assert(after[before.index_of(x)] == x);
            }
            if after.contains(x) && !before.contains(x) {
                let k = after.index_of(x);
                if k < before.len() {
                    assert(before[k] == x);
                }
                assert(x == last);
                assert(declared[n - 1].name@ == x.0);
            }
        }
        if exists|i: int|
            {
                let d = #[trigger] declared[i];
                &&& 0 <= i < n
                &&& d.kind is Some && d.kind->0@ == "ref"@
                &&& d.target_type is Some && d.target_type->0@ == x.3
                &&& d.name@ == x.0
                &&& d.snake_name@ == x.1
                &&& d.pascal_name@ == x.2
            } {
            let i = choose|i: int|
                {
                    let d = #[trigger] declared[i];
                    &&& 0 <= i < n
                    &&& d.kind is Some && d.kind->0@ == "ref"@
                    &&& d.target_type is Some && d.target_type->0@ == x.3
                    &&& d.name@ == x.0
                    &&& d.snake_name@ == x.1
                    &&& d.pascal_name@ == x.2
                };
            assert(i < n - 1 || i == n - 1);
        }
    }
}

/// A reference is read under its own name first, then under the name in snake
/// case, and last under that in Pascal case.
pub proof fn a_reference_is_read_under_its_own_name(
    fields: &Json,
    d: &DeclaredReference,
    r: Option<&Json>,
)
    requires
        call_ensures(reference_field, (fields, d), r),
    ensures
        member(fields@, d.name@) is Some ==> r is Some && r->0@ == member(fields@, d.name@)->0,
        member(fields@, d.name@) is None && member(fields@, d.snake_name@) is Some ==> r is Some
            && r->0@ == member(fields@, d.snake_name@)->0,
        member(fields@, d.name@) is None && member(fields@, d.snake_name@) is None && member(
            fields@,
            d.pascal_name@,
        ) is Some ==> r is Some && r->0@ == member(fields@, d.pascal_name@)->0,
        member(fields@, d.name@) is None && member(fields@, d.snake_name@) is None && member(
            fields@,
            d.pascal_name@,
        ) is None ==> r is None,
{
}

/// What a write says of a state reference counts before what the entity holds,
/// also where the write clears it. Only a text that is not empty names an
/// entity.
pub proof fn a_write_speaks_before_the_state(
    incoming: &Json,
    current: &Json,
    state_refs: &Vec<DeclaredReference>,
    action_refs: &Vec<DeclaredReference>,
    r: OrdSet<Pair>,
    at: int,
    id: Seq<char>,
)
    requires
        call_ensures(
            resolve_reference_targets,
            (incoming, current, state_refs, action_refs),
            r,
        ),
        0 <= at < state_refs@.len(),
        id.len() > 0,
    ensures
        member(incoming@, state_refs@[at].name@) == Some(JsonModel::Text(id)) ==> r@.contains(
            (state_refs@[at].target_type@, id),
        ),
        named_value(incoming@, state_refs@[at]) is None && member(
            current@,
            state_refs@[at].name@,
        ) == Some(JsonModel::Text(id)) ==> r@.contains((state_refs@[at].target_type@, id)),
{
    let t = (state_refs@[at].target_type@, id);
    assert(state_refs@[at].target_type@ == t.0);
    assert(r@.contains(t) == refers_to(incoming@, current@, state_refs@, action_refs@, t));
}

/// What an action refers to by its parameters is a target, whatever the entity
/// holds.
pub proof fn what_an_action_names_is_a_target(
    incoming: &Json,
    current: &Json,
    state_refs: &Vec<DeclaredReference>,
    action_refs: &Vec<DeclaredReference>,
    r: OrdSet<Pair>,
    at: int,
    id: Seq<char>,
)
    requires
        call_ensures(
            resolve_reference_targets,
            (incoming, current, state_refs, action_refs),
            r,
        ),
        0 <= at < action_refs@.len(),
        id.len() > 0,
        member(incoming@, action_refs@[at].name@) == Some(JsonModel::Text(id)),
    ensures
        r@.contains((action_refs@[at].target_type@, id)),
{
    let t = (action_refs@[at].target_type@, id);
    assert(action_refs@[at].target_type@ == t.0);
    assert(r@.contains(t) == refers_to(incoming@, current@, state_refs@, action_refs@, t));
}

/// Nothing is a target that no reference names: one of its type holds its
/// identifier, in the write or, where the write does not speak of it, in the
/// entity.
pub proof fn every_target_is_referred_to(
    incoming: &Json,
    current: &Json,
    state_refs: &Vec<DeclaredReference>,
    action_refs: &Vec<DeclaredReference>,
    r: OrdSet<Pair>,
    t: (Seq<char>, Seq<char>),
)
    requires
        call_ensures(
            resolve_reference_targets,
            (incoming, current, state_refs, action_refs),
            r,
        ),
        r@.contains(t),
    ensures
        t.1.len() > 0,
        (exists|i: int|
            0 <= i < action_refs@.len() && (#[trigger] action_refs@[i]).target_type@ == t.0
                && named_value(incoming@, action_refs@[i]) == Some(JsonModel::Text(t.1))) || (exists|
            i: int,
        |
            0 <= i < state_refs@.len() && (#[trigger] state_refs@[i]).target_type@ == t.0 && (
            named_value(incoming@, state_refs@[i]) == Some(JsonModel::Text(t.1)) || (named_value(
                incoming@,
                state_refs@[i],
            ) is None && named_value(current@, state_refs@[i]) == Some(JsonModel::Text(t.1))))),
{
    assert(r@.contains(t) == refers_to(incoming@, current@, state_refs@, action_refs@, t));
}

/// The state of an entity is read where any reference is to be resolved.
pub proof fn references_need_the_state(
    state_refs: &Vec<DeclaredReference>,
    action_refs: &Vec<DeclaredReference>,
    r: bool,
)
    requires
        call_ensures(needs_current_state, (state_refs, action_refs), r),
    ensures
        !r <==> state_refs@.len() == 0 && action_refs@.len() == 0,
{
}

} // verus!
