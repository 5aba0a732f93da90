//! Reference contracts: what a create must satisfy, and the audit of existing
//! entities before a new contract is activated.

use vstd::prelude::*;
use vstd::string::*;

use crate::json::bool_value;
use crate::json::member;
use crate::json::model_of_parts;
use crate::json::put_member;
use crate::json::put_then_find;
use crate::json::same_json;
use crate::json::same_json_is_reflexive;
use crate::json::Json;
use crate::json::JsonModel;
use crate::ordered::OrdSet;
use crate::text::decimal;
use crate::text::decimal_of;
use crate::text::opt_text;
use crate::text::opt_str;
use crate::text::same;
use crate::text::views;

verus! {

/// A declared state variable.
#[derive(Clone, Debug, PartialEq, Eq)]
pub struct StateVariable {
    pub name: String,
    /// The name in the form in which aliases of it agree.
    pub canonical: String,
    pub var_type: Option<String>,
    pub entity_type: Option<String>,
}

/// Whether a variable refers to an entity.
pub open spec fn is_reference(v: StateVariable) -> bool {
    opt_text(v.var_type) == Some("ref"@)
}

/// Whether a variable refers to an entity.
pub fn is_reference_variable(v: &StateVariable) -> (r: bool)
    ensures
        r == is_reference(*v),
{
    match &v.var_type {
        Some(t) => same(t.as_str(), "ref"),
        None => false,
    }
}

/// Whether a type has a reference contract: a reference among its variables, or
/// a key that is the entity's identifier.
pub open spec fn contracted(variables: Seq<StateVariable>, entity_id_keys: Seq<bool>) -> bool {
    ||| exists|i: int| 0 <= i < variables.len() && is_reference(#[trigger] variables[i])
    ||| exists|i: int| 0 <= i < entity_id_keys.len() && #[trigger] entity_id_keys[i]
}

/// Whether a type has a reference contract. `entity_id_keys` tells of each
/// declared key whether it is the entity's identifier.
pub fn is_contracted(variables: &Vec<StateVariable>, entity_id_keys: &Vec<bool>) -> (r: bool)
    ensures
        r == contracted(variables@, entity_id_keys@),
{
    let mut i: usize = 0;
    while i < variables.len()
        invariant
            i <= variables.len(),
            forall|k: int| 0 <= k < i ==> !is_reference(#[trigger] variables@[k]),
        decreases variables.len() - i,
    {
        if is_reference_variable(&variables[i]) {
            return true;
        }
        i = i + 1;
    }
    let mut j: usize = 0;
    while j < entity_id_keys.len()
        invariant
            j <= entity_id_keys.len(),
            forall|k: int| 0 <= k < variables.len() ==> !is_reference(#[trigger] variables@[k]),
            forall|k: int| 0 <= k < j ==> !(#[trigger] entity_id_keys@[k]),
        decreases entity_id_keys.len() - j,
    {
        if entity_id_keys[j] {
            return true;
        }
        j = j + 1;
    }
    false
}

/// Whether a type is configured for the Postgres actor runtime, by its name or
/// by its tenant and its name.
pub fn is_configured(types: &OrdSet<String>, tenant: &str, entity_type: &str) -> (r: bool)
    requires
        types.wf(),
    ensures
        r == (types@.contains(entity_type@) || types@.contains(tenant@ + ":"@ + entity_type@)),
{
    if types.contains(&entity_type.to_owned()) {
        return true;
    }
    let mut scoped = tenant.to_owned();
    scoped.append(":");
    scoped.append(entity_type);
    types.contains(&scoped)
}

/// Whether data calls of a type go to the Postgres actor runtime: the type is
/// configured for it and has no reference contract. `has_contract` says whether
/// its transition table has one.
pub fn is_pg_actor_backed(
    types: &OrdSet<String>,
    tenant: &str,
    entity_type: &str,
    has_contract: bool,
) -> (r: bool)
    requires
        types.wf(),
    ensures
        r == ((types@.contains(entity_type@) || types@.contains(
            tenant@ + ":"@ + entity_type@,
        )) && !has_contract),
{
    is_configured(types, tenant, entity_type) && !has_contract
}

/// Fields with their names in canonical form, in the order of their own names.
pub type CanonicalFields = Vec<(String, Json)>;

/// What canonical fields hold.
pub open spec fn fields_model(f: Seq<(String, Json)>) -> Seq<(Seq<char>, JsonModel)> {
    Seq::new(f.len(), |i: int| (f[i].0@, f[i].1@))
}

/// The values of the fields called `canonical`.
pub open spec fn aliases(f: Seq<(Seq<char>, JsonModel)>, canonical: Seq<char>) -> Seq<
    (Seq<char>, JsonModel),
> {
    f.filter(|p: (Seq<char>, JsonModel)| p.0 == canonical)
}

/// Whether all values equal the first one.
pub open spec fn all_agree(found: Seq<(Seq<char>, JsonModel)>) -> bool {
    forall|i: int| 0 <= i < found.len() ==> same_json((#[trigger] found[i]).1, found[0].1)
}

proof fn one_more_agrees(found: Seq<(Seq<char>, JsonModel)>, x: (Seq<char>, JsonModel))
    ensures
        found.len() == 0 ==> all_agree(found.push(x)) && found.push(x)[0] == x,
        found.len() > 0 ==> found.push(x)[0] == found[0] && all_agree(found.push(x)) == (all_agree(
            found,
        ) && same_json(x.1, found[0].1)),
{
    let next = found.push(x);
    same_json_is_reflexive(x.1);
    if found.len() > 0 {
        if all_agree(next) {
            assert forall|i: int| 0 <= i < found.len() implies same_json(
                (#[trigger] found[i]).1,
                found[0].1,
            ) by {
                assert(next[i] == found[i]);
            }
            assert(next[found.len() as int] == x);
        }
        if all_agree(found) && same_json(x.1, found[0].1) {
            assert forall|i: int| 0 <= i < next.len() implies same_json(
                (#[trigger] next[i]).1,
                next[0].1,
            ) by {
                if i < found.len() {
                    assert(next[i] == found[i]);
                }
            }
        }
    }
}

/// The value of the field called `canonical`: none where no alias of it is set,
/// and an error where two of them differ.
pub open spec fn reference_value(f: Seq<(Seq<char>, JsonModel)>, canonical: Seq<char>) -> Result<
    Option<JsonModel>,
    (),
> {
    let all = aliases(f, canonical);
    if all.len() == 0 {
        Ok(None)
    } else if !all_agree(all) {
        Err(())
    } else {
        Ok(Some(all[0].1))
    }
}

/// The value of the field called `canonical`.
pub fn reference_field<'a>(fields: &'a CanonicalFields, canonical: &str) -> (r: Result<
    Option<&'a Json>,
    (),
>)
    ensures
        match r {
            Ok(v) => reference_value(fields_model(fields@), canonical@) == Ok::<
                Option<JsonModel>,
                (),
            >(crate::json::opt_model(v)),
            Err(_) => reference_value(fields_model(fields@), canonical@) is Err,
        },
{
    let ghost all = fields_model(fields@);
    let ghost pred = |p: (Seq<char>, JsonModel)| p.0 == canonical@;
    let mut first: Option<usize> = None;
    let mut agree = true;
    let mut i: usize = 0;
    proof {
        assert(all.take(0).filter(pred) =~= Seq::<(Seq<char>, JsonModel)>::empty());
    }
    while i < fields.len()
        invariant
            i <= fields.len(),
            all == fields_model(fields@),
            pred == (|p: (Seq<char>, JsonModel)| p.0 == canonical@),
            ({
                let found = all.take(i as int).filter(pred);
                match first {
                    None => found.len() == 0 && agree,
                    Some(k) => k < fields.len() && found.len() > 0 && found[0].1
                        == fields@[k as int].1@ && agree == all_agree(found),
                }
            }),
        decreases fields.len() - i,
    {
        let ghost found = all.take(i as int).filter(pred);
        proof {
            assert(all.take(i + 1).drop_last() =~= all.take(i as int));
            assert(all.take(i + 1).last() == all[i as int]);
            reveal(Seq::filter);
        }
        if same(fields[i].0.as_str(), canonical) {
            proof {
                one_more_agrees(found, all[i as int]);
                assert(all.take(i + 1).filter(pred) == found.push(all[i as int]));
            }
            match first {
                None => {
                    first = Some(i);
                },
                Some(k) => {
                    if !fields[i].1.equals(&fields[k].1) {
                        agree = false;
                    }
                },
            }
        }
        i = i + 1;
    }
    proof {
        assert(all.take(all.len() as int) =~= all);
    }
    match first {
        None => Ok(None),
        Some(k) => if agree {
            Ok(Some(&fields[k].1))
        } else {
            Err(())
        },
    }
}

/// A historical event as far as the references that it writes are concerned:
/// the fields that it carries, whether it is an update of fields, and whether
/// such an update replaces the fields that it does not name.
#[derive(Debug, PartialEq, Eq)]
pub struct ReferenceEvent {
    pub field_update: bool,
    pub replace: bool,
    pub fields: CanonicalFields,
}

/// The fields that an event carries: those in its parameter `fields` where it is
/// an update of fields, else its parameters themselves. What is no object has
/// none.
pub open spec fn carried(field_update: bool, params: JsonModel) -> Seq<(Seq<char>, JsonModel)> {
    let fields = if field_update {
        member(params, "fields"@)
    } else {
        Some(params)
    };
    match fields {
        Some(JsonModel::Object(members)) => members,
        _ => Seq::empty(),
    }
}

/// The names of the fields that an event carries, in their order.
pub fn carried_names(field_update: bool, params: &Json) -> (r: Vec<String>)
    ensures
        r@.len() == carried(field_update, params@).len(),
        forall|i: int|
            0 <= i < r@.len() ==> (#[trigger] r@[i])@ == carried(field_update, params@)[i].0,
{
    let fields = if field_update {
        params.get("fields")
    } else {
        Some(params)
    };
    let mut names: Vec<String> = Vec::new();
    match fields {
        Some(object) => {
            proof {
                model_of_parts(*object);
            }
            match object {
                Json::Object(members) => {
                    let mut i: usize = 0;
                    while i < members.len()
                        invariant
                            i <= members.len(),
                            names.len() == i,
                            forall|k: int| 0 <= k < i ==> (#[trigger] names@[k])@ == members@[k].0@,
                        decreases members.len() - i,
                    {
                        names.push(members[i].0.clone());
                        i = i + 1;
                    }
                },
                _ => {},
            }
        },
        None => {},
    }
    names
}

/// Reads an event for the references that it writes. `canonical` gives the
/// canonical form of the name of each field that it carries, in their order. An
/// update of fields replaces where its parameter `replace` is true.
pub fn reference_event(field_update: bool, params: &Json, canonical: &Vec<String>) -> (r:
    ReferenceEvent)
    requires
        canonical@.len() == carried(field_update, params@).len(),
    ensures
        r.field_update == field_update,
        r.replace == (bool_value(member(params@, "replace"@)) == Some(true)),
        fields_model(r.fields@) == Seq::new(
            canonical@.len(),
            |i: int| (canonical@[i]@, carried(field_update, params@)[i].1),
        ),
{
    let ghost expected = Seq::new(
        canonical@.len(),
        |i: int| (canonical@[i]@, carried(field_update, params@)[i].1),
    );
    let replace = match params.get_bool("replace") {
        Some(b) => b,
        None => false,
    };
    let carrier = if field_update {
        params.get("fields")
    } else {
        Some(params)
    };
    let mut fields: CanonicalFields = Vec::new();
    match carrier {
        Some(object) => {
            proof {
                model_of_parts(*object);
            }
            match object {
                Json::Object(members) => {
                    let mut i: usize = 0;
                    while i < members.len()
                        invariant
                            i <= members.len(),
                            members@.len() == canonical@.len(),
                            fields.len() == i,
                            forall|k: int|
                                0 <= k < i ==> (#[trigger] fields@[k]).0@ == canonical@[k]@
                                    && fields@[k].1@ == members@[k].1@,
                        decreases members.len() - i,
                    {
                        fields.push((canonical[i].clone(), members[i].1.copy()));
                        i = i + 1;
                    }
                },
                _ => {},
            }
        },
        None => {},
    }
    proof {
        assert(fields_model(fields@) =~= expected);
    }
    ReferenceEvent { field_update, replace, fields }
}

/// What an event does to a reference.
#[derive(Clone, Debug, PartialEq, Eq)]
pub enum HistoricalAssignment {
    NoWrite,
    Clear,
    Assigned(String),
    Invalid,
}

/// What a [`HistoricalAssignment`] holds.
pub enum AssignmentModel {
    NoWrite,
    Clear,
    Assigned(Seq<char>),
    Invalid,
}

impl View for HistoricalAssignment {
    type V = AssignmentModel;

    open spec fn view(&self) -> AssignmentModel {
        match self {
            Self::NoWrite => AssignmentModel::NoWrite,
            Self::Clear => AssignmentModel::Clear,
            Self::Assigned(s) => AssignmentModel::Assigned(s@),
            Self::Invalid => AssignmentModel::Invalid,
        }
    }
}

/// What an event does to the reference called `canonical`: a text sets it, an
/// empty text or null clears it, and so does a replacement that does not name
/// it; any other value is invalid, as are aliases that differ.
pub open spec fn assignment(e: ReferenceEvent, canonical: Seq<char>) -> AssignmentModel {
    match reference_value(fields_model(e.fields@), canonical) {
        Err(_) => AssignmentModel::Invalid,
        Ok(Some(JsonModel::Text(s))) => if s.len() > 0 {
            AssignmentModel::Assigned(s)
        } else {
            AssignmentModel::Clear
        },
        Ok(Some(JsonModel::Null)) => AssignmentModel::Clear,
        Ok(Some(_)) => AssignmentModel::Invalid,
        Ok(None) => if e.field_update && e.replace {
            AssignmentModel::Clear
        } else {
            AssignmentModel::NoWrite
        },
    }
}

/// What an event does to the reference called `canonical`.
pub fn reference_assignment(event: &ReferenceEvent, canonical: &str) -> (r: HistoricalAssignment)
    ensures
        r@ == assignment(*event, canonical@),
{
    match reference_field(&event.fields, canonical) {
        Err(_) => HistoricalAssignment::Invalid,
        Ok(Some(value)) => match value {
            Json::Text(s) => if s.as_str().is_empty() {
                HistoricalAssignment::Clear
            } else {
                HistoricalAssignment::Assigned(s.clone())
            },
            Json::Null => HistoricalAssignment::Clear,
            _ => HistoricalAssignment::Invalid,
        },
        Ok(None) => if event.field_update && event.replace {
            HistoricalAssignment::Clear
        } else {
            HistoricalAssignment::NoWrite
        },
    }
}

/// The value of a reference after the first `n` events, or how its history
/// breaks the contract that a reference keeps its first value.
pub open spec fn history(events: Seq<ReferenceEvent>, canonical: Seq<char>, n: int) -> Result<
    Option<Seq<char>>,
    Seq<char>,
>
    decreases n,
{
    if n <= 0 {
        Ok(None)
    } else {
        match history(events, canonical, n - 1) {
            Err(e) => Err(e),
            Ok(observed) => match assignment(events[n - 1], canonical) {
                AssignmentModel::NoWrite => Ok(observed),
                AssignmentModel::Assigned(value) => if observed is Some && observed->0 != value {
                    Err("historical_rebind"@)
                } else {
                    Ok(Some(value))
                },
                AssignmentModel::Clear => if observed is Some {
                    Err("historical_clear"@)
                } else {
                    Ok(None)
                },
                AssignmentModel::Invalid => Err("historical_invalid_value"@),
            },
        }
    }
}

proof fn history_error_stays(
    events: Seq<ReferenceEvent>,
    canonical: Seq<char>,
    n: int,
    m: int,
)
    requires
        0 <= n <= m,
        history(events, canonical, n) is Err,
    ensures
        history(events, canonical, m) == history(events, canonical, n),
    decreases m - n,
{
    if n < m {
        history_error_stays(events, canonical, n, m - 1);
    }
}

/// Replays what the events did to a reference: its value at the end, or the
/// class of the first event that breaks its history.
pub fn audit_reference_history(events: &Vec<ReferenceEvent>, canonical: &str) -> (r: Result<
    Option<String>,
    &'static str,
>)
    ensures
        match r {
            Ok(v) => history(events@, canonical@, events@.len() as int) == Ok::<
                Option<Seq<char>>,
                Seq<char>,
            >(opt_text(v)),
            Err(e) => history(events@, canonical@, events@.len() as int) == Err::<
                Option<Seq<char>>,
                Seq<char>,
            >(e@),
        },
{
    let mut observed: Option<String> = None;
    let mut i: usize = 0;
    while i < events.len()
        invariant
            i <= events.len(),
            history(events@, canonical@, i as int) == Ok::<Option<Seq<char>>, Seq<char>>(
                opt_text(observed),
            ),
        decreases events.len() - i,
    {
        match reference_assignment(&events[i], canonical) {
            HistoricalAssignment::NoWrite => {},
            HistoricalAssignment::Assigned(value) => {
                let rebound = match &observed {
                    Some(prior) => *prior != value,
                    None => false,
                };
                if rebound {
                    proof {
                        history_error_stays(events@, canonical@, i + 1, events@.len() as int);
                    }
                    return Err("historical_rebind");
                }
                observed = Some(value);
            },
            HistoricalAssignment::Clear => {
                if observed.is_some() {
                    proof {
                        history_error_stays(events@, canonical@, i + 1, events@.len() as int);
                    }
                    return Err("historical_clear");
                }
            },
            HistoricalAssignment::Invalid => {
                proof {
                    history_error_stays(events@, canonical@, i + 1, events@.len() as int);
                }
                return Err("historical_invalid_value");
            },
        }
        i = i + 1;
    }
    Ok(observed)
}

/// In a history that passes the audit, every event that sets the reference sets
/// the same value, and none takes that value away.
pub proof fn an_audited_reference_never_changes(
    events: Seq<ReferenceEvent>,
    canonical: Seq<char>,
    n: int,
    i: int,
)
    requires
        0 <= i < n <= events.len(),
        history(events, canonical, n) is Ok,
        assignment(events[i], canonical) is Assigned,
    ensures
        history(events, canonical, n)->Ok_0 == Some(assignment(events[i], canonical)->Assigned_0),
    decreases n,
{
    if i < n - 1 {
        an_audited_reference_never_changes(events, canonical, n - 1, i);
    }
}

/// Whether no event of a history assigns the reference.
pub open spec fn never_assigned(events: Seq<ReferenceEvent>, canonical: Seq<char>, n: int) -> bool {
    forall|i: int| 0 <= i < n ==> !(assignment(#[trigger] events[i], canonical) is Assigned)
}

/// In a history that passes the audit no event writes an invalid value, and none
/// that follows an assignment clears the reference or assigns another value.
pub proof fn an_audited_reference_is_never_cleared(
    events: Seq<ReferenceEvent>,
    canonical: Seq<char>,
    n: int,
    i: int,
    j: int,
)
    requires
        0 <= i < n <= events.len(),
        0 <= j < n,
        history(events, canonical, n) is Ok,
    ensures
        !(assignment(events[i], canonical) is Invalid),
        i < j && assignment(events[i], canonical) is Assigned ==> !(assignment(
            events[j],
            canonical,
        ) is Clear),
        assignment(events[i], canonical) is Assigned && assignment(events[j], canonical)
            is Assigned ==> assignment(events[i], canonical) == assignment(events[j], canonical),
    decreases n,
{
    if i < n - 1 && j < n - 1 {
        an_audited_reference_is_never_cleared(events, canonical, n - 1, i, j);
    } else {
        if i < n - 1 {
            an_audited_reference_is_never_cleared(events, canonical, n - 1, i, i);
            if assignment(events[i], canonical) is Assigned {
                an_audited_reference_never_changes(events, canonical, n - 1, i);
            }
        }
        if j < n - 1 && assignment(events[j], canonical) is Assigned {
            an_audited_reference_never_changes(events, canonical, n - 1, j);
        }
    }
}

/// A history without an invalid value, in which every assignment is of one value
/// and nothing is cleared once it was assigned, passes the audit: with that value
/// where an event assigns it, and without one where none does.
pub proof fn a_kept_reference_passes_the_audit(
    events: Seq<ReferenceEvent>,
    canonical: Seq<char>,
    n: int,
)
    requires
        0 <= n <= events.len(),
        forall|i: int| 0 <= i < n ==> !(assignment(#[trigger] events[i], canonical) is Invalid),
        forall|i: int, j: int|
            0 <= i < j < n && assignment(#[trigger] events[i], canonical) is Assigned ==> !(
            assignment(#[trigger] events[j], canonical) is Clear) && (assignment(
                events[j],
                canonical,
            ) is Assigned ==> assignment(events[j], canonical) == assignment(
                events[i],
                canonical,
            )),
    ensures
        history(events, canonical, n) is Ok,
        history(events, canonical, n)->Ok_0 is None == never_assigned(events, canonical, n),
        history(events, canonical, n)->Ok_0 is Some ==> exists|i: int|
            0 <= i < n && assignment(#[trigger] events[i], canonical)
                == AssignmentModel::Assigned(history(events, canonical, n)->Ok_0->0),
    decreases n,
{
    if n > 0 {
        a_kept_reference_passes_the_audit(events, canonical, n - 1);
        let before = history(events, canonical, n - 1)->Ok_0;
        if before is Some {
            let i = choose|i: int|
                0 <= i < n - 1 && assignment(#[trigger] events[i], canonical)
                    == AssignmentModel::Assigned(before->0);
            assert(assignment(events[i], canonical) is Assigned);
            assert(!(assignment(events[n - 1], canonical) is Clear));
            assert(!never_assigned(events, canonical, n));
        }
        if assignment(events[n - 1], canonical) is Assigned {
            assert(!never_assigned(events, canonical, n));
        } else {
            assert(never_assigned(events, canonical, n) == never_assigned(
                events,
                canonical,
                n - 1,
            ));
        }
    }
}

/// The first event that breaks a history decides how it is refused: an
/// assignment of another value is a rebind, a clearing a clear, and any other
/// value is invalid.
pub proof fn the_first_break_names_the_failure(
    events: Seq<ReferenceEvent>,
    canonical: Seq<char>,
    at: int,
    n: int,
)
    requires
        0 <= at < n <= events.len(),
        history(events, canonical, at) is Ok,
        history(events, canonical, at + 1) is Err,
    ensures
        ({
            let failure = history(events, canonical, n);
            let broke = assignment(events[at], canonical);
            &&& failure is Err
            &&& broke is Assigned || broke is Clear || broke is Invalid
            &&& broke is Assigned ==> failure->Err_0 == "historical_rebind"@
            &&& broke is Clear ==> failure->Err_0 == "historical_clear"@
            &&& broke is Invalid ==> failure->Err_0 == "historical_invalid_value"@
            &&& !(broke is Invalid) ==> !never_assigned(events, canonical, at)
        }),
{
    history_error_stays(events, canonical, at + 1, n);
    if !(assignment(events[at], canonical) is Invalid) {
        a_reference_has_only_assigned_values(events, canonical, at);
    }
}

proof fn a_reference_has_only_assigned_values(
    events: Seq<ReferenceEvent>,
    canonical: Seq<char>,
    n: int,
)
    requires
        0 <= n <= events.len(),
        history(events, canonical, n) is Ok,
        history(events, canonical, n)->Ok_0 is Some,
    ensures
        !never_assigned(events, canonical, n),
    decreases n,
{
    if n > 0 {
        if assignment(events[n - 1], canonical) is Assigned {
            assert(0 <= n - 1 < n);
        } else {
            a_reference_has_only_assigned_values(events, canonical, n - 1);
            let i = choose|i: int|
                0 <= i < n - 1 && assignment(#[trigger] events[i], canonical) is Assigned;
            assert(assignment(events[i], canonical) is Assigned);
        }
    }
}

/// The text of a failed audit.
pub open spec fn audit_failure(
    entity_type: Seq<char>,
    entity_id: Seq<char>,
    name: Seq<char>,
    class: Seq<char>,
) -> Seq<char> {
    "ReferenceContractActivationAuditFailed:entity="@ + entity_type + ":id="@ + entity_id
        + ":field="@ + name + ":"@ + class
}

/// The text of a failed audit.
pub fn audit_failure_of(entity_type: &str, entity_id: &str, name: &str, class: &str) -> (r: String)
    ensures
        r@ == audit_failure(entity_type@, entity_id@, name@, class@),
{
    let mut text = "ReferenceContractActivationAuditFailed:entity=".to_owned();
    text.append(entity_type);
    text.append(":id=");
    text.append(entity_id);
    text.append(":field=");
    text.append(name);
    text.append(":");
    text.append(class);
    text
}

/// Why the current fields of an entity do not bear the first `n` variables out.
pub open spec fn alias_failure(
    entity_type: Seq<char>,
    entity_id: Seq<char>,
    variables: Seq<StateVariable>,
    fields: Seq<(Seq<char>, JsonModel)>,
    n: int,
) -> Option<Seq<char>>
    decreases n,
{
    if n <= 0 {
        None
    } else {
        match alias_failure(entity_type, entity_id, variables, fields, n - 1) {
            Some(e) => Some(e),
            None => if is_reference(variables[n - 1]) && reference_value(
                fields,
                variables[n - 1].canonical@,
            ) is Err {
                Some(
                    audit_failure(
                        entity_type,
                        entity_id,
                        variables[n - 1].name@,
                        "conflicting_alias_values"@,
                    ),
                )
            } else {
                None
            },
        }
    }
}

/// The entities that the first `n` variables refer to: type and identifier.
pub open spec fn targets(
    variables: Seq<StateVariable>,
    fields: Seq<(Seq<char>, JsonModel)>,
    n: int,
) -> Seq<(Seq<char>, Seq<char>)>
    decreases n,
{
    if n <= 0 {
        Seq::empty()
    } else {
        let done = targets(variables, fields, n - 1);
        let v = variables[n - 1];
        match reference_value(fields, v.canonical@) {
            Ok(Some(JsonModel::Text(id))) => if is_reference(v) && id.len() > 0 {
                done.push(
                    (
                        match v.entity_type {
                            Some(t) => t@,
                            None => Seq::empty(),
                        },
                        id,
                    ),
                )
            } else {
                done
            },
            _ => done,
        }
    }
}

proof fn alias_failure_stays(
    entity_type: Seq<char>,
    entity_id: Seq<char>,
    variables: Seq<StateVariable>,
    fields: Seq<(Seq<char>, JsonModel)>,
    n: int,
    m: int,
)
    requires
        0 <= n <= m,
        alias_failure(entity_type, entity_id, variables, fields, n) is Some,
    ensures
        alias_failure(entity_type, entity_id, variables, fields, m) == alias_failure(
            entity_type,
            entity_id,
            variables,
            fields,
            n,
        ),
    decreases m - n,
{
    if n < m {
        alias_failure_stays(entity_type, entity_id, variables, fields, n, m - 1);
    }
}

/// The entities that an audited entity refers to, each of which must exist.
pub fn reference_targets(
    entity_type: &str,
    entity_id: &str,
    variables: &Vec<StateVariable>,
    fields: &CanonicalFields,
) -> (r: Result<Vec<crate::ordered::Pair>, String>)
    ensures
        ({
            let n = variables@.len() as int;
            let f = fields_model(fields@);
            match r {
                Ok(v) => alias_failure(entity_type@, entity_id@, variables@, f, n) is None
                    && views(v@) == targets(variables@, f, n),
                Err(e) => alias_failure(entity_type@, entity_id@, variables@, f, n) == Some(e@),
            }
        }),
{
    let ghost f = fields_model(fields@);
    let mut out: Vec<crate::ordered::Pair> = Vec::new();
    let mut i: usize = 0;
    proof {
        assert(views(out@) =~= Seq::<(Seq<char>, Seq<char>)>::empty());
    }
    while i < variables.len()
        invariant
            i <= variables.len(),
            f == fields_model(fields@),
            alias_failure(entity_type@, entity_id@, variables@, f, i as int) is None,
            views(out@) == targets(variables@, f, i as int),
        decreases variables.len() - i,
    {
        let v = &variables[i];
        if is_reference_variable(v) {
            match reference_field(fields, v.canonical.as_str()) {
                Err(_) => {
                    proof {
                        alias_failure_stays(
                            entity_type@,
                            entity_id@,
                            variables@,
                            f,
                            i + 1,
                            variables@.len() as int,
                        );
                    }
                    return Err(
                        audit_failure_of(
                            entity_type,
                            entity_id,
                            v.name.as_str(),
                            "conflicting_alias_values",
                        ),
                    );
                },
                Ok(Some(Json::Text(id))) => {
                    if !id.as_str().is_empty() {
                        let ghost before = views(out@);
                        let target_type = match &v.entity_type {
                            Some(t) => t.clone(),
                            None => String::new(),
                        };
                        let pair = crate::ordered::Pair { first: target_type, second: id.clone() };
                        let ghost shown = pair@;
                        out.push(pair);
                        proof {
                            assert(views(out@) =~= before.push(shown));
                        }
                    }
                },
                _ => {},
            }
        }
        i = i + 1;
    }
    Ok(out)
}

/// How the history of the first `n` variables breaks the contract.
pub open spec fn history_failure(
    entity_type: Seq<char>,
    entity_id: Seq<char>,
    variables: Seq<StateVariable>,
    events: Seq<ReferenceEvent>,
    n: int,
) -> Option<Seq<char>>
    decreases n,
{
    if n <= 0 {
        None
    } else {
        match history_failure(entity_type, entity_id, variables, events, n - 1) {
            Some(e) => Some(e),
            None => {
                let v = variables[n - 1];
                match history(events, v.canonical@, events.len() as int) {
                    Err(class) => if is_reference(v) {
                        Some(audit_failure(entity_type, entity_id, v.name@, class))
                    } else {
                        None
                    },
                    Ok(_) => None,
                }
            },
        }
    }
}

proof fn history_failure_stays(
    entity_type: Seq<char>,
    entity_id: Seq<char>,
    variables: Seq<StateVariable>,
    events: Seq<ReferenceEvent>,
    n: int,
    m: int,
)
    requires
        0 <= n <= m,
        history_failure(entity_type, entity_id, variables, events, n) is Some,
    ensures
        history_failure(entity_type, entity_id, variables, events, m) == history_failure(
            entity_type,
            entity_id,
            variables,
            events,
            n,
        ),
    decreases m - n,
{
    if n < m {
        history_failure_stays(entity_type, entity_id, variables, events, n, m - 1);
    }
}

/// Audits the history of every reference of an entity.
pub fn audit_reference_variables(
    entity_type: &str,
    entity_id: &str,
    variables: &Vec<StateVariable>,
    events: &Vec<ReferenceEvent>,
) -> (r: Result<(), String>)
    ensures
        ({
            let failure = history_failure(
                entity_type@,
                entity_id@,
                variables@,
                events@,
                variables@.len() as int,
            );
            match r {
                Ok(_) => failure is None,
                Err(e) => failure == Some(e@),
            }
        }),
{
    let mut i: usize = 0;
    while i < variables.len()
        invariant
            i <= variables.len(),
            history_failure(entity_type@, entity_id@, variables@, events@, i as int) is None,
        decreases variables.len() - i,
    {
        let v = &variables[i];
        if is_reference_variable(v) {
            match audit_reference_history(events, v.canonical.as_str()) {
                Ok(_) => {},
                Err(class) => {
                    proof {
                        history_failure_stays(
                            entity_type@,
                            entity_id@,
                            variables@,
                            events@,
                            i + 1,
                            variables@.len() as int,
                        );
                    }
                    return Err(
                        audit_failure_of(entity_type, entity_id, v.name.as_str(), class),
                    );
                },
            }
        }
        i = i + 1;
    }
    Ok(())
}

/// The text of an audit that its budget did not cover.
pub open spec fn incomplete(entity_type: Seq<char>, budget: usize) -> Seq<char> {
    "ReferenceContractActivationAuditIncomplete:entity="@ + entity_type + ":budget="@ + decimal(
        budget as nat,
    )
}

/// The text of an audit that its budget did not cover.
pub fn incomplete_audit(entity_type: &str, entity_budget: usize) -> (r: String)
    ensures
        r@ == incomplete(entity_type@, entity_budget),
{
    let mut text = "ReferenceContractActivationAuditIncomplete:entity=".to_owned();
    text.append(entity_type);
    text.append(":budget=");
    text.append(decimal_of(entity_budget as u64).as_str());
    text
}

/// How many entities an activation has audited, of how many at most.
#[derive(Clone, Copy, Debug, PartialEq, Eq, Structural)]
pub struct AuditBudget {
    pub audited: usize,
    pub entity_budget: usize,
}

impl AuditBudget {
    /// How many entities may still be listed.
    pub fn remaining(&self) -> (r: usize)
        ensures
            r == if self.audited < self.entity_budget {
                (self.entity_budget - self.audited) as usize
            } else {
                0
            },
    {
        self.entity_budget.saturating_sub(self.audited)
    }

    /// Counts one more entity, or ends the audit where the budget does not
    /// cover it.
    pub fn take(&mut self, entity_type: &str) -> (r: Result<(), String>)
        ensures
            final(self).entity_budget == old(self).entity_budget,
            match r {
                Ok(_) => old(self).audited < old(self).entity_budget && final(self).audited
                    == old(self).audited + 1 && final(self).audited <= final(self).entity_budget,
                Err(e) => old(self).audited >= old(self).entity_budget && e@ == incomplete(
                    entity_type@,
                    old(self).entity_budget,
                ) && *final(self) == *old(self),
            },
    {
        if self.audited >= self.entity_budget {
            return Err(incomplete_audit(entity_type, self.entity_budget));
        }
        self.audited = self.audited + 1;
        Ok(())
    }
}

/// The fields that a create is validated with: those of the request, with the
/// entity's identifier and its initial status.
pub open spec fn prospective(
    fields: Seq<(Seq<char>, JsonModel)>,
    entity_id: Seq<char>,
    initial_state: Seq<char>,
) -> Seq<(Seq<char>, JsonModel)> {
    put_member(
        put_member(fields, "Id"@, JsonModel::Text(entity_id)),
        "Status"@,
        JsonModel::Text(initial_state),
    )
}

/// The fields that a create is validated with. A create whose body is not an
/// object is refused.
pub fn prospective_fields(initial: &Json, entity_id: &str, initial_state: &str) -> (r: Result<
    Json,
    String,
>)
    ensures
        match r {
            Ok(j) => initial@ is Object && j@ == JsonModel::Object(
                prospective(initial@->Object_0, entity_id@, initial_state@),
            ),
            Err(e) => !(initial@ is Object) && e@
                == "InvalidReferenceValue:create body must be an object"@,
        },
{
    if !initial.is_object() {
        return Err("InvalidReferenceValue:create body must be an object".to_owned());
    }
    let mut fields = initial.copy();
    fields.put("Id", Json::Text(entity_id.to_owned()));
    fields.put("Status", Json::Text(initial_state.to_owned()));
    Ok(fields)
}

/// The history of an entity, as an audit read it.
#[derive(Debug, PartialEq, Eq)]
pub enum HistoryRead {
    /// The journal could not be read.
    Unreadable(String),
    /// An event does not decode.
    Undecodable(String),
    Read(Vec<ReferenceEvent>),
}

/// Why the audit of an entity is not complete.
pub open spec fn incomplete_entity(
    entity_type: Seq<char>,
    entity_id: Seq<char>,
    step: Seq<char>,
    error: Seq<char>,
) -> Seq<char> {
    "ReferenceContractActivationAuditIncomplete:entity="@ + entity_type + ":id="@ + entity_id
        + step + error
}

fn incomplete_entity_of(entity_type: &str, entity_id: &str, step: &str, error: &str) -> (r: String)
    ensures
        r@ == incomplete_entity(entity_type@, entity_id@, step@, error@),
{
    let mut text = "ReferenceContractActivationAuditIncomplete:entity=".to_owned();
    text.append(entity_type);
    text.append(":id=");
    text.append(entity_id);
    text.append(step);
    text.append(error);
    text
}

/// Why an entity does not pass the audit: its history cannot be told, its
/// references have two values, its state is not valid, or its history sets a
/// reference anew.
pub open spec fn entity_audit_failure(
    entity_type: Seq<char>,
    entity_id: Seq<char>,
    variables: Seq<StateVariable>,
    fields: Seq<(Seq<char>, JsonModel)>,
    history: HistoryRead,
    validation: Result<(), String>,
) -> Option<Seq<char>> {
    let n = variables.len() as int;
    match history {
        HistoryRead::Unreadable(e) => Some(
            incomplete_entity(entity_type, entity_id, ":journal="@, e@),
        ),
        HistoryRead::Undecodable(e) => Some(
            incomplete_entity(entity_type, entity_id, ":event_decode="@, e@),
        ),
        HistoryRead::Read(events) => if alias_failure(
            entity_type,
            entity_id,
            variables,
            fields,
            n,
        ) is Some {
            alias_failure(entity_type, entity_id, variables, fields, n)
        } else if validation is Err {
            Some(validation->Err_0@)
        } else {
            history_failure(entity_type, entity_id, variables, events@, n)
        },
    }
}

/// Audits one entity. `validation` is what the contract says of its state, with
/// the evidence for its references.
pub fn audit_reference_entity(
    entity_type: &str,
    entity_id: &str,
    variables: &Vec<StateVariable>,
    fields: &CanonicalFields,
    history: &HistoryRead,
    validation: &Result<(), String>,
) -> (r: Result<(), String>)
    ensures
        ({
            let failure = entity_audit_failure(
                entity_type@,
                entity_id@,
                variables@,
                fields_model(fields@),
                *history,
                *validation,
            );
            match r {
                Ok(_) => failure is None,
                Err(e) => failure == Some(e@),
            }
        }),
{
    let events = match history {
        HistoryRead::Unreadable(e) => return Err(
            incomplete_entity_of(entity_type, entity_id, ":journal=", e.as_str()),
        ),
        HistoryRead::Undecodable(e) => return Err(
            incomplete_entity_of(entity_type, entity_id, ":event_decode=", e.as_str()),
        ),
        HistoryRead::Read(events) => events,
    };
    match reference_targets(entity_type, entity_id, variables, fields) {
        Ok(_) => {},
        Err(e) => return Err(e),
    }
    match validation {
        Ok(_) => {},
        Err(e) => return Err(e.clone()),
    }
    audit_reference_variables(entity_type, entity_id, variables, events)
}

/// What a create is given as its identifier, or why it is refused. Without a
/// transition table it keeps the one that was supplied; one that has none that
/// can be derived gets none.
pub open spec fn prepared_create(
    has_table: bool,
    supplied: Option<Seq<char>>,
    initial: JsonModel,
    derived: Result<Option<String>, String>,
    validation: Result<(), String>,
) -> Result<Option<Seq<char>>, Seq<char>> {
    if !has_table {
        Ok(supplied)
    } else if !(initial is Object) {
        Err("InvalidReferenceValue:create body must be an object"@)
    } else {
        match derived {
            Err(e) => Err(e@),
            Ok(None) => Ok(None),
            Ok(Some(id)) => match validation {
                Ok(_) => Ok(Some(id@)),
                Err(e) => Err(e@),
            },
        }
    }
}

/// Prepares a create. `derived` is the identifier that the contract derives or
/// validates; `validation` is what it says of the entity as it will be.
pub fn prepare_reference_contract_create(
    has_table: bool,
    supplied_id: Option<&str>,
    initial_fields: &Json,
    derived: &Result<Option<String>, String>,
    validation: &Result<(), String>,
) -> (r: Result<Option<String>, String>)
    ensures
        ({
            let expected = prepared_create(
                has_table,
                opt_str(supplied_id),
                initial_fields@,
                *derived,
                *validation,
            );
            match r {
                Ok(id) => expected == Ok::<Option<Seq<char>>, Seq<char>>(opt_text(id)),
                Err(e) => expected == Err::<Option<Seq<char>>, Seq<char>>(e@),
            }
        }),
{
    if !has_table {
        return match supplied_id {
            Some(id) => Ok(Some(id.to_owned())),
            None => Ok(None),
        };
    }
    if !initial_fields.is_object() {
        return Err("InvalidReferenceValue:create body must be an object".to_owned());
    }
    match derived {
        Err(e) => Err(e.clone()),
        Ok(None) => Ok(None),
        Ok(Some(id)) => match validation {
            Ok(_) => Ok(Some(id.clone())),
            Err(e) => Err(e.clone()),
        },
    }
}

proof fn aliases_are_found(f: Seq<(Seq<char>, JsonModel)>, canonical: Seq<char>, first: int, j: int)
    requires
        0 <= first <= j < f.len(),
        f[first].0 == canonical,
        f[j].0 == canonical,
        forall|i: int| 0 <= i < first ==> (#[trigger] f[i]).0 != canonical,
    ensures
        aliases(f, canonical).len() > 0,
        aliases(f, canonical)[0] == f[first],
        aliases(f, canonical).contains(f[j]),
    decreases f.len(),
{
    reveal(Seq::filter);
    let pred = |p: (Seq<char>, JsonModel)| p.0 == canonical;
    let rest = f.drop_last();
    if first < rest.len() {
        if j < rest.len() {
            aliases_are_found(rest, canonical, first, j);
        } else {
            aliases_are_found(rest, canonical, first, first);
        }
        let found = aliases(rest, canonical);
        let all = aliases(f, canonical);
        if f.last().0 == canonical {
            assert(all == found.push(f.last()));
            assert(all[0] == found[0]);
            if j < rest.len() {
                let k = choose|k: int| 0 <= k < found.len() && found[k] == f[j];
                assert(all[k] == f[j]);
            } else {
                assert(all[found.len() as int] == f[j]);
            }
        }
    } else {
        unaliased(rest, canonical);
        assert(aliases(f, canonical) =~= seq![f[first]]);
        assert(aliases(f, canonical)[0] == f[j]);
    }
}

proof fn unaliased(f: Seq<(Seq<char>, JsonModel)>, canonical: Seq<char>)
    requires
        forall|i: int| 0 <= i < f.len() ==> (#[trigger] f[i]).0 != canonical,
    ensures
        aliases(f, canonical).len() == 0,
    decreases f.len(),
{
    reveal(Seq::filter);
    if f.len() > 0 {
        assert forall|i: int| 0 <= i < f.drop_last().len() implies (
        #[trigger] f.drop_last()[i]).0 != canonical by {
            assert(f.drop_last()[i] == f[i]);
        }
        unaliased(f.drop_last(), canonical);
    }
}

proof fn one_alias_is_alone(f: Seq<(Seq<char>, JsonModel)>, canonical: Seq<char>, k: int)
    requires
        0 <= k < f.len(),
        f[k].0 == canonical,
        forall|i: int| 0 <= i < f.len() && i != k ==> (#[trigger] f[i]).0 != canonical,
    ensures
        aliases(f, canonical) == seq![f[k]],
    decreases f.len(),
{
    reveal(Seq::filter);
    let rest = f.drop_last();
    assert forall|i: int| 0 <= i < rest.len() && i != k implies (#[trigger] rest[i]).0
        != canonical by {
        assert(rest[i] == f[i]);
    }
    if k == f.len() - 1 {
        unaliased(rest, canonical);
        assert(aliases(f, canonical) =~= seq![f[k]]);
    } else {
        one_alias_is_alone(rest, canonical, k);
    }
}

/// What an event carries under the one name of a reference decides what it does
/// to the reference: a text assigns it, an empty text or null clears it, and
/// anything else is invalid.
pub proof fn one_field_decides_an_assignment(e: ReferenceEvent, canonical: Seq<char>, k: int)
    requires
        0 <= k < e.fields@.len(),
        e.fields@[k].0@ == canonical,
        forall|i: int|
            0 <= i < e.fields@.len() && i != k ==> (#[trigger] e.fields@[i]).0@ != canonical,
    ensures
        ({
            let done = assignment(e, canonical);
            match e.fields@[k].1@ {
                JsonModel::Text(s) => if s.len() > 0 {
                    done == AssignmentModel::Assigned(s)
                } else {
                    done is Clear
                },
                JsonModel::Null => done is Clear,
                _ => done is Invalid,
            }
        }),
{
    let f = fields_model(e.fields@);
    assert forall|i: int| 0 <= i < f.len() && i != k implies (#[trigger] f[i]).0 != canonical by {
        assert(e.fields@[i].0@ != canonical);
    }
    one_alias_is_alone(f, canonical, k);
    same_json_is_reflexive(f[k].1);
}

/// An event that does not carry a reference leaves it alone, but for an update
/// of fields that replaces them all, which clears it.
pub proof fn an_absent_field_is_cleared_by_a_replacement(e: ReferenceEvent, canonical: Seq<char>)
    requires
        forall|i: int| 0 <= i < e.fields@.len() ==> (#[trigger] e.fields@[i]).0@ != canonical,
    ensures
        e.field_update && e.replace ==> assignment(e, canonical) is Clear,
        !(e.field_update && e.replace) ==> assignment(e, canonical) is NoWrite,
{
    let f = fields_model(e.fields@);
    assert forall|i: int| 0 <= i < f.len() implies (#[trigger] f[i]).0 != canonical by {
        assert(e.fields@[i].0@ != canonical);
    }
    unaliased(f, canonical);
}

/// Two names of one reference that carry different values are invalid, in an
/// event and in the state of an entity.
pub proof fn conflicting_names_are_refused(
    f: Seq<(Seq<char>, JsonModel)>,
    canonical: Seq<char>,
    first: int,
    j: int,
)
    requires
        0 <= first < j < f.len(),
        f[first].0 == canonical,
        f[j].0 == canonical,
        forall|i: int| 0 <= i < first ==> (#[trigger] f[i]).0 != canonical,
        !same_json(f[j].1, f[first].1),
    ensures
        reference_value(f, canonical) is Err,
        forall|e: ReferenceEvent| #[trigger]
            fields_model(e.fields@) == f ==> assignment(e, canonical) is Invalid,
{
    aliases_are_found(f, canonical, first, j);
    let all = aliases(f, canonical);
    let k = choose|k: int| 0 <= k < all.len() && all[k] == f[j];
    assert(!same_json(all[k].1, all[0].1));
}

/// An entity that passes the audit: its history was read, its state is valid,
/// and of every variable that is a reference the names agree and the history is
/// kept.
pub proof fn an_audited_entity_keeps_every_reference(
    entity_type: Seq<char>,
    entity_id: Seq<char>,
    variables: Seq<StateVariable>,
    fields: Seq<(Seq<char>, JsonModel)>,
    read: HistoryRead,
    validation: Result<(), String>,
    k: int,
)
    requires
        entity_audit_failure(entity_type, entity_id, variables, fields, read, validation) is None,
        0 <= k < variables.len(),
        opt_text(variables[k].var_type) == Some("ref"@),
    ensures
        read is Read,
        validation is Ok,
        reference_value(fields, variables[k].canonical@) is Ok,
        history(
            read->Read_0@,
            variables[k].canonical@,
            read->Read_0@.len() as int,
        ) is Ok,
{
    let n = variables.len() as int;
    no_alias_failure_of_any(entity_type, entity_id, variables, fields, n, k);
    no_history_failure_of_any(entity_type, entity_id, variables, read->Read_0@, n, k);
}

proof fn no_alias_failure_of_any(
    entity_type: Seq<char>,
    entity_id: Seq<char>,
    variables: Seq<StateVariable>,
    fields: Seq<(Seq<char>, JsonModel)>,
    n: int,
    k: int,
)
    requires
        0 <= k < n <= variables.len(),
        alias_failure(entity_type, entity_id, variables, fields, n) is None,
        opt_text(variables[k].var_type) == Some("ref"@),
    ensures
        reference_value(fields, variables[k].canonical@) is Ok,
    decreases n,
{
    if k < n - 1 {
        no_alias_failure_of_any(entity_type, entity_id, variables, fields, n - 1, k);
    }
}

proof fn no_history_failure_of_any(
    entity_type: Seq<char>,
    entity_id: Seq<char>,
    variables: Seq<StateVariable>,
    events: Seq<ReferenceEvent>,
    n: int,
    k: int,
)
    requires
        0 <= k < n <= variables.len(),
        history_failure(entity_type, entity_id, variables, events, n) is None,
        opt_text(variables[k].var_type) == Some("ref"@),
    ensures
        history(events, variables[k].canonical@, events.len() as int) is Ok,
    decreases n,
{
    if k < n - 1 {
        no_history_failure_of_any(entity_type, entity_id, variables, events, n - 1, k);
    }
}

/// The audit refuses no entity without a reason: one whose history was read,
/// whose state is valid, and whose references agree and are kept, passes.
pub proof fn an_entity_that_keeps_its_references_passes(
    entity_type: Seq<char>,
    entity_id: Seq<char>,
    variables: Seq<StateVariable>,
    fields: Seq<(Seq<char>, JsonModel)>,
    events: Vec<ReferenceEvent>,
)
    requires
        forall|k: int|
            0 <= k < variables.len() && opt_text((#[trigger] variables[k]).var_type) == Some(
                "ref"@,
            ) ==> reference_value(fields, variables[k].canonical@) is Ok && history(
                events@,
                variables[k].canonical@,
                events@.len() as int,
            ) is Ok,
    ensures
        entity_audit_failure(
            entity_type,
            entity_id,
            variables,
            fields,
            HistoryRead::Read(events),
            Ok::<(), String>(()),
        ) is None,
{
    no_failure_without_a_reason(
        entity_type,
        entity_id,
        variables,
        fields,
        events@,
        variables.len() as int,
    );
}

proof fn no_failure_without_a_reason(
    entity_type: Seq<char>,
    entity_id: Seq<char>,
    variables: Seq<StateVariable>,
    fields: Seq<(Seq<char>, JsonModel)>,
    events: Seq<ReferenceEvent>,
    n: int,
)
    requires
        0 <= n <= variables.len(),
        forall|k: int|
            0 <= k < variables.len() && opt_text((#[trigger] variables[k]).var_type) == Some(
                "ref"@,
            ) ==> reference_value(fields, variables[k].canonical@) is Ok && history(
                events,
                variables[k].canonical@,
                events.len() as int,
            ) is Ok,
    ensures
        alias_failure(entity_type, entity_id, variables, fields, n) is None,
        history_failure(entity_type, entity_id, variables, events, n) is None,
    decreases n,
{
    if n > 0 {
        no_failure_without_a_reason(
            entity_type,
            entity_id,
            variables,
            fields,
            events,
            n - 1,
        );
        assert(variables[n - 1] == variables[n - 1]);
    }
}

/// Exactly the entities that the references of an entity name are looked up: one
/// for each variable that is a reference and holds a text.
pub proof fn every_named_entity_is_a_target(
    variables: Seq<StateVariable>,
    fields: Seq<(Seq<char>, JsonModel)>,
    n: int,
    k: int,
    id: Seq<char>,
)
    requires
        0 <= k < n <= variables.len(),
        opt_text(variables[k].var_type) == Some("ref"@),
        reference_value(fields, variables[k].canonical@) == Ok::<Option<JsonModel>, ()>(
            Some(JsonModel::Text(id)),
        ),
        id.len() > 0,
    ensures
        targets(variables, fields, n).contains(
            (
                match variables[k].entity_type {
                    Some(t) => t@,
                    None => Seq::empty(),
                },
                id,
            ),
        ),
    decreases n,
{
    let before = targets(variables, fields, n - 1);
    let all = targets(variables, fields, n);
    let t = (
        match variables[k].entity_type {
            Some(t) => t@,
            None => Seq::empty(),
        },
        id,
    );
    if k < n - 1 {
        every_named_entity_is_a_target(variables, fields, n - 1, k, id);
        let i = choose|i: int| 0 <= i < before.len() && before[i] == t;
        assert(all[i] == t);
    } else {
        assert(all[before.len() as int] == t);
    }
}

/// Nothing else is looked up.
pub proof fn every_target_is_named(
    variables: Seq<StateVariable>,
    fields: Seq<(Seq<char>, JsonModel)>,
    n: int,
    i: int,
)
    requires
        0 <= n <= variables.len(),
        0 <= i < targets(variables, fields, n).len(),
    ensures
        exists|k: int|
            {
                &&& 0 <= k < n
                &&& opt_text((#[trigger] variables[k]).var_type) == Some("ref"@)
                &&& targets(variables, fields, n)[i].1.len() > 0
                &&& reference_value(fields, variables[k].canonical@) == Ok::<
                    Option<JsonModel>,
                    (),
                >(Some(JsonModel::Text(targets(variables, fields, n)[i].1)))
                &&& match variables[k].entity_type {
                    Some(t) => targets(variables, fields, n)[i].0 == t@,
                    None => targets(variables, fields, n)[i].0.len() == 0,
                }
            },
    decreases n,
{
    if n > 0 {
        let before = targets(variables, fields, n - 1);
        let all = targets(variables, fields, n);
        if i < before.len() {
            every_target_is_named(variables, fields, n - 1, i);
            assert(before[i] == all[i]);
            let k = choose|k: int|
                {
                    &&& 0 <= k < n - 1
                    &&& opt_text((#[trigger] variables[k]).var_type) == Some("ref"@)
                    &&& before[i].1.len() > 0
                    &&& reference_value(fields, variables[k].canonical@) == Ok::<
                        Option<JsonModel>,
                        (),
                    >(Some(JsonModel::Text(before[i].1)))
                    &&& match variables[k].entity_type {
                        Some(t) => before[i].0 == t@,
                        None => before[i].0.len() == 0,
                    }
                };
            assert(opt_text(variables[k].var_type) == Some("ref"@));
        } else {
            assert(opt_text(variables[n - 1].var_type) == Some("ref"@));
        }
    }
}

/// A create under a contract gets the identifier that the contract derives, and
/// only where the body is an object and the entity as it will be is valid. What
/// has no contract keeps the identifier that was supplied.
pub proof fn a_create_is_held_to_its_contract(
    supplied: Option<Seq<char>>,
    initial: JsonModel,
    derived: Result<Option<String>, String>,
    validation: Result<(), String>,
    id: Seq<char>,
)
    ensures
        prepared_create(false, supplied, initial, derived, validation) == Ok::<
            Option<Seq<char>>,
            Seq<char>,
        >(supplied),
        prepared_create(true, supplied, initial, derived, validation) == Ok::<
            Option<Seq<char>>,
            Seq<char>,
        >(Some(id)) <==> initial is Object && derived is Ok && derived->Ok_0 is Some
            && derived->Ok_0->0@ == id && validation is Ok,
        prepared_create(true, supplied, initial, derived, validation) == Ok::<
            Option<Seq<char>>,
            Seq<char>,
        >(None) <==> initial is Object && derived is Ok && derived->Ok_0 is None,
{
}

/// An entity is validated as it will be: with its own identifier and its initial
/// status, and with every other field as the request gives it.
pub proof fn a_create_is_validated_as_it_will_be(
    fields: Seq<(Seq<char>, JsonModel)>,
    entity_id: Seq<char>,
    initial_state: Seq<char>,
    name: Seq<char>,
)
    ensures
        ({
            let shown = JsonModel::Object(prospective(fields, entity_id, initial_state));
            &&& member(shown, "Id"@) == Some(JsonModel::Text(entity_id))
            &&& member(shown, "Status"@) == Some(JsonModel::Text(initial_state))
            &&& name != "Id"@ && name != "Status"@ ==> member(shown, name) == member(
                JsonModel::Object(fields),
                name,
            )
        }),
{
    reveal_strlit("Id");
    reveal_strlit("Status");
    assert("Id"@ != "Status"@) by {
        assert("Id"@.len() != "Status"@.len());
    }
    let with_id = put_member(fields, "Id"@, JsonModel::Text(entity_id));
    put_then_find(fields, "Id"@, JsonModel::Text(entity_id), name);
    put_then_find(with_id, "Status"@, JsonModel::Text(initial_state), name);
    put_then_find(with_id, "Status"@, JsonModel::Text(initial_state), "Id"@);
}

/// An entity whose reference variables pass the audit keeps each of them: once
/// an event of its history assigns one, no later event clears it, and every
/// event that assigns it assigns the same.
pub proof fn audited_variables_are_never_cleared(
    entity_type: &str,
    entity_id: &str,
    variables: &Vec<StateVariable>,
    events: &Vec<ReferenceEvent>,
    r: Result<(), String>,
    k: int,
    i: int,
    j: int,
)
    requires
        call_ensures(audit_reference_variables, (entity_type, entity_id, variables, events), r),
        r is Ok,
        0 <= k < variables@.len(),
        opt_text(variables@[k].var_type) == Some("ref"@),
        0 <= i < j < events@.len(),
        assignment(events@[i], variables@[k].canonical@) is Assigned,
    ensures
        !(assignment(events@[j], variables@[k].canonical@) is Clear),
        !(assignment(events@[j], variables@[k].canonical@) is Invalid),
        assignment(events@[j], variables@[k].canonical@) is Assigned ==> assignment(
            events@[j],
            variables@[k].canonical@,
        ) == assignment(events@[i], variables@[k].canonical@),
{
    let n = variables@.len() as int;
    no_history_failure_of_any(entity_type@, entity_id@, variables@, events@, n, k);
    let canonical = variables@[k].canonical@;
    let all = events@.len() as int;
    an_audited_reference_is_never_cleared(events@, canonical, all, i, j);
    an_audited_reference_is_never_cleared(events@, canonical, all, j, j);
}

/// Variables that are no references are not audited: entities that differ in
/// nothing else pass or fail alike.
pub proof fn only_references_are_audited(
    entity_type: &str,
    entity_id: &str,
    variables: &Vec<StateVariable>,
    events: &Vec<ReferenceEvent>,
    r: Result<(), String>,
)
    requires
        call_ensures(audit_reference_variables, (entity_type, entity_id, variables, events), r),
        forall|i: int|
            0 <= i < variables@.len() ==> opt_text((#[trigger] variables@[i]).var_type) != Some(
                "ref"@,
            ),
    ensures
        r is Ok,
{
    nothing_fails_without_references(
        entity_type@,
        entity_id@,
        variables@,
        events@,
        variables@.len() as int,
    );
}

proof fn nothing_fails_without_references(
    entity_type: Seq<char>,
    entity_id: Seq<char>,
    variables: Seq<StateVariable>,
    events: Seq<ReferenceEvent>,
    n: int,
)
    requires
        0 <= n <= variables.len(),
        forall|i: int|
            0 <= i < variables.len() ==> opt_text((#[trigger] variables[i]).var_type) != Some(
                "ref"@,
            ),
    ensures
        history_failure(entity_type, entity_id, variables, events, n) is None,
    decreases n,
{
    if n > 0 {
        nothing_fails_without_references(entity_type, entity_id, variables, events, n - 1);
        assert(opt_text(variables[n - 1].var_type) != Some("ref"@));
    }
}

/// The history of a reference at the level of the audit itself: it is kept
/// exactly if no event gives it an invalid value, none clears it once it was
/// assigned, and all that assign it assign the same; what it is then found to
/// be is what they assign.
pub proof fn a_history_is_kept_or_refused(
    events: &Vec<ReferenceEvent>,
    canonical: &str,
    r: Result<Option<String>, &'static str>,
    i: int,
    j: int,
)
    requires
        call_ensures(audit_reference_history, (events, canonical), r),
        0 <= i < events@.len(),
        0 <= j < events@.len(),
    ensures
        r is Ok ==> !(assignment(events@[i], canonical@) is Invalid),
        r is Ok && i < j && assignment(events@[i], canonical@) is Assigned ==> !(assignment(
            events@[j],
            canonical@,
        ) is Clear),
        r is Ok && assignment(events@[i], canonical@) is Assigned ==> r->Ok_0 is Some && assignment(
            events@[i],
            canonical@,
        ) == AssignmentModel::Assigned(r->Ok_0->0@),
{
    if r is Ok {
        let n = events@.len() as int;
        an_audited_reference_is_never_cleared(events@, canonical@, n, i, j);
        if assignment(events@[i], canonical@) is Assigned {
            an_audited_reference_never_changes(events@, canonical@, n, i);
        }
    }
}

/// A type is configured by its name alone or by its name in one tenant, and one
/// with a contract is not left to the database.
pub proof fn a_contracted_type_is_kept_here(
    types: &OrdSet<String>,
    tenant: &str,
    entity_type: &str,
    has_contract: bool,
    configured: bool,
    backed: bool,
)
    requires
        types.wf(),
        call_ensures(is_configured, (types, tenant, entity_type), configured),
        call_ensures(is_pg_actor_backed, (types, tenant, entity_type, has_contract), backed),
    ensures
        types@.contains(entity_type@) ==> configured,
        types@.contains(tenant@ + ":"@ + entity_type@) ==> configured,
        !types@.contains(entity_type@) && !types@.contains(tenant@ + ":"@ + entity_type@)
            ==> !configured,
        backed <==> configured && !has_contract,
{
}

/// An update of fields carries its fields, and any other action its parameters.
pub proof fn an_event_carries_what_it_says(params: JsonModel, name: Seq<char>)
    ensures
        params is Object ==> crate::json::find_member(carried(false, params), name) == member(
            params,
            name,
        ),
        member(params, "fields"@) is Some && member(params, "fields"@)->0 is Object
            ==> crate::json::find_member(carried(true, params), name) == member(
            member(params, "fields"@)->0,
            name,
        ),
        !(params is Object) ==> carried(false, params).len() == 0,
        member(params, "fields"@) is None ==> carried(true, params).len() == 0,
{
}

} // verus!
