//! The small rules of composite writes.

use vstd::prelude::*;
use vstd::string::*;
use vstd::utf8::encode_utf8;

use crate::digest::hex;
use crate::digest::sha256;
use crate::digest::sha256_hex;
use crate::dispatch_actions::overlaid;
use crate::dispatch_actions::DispatchError;
use crate::dispatch_actions::DispatchErrorModel;
use crate::governed_job::push_text_bytes;
use crate::json::find_member;
use crate::json::member;
use crate::json::put_member;
use crate::json::put_then_find;
use crate::json::text_member;
use crate::json::Json;
use crate::json::JsonModel;
use crate::json::JsonNumber;
use crate::json::NumberModel;
use crate::text::chars_of;
use crate::text::decimal;
use crate::text::decimal_of;
use crate::text::opt_str;
use crate::text::opt_text;
use crate::text::same;
use crate::text::signed_decimal;
use crate::text::signed_decimal_of;

verus! {

/// One write of a composite action.
#[derive(Debug, PartialEq, Eq)]
pub struct CompositeSubWrite {
    pub entity_type: String,
    pub entity_id: String,
    pub action: String,
    pub params: Json,
}

/// A write that a composite action declares.
#[derive(Clone, Debug, PartialEq, Eq)]
pub struct DeclaredSubWrite {
    pub target_entity: String,
    pub action: String,
    pub generated_from: Option<String>,
}

/// What a composite action declares.
#[derive(Clone, Debug, PartialEq, Eq)]
pub struct CompositeActionMetadata {
    pub sub_writes: Vec<DeclaredSubWrite>,
    /// Its own policy gate covers writes that it generates.
    pub has_cedar_gate: bool,
    pub record_parent_event: bool,
}

/// An object without members.
pub fn empty_params() -> (r: Json)
    ensures
        r@ == JsonModel::Object(Seq::empty()),
{
    let r = Json::Object(Vec::new());
    proof {
        crate::json::model_of_parts(r);
        assert(r@->Object_0 =~= Seq::<(Seq<char>, JsonModel)>::empty());
    }
    r
}

/// The sub-writes that parameters carry, under either name.
pub open spec fn sub_writes_of(params: JsonModel) -> Option<JsonModel> {
    match member(params, "sub_writes"@) {
        Some(v) => Some(v),
        None => member(params, "SubWrites"@),
    }
}

/// Whether parameters carry sub-writes.
pub fn has_sub_writes(params: &Json) -> (r: bool)
    ensures
        r == sub_writes_of(params@) is Some,
{
    params.get("sub_writes").is_some() || params.get("SubWrites").is_some()
}

/// The sub-writes that the result of an integration carries.
pub fn sub_writes_payload<'a>(params: &'a Json) -> (r: Result<&'a Json, DispatchError>)
    ensures
        match r {
            Ok(v) => sub_writes_of(params@) == Some(v@),
            Err(e) => sub_writes_of(params@) is None && e@ == DispatchErrorModel::Internal(
                "Composite integration result must include `sub_writes`/`SubWrites`"@,
            ),
        },
{
    match params.get("sub_writes") {
        Some(v) => Ok(v),
        None => match params.get("SubWrites") {
            Some(v) => Ok(v),
            None => Err(
                DispatchError::Internal(
                    "Composite integration result must include `sub_writes`/`SubWrites`".to_owned(),
                ),
            ),
        },
    }
}

/// Why the caller's parameters of a composite action are refused: only its
/// declared integration produces sub-writes.
pub open spec fn supplies_sub_writes(
    entity_type: Seq<char>,
    action: Seq<char>,
    params: JsonModel,
) -> Option<DispatchErrorModel> {
    if sub_writes_of(params) is Some {
        Some(
            DispatchErrorModel::Internal(
                "Composite action "@ + entity_type + "."@ + action
                    + " cannot accept caller-supplied sub_writes; sub-writes must be produced by a spec-declared integration result"@,
            ),
        )
    } else {
        None
    }
}

/// Refuses sub-writes that the caller of a composite action supplies: only its
/// declared integration produces them.
pub fn reject_action_supplied_sub_writes(entity_type: &str, action: &str, params: &Json) -> (r:
    Result<(), DispatchError>)
    ensures
        match r {
            Ok(_) => supplies_sub_writes(entity_type@, action@, params@) is None,
            Err(e) => supplies_sub_writes(entity_type@, action@, params@) == Some(e@),
        },
{
    if has_sub_writes(params) {
        let mut text = "Composite action ".to_owned();
        text.append(entity_type);
        text.append(".");
        text.append(action);
        text.append(
            " cannot accept caller-supplied sub_writes; sub-writes must be produced by a spec-declared integration result",
        );
        return Err(DispatchError::Internal(text));
    }
    Ok(())
}

/// Whether a write is one that the action declares.
pub open spec fn is_declared(
    declared: Seq<DeclaredSubWrite>,
    entity_type: Seq<char>,
    action: Seq<char>,
) -> bool {
    exists|i: int|
        0 <= i < declared.len() && (#[trigger] declared[i]).target_entity@ == entity_type
            && declared[i].action@ == action
}

fn is_declared_write(declared: &Vec<DeclaredSubWrite>, entity_type: &str, action: &str) -> (r: bool)
    ensures
        r == is_declared(declared@, entity_type@, action@),
{
    let mut i: usize = 0;
    while i < declared.len()
        invariant
            i <= declared.len(),
            forall|k: int|
                0 <= k < i ==> !((#[trigger] declared@[k]).target_entity@ == entity_type@
                    && declared@[k].action@ == action@),
        decreases declared.len() - i,
    {
        if same(declared[i].target_entity.as_str(), entity_type) && same(
            declared[i].action.as_str(),
            action,
        ) {
            return true;
        }
        i = i + 1;
    }
    false
}

/// The first write, if any, that is not declared.
pub open spec fn first_undeclared(
    declared: Seq<DeclaredSubWrite>,
    writes: Seq<CompositeSubWrite>,
) -> Option<CompositeSubWrite>
    decreases writes.len(),
{
    if writes.len() == 0 {
        None
    } else if !is_declared(declared, writes[0].entity_type@, writes[0].action@) {
        Some(writes[0])
    } else {
        first_undeclared(declared, writes.drop_first())
    }
}

/// Holds the sub-writes of an integration's result against what the action
/// declares: where it declares some there are some, and each is declared.
pub fn validate_sub_writes(
    metadata: &CompositeActionMetadata,
    sub_writes: &Vec<CompositeSubWrite>,
) -> (r: Result<(), DispatchError>)
    ensures
        ({
            let declared = metadata.sub_writes@;
            if declared.len() > 0 && sub_writes@.len() == 0 {
                r is Err && r->Err_0@ == DispatchErrorModel::Internal(
                    "Composite action declared sub-writes but none were provided"@,
                )
            } else {
                match first_undeclared(declared, sub_writes@) {
                    None => r is Ok,
                    Some(w) => r is Err && r->Err_0@ == DispatchErrorModel::Internal(
                        "Composite sub-write "@ + w.entity_type@ + "."@ + w.action@
                            + " is not declared by the action contract"@,
                    ),
                }
            }
        }),
{
    if metadata.sub_writes.len() > 0 && sub_writes.len() == 0 {
        return Err(
            DispatchError::Internal(
                "Composite action declared sub-writes but none were provided".to_owned(),
            ),
        );
    }
    let mut i: usize = 0;
    proof {
        assert(sub_writes@.skip(0) =~= sub_writes@);
    }
    while i < sub_writes.len()
        invariant
            i <= sub_writes.len(),
            !(metadata.sub_writes@.len() > 0 && sub_writes@.len() == 0),
            first_undeclared(metadata.sub_writes@, sub_writes@) == first_undeclared(
                metadata.sub_writes@,
                sub_writes@.skip(i as int),
            ),
        decreases sub_writes.len() - i,
    {
        let w = &sub_writes[i];
        proof {
            assert(sub_writes@.skip(i as int)[0] == sub_writes@[i as int]);
            assert(sub_writes@.skip(i as int).drop_first() =~= sub_writes@.skip(i + 1));
        }
        if !is_declared_write(&metadata.sub_writes, w.entity_type.as_str(), w.action.as_str()) {
            let mut text = "Composite sub-write ".to_owned();
            text.append(w.entity_type.as_str());
            text.append(".");
            text.append(w.action.as_str());
            text.append(" is not declared by the action contract");
            return Err(DispatchError::Internal(text));
        }
        i = i + 1;
    }
    Ok(())
}

/// A rule of a transition table: the action that it is for, and whether its
/// guard looks at other entities.
#[derive(Clone, Debug, PartialEq, Eq)]
pub struct GuardedRule {
    pub name: String,
    pub has_cross_guard: bool,
}

/// Whether a rule of the action has a guard on other entities.
pub open spec fn has_guarded_rule(rules: Seq<GuardedRule>, action: Seq<char>) -> bool {
    exists|i: int|
        0 <= i < rules.len() && (#[trigger] rules[i]).name@ == action && rules[i].has_cross_guard
}

/// Whether some rule of an action looks at other entities.
pub fn table_has_cross_entity_guards_for_action(rules: &Vec<GuardedRule>, action: &str) -> (r: bool)
    ensures
        r == has_guarded_rule(rules@, action@),
{
    let mut i: usize = 0;
    while i < rules.len()
        invariant
            i <= rules.len(),
            forall|k: int|
                0 <= k < i ==> !((#[trigger] rules@[k]).name@ == action@
                    && rules@[k].has_cross_guard),
        decreases rules.len() - i,
    {
        if same(rules[i].name.as_str(), action) && rules[i].has_cross_guard {
            return true;
        }
        i = i + 1;
    }
    false
}

/// Whether an entity type is an object of a git pack.
pub open spec fn pack_object(entity_type: Seq<char>) -> bool {
    entity_type == "Blob"@ || entity_type == "Tree"@ || entity_type == "Commit"@ || entity_type
        == "Tag"@
}

/// Whether an entity type is an object of a git pack.
pub fn is_pack_object_entity(entity_type: &str) -> (r: bool)
    ensures
        r == pack_object(entity_type@),
{
    same(entity_type, "Blob") || same(entity_type, "Tree") || same(entity_type, "Commit") || same(
        entity_type,
        "Tag",
    )
}

/// Whether a write is generated from what the parent's gate has judged: objects
/// from the bytes of a pack, references from the updates of a push.
pub open spec fn generated_by_parent(
    entity_type: Seq<char>,
    action: Seq<char>,
    source: Option<Seq<char>>,
) -> bool {
    ||| pack_object(entity_type) && action == "Create"@ && source == Some("pack_bytes"@)
    ||| entity_type == "Ref"@ && (action == "Create"@ || action == "Update"@ || action
        == "Delete"@) && source == Some("ref_updates"@)
}

/// Whether a sub-write is covered by the policy gate of its parent.
pub open spec fn uses_parent_gate(
    metadata: CompositeActionMetadata,
    entity_type: Seq<char>,
    action: Seq<char>,
) -> bool {
    metadata.has_cedar_gate && exists|i: int|
        0 <= i < metadata.sub_writes@.len() && (
        #[trigger] metadata.sub_writes@[i]).target_entity@ == entity_type
            && metadata.sub_writes@[i].action@ == action && generated_by_parent(
            entity_type,
            action,
            opt_text(metadata.sub_writes@[i].generated_from),
        )
}

/// Whether a sub-write is covered by the policy gate of its parent.
pub fn composite_sub_write_uses_parent_gate(
    metadata: &CompositeActionMetadata,
    entity_type: &str,
    action: &str,
) -> (r: bool)
    ensures
        r == uses_parent_gate(*metadata, entity_type@, action@),
{
    if !metadata.has_cedar_gate {
        return false;
    }
    let object_create = is_pack_object_entity(entity_type) && same(action, "Create");
    let ref_write = same(entity_type, "Ref") && (same(action, "Create") || same(action, "Update")
        || same(action, "Delete"));
    let mut i: usize = 0;
    while i < metadata.sub_writes.len()
        invariant
            i <= metadata.sub_writes.len(),
            metadata.has_cedar_gate,
            object_create == (pack_object(entity_type@) && action@ == "Create"@),
            ref_write == (entity_type@ == "Ref"@ && (action@ == "Create"@ || action@ == "Update"@
                || action@ == "Delete"@)),
            forall|k: int|
                0 <= k < i ==> !((#[trigger] metadata.sub_writes@[k]).target_entity@
                    == entity_type@ && metadata.sub_writes@[k].action@ == action@
                    && generated_by_parent(
                    entity_type@,
                    action@,
                    opt_text(metadata.sub_writes@[k].generated_from),
                )),
        decreases metadata.sub_writes.len() - i,
    {
        let spec_write = &metadata.sub_writes[i];
        let generated = match &spec_write.generated_from {
            Some(source) => (object_create && same(source.as_str(), "pack_bytes")) || (ref_write
                && same(source.as_str(), "ref_updates")),
            None => false,
        };
        if same(spec_write.target_entity.as_str(), entity_type) && same(
            spec_write.action.as_str(),
            action,
        ) && generated {
            return true;
        }
        i = i + 1;
    }
    false
}

/// Whether a value is there at all: not null and not empty.
pub open spec fn non_empty(v: JsonModel) -> bool {
    match v {
        JsonModel::Text(s) => s.len() > 0,
        JsonModel::Object(members) => members.len() > 0,
        JsonModel::Array(items) => items.len() > 0,
        JsonModel::Null => false,
        JsonModel::Bool(_) => true,
        JsonModel::Number(_) => true,
    }
}

/// Whether a value is there at all.
pub fn non_empty_json_value(value: &Json) -> (r: bool)
    ensures
        r == non_empty(value@),
{
    proof {
        crate::json::model_of_parts(*value);
    }
    match value {
        Json::Text(s) => !s.as_str().is_empty(),
        Json::Object(members) => {
            proof {
                assert(crate::json::members_model(members@).len() == members@.len());
            }
            members.len() > 0
        },
        Json::Array(items) => {
            proof {
                assert(crate::json::items_model(items@).len() == items@.len());
            }
            items.len() > 0
        },
        Json::Null => false,
        Json::Bool(_) => true,
        Json::Number(_) => true,
    }
}

/// Whether the fields of a git object hold its bytes.
pub open spec fn has_payload(fields: JsonModel) -> bool {
    match member(fields, "CanonicalBytes"@) {
        Some(v) => non_empty(v),
        None => false,
    }
}

/// Whether the fields of a git object hold its bytes.
pub fn has_complete_git_object_payload(fields: &Json) -> (r: bool)
    ensures
        r == has_payload(fields@),
{
    match fields.get("CanonicalBytes") {
        Some(v) => non_empty_json_value(v),
        None => false,
    }
}

/// The text of a number.
pub open spec fn number_text(n: NumberModel) -> Seq<char> {
    match n {
        NumberModel::Unsigned(u) => decimal(u as nat),
        NumberModel::Negative(i) => signed_decimal(i as int),
        NumberModel::Float { text, .. } => text,
    }
}

/// A text or a number of the field `name`, as a text.
pub open spec fn string_field(value: JsonModel, name: Seq<char>) -> Option<Seq<char>> {
    match member(value, name) {
        Some(JsonModel::Text(s)) => Some(s),
        Some(JsonModel::Number(n)) => Some(number_text(n)),
        _ => None,
    }
}

/// A text or a number of the field `field`, as a text.
pub fn json_string_field(value: &Json, field: &str) -> (r: Option<String>)
    ensures
        opt_text(r) == string_field(value@, field@),
{
    match value.get(field) {
        Some(Json::Text(s)) => Some(s.clone()),
        Some(Json::Number(n)) => Some(
            match n {
                JsonNumber::Unsigned(u) => decimal_of(*u),
                JsonNumber::Negative(i) => signed_decimal_of(*i),
                JsonNumber::Float { text, .. } => text.clone(),
            },
        ),
        _ => None,
    }
}

/// Whether a text is the digest of nothing: forty zeros.
pub open spec fn zero_sha(value: Seq<char>) -> bool {
    value.len() == 40 && forall|i: int| 0 <= i < value.len() ==> #[trigger] value[i] == '0'
}

/// Whether a text is the digest of nothing.
pub fn is_zero_git_sha(value: &str) -> (r: bool)
    ensures
        r == zero_sha(value@),
{
    let v = chars_of(value);
    if v.len() != 40 {
        return false;
    }
    let mut i: usize = 0;
    while i < v.len()
        invariant
            v@ == value@,
            v.len() == 40,
            i <= v.len(),
            forall|k: int| 0 <= k < i ==> #[trigger] value@[k] == '0',
        decreases v.len() - i,
    {
        if v[i] != '0' {
            return false;
        }
        i = i + 1;
    }
    true
}

/// What a reference points to: nothing where it does not exist or is deleted.
pub open spec fn ref_target(existed: bool, status: Seq<char>, fields: JsonModel) -> Option<
    Seq<char>,
> {
    if !existed || status == "Deleted"@ {
        None
    } else {
        match text_member(fields, "TargetCommitSha"@) {
            Some(s) => if s.len() > 0 {
                Some(s)
            } else {
                None
            },
            None => None,
        }
    }
}

/// What a reference points to.
pub fn current_ref_target<'a>(target_existed: bool, status: &str, fields: &'a Json) -> (r: Option<
    &'a str,
>)
    ensures
        opt_str(r) == ref_target(target_existed, status@, fields@),
{
    if !target_existed || same(status, "Deleted") {
        return None;
    }
    match fields.get_text("TargetCommitSha") {
        Some(s) => if s.is_empty() {
            None
        } else {
            Some(s)
        },
        None => None,
    }
}

/// Whether a reference points where a write expects: a digest of nothing expects
/// no reference.
pub open spec fn points_as_expected(current: Option<Seq<char>>, expected: Seq<char>) -> bool {
    if zero_sha(expected) {
        current is None || zero_sha(current->0)
    } else {
        current == Some(expected)
    }
}

/// Why a write of a reference is stale: it names what the reference pointed to
/// before, and that is not so.
pub open spec fn stale_ref(
    parent_entity_type: Seq<char>,
    parent_action: Seq<char>,
    idx: usize,
    entity_type: Seq<char>,
    entity_id: Seq<char>,
    action: Seq<char>,
    params: JsonModel,
    current: Option<Seq<char>>,
) -> Option<Seq<char>> {
    if entity_type != "Ref"@ || !(action == "Create"@ || action == "Update"@ || action
        == "Delete"@) {
        None
    } else {
        match string_field(params, "PreviousCommitSha"@) {
            None => None,
            Some(expected) => if points_as_expected(current, expected) {
                None
            } else {
                Some(
                    "composite "@ + parent_entity_type + "."@ + parent_action + " sub-write "@
                        + decimal(idx as nat) + " stale ref "@ + entity_id + ": expected "@
                        + expected + ", found "@ + match current {
                        Some(c) => c,
                        None => "missing ref"@,
                    },
                )
            },
        }
    }
}

/// Refuses a write of a reference that does not point where the write expects.
pub fn validate_ref_sub_write_compare_and_set(
    parent_entity_type: &str,
    parent_action: &str,
    idx: usize,
    write: &CompositeSubWrite,
    target_existed: bool,
    status: &str,
    fields: &Json,
) -> (r: Result<(), DispatchError>)
    ensures
        ({
            let stale = stale_ref(
                parent_entity_type@,
                parent_action@,
                idx,
                write.entity_type@,
                write.entity_id@,
                write.action@,
                write.params@,
                ref_target(target_existed, status@, fields@),
            );
            match r {
                Ok(_) => stale is None,
                Err(e) => stale is Some && e@ == DispatchErrorModel::Conflict(stale->0),
            }
        }),
{
    let action = write.action.as_str();
    if !same(write.entity_type.as_str(), "Ref") || !(same(action, "Create") || same(
        action,
        "Update",
    ) || same(action, "Delete")) {
        return Ok(());
    }
    let expected = match json_string_field(&write.params, "PreviousCommitSha") {
        Some(s) => s,
        None => return Ok(()),
    };
    let current = current_ref_target(target_existed, status, fields);
    let valid = if is_zero_git_sha(expected.as_str()) {
        match current {
            None => true,
            Some(c) => is_zero_git_sha(c),
        }
    } else {
        match current {
            None => false,
            Some(c) => same(c, expected.as_str()),
        }
    };
    if valid {
        return Ok(());
    }
    let found = match current {
        Some(c) => c,
        None => "missing ref",
    };
    let mut text = "composite ".to_owned();
    text.append(parent_entity_type);
    text.append(".");
    text.append(parent_action);
    text.append(" sub-write ");
    text.append(decimal_of(idx as u64).as_str());
    text.append(" stale ref ");
    text.append(write.entity_id.as_str());
    text.append(": expected ");
    text.append(expected.as_str());
    text.append(", found ");
    text.append(found);
    Err(DispatchError::Conflict(text))
}

/// Of two writes of one reference that both expect the same digest, and of which
/// the first moves it elsewhere, the second is refused.
pub proof fn a_moved_ref_refuses_a_second_write(
    parent_entity_type: Seq<char>,
    parent_action: Seq<char>,
    idx: usize,
    entity_id: Seq<char>,
    params: JsonModel,
    expected: Seq<char>,
    moved: Seq<char>,
)
    requires
        string_field(params, "PreviousCommitSha"@) == Some(expected),
        moved != expected,
        !zero_sha(moved),
    ensures
        stale_ref(
            parent_entity_type,
            parent_action,
            idx,
            "Ref"@,
            entity_id,
            "Update"@,
            params,
            Some(moved),
        ) is Some,
{
}

/// The attributes that a policy sees of an entity that a sub-write creates: its
/// identifier and initial status, the parameters over them, and whether its type
/// has a spec over everything.
pub open spec fn create_attrs(
    entity_id: Seq<char>,
    params: JsonModel,
    initial_state: Seq<char>,
    has_spec: bool,
) -> Seq<(Seq<char>, JsonModel)> {
    let base = put_member(
        put_member(Seq::empty(), "id"@, JsonModel::Text(entity_id)),
        "status"@,
        JsonModel::Text(initial_state),
    );
    let all = match params {
        JsonModel::Object(p) => overlaid(base, p, p.len() as int),
        _ => base,
    };
    put_member(all, "has_spec"@, JsonModel::Bool(has_spec))
}

/// The attributes that a policy sees of an entity that a sub-write creates.
pub fn composite_create_resource_attrs_from_defaults(
    entity_id: &str,
    params: &Json,
    initial_state: &str,
    has_spec: bool,
) -> (r: Json)
    ensures
        r@ == JsonModel::Object(create_attrs(entity_id@, params@, initial_state@, has_spec)),
{
    let mut attrs = empty_params();
    attrs.put("id", Json::Text(entity_id.to_owned()));
    attrs.put("status", Json::Text(initial_state.to_owned()));
    let mut attrs = crate::dispatch_actions::guard_fields(attrs, params);
    attrs.put("has_spec", Json::Bool(has_spec));
    attrs
}

/// The attributes that a policy sees of an entity that exists: its fields, with
/// its identifier and its status over them.
pub fn scoped_resource_attrs(fields: &Json, entity_id: &str, status: &str) -> (r: Json)
    ensures
        ({
            let base = match fields@ {
                JsonModel::Object(f) => f,
                _ => Seq::empty(),
            };
            r@ == JsonModel::Object(
                put_member(
                    put_member(
                        put_member(base, "id"@, JsonModel::Text(entity_id@)),
                        "status"@,
                        JsonModel::Text(status@),
                    ),
                    "has_spec"@,
                    JsonModel::Bool(true),
                ),
            )
        }),
{
    let mut attrs = if fields.is_object() {
        fields.copy()
    } else {
        empty_params()
    };
    attrs.put("id", Json::Text(entity_id.to_owned()));
    attrs.put("status", Json::Text(status.to_owned()));
    attrs.put("has_spec", Json::Bool(true));
    attrs
}

/// The parameters of a sub-write: null is an empty object, and an object names
/// the entity where it does not already.
pub open spec fn normal_params(params: JsonModel, entity_id: Seq<char>) -> JsonModel {
    let base = match params {
        JsonModel::Null => JsonModel::Object(Seq::empty()),
        other => other,
    };
    match base {
        JsonModel::Object(members) => if find_member(members, "Id"@) is None {
            JsonModel::Object(put_member(members, "Id"@, JsonModel::Text(entity_id)))
        } else {
            base
        },
        _ => base,
    }
}

/// The parameters of a sub-write.
pub fn normalize_sub_write_params(params: &Json, entity_id: &str) -> (r: Json)
    ensures
        r@ == normal_params(params@, entity_id@),
{
    let mut out = match params {
        Json::Null => empty_params(),
        other => other.copy(),
    };
    if out.is_object() && out.get("Id").is_none() {
        out.put("Id", Json::Text(entity_id.to_owned()));
    }
    out
}

/// The key of a composite: the caller's, else a digest of what the integration
/// gave.
pub open spec fn parent_key(given: Option<Seq<char>>, result_text: Seq<char>) -> Seq<char> {
    match given {
        Some(key) => key,
        None => "implicit:"@ + hex(
            sha256(encode_utf8("composite-integration-result:"@) + encode_utf8(result_text)),
        ),
    }
}

/// The key of a composite. `result_text` is the JSON text of what the
/// integration gave.
pub fn composite_parent_idempotency(given: Option<&str>, result_text: &str) -> (r: String)
    ensures
        r@ == parent_key(opt_str(given), result_text@),
{
    match given {
        Some(key) => key.to_owned(),
        None => {
            let mut bytes: Vec<u8> = "composite-integration-result:".as_bytes_vec();
            push_text_bytes(&mut bytes, result_text);
            let mut text = "implicit:".to_owned();
            text.append(sha256_hex(bytes.as_slice()).as_str());
            text
        },
    }
}

/// How the write of a composite's events failed.
#[derive(Clone, Debug, PartialEq, Eq)]
pub enum BatchFailure {
    Concurrency(String),
    Other(String),
}

/// What a composite is told when its events could not be written: a conflict
/// where somebody else wrote first.
pub fn composite_batch_persistence_error(failure: &BatchFailure) -> (r: DispatchError)
    ensures
        r@ == match *failure {
            BatchFailure::Concurrency(e) => DispatchErrorModel::Conflict(
                "composite batch persistence conflict: "@ + e@,
            ),
            BatchFailure::Other(e) => DispatchErrorModel::Internal(
                "composite batch persistence failed: "@ + e@,
            ),
        },
{
    match failure {
        BatchFailure::Concurrency(e) => {
            let mut text = "composite batch persistence conflict: ".to_owned();
            text.append(e.as_str());
            DispatchError::Conflict(text)
        },
        BatchFailure::Other(e) => {
            let mut text = "composite batch persistence failed: ".to_owned();
            text.append(e.as_str());
            DispatchError::Internal(text)
        },
    }
}

/// Why the storage of an owner does not take a write.
#[derive(Clone, Debug, PartialEq, Eq)]
pub enum StorageCapFailure {
    Exceeded(String),
    ReservationCapacityExhausted(String),
    OwnerSuspended(String),
    MissingAttribution(String),
    Internal(String),
}

/// What a composite is told when storage does not take it.
pub fn composite_storage_cap_error(failure: StorageCapFailure) -> (r: DispatchError)
    ensures
        r@ == match failure {
            StorageCapFailure::Exceeded(e) => DispatchErrorModel::QuotaExceeded(e@),
            StorageCapFailure::ReservationCapacityExhausted(
                e,
            ) => DispatchErrorModel::QuotaExceeded(e@),
            StorageCapFailure::OwnerSuspended(e) => DispatchErrorModel::AuthzDenied(e@),
            StorageCapFailure::MissingAttribution(e) => DispatchErrorModel::Internal(e@),
            StorageCapFailure::Internal(e) => DispatchErrorModel::Internal(e@),
        },
{
    match failure {
        StorageCapFailure::Exceeded(e) => DispatchError::QuotaExceeded(e),
        StorageCapFailure::ReservationCapacityExhausted(e) => DispatchError::QuotaExceeded(e),
        StorageCapFailure::OwnerSuspended(e) => DispatchError::AuthzDenied(e),
        StorageCapFailure::MissingAttribution(e) => DispatchError::Internal(e),
        StorageCapFailure::Internal(e) => DispatchError::Internal(e),
    }
}

/// Why an owner's account does not allow a write.
#[derive(Clone, Debug, PartialEq, Eq)]
pub enum AccountVerificationFailure {
    Required(String),
    MissingOwner(String),
    OwnerSuspended(String),
    Internal(String),
}

/// What a composite is told when the owner's account does not allow it.
pub fn composite_account_verification_error(failure: AccountVerificationFailure) -> (r:
    DispatchError)
    ensures
        r@ == match failure {
            AccountVerificationFailure::Required(e) => DispatchErrorModel::AuthzDenied(e@),
            AccountVerificationFailure::MissingOwner(e) => DispatchErrorModel::AuthzDenied(e@),
            AccountVerificationFailure::OwnerSuspended(e) => DispatchErrorModel::AuthzDenied(e@),
            AccountVerificationFailure::Internal(e) => DispatchErrorModel::Internal(e@),
        },
{
    match failure {
        AccountVerificationFailure::Required(e) => DispatchError::AuthzDenied(e),
        AccountVerificationFailure::MissingOwner(e) => DispatchError::AuthzDenied(e),
        AccountVerificationFailure::OwnerSuspended(e) => DispatchError::AuthzDenied(e),
        AccountVerificationFailure::Internal(e) => DispatchError::Internal(e),
    }
}

/// Why the name of an app is not free.
#[derive(Clone, Debug, PartialEq, Eq)]
pub enum AppUniquenessFailure {
    Conflict(String),
    Internal(String),
}

/// What a composite is told when the name of an app is not free.
pub fn composite_app_uniqueness_error(failure: AppUniquenessFailure) -> (r: DispatchError)
    ensures
        r@ == match failure {
            AppUniquenessFailure::Conflict(e) => DispatchErrorModel::Conflict(e@),
            AppUniquenessFailure::Internal(e) => DispatchErrorModel::Internal(e@),
        },
{
    match failure {
        AppUniquenessFailure::Conflict(e) => DispatchError::Conflict(e),
        AppUniquenessFailure::Internal(e) => DispatchError::Internal(e),
    }
}

/// A sub-write keeps what it says: every parameter has the value that it was
/// given, but for an absent `Id`, which is the entity's. Parameters that are no
/// object are kept as they are.
pub proof fn normal_parameters_keep_what_was_given(
    params: JsonModel,
    entity_id: Seq<char>,
    name: Seq<char>,
)
    ensures
        ({
            let normal = normal_params(params, entity_id);
            &&& params is Object || params is Null ==> {
                &&& normal is Object
                &&& name != "Id"@ ==> member(normal, name) == member(params, name)
                &&& member(normal, "Id"@) == match member(params, "Id"@) {
                    Some(given) => Some(given),
                    None => Some(JsonModel::Text(entity_id)),
                }
            }
            &&& !(params is Object || params is Null) ==> normal == params
        }),
{
    let members = match params {
        JsonModel::Object(m) => m,
        _ => Seq::empty(),
    };
    put_then_find(members, "Id"@, JsonModel::Text(entity_id), name);
}

/// The parent's gate covers a write only where the parent has a gate and declares
/// that very write: the creation of a git object from the bytes of a pack, or a
/// write of a ref from the updates of refs.
pub proof fn the_parents_gate_covers_declared_git_writes_only(
    metadata: CompositeActionMetadata,
    entity_type: Seq<char>,
    action: Seq<char>,
)
    ensures
        uses_parent_gate(metadata, entity_type, action) <==> {
            &&& metadata.has_cedar_gate
            &&& exists|i: int|
                {
                    let d = #[trigger] metadata.sub_writes@[i];
                    let source = opt_text(d.generated_from);
                    &&& 0 <= i < metadata.sub_writes@.len()
                    &&& d.target_entity@ == entity_type
                    &&& d.action@ == action
                    &&& ((entity_type == "Blob"@ || entity_type == "Tree"@ || entity_type
                        == "Commit"@ || entity_type == "Tag"@) && action == "Create"@ && source
                        == Some("pack_bytes"@)) || (entity_type == "Ref"@ && (action == "Create"@
                        || action == "Update"@ || action == "Delete"@) && source == Some(
                        "ref_updates"@,
                    ))
                }
        },
{
    if uses_parent_gate(metadata, entity_type, action) {
        let i = choose|i: int|
            0 <= i < metadata.sub_writes@.len() && (
            #[trigger] metadata.sub_writes@[i]).target_entity@ == entity_type
                && metadata.sub_writes@[i].action@ == action && generated_by_parent(
                entity_type,
                action,
                opt_text(metadata.sub_writes@[i].generated_from),
            );
        assert(metadata.sub_writes@[i].action@ == action);
    }
}

/// The sub-writes of a composite pass exactly where each of them is declared,
/// with its type and its action.
pub proof fn every_sub_write_must_be_declared(
    declared: Seq<DeclaredSubWrite>,
    writes: Seq<CompositeSubWrite>,
)
    ensures
        first_undeclared(declared, writes) is None <==> forall|k: int|
            0 <= k < writes.len() ==> exists|i: int|
                0 <= i < declared.len() && (#[trigger] declared[i]).target_entity@ == (
                #[trigger] writes[k]).entity_type@ && declared[i].action@ == writes[k].action@,
        first_undeclared(declared, writes) is Some ==> exists|k: int|
            0 <= k < writes.len() && #[trigger] writes[k] == first_undeclared(declared, writes)->0
                && (forall|i: int|
                0 <= i < declared.len() ==> !((#[trigger] declared[i]).target_entity@
                    == writes[k].entity_type@ && declared[i].action@ == writes[k].action@)),
    decreases writes.len(),
{
    if writes.len() > 0 {
        let rest = writes.drop_first();
        every_sub_write_must_be_declared(declared, rest);
        if is_declared(declared, writes[0].entity_type@, writes[0].action@) {
            if first_undeclared(declared, writes) is None {
                assert forall|k: int| 0 <= k < writes.len() implies exists|i: int|
                    0 <= i < declared.len() && (#[trigger] declared[i]).target_entity@ == (
                    #[trigger] writes[k]).entity_type@ && declared[i].action@
                        == writes[k].action@ by {
                    if k > 0 {
                        assert(rest[k - 1] == writes[k]);
                    }
                }
            } else {
                let k = choose|k: int|
                    0 <= k < rest.len() && #[trigger] rest[k] == first_undeclared(
                        declared,
                        rest,
                    )->0 && (forall|i: int|
                        0 <= i < declared.len() ==> !((#[trigger] declared[i]).target_entity@
                            == rest[k].entity_type@ && declared[i].action@ == rest[k].action@));
                assert(writes[k + 1] == rest[k]);
            }
        } else {
            assert(writes[0] == first_undeclared(declared, writes)->0);
        }
    }
}

/// A write of a ref that says where the ref must point is carried out only where
/// it points there: at the commit that is named, or at none where that is the
/// zero commit. Other writes are not held to it.
pub proof fn a_ref_moves_only_from_where_it_was_expected(
    parent_entity_type: Seq<char>,
    parent_action: Seq<char>,
    idx: usize,
    entity_type: Seq<char>,
    entity_id: Seq<char>,
    action: Seq<char>,
    params: JsonModel,
    current: Option<Seq<char>>,
    expected: Seq<char>,
)
    requires
        member(params, "PreviousCommitSha"@) == Some(JsonModel::Text(expected)),
    ensures
        ({
            let writes_ref = entity_type == "Ref"@ && (action == "Create"@ || action == "Update"@
                || action == "Delete"@);
            let none = |s: Seq<char>|
                s.len() == 40 && (forall|i: int| 0 <= i < s.len() ==> #[trigger] s[i] == '0');
            stale_ref(
                parent_entity_type,
                parent_action,
                idx,
                entity_type,
                entity_id,
                action,
                params,
                current,
            ) is None <==> !writes_ref || current == Some(expected) || (none(expected) && (current
                is None || none(current->0)))
        }),
{
}

/// A write of a ref that says nothing of where the ref must point is not stale.
pub proof fn a_ref_without_an_expectation_is_not_stale(
    parent_entity_type: Seq<char>,
    parent_action: Seq<char>,
    idx: usize,
    entity_type: Seq<char>,
    entity_id: Seq<char>,
    action: Seq<char>,
    params: JsonModel,
    current: Option<Seq<char>>,
)
    requires
        member(params, "PreviousCommitSha"@) is None,
    ensures
        stale_ref(
            parent_entity_type,
            parent_action,
            idx,
            entity_type,
            entity_id,
            action,
            params,
            current,
        ) is None,
{
}

/// A ref points at the commit in its fields, where it exists, is not deleted and
/// names one.
pub proof fn a_ref_points_at_its_commit(
    existed: bool,
    status: Seq<char>,
    fields: JsonModel,
    commit: Seq<char>,
)
    ensures
        ref_target(existed, status, fields) == Some(commit) <==> existed && status != "Deleted"@
            && commit.len() > 0 && member(fields, "TargetCommitSha"@) == Some(
            JsonModel::Text(commit),
        ),
{
}

/// A policy sees of an entity that a sub-write creates what its parameters say,
/// its identifier and status where they say nothing of them, and always whether
/// its type has a spec, which no parameter can say.
pub proof fn a_policy_sees_what_will_be_created(
    entity_id: Seq<char>,
    params: Seq<(Seq<char>, JsonModel)>,
    initial_state: Seq<char>,
    has_spec: bool,
    name: Seq<char>,
)
    requires
        forall|i: int, j: int|
            0 <= i < j < params.len() ==> (#[trigger] params[i]).0 != (#[trigger] params[j]).0,
    ensures
        ({
            let attrs = JsonModel::Object(
                create_attrs(entity_id, JsonModel::Object(params), initial_state, has_spec),
            );
            let given = member(JsonModel::Object(params), name);
            &&& member(attrs, "has_spec"@) == Some(JsonModel::Bool(has_spec))
            &&& name != "has_spec"@ && given is Some ==> member(attrs, name) == given
            &&& name == "id"@ && given is None ==> member(attrs, name) == Some(
                JsonModel::Text(entity_id),
            )
            &&& name == "status"@ && given is None ==> member(attrs, name) == Some(
                JsonModel::Text(initial_state),
            )
            &&& name != "has_spec"@ && name != "id"@ && name != "status"@ ==> member(attrs, name)
                == given
        }),
{
    reveal_strlit("id");
    reveal_strlit("status");
    reveal_strlit("has_spec");
    assert("id"@.len() == 2 && "status"@.len() == 6 && "has_spec"@.len() == 8);
    let first = put_member(Seq::empty(), "id"@, JsonModel::Text(entity_id));
    let base = put_member(first, "status"@, JsonModel::Text(initial_state));
    let all = overlaid(base, params, params.len() as int);
    put_then_find(Seq::empty(), "id"@, JsonModel::Text(entity_id), name);
    put_then_find(first, "status"@, JsonModel::Text(initial_state), name);
    put_then_find(all, "has_spec"@, JsonModel::Bool(has_spec), name);
    crate::dispatch_actions::overlaid_members_are_found(base, params, params.len() as int, name);
}

/// Sub-writes are found under either of their names, the one in snake case
/// first.
pub proof fn sub_writes_are_found_under_either_name(
    params: &Json,
    r: Result<&Json, DispatchError>,
    has: bool,
)
    requires
        call_ensures(sub_writes_payload, (params,), r),
        call_ensures(has_sub_writes, (params,), has),
    ensures
        member(params@, "sub_writes"@) is Some ==> r is Ok && Some(r->Ok_0@) == member(
            params@,
            "sub_writes"@,
        ),
        member(params@, "sub_writes"@) is None && member(params@, "SubWrites"@) is Some ==> r is Ok
            && Some(r->Ok_0@) == member(params@, "SubWrites"@),
        has <==> r is Ok,
        has <==> member(params@, "sub_writes"@) is Some || member(params@, "SubWrites"@) is Some,
{
}

/// The caller of an action cannot supply its sub-writes.
pub proof fn a_caller_supplies_no_sub_writes(
    entity_type: &str,
    action: &str,
    params: &Json,
    r: Result<(), DispatchError>,
)
    requires
        call_ensures(reject_action_supplied_sub_writes, (entity_type, action, params), r),
    ensures
        r is Ok <==> member(params@, "sub_writes"@) is None && member(params@, "SubWrites"@) is None,
{
}

/// A rule counts for its own action only, and one with a guard on other entities
/// is enough.
pub proof fn one_guarded_rule_is_enough(
    rules: &Vec<GuardedRule>,
    action: &str,
    r: bool,
    at: int,
)
    requires
        call_ensures(table_has_cross_entity_guards_for_action, (rules, action), r),
        0 <= at < rules@.len(),
    ensures
        rules@[at].name@ == action@ && rules@[at].has_cross_guard ==> r,
        (forall|i: int|
            0 <= i < rules@.len() ==> (#[trigger] rules@[i]).name@ != action@
                || !rules@[i].has_cross_guard) ==> !r,
{
    if rules@[at].name@ == action@ && rules@[at].has_cross_guard {
        assert(rules@[at].name@ == action@);
    }
}

/// The objects of a pack are blobs, trees, commits and tags.
pub proof fn pack_objects_are_of_four_types(entity_type: &str, r: bool)
    requires
        call_ensures(is_pack_object_entity, (entity_type,), r),
    ensures
        r <==> entity_type@ == "Blob"@ || entity_type@ == "Tree"@ || entity_type@ == "Commit"@
            || entity_type@ == "Tag"@,
{
}

/// Only nothing, and a text, a list or an object without anything in it, is
/// empty.
pub proof fn a_flag_and_a_number_are_not_empty(value: &Json, r: bool)
    requires
        call_ensures(non_empty_json_value, (value,), r),
    ensures
        value@ is Null ==> !r,
        value@ is Bool || value@ is Number ==> r,
        value@ is Text ==> (r <==> value@->Text_0.len() > 0),
        value@ is Array ==> (r <==> value@->Array_0.len() > 0),
        value@ is Object ==> (r <==> value@->Object_0.len() > 0),
{
}

/// A batch goes by the key that it was given. Without one it goes by what its
/// result is, so that the same result has the same key.
pub proof fn a_given_key_is_kept(given: Option<&str>, text: &str, r: String)
    requires
        call_ensures(composite_parent_idempotency, (given, text), r),
    ensures
        given is Some ==> r@ == given->0@,
        given is None ==> r@.take("implicit:"@.len() as int)
            == "implicit:"@,
        given is None ==> r@.skip("implicit:"@.len() as int) == hex(
            sha256(encode_utf8("composite-integration-result:"@) + encode_utf8(text@)),
        ),
{
    let head = "implicit:"@;
    if given is None {
        let digest = sha256(encode_utf8("composite-integration-result:"@) + encode_utf8(text@));
        assert(r@.take(head.len() as int) =~= head);
        assert(r@.skip(head.len() as int) =~= hex(digest));
    }
}

/// A git object is complete only if its bytes are there.
pub proof fn a_complete_object_has_its_bytes(fields: &Json, r: bool)
    requires
        call_ensures(has_complete_git_object_payload, (fields,), r),
    ensures
        member(fields@, "CanonicalBytes"@) is None ==> !r,
        text_member(fields@, "CanonicalBytes"@) is Some ==> (r <==> text_member(
            fields@,
            "CanonicalBytes"@,
        )->0.len() > 0),
        member(fields@, "CanonicalBytes"@) is Some && member(fields@, "CanonicalBytes"@)->0 is Null
            ==> !r,
{
}

} // verus!
