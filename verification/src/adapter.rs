//! Native adapters: which one runs, what of its result is let through, and what
//! follows it.

use vstd::prelude::*;
use vstd::string::*;
use vstd::utf8::encode_utf8;

use crate::digest::hex;
use crate::digest::sha256;
use crate::digest::sha256_hex;
use crate::json::find_member;
use crate::json::member;
use crate::json::put_in;
use crate::json::put_member;
use crate::json::text_member;
use crate::json::Json;
use crate::json::JsonModel;
use crate::json::JsonNumber;
use crate::json::NumberModel;
use crate::ordered::ascending_is_unique;
use crate::ordered::is_text_before;
use crate::ordered::text_before;
use crate::ordered::OrdSet;
use crate::ordered::SortKey;
use crate::stream_migration::extend_bytes;
use crate::text::find_from;
use crate::text::found_is_first;
use crate::text::opt_str;
use crate::text::opt_text;
use crate::text::replace_all;
use crate::text::replaced;
use crate::text::same;
use crate::text::texts;
use crate::text::trim;
use crate::text::trimmed;
use crate::text::views;
use crate::time::rfc3339_text;
use crate::time::Timestamp;

verus! {

/// The most attempts to revoke a credential.
pub const ADAPTER_CREDENTIAL_REVOKE_ATTEMPTS: usize = 3;

/// A text that must not be shown. The longer one, in bytes, comes first.
#[derive(Clone, Debug, PartialEq, Eq)]
pub struct Hidden {
    pub text: String,
}

impl View for Hidden {
    type V = Seq<char>;

    open spec fn view(&self) -> Seq<char> {
        self.text@
    }
}

impl SortKey for Hidden {
    open spec fn before(a: Seq<char>, b: Seq<char>) -> bool {
        encode_utf8(a).len() > encode_utf8(b).len() || (encode_utf8(a).len() == encode_utf8(
            b,
        ).len() && text_before(a, b))
    }

    proof fn before_is_irreflexive(a: Seq<char>) {
        String::before_is_irreflexive(a);
    }

    proof fn before_is_transitive(a: Seq<char>, b: Seq<char>, c: Seq<char>) {
        if text_before(a, b) && text_before(b, c) {
            String::before_is_transitive(a, b, c);
        }
    }

    proof fn before_is_total(a: Seq<char>, b: Seq<char>) {
        String::before_is_total(a, b);
    }

    fn is_before(&self, other: &Self) -> (r: bool) {
        let n: usize = self.text.as_str().as_bytes().len();
        let m: usize = other.text.as_str().as_bytes().len();
        n > m || (n == m && is_text_before(self.text.as_str(), other.text.as_str()))
    }

    fn duplicate(&self) -> (r: Self) {
        Hidden { text: self.text.clone() }
    }
}

/// A text that is hidden, and what is shown for it.
#[derive(Clone, Debug, PartialEq, Eq)]
pub struct Redaction {
    pub secret: String,
    pub replacement: String,
}

impl View for Redaction {
    type V = (Seq<char>, Seq<char>);

    open spec fn view(&self) -> (Seq<char>, Seq<char>) {
        (self.secret@, self.replacement@)
    }
}

/// What is shown for a hidden text: the credential of the run has a mark of its
/// own.
pub open spec fn mark_for(text: Seq<char>, credential: Option<Seq<char>>) -> Seq<char> {
    if credential == Some(text) {
        "[REDACTED_ADAPTER_CREDENTIAL]"@
    } else {
        "[REDACTED_ADAPTER_SECRET]"@
    }
}

/// Whether a text is hidden: it is one of the secrets or the credential, and not
/// empty.
pub open spec fn is_hidden(
    text: Seq<char>,
    secrets: Seq<Seq<char>>,
    credential: Option<Seq<char>>,
) -> bool {
    text.len() > 0 && (secrets.contains(text) || credential == Some(text))
}

/// Whether `rs` are the redactions of a run: every hidden text once, the longest
/// first, each with its mark.
pub open spec fn redactions_of(
    rs: Seq<(Seq<char>, Seq<char>)>,
    secrets: Seq<Seq<char>>,
    credential: Option<Seq<char>>,
) -> bool {
    &&& forall|i: int, j: int|
        0 <= i < j < rs.len() ==> Hidden::before((#[trigger] rs[i]).0, (#[trigger] rs[j]).0)
    &&& forall|i: int|
        0 <= i < rs.len() ==> is_hidden((#[trigger] rs[i]).0, secrets, credential) && rs[i].1
            == mark_for(rs[i].0, credential)
    &&& forall|t: Seq<char>| #[trigger]
        is_hidden(t, secrets, credential) ==> exists|i: int|
            0 <= i < rs.len() && (#[trigger] rs[i]).0 == t
}

/// The texts that the output of an adapter is cleared of: the tenant's secrets
/// and the credential of the run, the longest first, so that no part of a
/// longer one is replaced before it.
pub fn adapter_redactions(secrets: &Vec<String>, agent_api_key: Option<&str>) -> (r: Vec<Redaction>)
    ensures
        redactions_of(views(r@), texts(secrets@), opt_str(agent_api_key)),
        redactable(views(r@)),
{
    let ghost all = texts(secrets@);
    let ghost key = opt_str(agent_api_key);
    let mut set: OrdSet<Hidden> = OrdSet::new();
    let mut i: usize = 0;
    while i < secrets.len()
        invariant
            i <= secrets.len(),
            all == texts(secrets@),
            set.wf(),
            forall|t: Seq<char>| #[trigger]
                set@.contains(t) == (t.len() > 0 && exists|k: int|
                    0 <= k < i && #[trigger] all[k] == t),
        decreases secrets.len() - i,
    {
        let ghost before = set@;
        proof {
            assert(all[i as int] == secrets@[i as int]@);
        }
        if !secrets[i].as_str().is_empty() {
            let _fresh = set.insert(Hidden { text: secrets[i].clone() });
            proof {
                assert forall|t: Seq<char>| #[trigger] set@.contains(t) == (t.len() > 0
                    && exists|k: int| 0 <= k < i + 1 && #[trigger] all[k] == t) by {
                    if set@.contains(t) && !before.contains(t) {
                        assert(all[i as int] == t);
                    }
                }
            }
        }
        i = i + 1;
    }
    proof {
        assert forall|t: Seq<char>| #[trigger] set@.contains(t) == (t.len() > 0 && all.contains(
            t,
        )) by {}
    }
    let ghost secrets_only = set@;
    match agent_api_key {
        Some(k) => {
            if !k.is_empty() {
                let _fresh = set.insert(Hidden { text: k.to_owned() });
            }
        },
        None => {},
    }
    proof {
        assert forall|t: Seq<char>| #[trigger] set@.contains(t) == is_hidden(t, all, key) by {
            assert(secrets_only.contains(t) == (t.len() > 0 && all.contains(t)));
        }
    }
    let ghost list = set.list();
    let mut out: Vec<Redaction> = Vec::new();
    let mut j: usize = 0;
    while j < set.items.len()
        invariant
            j <= set.items.len(),
            set.wf(),
            list == set.list(),
            key == opt_str(agent_api_key),
            out.len() == j,
            forall|t: Seq<char>| #[trigger] set@.contains(t) == is_hidden(t, all, key),
            forall|k: int|
                0 <= k < j ==> (#[trigger] out@[k])@ == (list[k], mark_for(list[k], key)),
        decreases set.items.len() - j,
    {
        let text = set.items[j].text.as_str();
        let is_credential = match agent_api_key {
            Some(k) => same(k, text),
            None => false,
        };
        let replacement = if is_credential {
            "[REDACTED_ADAPTER_CREDENTIAL]".to_owned()
        } else {
            "[REDACTED_ADAPTER_SECRET]".to_owned()
        };
        proof {
            assert(list[j as int] == set.items@[j as int]@);
        }
        out.push(Redaction { secret: text.to_owned(), replacement });
        j = j + 1;
    }
    proof {
        let rs = views(out@);
        assert forall|k: int| 0 <= k < rs.len() implies is_hidden((#[trigger] rs[k]).0, all, key)
            && rs[k].1 == mark_for(rs[k].0, key) by {
            assert(out@[k]@ == (list[k], mark_for(list[k], key)));
            assert(list.contains(list[k]));
            assert(set@.contains(list[k]));
        }
        assert forall|t: Seq<char>| #[trigger] is_hidden(t, all, key) implies exists|k: int|
            0 <= k < rs.len() && (#[trigger] rs[k]).0 == t by {
            assert(set@.contains(t));
            let k = list.index_of(t);
            assert(list[k] == t);
            assert(out@[k]@ == (list[k], mark_for(list[k], key)));
            assert(rs[k].0 == t);
        }
        assert forall|a: int, b: int| 0 <= a < b < rs.len() implies Hidden::before(
            (#[trigger] rs[a]).0,
            (#[trigger] rs[b]).0,
        ) by {
            assert(out@[a]@ == (list[a], mark_for(list[a], key)));
            assert(out@[b]@ == (list[b], mark_for(list[b], key)));
            assert(Hidden::before(list[a], list[b]));
        }
    }
    out
}

/// No redaction hides the empty text.
pub open spec fn redactable(redactions: Seq<(Seq<char>, Seq<char>)>) -> bool {
    forall|i: int| 0 <= i < redactions.len() ==> (#[trigger] redactions[i]).0.len() > 0
}

/// A text after the first `n` redactions, one after the other.
pub open spec fn redacted(
    text: Seq<char>,
    redactions: Seq<(Seq<char>, Seq<char>)>,
    n: int,
) -> Seq<char>
    decreases n,
{
    if n <= 0 {
        text
    } else {
        replaced(redacted(text, redactions, n - 1), redactions[n - 1].0, redactions[n - 1].1)
    }
}

/// A text after all redactions.
pub open spec fn clear(text: Seq<char>, redactions: Seq<(Seq<char>, Seq<char>)>) -> Seq<char> {
    redacted(text, redactions, redactions.len() as int)
}

/// Clears a text.
pub fn redact_adapter_text(text: &str, redactions: &Vec<Redaction>) -> (r: String)
    requires
        redactable(views(redactions@)),
    ensures
        r@ == clear(text@, views(redactions@)),
{
    let ghost all = views(redactions@);
    let mut out = text.to_owned();
    let mut i: usize = 0;
    while i < redactions.len()
        invariant
            i <= redactions.len(),
            all == views(redactions@),
            redactable(all),
            out@ == redacted(text@, all, i as int),
        decreases redactions.len() - i,
    {
        proof {
            assert(all[i as int] == redactions@[i as int]@);
        }
        out = replace_all(
            out.as_str(),
            redactions[i].secret.as_str(),
            redactions[i].replacement.as_str(),
        );
        i = i + 1;
    }
    out
}

/// A value after all redactions: its texts are cleared, and the names of its
/// members too.
pub open spec fn clear_json(j: JsonModel, redactions: Seq<(Seq<char>, Seq<char>)>) -> JsonModel
    decreases j, 0nat,
{
    match j {
        JsonModel::Text(s) => JsonModel::Text(clear(s, redactions)),
        JsonModel::Array(items) => JsonModel::Array(
            Seq::new(
                items.len(),
                |i: int|
                    if 0 <= i < items.len() {
                        clear_json(items[i], redactions)
                    } else {
                        JsonModel::Null
                    },
            ),
        ),
        JsonModel::Object(members) => JsonModel::Object(
            clear_members(members, redactions, members.len()),
        ),
        _ => j,
    }
}

/// The first `n` members after all redactions; of two whose names become the
/// same, the later one stays.
pub open spec fn clear_members(
    members: Seq<(Seq<char>, JsonModel)>,
    redactions: Seq<(Seq<char>, Seq<char>)>,
    n: nat,
) -> Seq<(Seq<char>, JsonModel)>
    decreases members, n,
{
    if n == 0 || n > members.len() {
        Seq::empty()
    } else {
        put_member(
            clear_members(members, redactions, (n - 1) as nat),
            clear(members[n - 1].0, redactions),
            clear_json(members[n - 1].1, redactions),
        )
    }
}

/// Clears a value.
pub fn redact_adapter_json(value: &Json, redactions: &Vec<Redaction>) -> (r: Json)
    requires
        redactable(views(redactions@)),
    ensures
        r@ == clear_json(value@, views(redactions@)),
    decreases value,
{
    let ghost rs = views(redactions@);
    match value {
        Json::Text(s) => Json::Text(redact_adapter_text(s.as_str(), redactions)),
        Json::Array(items) => {
            let mut out: Vec<Json> = Vec::new();
            let mut i: usize = 0;
            while i < items.len()
                invariant
                    i <= items.len(),
                    *value == Json::Array(*items),
                    rs == views(redactions@),
                    redactable(rs),
                    out.len() == i,
                    forall|k: int|
                        0 <= k < i ==> (#[trigger] out@[k])@ == clear_json(items@[k]@, rs),
                decreases items.len() - i,
            {
                let item = &items[i];
                proof {
                    assert(value->Array_0 == *items);
                    assert(decreases_to!(*items => items@[i as int]));
                }
                out.push(redact_adapter_json(item, redactions));
                i = i + 1;
            }
            let r = Json::Array(out);
            proof {
                crate::json::model_of_parts(r);
                crate::json::model_of_parts(*value);
                let before = value@->Array_0;
                assert forall|k: int| 0 <= k < before.len() implies before[k] == items@[k]@ by {}
                assert(r@->Array_0 =~= clear_json(value@, rs)->Array_0);
            }
            r
        },
        Json::Object(members) => {
            let ghost before = crate::json::members_model(members@);
            proof {
                crate::json::model_of_parts(*value);
            }
            let mut out: Vec<(String, Json)> = Vec::new();
            let mut i: usize = 0;
            proof {
                assert(crate::json::members_model(out@) =~= Seq::<(Seq<char>, JsonModel)>::empty());
            }
            while i < members.len()
                invariant
                    i <= members.len(),
                    *value == Json::Object(*members),
                    before == crate::json::members_model(members@),
                    rs == views(redactions@),
                    redactable(rs),
                    crate::json::members_model(out@) == clear_members(before, rs, i as nat),
                decreases members.len() - i,
            {
                let entry = &members[i].1;
                proof {
                    assert(value->Object_0 == *members);
                    assert(decreases_to!(*members => members@[i as int]));
                    assert(before[i as int] == (members@[i as int].0@, members@[i as int].1@));
                }
                let cleared = redact_adapter_json(entry, redactions);
                let name = redact_adapter_text(members[i].0.as_str(), redactions);
                put_in(&mut out, name.as_str(), cleared);
                i = i + 1;
            }
            let r = Json::Object(out);
            proof {
                crate::json::model_of_parts(r);
            }
            r
        },
        Json::Null => Json::Null,
        Json::Bool(b) => Json::Bool(*b),
        Json::Number(n) => Json::Number(n.copy()),
    }
}

/// What an adapter gives back.
#[derive(Debug, PartialEq, Eq)]
pub struct AdapterResult {
    pub success: bool,
    pub callback_action: Option<String>,
    pub callback_params: Json,
    pub error: Option<String>,
    pub duration_ms: u64,
}

/// What an [`AdapterResult`] holds.
pub struct AdapterResultModel {
    pub success: bool,
    pub callback_action: Option<Seq<char>>,
    pub callback_params: JsonModel,
    pub error: Option<Seq<char>>,
    pub duration_ms: u64,
}

impl View for AdapterResult {
    type V = AdapterResultModel;

    open spec fn view(&self) -> AdapterResultModel {
        AdapterResultModel {
            success: self.success,
            callback_action: opt_text(self.callback_action),
            callback_params: self.callback_params@,
            error: opt_text(self.error),
            duration_ms: self.duration_ms,
        }
    }
}

/// How an adapter fails.
#[derive(Clone, Debug, PartialEq, Eq)]
pub enum AdapterError {
    Invocation(String),
    Execution(String),
    Parse(String),
}

/// What an [`AdapterError`] holds.
pub enum AdapterErrorModel {
    Invocation(Seq<char>),
    Execution(Seq<char>),
    Parse(Seq<char>),
}

impl View for AdapterError {
    type V = AdapterErrorModel;

    open spec fn view(&self) -> AdapterErrorModel {
        match self {
            Self::Invocation(s) => AdapterErrorModel::Invocation(s@),
            Self::Execution(s) => AdapterErrorModel::Execution(s@),
            Self::Parse(s) => AdapterErrorModel::Parse(s@),
        }
    }
}

/// What an execution gives.
pub open spec fn execution(r: Result<AdapterResult, AdapterError>) -> Result<
    AdapterResultModel,
    AdapterErrorModel,
> {
    match r {
        Ok(v) => Ok(v@),
        Err(e) => Err(e@),
    }
}

pub open spec fn clear_opt(t: Option<Seq<char>>, rs: Seq<(Seq<char>, Seq<char>)>) -> Option<
    Seq<char>,
> {
    match t {
        Some(s) => Some(clear(s, rs)),
        None => None,
    }
}

/// An execution after all redactions.
pub open spec fn clear_execution(
    e: Result<AdapterResultModel, AdapterErrorModel>,
    rs: Seq<(Seq<char>, Seq<char>)>,
) -> Result<AdapterResultModel, AdapterErrorModel> {
    if rs.len() == 0 {
        e
    } else {
        match e {
            Ok(v) => Ok(
                AdapterResultModel {
                    callback_action: clear_opt(v.callback_action, rs),
                    callback_params: clear_json(v.callback_params, rs),
                    error: clear_opt(v.error, rs),
                    ..v
                },
            ),
            Err(AdapterErrorModel::Invocation(s)) => Err(
                AdapterErrorModel::Invocation(clear(s, rs)),
            ),
            Err(AdapterErrorModel::Execution(s)) => Err(AdapterErrorModel::Execution(clear(s, rs))),
            Err(AdapterErrorModel::Parse(s)) => Err(AdapterErrorModel::Parse(clear(s, rs))),
        }
    }
}

fn redact_opt(text: &Option<String>, redactions: &Vec<Redaction>) -> (r: Option<String>)
    requires
        redactable(views(redactions@)),
    ensures
        opt_text(r) == clear_opt(opt_text(*text), views(redactions@)),
{
    match text {
        Some(s) => Some(redact_adapter_text(s.as_str(), redactions)),
        None => None,
    }
}

/// Clears what an adapter gave back.
pub fn redact_adapter_execution(
    outcome: Result<AdapterResult, AdapterError>,
    redactions: &Vec<Redaction>,
) -> (r: Result<AdapterResult, AdapterError>)
    requires
        redactable(views(redactions@)),
    ensures
        execution(r) == clear_execution(execution(outcome), views(redactions@)),
{
    proof {
        assert(views(redactions@).len() == redactions@.len());
    }
    if redactions.len() == 0 {
        return outcome;
    }
    match outcome {
        Ok(v) => Ok(
            AdapterResult {
                success: v.success,
                callback_action: redact_opt(&v.callback_action, redactions),
                callback_params: redact_adapter_json(&v.callback_params, redactions),
                error: redact_opt(&v.error, redactions),
                duration_ms: v.duration_ms,
            },
        ),
        Err(AdapterError::Invocation(s)) => Err(
            AdapterError::Invocation(redact_adapter_text(s.as_str(), redactions)),
        ),
        Err(AdapterError::Execution(s)) => Err(
            AdapterError::Execution(redact_adapter_text(s.as_str(), redactions)),
        ),
        Err(AdapterError::Parse(s)) => Err(
            AdapterError::Parse(redact_adapter_text(s.as_str(), redactions)),
        ),
    }
}

/// How a run of an adapter ended.
#[derive(Debug, PartialEq, Eq)]
pub enum AdapterRun {
    Finished(Result<AdapterResult, AdapterError>),
    TimedOut,
    Panicked,
}

/// What a run of an adapter gives.
pub open spec fn run_result(run: AdapterRun) -> Result<AdapterResultModel, AdapterErrorModel> {
    match run {
        AdapterRun::Finished(r) => execution(r),
        AdapterRun::TimedOut => Err(
            AdapterErrorModel::Execution("adapter invocation exceeded its 3600-second budget"@),
        ),
        AdapterRun::Panicked => Err(AdapterErrorModel::Execution("adapter invocation panicked"@)),
    }
}

/// What a run of an adapter gives, cleared of the secrets and of the credential
/// that it was given.
pub fn execute_adapter_with_budget(
    run: AdapterRun,
    secrets: &Vec<String>,
    agent_api_key: Option<&str>,
) -> (r: Result<AdapterResult, AdapterError>)
    ensures
        exists|rs: Seq<(Seq<char>, Seq<char>)>| #[trigger]
            redactions_of(rs, texts(secrets@), opt_str(agent_api_key)) && execution(r)
                == clear_execution(run_result(run), rs),
{
    let redactions = adapter_redactions(secrets, agent_api_key);
    let outcome = match run {
        AdapterRun::Finished(r) => r,
        AdapterRun::TimedOut => Err(
            AdapterError::Execution(
                "adapter invocation exceeded its 3600-second budget".to_owned(),
            ),
        ),
        AdapterRun::Panicked => Err(
            AdapterError::Execution("adapter invocation panicked".to_owned()),
        ),
    };
    redact_adapter_execution(outcome, &redactions)
}

/// Whether `p` occurs in `s`.
pub open spec fn occurs(s: Seq<char>, p: Seq<char>) -> bool {
    find_from(s, p, 0) is Some
}

/// Whether `p` and the mark `m` have nothing in common: neither is part of the
/// other, and neither begins with what the other ends in.
pub open spec fn apart(p: Seq<char>, m: Seq<char>) -> bool {
    &&& p.len() > 0
    &&& m.len() > 0
    &&& !occurs(m, p)
    &&& !occurs(p, m)
    &&& forall|k: int|
        0 < k < p.len() && k < m.len() ==> p.skip(p.len() - k) != #[trigger] m.take(k)
    &&& forall|k: int|
        0 < k < p.len() && k < m.len() ==> #[trigger] p.take(k) != m.skip(m.len() - k)
}

proof fn occurs_at(s: Seq<char>, p: Seq<char>, k: int)
    requires
        0 <= k,
        k + p.len() <= s.len(),
        s.subrange(k, k + p.len()) == p,
    ensures
        occurs(s, p),
{
    found_is_first(s, p, 0);
}

proof fn absent_from_join(a: Seq<char>, m: Seq<char>, b: Seq<char>, p: Seq<char>)
    requires
        apart(p, m),
        !occurs(a, p),
        !occurs(b, p),
    ensures
        !occurs(a + m + b, p),
{
    let s = a + m + b;
    found_is_first(s, p, 0);
    if occurs(s, p) {
        let k = find_from(s, p, 0)->0;
        let n = p.len() as int;
        let x = s.subrange(k, k + n);
        if k + n <= a.len() {
            assert(a.subrange(k, k + n) =~= x);
            occurs_at(a, p, k);
        } else if k >= a.len() + m.len() {
            let j = k - a.len() - m.len();
            assert(b.subrange(j, j + n) =~= x);
            occurs_at(b, p, j);
        } else if a.len() <= k && k + n <= a.len() + m.len() {
            let j = k - a.len();
            assert(m.subrange(j, j + n) =~= x);
            occurs_at(m, p, j);
        } else if k <= a.len() && a.len() + m.len() <= k + n {
            let j = a.len() - k;
            assert(p.subrange(j, j + m.len()) =~= m);
            occurs_at(p, m, j);
        } else if k < a.len() {
            let t = k + n - a.len();
            assert(p.skip(n - t) =~= m.take(t));
        } else {
            let t = a.len() + m.len() - k;
            assert(p.take(t) =~= m.skip(m.len() - t));
        }
    }
}

proof fn absent_from_part(s: Seq<char>, p: Seq<char>, i: int, j: int)
    requires
        p.len() > 0,
        0 <= i <= j <= s.len(),
        forall|k: int|
            i <= k && k + p.len() <= j ==> #[trigger] s.subrange(k, k + p.len()) != p,
    ensures
        !occurs(s.subrange(i, j), p),
{
    let t = s.subrange(i, j);
    found_is_first(t, p, 0);
    if occurs(t, p) {
        let k = find_from(t, p, 0)->0;
        assert(t.subrange(k, k + p.len()) =~= s.subrange(i + k, i + k + p.len()));
    }
}

proof fn replacing_removes(s: Seq<char>, p: Seq<char>, m: Seq<char>)
    requires
        apart(p, m),
    ensures
        !occurs(replaced(s, p, m), p),
    decreases s.len(),
{
    found_is_first(s, p, 0);
    if occurs(s, p) {
        let i = find_from(s, p, 0)->0;
        let tail = s.skip(i + p.len());
        replacing_removes(tail, p, m);
        absent_from_part(s, p, 0, i);
        assert(s.subrange(0, i) =~= s.take(i));
        absent_from_join(s.take(i), m, replaced(tail, p, m), p);
    }
}

proof fn replacing_keeps_absent(s: Seq<char>, q: Seq<char>, m: Seq<char>, p: Seq<char>)
    requires
        apart(p, m),
        q.len() > 0,
        !occurs(s, p),
    ensures
        !occurs(replaced(s, q, m), p),
    decreases s.len(),
{
    found_is_first(s, q, 0);
    found_is_first(s, p, 0);
    if occurs(s, q) {
        let i = find_from(s, q, 0)->0;
        let tail = s.skip(i + q.len());
        absent_from_part(s, p, 0, i);
        assert(s.subrange(0, i) =~= s.take(i));
        absent_from_part(s, p, i + q.len(), s.len() as int);
        assert(s.subrange(i + q.len(), s.len() as int) =~= tail);
        replacing_keeps_absent(tail, q, m, p);
        absent_from_join(s.take(i), m, replaced(tail, q, m), p);
    }
}

proof fn survives_up_to(text: Seq<char>, rs: Seq<(Seq<char>, Seq<char>)>, i: int, n: int)
    requires
        0 <= i < n <= rs.len(),
        redactable(rs),
        forall|k: int| i <= k < rs.len() ==> apart(rs[i].0, (#[trigger] rs[k]).1),
    ensures
        !occurs(redacted(text, rs, n), rs[i].0),
    decreases n,
{
    let before = redacted(text, rs, n - 1);
    let (q, m) = rs[n - 1];
    assert(apart(rs[i].0, rs[n - 1].1));
    if i == n - 1 {
        replacing_removes(before, q, m);
    } else {
        survives_up_to(text, rs, i, n - 1);
        assert(rs[n - 1].0.len() > 0);
        replacing_keeps_absent(before, q, m, rs[i].0);
    }
}

/// Whether a secret has nothing in common with the marks that stand for secrets.
pub open spec fn apart_from_marks(secret: Seq<char>) -> bool {
    apart(secret, "[REDACTED_ADAPTER_CREDENTIAL]"@) && apart(
        secret,
        "[REDACTED_ADAPTER_SECRET]"@,
    )
}

/// No secret survives redaction: one that has nothing in common with the marks
/// does not occur in a text that was cleared, whatever the other secrets are.
pub proof fn no_secret_survives_redaction(
    text: Seq<char>,
    rs: Seq<(Seq<char>, Seq<char>)>,
    secrets: Seq<Seq<char>>,
    credential: Option<Seq<char>>,
    secret: Seq<char>,
)
    requires
        redactions_of(rs, secrets, credential),
        is_hidden(secret, secrets, credential),
        apart_from_marks(secret),
    ensures
        !occurs(clear(text, rs), secret),
{
    let i = choose|i: int| 0 <= i < rs.len() && (#[trigger] rs[i]).0 == secret;
    assert forall|k: int| i <= k < rs.len() implies apart(rs[i].0, (#[trigger] rs[k]).1) by {
        assert(rs[k].1 == mark_for(rs[k].0, credential));
    }
    assert(redactable(rs)) by {
        assert forall|k: int| 0 <= k < rs.len() implies (#[trigger] rs[k]).0.len() > 0 by {
            assert(is_hidden(rs[k].0, secrets, credential));
        }
    }
    survives_up_to(text, rs, i, rs.len() as int);
}

/// Whether a value shows `p`: in a text, or in the name of a member.
pub open spec fn shows(j: JsonModel, p: Seq<char>) -> bool
    decreases j,
{
    match j {
        JsonModel::Text(s) => occurs(s, p),
        JsonModel::Array(items) => exists|i: int|
            0 <= i < items.len() && shows(#[trigger] items[i], p),
        JsonModel::Object(members) => exists|i: int|
            0 <= i < members.len() && (occurs((#[trigger] members[i]).0, p) || shows(
                members[i].1,
                p,
            )),
        _ => false,
    }
}

/// Whether a member shows `p`.
pub open spec fn member_shows(m: (Seq<char>, JsonModel), p: Seq<char>) -> bool {
    occurs(m.0, p) || shows(m.1, p)
}

proof fn put_member_shows_no_more(
    s: Seq<(Seq<char>, JsonModel)>,
    name: Seq<char>,
    value: JsonModel,
    p: Seq<char>,
)
    requires
        forall|i: int| 0 <= i < s.len() ==> !member_shows(#[trigger] s[i], p),
        !member_shows((name, value), p),
    ensures
        forall|i: int|
            0 <= i < put_member(s, name, value).len() ==> !member_shows(
                #[trigger] put_member(s, name, value)[i],
                p,
            ),
    decreases s.len(),
{
    let out = put_member(s, name, value);
    if s.len() > 0 {
        let rest = s.drop_first();
        assert forall|i: int| 0 <= i < rest.len() implies !member_shows(#[trigger] rest[i], p) by {
            assert(rest[i] == s[i + 1]);
        }
        put_member_shows_no_more(rest, name, value, p);
        assert forall|i: int| 0 <= i < out.len() implies !member_shows(#[trigger] out[i], p) by {
            if s[0].0 == name {
                if i > 0 {
                    assert(out[i] == s[i]);
                }
            } else if text_before(name, s[0].0) {
                if i > 0 {
                    assert(out[i] == s[i - 1]);
                }
            } else if i == 0 {
                assert(out[0] == s[0]);
            } else {
                assert(out[i] == put_member(rest, name, value)[i - 1]);
            }
        }
    }
}

/// No secret survives in a value that was cleared, in its texts or in the names
/// of its members.
pub proof fn no_secret_survives_in_json(
    j: JsonModel,
    rs: Seq<(Seq<char>, Seq<char>)>,
    secrets: Seq<Seq<char>>,
    credential: Option<Seq<char>>,
    secret: Seq<char>,
)
    requires
        redactions_of(rs, secrets, credential),
        is_hidden(secret, secrets, credential),
        apart_from_marks(secret),
    ensures
        !shows(clear_json(j, rs), secret),
    decreases j, 1nat,
{
    match j {
        JsonModel::Text(s) => {
            no_secret_survives_redaction(s, rs, secrets, credential, secret);
        },
        JsonModel::Array(items) => {
            let out = clear_json(j, rs)->Array_0;
            assert forall|i: int| 0 <= i < out.len() implies !shows(#[trigger] out[i], secret) by {
                assert(out[i] == clear_json(items[i], rs));
                assert(decreases_to!(j => items[i]));
                no_secret_survives_in_json(items[i], rs, secrets, credential, secret);
            }
        },
        JsonModel::Object(members) => {
            no_secret_survives_in_members(j, members.len(), rs, secrets, credential, secret);
            let out = clear_members(members, rs, members.len());
            assert(clear_json(j, rs) == JsonModel::Object(out));
            assert forall|i: int| 0 <= i < out.len() implies !(occurs(
                (#[trigger] out[i]).0,
                secret,
            ) || shows(out[i].1, secret)) by {
                assert(!member_shows(out[i], secret));
            }
        },
        _ => {},
    }
}

proof fn no_secret_survives_in_members(
    j: JsonModel,
    n: nat,
    rs: Seq<(Seq<char>, Seq<char>)>,
    secrets: Seq<Seq<char>>,
    credential: Option<Seq<char>>,
    secret: Seq<char>,
)
    requires
        j is Object,
        n <= j->Object_0.len(),
        redactions_of(rs, secrets, credential),
        is_hidden(secret, secrets, credential),
        apart_from_marks(secret),
    ensures
        forall|i: int|
            0 <= i < clear_members(j->Object_0, rs, n).len() ==> !member_shows(
                #[trigger] clear_members(j->Object_0, rs, n)[i],
                secret,
            ),
    decreases j, 0nat, n,
{
    let members = j->Object_0;
    if n > 0 {
        no_secret_survives_in_members(j, (n - 1) as nat, rs, secrets, credential, secret);
        no_secret_survives_redaction(members[n - 1].0, rs, secrets, credential, secret);
        assert(decreases_to!(j => members[n - 1].1));
        no_secret_survives_in_json(members[n - 1].1, rs, secrets, credential, secret);
        put_member_shows_no_more(
            clear_members(members, rs, (n - 1) as nat),
            clear(members[n - 1].0, rs),
            clear_json(members[n - 1].1, rs),
            secret,
        );
    }
}

/// Whether what a run of an adapter gives shows `p`.
pub open spec fn execution_shows(
    e: Result<AdapterResultModel, AdapterErrorModel>,
    p: Seq<char>,
) -> bool {
    match e {
        Ok(v) => {
            ||| v.callback_action is Some && occurs(v.callback_action->0, p)
            ||| v.error is Some && occurs(v.error->0, p)
            ||| shows(v.callback_params, p)
        },
        Err(AdapterErrorModel::Invocation(s)) => occurs(s, p),
        Err(AdapterErrorModel::Execution(s)) => occurs(s, p),
        Err(AdapterErrorModel::Parse(s)) => occurs(s, p),
    }
}

/// No secret leaves a run of an adapter: neither in its result nor in its error.
pub proof fn no_secret_leaves_a_run(
    e: Result<AdapterResultModel, AdapterErrorModel>,
    rs: Seq<(Seq<char>, Seq<char>)>,
    secrets: Seq<Seq<char>>,
    credential: Option<Seq<char>>,
    secret: Seq<char>,
)
    requires
        redactions_of(rs, secrets, credential),
        is_hidden(secret, secrets, credential),
        apart_from_marks(secret),
    ensures
        !execution_shows(clear_execution(e, rs), secret),
{
    let i = choose|i: int| 0 <= i < rs.len() && (#[trigger] rs[i]).0 == secret;
    assert(rs.len() > 0);
    match e {
        Ok(v) => {
            if v.callback_action is Some {
                no_secret_survives_redaction(
                    v.callback_action->0,
                    rs,
                    secrets,
                    credential,
                    secret,
                );
            }
            if v.error is Some {
                no_secret_survives_redaction(v.error->0, rs, secrets, credential, secret);
            }
            no_secret_survives_in_json(v.callback_params, rs, secrets, credential, secret);
        },
        Err(AdapterErrorModel::Invocation(s)) => {
            no_secret_survives_redaction(s, rs, secrets, credential, secret);
        },
        Err(AdapterErrorModel::Execution(s)) => {
            no_secret_survives_redaction(s, rs, secrets, credential, secret);
        },
        Err(AdapterErrorModel::Parse(s)) => {
            no_secret_survives_redaction(s, rs, secrets, credential, secret);
        },
    }
}

/// The secrets and the credential of a run determine its redactions.
pub proof fn redactions_are_determined(
    rs: Seq<(Seq<char>, Seq<char>)>,
    qs: Seq<(Seq<char>, Seq<char>)>,
    secrets: Seq<Seq<char>>,
    credential: Option<Seq<char>>,
)
    requires
        redactions_of(rs, secrets, credential),
        redactions_of(qs, secrets, credential),
    ensures
        rs == qs,
{
    let first = |r: (Seq<char>, Seq<char>)| r.0;
    let a = rs.map_values(first);
    let b = qs.map_values(first);
    assert forall|i: int, j: int| 0 <= i < j < a.len() implies Hidden::before(
        #[trigger] a[i],
        #[trigger] a[j],
    ) by {
        assert(Hidden::before(rs[i].0, rs[j].0));
    }
    assert forall|i: int, j: int| 0 <= i < j < b.len() implies Hidden::before(
        #[trigger] b[i],
        #[trigger] b[j],
    ) by {
        assert(Hidden::before(qs[i].0, qs[j].0));
    }
    assert(a.to_set() =~= b.to_set()) by {
        assert forall|t: Seq<char>| a.to_set().contains(t) == b.to_set().contains(t) by {
            if a.contains(t) {
                let i = choose|i: int| 0 <= i < a.len() && a[i] == t;
                assert(is_hidden(rs[i].0, secrets, credential));
                let k = choose|k: int| 0 <= k < qs.len() && (#[trigger] qs[k]).0 == t;
                assert(b[k] == t);
            }
            if b.contains(t) {
                let i = choose|i: int| 0 <= i < b.len() && b[i] == t;
                assert(is_hidden(qs[i].0, secrets, credential));
                let k = choose|k: int| 0 <= k < rs.len() && (#[trigger] rs[k]).0 == t;
                assert(a[k] == t);
            }
        }
    }
    ascending_is_unique::<Hidden>(a, b);
    assert(rs.len() == qs.len());
    assert forall|i: int| 0 <= i < rs.len() implies rs[i] == qs[i] by {
        assert(a[i] == b[i]);
        assert(rs[i].1 == mark_for(rs[i].0, credential));
        assert(qs[i].1 == mark_for(qs[i].0, credential));
    }
    assert(rs =~= qs);
}

/// A secret without brackets that is not part of a mark has nothing in common
/// with it.
pub proof fn a_plain_secret_is_apart(secret: Seq<char>)
    requires
        secret.len() > 0,
        forall|i: int| 0 <= i < secret.len() ==> #[trigger] secret[i] != '[' && secret[i] != ']',
        !occurs("[REDACTED_ADAPTER_CREDENTIAL]"@, secret),
        !occurs("[REDACTED_ADAPTER_SECRET]"@, secret),
    ensures
        apart_from_marks(secret),
{
    reveal_strlit("[REDACTED_ADAPTER_CREDENTIAL]");
    reveal_strlit("[REDACTED_ADAPTER_SECRET]");
    plain_is_apart(secret, "[REDACTED_ADAPTER_CREDENTIAL]"@);
    plain_is_apart(secret, "[REDACTED_ADAPTER_SECRET]"@);
}

proof fn plain_is_apart(p: Seq<char>, m: Seq<char>)
    requires
        p.len() > 0,
        forall|i: int| 0 <= i < p.len() ==> #[trigger] p[i] != '[' && p[i] != ']',
        m.len() > 0,
        m[0] == '[',
        m.last() == ']',
        !occurs(m, p),
    ensures
        apart(p, m),
{
    found_is_first(p, m, 0);
    if occurs(p, m) {
        let i = find_from(p, m, 0)->0;
        assert(p.subrange(i, i + m.len())[0] == p[i]);
    }
    assert forall|k: int| 0 < k < p.len() && k < m.len() implies p.skip(p.len() - k)
        != #[trigger] m.take(k) by {
        assert(p.skip(p.len() - k)[0] == p[p.len() - k]);
        assert(m.take(k)[0] == m[0]);
    }
    assert forall|k: int| 0 < k < p.len() && k < m.len() implies #[trigger] p.take(k) != m.skip(
        m.len() - k,
    ) by {
        assert(p.take(k).last() == p[k - 1]);
        assert(m.skip(m.len() - k).last() == m.last());
    }
}

/// An integration of a type with an adapter.
#[derive(Clone, Debug, PartialEq, Eq)]
pub struct AdapterIntegration {
    pub name: String,
    pub is_adapter: bool,
    pub trigger: String,
    pub adapter: Option<String>,
    pub adapter_type: Option<String>,
    pub on_success: Option<String>,
    pub on_failure: Option<String>,
}

/// The first adapter integration that an effect triggers.
pub open spec fn triggered(integrations: Seq<AdapterIntegration>, effect: Seq<char>) -> Option<int>
    decreases integrations.len(),
{
    if integrations.len() == 0 {
        None
    } else if integrations[0].is_adapter && integrations[0].trigger@ == effect {
        Some(0)
    } else {
        match triggered(integrations.drop_first(), effect) {
            Some(i) => Some(i + 1),
            None => None,
        }
    }
}

proof fn triggered_at(integrations: Seq<AdapterIntegration>, effect: Seq<char>, n: int)
    requires
        0 <= n <= integrations.len(),
        forall|k: int|
            0 <= k < n ==> !((#[trigger] integrations[k]).is_adapter && integrations[k].trigger@
                == effect),
    ensures
        triggered(integrations, effect) == match triggered(integrations.skip(n), effect) {
            Some(i) => Some(i + n),
            None => None::<int>,
        },
    decreases n,
{
    if n == 0 {
        assert(integrations.skip(0) =~= integrations);
    } else {
        let rest = integrations.drop_first();
        assert forall|k: int| 0 <= k < n - 1 implies !((#[trigger] rest[k]).is_adapter
            && rest[k].trigger@ == effect) by {
            assert(rest[k] == integrations[k + 1]);
        }
        triggered_at(rest, effect, n - 1);
        assert(rest.skip(n - 1) =~= integrations.skip(n));
        assert(!(integrations[0].is_adapter && integrations[0].trigger@ == effect));
    }
}

/// The place of the first adapter integration that an effect triggers.
pub fn find_triggered(integrations: &Vec<AdapterIntegration>, effect: &str) -> (r: Option<usize>)
    ensures
        match r {
            Some(i) => triggered(integrations@, effect@) == Some(i as int) && i
                < integrations.len(),
            None => triggered(integrations@, effect@) is None,
        },
{
    let mut i: usize = 0;
    while i < integrations.len()
        invariant
            i <= integrations.len(),
            forall|k: int|
                0 <= k < i ==> !((#[trigger] integrations@[k]).is_adapter
                    && integrations@[k].trigger@ == effect@),
        decreases integrations.len() - i,
    {
        if integrations[i].is_adapter && same(integrations[i].trigger.as_str(), effect) {
            proof {
                triggered_at(integrations@, effect@, i as int);
                assert(integrations@.skip(i as int)[0] == integrations@[i as int]);
            }
            return Some(i);
        }
        i = i + 1;
    }
    proof {
        triggered_at(integrations@, effect@, integrations@.len() as int);
        assert(integrations@.skip(integrations@.len() as int).len() == 0);
    }
    None
}

/// The text of the field `name`, without white space around it; none where it is
/// empty.
pub open spec fn trimmed_field(fields: JsonModel, name: Seq<char>) -> Option<Seq<char>> {
    match text_member(fields, name) {
        Some(s) => if trimmed(s).len() > 0 {
            Some(trimmed(s))
        } else {
            None
        },
        None => None,
    }
}

/// The text of the field `name`, without white space around it.
pub fn trimmed_field_of(fields: &Json, name: &str) -> (r: Option<String>)
    ensures
        opt_text(r) == trimmed_field(fields@, name@),
{
    match fields.get_text(name) {
        Some(s) => {
            let t = trim(s);
            if t.as_str().is_empty() {
                None
            } else {
                Some(t)
            }
        },
        None => None,
    }
}

/// Which adapter runs: the one that the entity names, else the one that the
/// integration names under either of its keys.
pub open spec fn chosen_adapter(fields: JsonModel, i: AdapterIntegration) -> Result<
    Seq<char>,
    Seq<char>,
> {
    match trimmed_field(fields, "adapter_type"@) {
        Some(a) => Ok(a),
        None => match (i.adapter, i.adapter_type) {
            (Some(a), _) => Ok(a@),
            (None, Some(a)) => Ok(a@),
            (None, None) => Err(
                "adapter integration '"@ + i.name@ + "' is missing required config key 'adapter'"@,
            ),
        },
    }
}

/// Which adapter runs.
pub fn choose_adapter(fields: &Json, integration: &AdapterIntegration) -> (r: Result<
    String,
    String,
>)
    ensures
        crate::text::outcome(r) == chosen_adapter(fields@, *integration),
{
    match trimmed_field_of(fields, "adapter_type") {
        Some(a) => return Ok(a),
        None => {},
    }
    match (&integration.adapter, &integration.adapter_type) {
        (Some(a), _) => Ok(a.clone()),
        (None, Some(a)) => Ok(a.clone()),
        (None, None) => {
            let mut text = "adapter integration '".to_owned();
            text.append(integration.name.as_str());
            text.append("' is missing required config key 'adapter'");
            Err(text)
        },
    }
}

/// The parameters of a callback after a success: those that the adapter gave,
/// with the time that it took, and its error, where it did not give them; what
/// is not an object becomes the result.
pub open spec fn success_params(r: AdapterResultModel) -> JsonModel {
    match r.callback_params {
        JsonModel::Object(members) => {
            let timed = if find_member(members, "duration_ms"@) is None {
                put_member(
                    members,
                    "duration_ms"@,
                    JsonModel::Number(NumberModel::Unsigned(r.duration_ms)),
                )
            } else {
                members
            };
            match r.error {
                Some(e) => if find_member(timed, "adapter_error"@) is None {
                    JsonModel::Object(put_member(timed, "adapter_error"@, JsonModel::Text(e)))
                } else {
                    JsonModel::Object(timed)
                },
                None => JsonModel::Object(timed),
            }
        },
        other => JsonModel::Object(
            seq![
                ("duration_ms"@, JsonModel::Number(NumberModel::Unsigned(r.duration_ms))),
                ("result"@, other),
            ],
        ),
    }
}

/// The parameters of a callback after a success.
pub fn normalize_success_params(result: AdapterResult) -> (r: Json)
    ensures
        r@ == success_params(result@),
{
    let duration_ms: u64 = result.duration_ms;
    let mut params = result.callback_params;
    if params.is_object() {
        if params.get("duration_ms").is_none() {
            params.put("duration_ms", Json::Number(JsonNumber::Unsigned(duration_ms)));
        }
        match result.error {
            Some(e) => {
                if params.get("adapter_error").is_none() {
                    params.put("adapter_error", Json::Text(e));
                }
            },
            None => {},
        }
        params
    } else {
        let ghost other = params@;
        let mut members: Vec<(String, Json)> = Vec::new();
        members.push(("duration_ms".to_owned(), Json::Number(JsonNumber::Unsigned(duration_ms))));
        members.push(("result".to_owned(), params));
        let r = Json::Object(members);
        proof {
            crate::json::model_of_parts(r);
            assert(r@->Object_0 =~= seq![
                ("duration_ms"@, JsonModel::Number(NumberModel::Unsigned(duration_ms))),
                ("result"@, other),
            ]);
        }
        r
    }
}

/// The parameters of a callback after a failure.
pub open spec fn failure_params(
    error: Seq<char>,
    integration: Seq<char>,
    duration_ms: u64,
) -> JsonModel {
    JsonModel::Object(
        seq![
            ("duration_ms"@, JsonModel::Number(NumberModel::Unsigned(duration_ms))),
            ("error"@, JsonModel::Text(error)),
            ("error_message"@, JsonModel::Text(error)),
            ("integration"@, JsonModel::Text(integration)),
        ],
    )
}

/// What follows a run of an adapter.
#[derive(Debug, PartialEq, Eq)]
pub enum AdapterStep {
    /// This action is dispatched with these parameters.
    Callback { action: String, params: Json },
    /// Nothing is dispatched.
    Nothing,
    /// The failure is passed on.
    Fail(String),
}

/// What an [`AdapterStep`] holds.
pub enum AdapterStepModel {
    Callback { action: Seq<char>, params: JsonModel },
    Nothing,
    Fail(Seq<char>),
}

impl View for AdapterStep {
    type V = AdapterStepModel;

    open spec fn view(&self) -> AdapterStepModel {
        match self {
            Self::Callback { action, params } => AdapterStepModel::Callback {
                action: action@,
                params: params@,
            },
            Self::Nothing => AdapterStepModel::Nothing,
            Self::Fail(e) => AdapterStepModel::Fail(e@),
        }
    }
}

/// What follows a failure: the declared recovery, else the failure is passed on.
pub open spec fn failure_step(
    i: AdapterIntegration,
    error: Seq<char>,
    duration_ms: u64,
) -> AdapterStepModel {
    match i.on_failure {
        Some(action) => AdapterStepModel::Callback {
            action: action@,
            params: failure_params(error, i.name@, duration_ms),
        },
        None => AdapterStepModel::Fail(error),
    }
}

/// What follows a failure.
pub fn handle_adapter_failure(
    integration: &AdapterIntegration,
    error: &str,
    duration_ms: u64,
) -> (r: AdapterStep)
    ensures
        r@ == failure_step(*integration, error@, duration_ms),
{
    match &integration.on_failure {
        None => AdapterStep::Fail(error.to_owned()),
        Some(action) => {
            let mut members: Vec<(String, Json)> = Vec::new();
            members.push(
                ("duration_ms".to_owned(), Json::Number(JsonNumber::Unsigned(duration_ms))),
            );
            members.push(("error".to_owned(), Json::Text(error.to_owned())));
            members.push(("error_message".to_owned(), Json::Text(error.to_owned())));
            members.push(("integration".to_owned(), Json::Text(integration.name.clone())));
            let params = Json::Object(members);
            proof {
                crate::json::model_of_parts(params);
                assert(params@->Object_0 =~= failure_params(
                    error@,
                    integration.name@,
                    duration_ms,
                )->Object_0);
            }
            AdapterStep::Callback { action: action.clone(), params }
        },
    }
}

/// What follows a run of an adapter: after a success the declared action, else
/// the one that the adapter named, else nothing; a result that is no success is
/// a failure.
pub open spec fn run_step(
    i: AdapterIntegration,
    r: Result<AdapterResultModel, Seq<char>>,
) -> AdapterStepModel {
    match r {
        Err(e) => failure_step(i, e, 0),
        Ok(v) => if v.success {
            match (i.on_success, v.callback_action) {
                (Some(action), _) => AdapterStepModel::Callback {
                    action: action@,
                    params: success_params(v),
                },
                (None, Some(action)) => AdapterStepModel::Callback {
                    action,
                    params: success_params(v),
                },
                (None, None) => AdapterStepModel::Nothing,
            }
        } else {
            failure_step(
                i,
                match v.error {
                    Some(e) => e,
                    None => "adapter returned unsuccessful result"@,
                },
                v.duration_ms,
            )
        },
    }
}

/// What follows a run of an adapter. A run that failed gives the text of its
/// failure.
pub fn dispatch_single_adapter_integration(
    integration: &AdapterIntegration,
    result: Result<AdapterResult, String>,
) -> (r: AdapterStep)
    ensures
        r@ == run_step(
            *integration,
            match result {
                Ok(v) => Ok(v@),
                Err(e) => Err(e@),
            },
        ),
{
    let v = match result {
        Err(e) => return handle_adapter_failure(integration, e.as_str(), 0),
        Ok(v) => v,
    };
    if v.success {
        let action = match (&integration.on_success, &v.callback_action) {
            (Some(action), _) => action.clone(),
            (None, Some(action)) => action.clone(),
            (None, None) => return AdapterStep::Nothing,
        };
        let params = normalize_success_params(v);
        return AdapterStep::Callback { action, params };
    }
    let error = match &v.error {
        Some(e) => e.clone(),
        None => "adapter returned unsuccessful result".to_owned(),
    };
    handle_adapter_failure(integration, error.as_str(), v.duration_ms)
}

/// The credential of a run: a mark and the digest of two random identifiers.
pub open spec fn credential_text(first: Seq<u8>, second: Seq<u8>) -> Seq<char> {
    "tmpr_"@ + hex(
        sha256(encode_utf8("temper-adapter-credential-v1"@) + seq![0u8] + first + second),
    )
}

/// The credential of a run, from the bytes of two random identifiers.
pub fn derive_adapter_credential_plaintext(first: &Vec<u8>, second: &Vec<u8>) -> (r: String)
    ensures
        r@ == credential_text(first@, second@),
        r@.len() == "tmpr_"@.len() + 64,
{
    let mut bytes: Vec<u8> = "temper-adapter-credential-v1".as_bytes_vec();
    let ghost label = bytes@;
    bytes.push(0);
    proof {
        assert(bytes@ =~= label + seq![0u8]);
    }
    extend_bytes(&mut bytes, first);
    extend_bytes(&mut bytes, second);
    let mut text = "tmpr_".to_owned();
    text.append(sha256_hex(bytes.as_slice()).as_str());
    text
}

/// The part of a credential that is kept: its mark and the first four digits.
pub fn credential_prefix(credential: &str) -> (r: String)
    requires
        credential@.len() >= 9,
    ensures
        r@ == credential@.take(9),
{
    let v = crate::text::chars_of(credential);
    proof {
        assert(v@.subrange(0, 9) =~= v@.take(9));
    }
    crate::text::string_of(&v, 0, 9)
}

/// Why a credential is not minted: it has no expiry that can be told, nobody in
/// particular asks for it, or the one who does may not issue it.
pub open spec fn mint_refusal(
    has_expiry: bool,
    has_security_context: bool,
    authorization: Result<(), String>,
) -> Option<Seq<char>> {
    if !has_expiry {
        Some("adapter credential expiry overflowed"@)
    } else if !has_security_context {
        Some("adapter credential mint requires an explicit security context"@)
    } else {
        match authorization {
            Ok(_) => None,
            Err(denial) => Some("adapter credential delegation denied: "@ + denial@),
        }
    }
}

/// How many seconds a credential of an adapter's run lasts.
pub const ADAPTER_CREDENTIAL_TTL_SECS: i64 = 3660;

/// The text of the time at which a credential that is issued now expires, where
/// there is such a time.
pub open spec fn expiry_text(now: Timestamp) -> Option<Seq<char>> {
    if now.secs + ADAPTER_CREDENTIAL_TTL_SECS > i64::MAX {
        None
    } else {
        rfc3339_text((now.secs + ADAPTER_CREDENTIAL_TTL_SECS) as i64, now.nanos)
    }
}

/// The text of the time at which a credential that is issued now expires.
pub fn credential_expiry(now: Timestamp) -> (r: Option<String>)
    ensures
        opt_text(r) == expiry_text(now),
{
    match now.secs.checked_add(ADAPTER_CREDENTIAL_TTL_SECS) {
        Some(secs) => Timestamp { secs, nanos: now.nanos }.to_rfc3339(),
        None => None,
    }
}

/// Decides whether a credential is minted. To issue it is an authority apart
/// from that to run the action that needs it.
pub fn admit_mint(
    has_expiry: bool,
    has_security_context: bool,
    authorization: &Result<(), String>,
) -> (r: Result<(), String>)
    ensures
        match r {
            Ok(_) => mint_refusal(has_expiry, has_security_context, *authorization) is None,
            Err(e) => mint_refusal(has_expiry, has_security_context, *authorization) == Some(e@),
        },
{
    if !has_expiry {
        return Err("adapter credential expiry overflowed".to_owned());
    }
    if !has_security_context {
        return Err("adapter credential mint requires an explicit security context".to_owned());
    }
    match authorization {
        Ok(_) => Ok(()),
        Err(denial) => {
            let mut text = "adapter credential delegation denied: ".to_owned();
            text.append(denial.as_str());
            Err(text)
        },
    }
}

/// The attributes of a credential that a policy sees before it is issued.
pub fn credential_resource_attrs(
    agent_type_id: &str,
    agent_instance_id: &str,
    key_hash: &str,
    expires_at: &str,
) -> (r: Json)
    ensures
        r@ == JsonModel::Object(
            seq![
                ("agent_instance_id"@, JsonModel::Text(agent_instance_id@)),
                ("agent_type_id"@, JsonModel::Text(agent_type_id@)),
                ("expires_at"@, JsonModel::Text(expires_at@)),
                ("id"@, JsonModel::Text(key_hash@)),
            ],
        ),
{
    let mut members: Vec<(String, Json)> = Vec::new();
    members.push(("agent_instance_id".to_owned(), Json::Text(agent_instance_id.to_owned())));
    members.push(("agent_type_id".to_owned(), Json::Text(agent_type_id.to_owned())));
    members.push(("expires_at".to_owned(), Json::Text(expires_at.to_owned())));
    members.push(("id".to_owned(), Json::Text(key_hash.to_owned())));
    let r = Json::Object(members);
    proof {
        crate::json::model_of_parts(r);
        assert(r@->Object_0 =~= seq![
            ("agent_instance_id"@, JsonModel::Text(agent_instance_id@)),
            ("agent_type_id"@, JsonModel::Text(agent_type_id@)),
            ("expires_at"@, JsonModel::Text(expires_at@)),
            ("id"@, JsonModel::Text(key_hash@)),
        ]);
    }
    r
}

/// The text of an adapter that is not registered.
pub fn adapter_not_found(adapter_type: &str) -> (r: String)
    ensures
        r@ == "adapter '"@ + adapter_type@ + "' not found in registry"@,
{
    let mut text = "adapter '".to_owned();
    text.append(adapter_type);
    text.append("' not found in registry");
    text
}

/// The text of a callback that could not be dispatched in the background.
pub fn callback_failure(callback_action: &str, error: &str) -> (r: String)
    ensures
        r@ == "failed to dispatch adapter callback '"@ + callback_action@ + "': "@ + error@,
{
    let mut text = "failed to dispatch adapter callback '".to_owned();
    text.append(callback_action);
    text.append("': ");
    text.append(error);
    text
}

/// The parameters with which a credential is issued.
pub fn credential_issue_params(
    agent_type_id: &str,
    agent_instance_id: &str,
    key_hash: &str,
    key_prefix: &str,
    expires_at: &str,
) -> (r: Json)
    ensures
        r@ == JsonModel::Object(
            seq![
                ("agent_instance_id"@, JsonModel::Text(agent_instance_id@)),
                ("agent_type_id"@, JsonModel::Text(agent_type_id@)),
                ("created_by"@, JsonModel::Text("platform"@)),
                ("description"@, JsonModel::Text("Auto-minted for adapter invocation"@)),
                ("expires_at"@, JsonModel::Text(expires_at@)),
                ("key_hash"@, JsonModel::Text(key_hash@)),
                ("key_prefix"@, JsonModel::Text(key_prefix@)),
            ],
        ),
{
    let mut members: Vec<(String, Json)> = Vec::new();
    members.push(("agent_instance_id".to_owned(), Json::Text(agent_instance_id.to_owned())));
    members.push(("agent_type_id".to_owned(), Json::Text(agent_type_id.to_owned())));
    members.push(("created_by".to_owned(), Json::Text("platform".to_owned())));
    members.push(
        ("description".to_owned(), Json::Text("Auto-minted for adapter invocation".to_owned())),
    );
    members.push(("expires_at".to_owned(), Json::Text(expires_at.to_owned())));
    members.push(("key_hash".to_owned(), Json::Text(key_hash.to_owned())));
    members.push(("key_prefix".to_owned(), Json::Text(key_prefix.to_owned())));
    let r = Json::Object(members);
    proof {
        crate::json::model_of_parts(r);
        assert(r@->Object_0 =~= seq![
            ("agent_instance_id"@, JsonModel::Text(agent_instance_id@)),
            ("agent_type_id"@, JsonModel::Text(agent_type_id@)),
            ("created_by"@, JsonModel::Text("platform"@)),
            ("description"@, JsonModel::Text("Auto-minted for adapter invocation"@)),
            ("expires_at"@, JsonModel::Text(expires_at@)),
            ("key_hash"@, JsonModel::Text(key_hash@)),
            ("key_prefix"@, JsonModel::Text(key_prefix@)),
        ]);
    }
    r
}

/// How the issue of a credential ended.
#[derive(Clone, Debug, PartialEq, Eq)]
pub enum IssueReply {
    Issued,
    /// It was refused, with the reason that was given.
    Refused(Option<String>),
    /// It could not be sent.
    Failed(String),
}

/// Why a required credential could not be had. Without it the adapter does not
/// run.
pub fn mint_verdict(reply: &IssueReply) -> (r: Result<(), String>)
    ensures
        match r {
            Ok(_) => reply is Issued,
            Err(e) => !(reply is Issued) && e@ == "failed to mint required adapter credential: "@
                + match *reply {
                IssueReply::Refused(Some(reason)) => reason@,
                IssueReply::Refused(None) => "Issue action was rejected"@,
                IssueReply::Failed(reason) => reason@,
                IssueReply::Issued => Seq::empty(),
            },
        },
{
    let reason = match reply {
        IssueReply::Issued => return Ok(()),
        IssueReply::Refused(Some(reason)) => reason.clone(),
        IssueReply::Refused(None) => "Issue action was rejected".to_owned(),
        IssueReply::Failed(reason) => reason.clone(),
    };
    let mut text = "failed to mint required adapter credential: ".to_owned();
    text.append(reason.as_str());
    Err(text)
}

/// How an attempt to revoke a credential ended.
#[derive(Clone, Debug, PartialEq, Eq)]
pub enum RevokeReply {
    /// The actor answered: whether it succeeded, the credential's status, and
    /// the error.
    Answered { success: bool, status: String, error: Option<String> },
    /// The actor did not answer.
    Failed(String),
}

/// Whether a credential is no longer active after an attempt, and else why.
pub open spec fn revoke_failure(reply: RevokeReply) -> Option<Seq<char>> {
    match reply {
        RevokeReply::Answered { success, status, error } => if success || status@ != "Active"@ {
            None
        } else {
            Some(
                match error {
                    Some(e) => e@,
                    None => "credential remained Active"@,
                },
            )
        },
        RevokeReply::Failed(e) => Some(e@),
    }
}

/// What follows an attempt to revoke a credential.
#[derive(Clone, Debug, PartialEq, Eq)]
pub enum RevokeStep {
    Done,
    Again,
    GiveUp(String),
}

/// What follows the attempt number `attempt`, counted from one: it is over once
/// the credential is not active, and given up after the last attempt.
pub fn revoke_step(reply: &RevokeReply, attempt: usize) -> (r: RevokeStep)
    ensures
        match r {
            RevokeStep::Done => revoke_failure(*reply) is None,
            RevokeStep::Again => revoke_failure(*reply) is Some && attempt
                < ADAPTER_CREDENTIAL_REVOKE_ATTEMPTS,
            RevokeStep::GiveUp(e) => revoke_failure(*reply) == Some(e@) && attempt
                >= ADAPTER_CREDENTIAL_REVOKE_ATTEMPTS,
        },
{
    let failure = match reply {
        RevokeReply::Answered { success, status, error } => {
            if *success || !same(status.as_str(), "Active") {
                return RevokeStep::Done;
            }
            match error {
                Some(e) => e.clone(),
                None => "credential remained Active".to_owned(),
            }
        },
        RevokeReply::Failed(e) => e.clone(),
    };
    if attempt < ADAPTER_CREDENTIAL_REVOKE_ATTEMPTS {
        RevokeStep::Again
    } else {
        RevokeStep::GiveUp(failure)
    }
}

proof fn the_first_is_triggered(integrations: Seq<AdapterIntegration>, effect: Seq<char>)
    ensures
        match triggered(integrations, effect) {
            Some(i) => 0 <= i < integrations.len() && integrations[i].is_adapter
                && integrations[i].trigger@ == effect && forall|j: int|
                0 <= j < i ==> !((#[trigger] integrations[j]).is_adapter && integrations[j].trigger@
                    == effect),
            None => forall|j: int|
                0 <= j < integrations.len() ==> !((#[trigger] integrations[j]).is_adapter
                    && integrations[j].trigger@ == effect),
        },
    decreases integrations.len(),
{
    if integrations.len() > 0 && !(integrations[0].is_adapter && integrations[0].trigger@
        == effect) {
        let rest = integrations.drop_first();
        the_first_is_triggered(rest, effect);
        let bound = match triggered(rest, effect) {
            Some(i) => i + 1,
            None => integrations.len() as int,
        };
        assert forall|j: int| 0 <= j < bound implies !((#[trigger] integrations[j]).is_adapter
            && integrations[j].trigger@ == effect) by {
            if j > 0 {
                assert(integrations[j] == rest[j - 1]);
            }
        }
    }
}

/// An effect triggers the first adapter integration that is declared for it, and
/// nothing only where none is.
pub proof fn an_effect_triggers_its_adapter(
    integrations: &Vec<AdapterIntegration>,
    effect: &str,
    r: Option<usize>,
)
    requires
        call_ensures(find_triggered, (integrations, effect), r),
    ensures
        r is Some ==> {
            let i = r->0 as int;
            &&& i < integrations@.len()
            &&& integrations@[i].is_adapter && integrations@[i].trigger@ == effect@
            &&& forall|j: int|
                0 <= j < i ==> !((#[trigger] integrations@[j]).is_adapter
                    && integrations@[j].trigger@ == effect@)
        },
        r is None ==> forall|j: int|
            0 <= j < integrations@.len() ==> !((#[trigger] integrations@[j]).is_adapter
                && integrations@[j].trigger@ == effect@),
{
    the_first_is_triggered(integrations@, effect@);
}

/// The entity decides about its adapter before the integration does, and of the
/// integration the adapter comes before the adapter type. Without any there is
/// none.
pub proof fn the_entity_chooses_its_adapter(
    fields: &Json,
    i: &AdapterIntegration,
    own: Option<String>,
    r: Result<String, String>,
)
    requires
        call_ensures(trimmed_field_of, (fields, "adapter_type"), own),
        call_ensures(choose_adapter, (fields, i), r),
    ensures
        own is Some ==> r is Ok && r->Ok_0@ == own->0@ && own->0@.len() > 0,
        own is None && i.adapter is Some ==> r is Ok && r->Ok_0@ == i.adapter->0@,
        own is None && i.adapter is None && i.adapter_type is Some ==> r is Ok && r->Ok_0@
            == i.adapter_type->0@,
        own is None && i.adapter is None && i.adapter_type is None ==> r is Err,
        own is Some <==> text_member(fields@, "adapter_type"@) is Some && trimmed(
            text_member(fields@, "adapter_type"@)->0,
        ).len() > 0,
        own is Some ==> own->0@ == trimmed(text_member(fields@, "adapter_type"@)->0),
{
}

/// A success is reported with everything that the adapter gave. How long it took
/// and the error that it told of are added only where the adapter gave none
/// under those names.
pub proof fn a_success_is_reported_whole(result: AdapterResult, r: Json, name: Seq<char>)
    requires
        call_ensures(normalize_success_params, (result,), r),
    ensures
        r@ is Object,
        member(r@, "duration_ms"@) is Some,
        result@.callback_params is Object ==> {
            let given = member(result@.callback_params, name);
            let told = member(r@, name);
            &&& given is Some ==> told == given
            &&& given is None && name == "duration_ms"@ ==> told == Some(
                JsonModel::Number(NumberModel::Unsigned(result@.duration_ms)),
            )
            &&& given is None && name == "adapter_error"@ && result@.error is Some ==> told == Some(
                JsonModel::Text(result@.error->0),
            )
            &&& given is None && name == "adapter_error"@ && result@.error is None ==> told is None
            &&& given is None && name != "duration_ms"@ && name != "adapter_error"@ ==> told is None
        },
        !(result@.callback_params is Object) ==> member(r@, "result"@) == Some(
            result@.callback_params,
        ) && member(r@, "duration_ms"@) == Some(
            JsonModel::Number(NumberModel::Unsigned(result@.duration_ms)),
        ),
{
    reveal_strlit("duration_ms");
    reveal_strlit("adapter_error");
    reveal_strlit("result");
    assert("duration_ms"@.len() == 11 && "adapter_error"@.len() == 13 && "result"@.len() == 6);
    let duration = JsonModel::Number(NumberModel::Unsigned(result@.duration_ms));
    if result@.callback_params is Object {
        let members = result@.callback_params->Object_0;
        let timed = if find_member(members, "duration_ms"@) is None {
            put_member(members, "duration_ms"@, duration)
        } else {
            members
        };
        crate::json::put_then_find(members, "duration_ms"@, duration, name);
        crate::json::put_then_find(members, "duration_ms"@, duration, "adapter_error"@);
        if result@.error is Some {
            let e = JsonModel::Text(result@.error->0);
            crate::json::put_then_find(timed, "adapter_error"@, e, name);
            crate::json::put_then_find(timed, "adapter_error"@, e, "duration_ms"@);
        }
    } else {
        let s = r@->Object_0;
        assert(s[0].0 == "duration_ms"@);
        assert(s.drop_first()[0].0 == "result"@);
        assert(find_member(s, "duration_ms"@) == Some(s[0].1));
        assert(find_member(s.drop_first(), "result"@) == Some(s[1].1));
        assert(find_member(s, "result"@) == Some(s[1].1));
    }
}

/// A failure goes to the action that the integration has for it, with the error,
/// the integration and the time it took; without such an action the dispatch
/// fails with the error.
pub proof fn a_failure_tells_its_error(
    i: &AdapterIntegration,
    error: &str,
    duration_ms: u64,
    r: AdapterStep,
)
    requires
        call_ensures(handle_adapter_failure, (i, error, duration_ms), r),
    ensures
        i.on_failure is Some ==> {
            let s = r@;
            &&& s is Callback
            &&& s->action == i.on_failure->0@
            &&& text_member(s->params, "error"@) == Some(error@)
            &&& text_member(s->params, "error_message"@) == Some(error@)
            &&& text_member(s->params, "integration"@) == Some(i.name@)
            &&& member(s->params, "duration_ms"@) == Some(
                JsonModel::Number(NumberModel::Unsigned(duration_ms)),
            )
        },
        i.on_failure is None ==> r@ == AdapterStepModel::Fail(error@),
{
    reveal_strlit("duration_ms");
    reveal_strlit("error");
    reveal_strlit("error_message");
    reveal_strlit("integration");
    assert("duration_ms"@[0] == 'd' && "integration"@[0] == 'i');
    assert("error"@.len() == 5 && "error_message"@.len() == 13 && "integration"@.len() == 11);
    let s = failure_params(error@, i.name@, duration_ms)->Object_0;
    let a = s.drop_first();
    let b = a.drop_first();
    let c = b.drop_first();
    assert(a[0] == s[1] && b[0] == s[2] && c[0] == s[3]);
    assert(find_member(s, "duration_ms"@) == Some(s[0].1));
    assert(find_member(a, "error"@) == Some(s[1].1));
    assert(find_member(s, "error"@) == Some(s[1].1));
    assert(find_member(b, "error_message"@) == Some(s[2].1));
    assert(find_member(a, "error_message"@) == Some(s[2].1));
    assert(find_member(s, "error_message"@) == Some(s[2].1));
    assert(find_member(c, "integration"@) == Some(s[3].1));
    assert(find_member(b, "integration"@) == Some(s[3].1));
    assert(find_member(a, "integration"@) == Some(s[3].1));
    assert(find_member(s, "integration"@) == Some(s[3].1));
}

/// Only a success of the adapter calls the action for successes, and the one
/// that the integration names comes before the one that the adapter names. Any
/// other end is a failure with its own error.
pub proof fn a_run_ends_as_its_adapter_did(
    i: &AdapterIntegration,
    result: Result<AdapterResult, String>,
    r: AdapterStep,
    error: &str,
    duration_ms: u64,
    failed: AdapterStep,
    params: Json,
)
    requires
        call_ensures(dispatch_single_adapter_integration, (i, result), r),
        call_ensures(handle_adapter_failure, (i, error, duration_ms), failed),
        result is Ok ==> call_ensures(normalize_success_params, (result->Ok_0,), params),
    ensures
        result is Err && error@ == result->Err_0@ && duration_ms == 0 ==> r@ == failed@,
        result is Ok && !result->Ok_0@.success && result->Ok_0@.error == Some(error@) && duration_ms
            == result->Ok_0@.duration_ms ==> r@ == failed@,
        result is Ok && !result->Ok_0@.success && result->Ok_0@.error is None && error@
            == "adapter returned unsuccessful result"@ && duration_ms == result->Ok_0@.duration_ms
            ==> r@ == failed@,
        result is Ok && result->Ok_0@.success ==> {
            let named = result->Ok_0@.callback_action;
            &&& i.on_success is Some ==> r@ is Callback && r@->action == i.on_success->0@
                && r@->params == params@
            &&& i.on_success is None && named is Some ==> r@ is Callback && r@->action == named->0
                && r@->params == params@
            &&& i.on_success is None && named is None ==> r@ is Nothing
        },
{
}

/// A credential is minted only with an expiry, for a known caller and where the
/// delegation is allowed, and then it is.
pub proof fn a_credential_is_minted_by_permission_only(
    has_expiry: bool,
    has_security_context: bool,
    authorization: &Result<(), String>,
    r: Result<(), String>,
)
    requires
        call_ensures(admit_mint, (has_expiry, has_security_context, authorization), r),
    ensures
        r is Ok <==> has_expiry && has_security_context && authorization is Ok,
{
}

/// A credential runs out as long after it was made as credentials last.
pub proof fn a_credential_expires(now: Timestamp, r: Option<String>, later: Timestamp)
    requires
        call_ensures(credential_expiry, (now,), r),
        later.nanos == now.nanos,
        later.secs == now.secs + ADAPTER_CREDENTIAL_TTL_SECS,
    ensures
        opt_text(r) == rfc3339_text(later.secs, later.nanos),
{
}

/// A credential is told by nine characters of it, from its start, and is the
/// same for the same two halves.
pub proof fn a_credential_begins_as_its_prefix(credential: &str, r: String, i: int)
    requires
        credential@.len() >= 9,
        call_ensures(credential_prefix, (credential,), r),
        0 <= i < 9,
    ensures
        r@.len() == 9,
        r@[i] == credential@[i],
{
}

/// A credential that was asked to be revoked is done with once it was revoked or
/// is not in force. One that may be in force is asked for again, as often as is
/// allowed, and then the last error is told.
pub proof fn a_credential_in_force_is_not_left(reply: &RevokeReply, attempt: usize, r: RevokeStep)
    requires
        call_ensures(revoke_step, (reply, attempt), r),
    ensures
        r is Done <==> reply is Answered && (reply->success || reply->status@ != "Active"@),
        !(r is Done) ==> (r is Again <==> attempt < ADAPTER_CREDENTIAL_REVOKE_ATTEMPTS),
        r is GiveUp && reply is Failed ==> r->GiveUp_0@ == reply->Failed_0@,
        r is GiveUp && reply is Answered && reply->error is Some ==> r->GiveUp_0@
            == reply->error->0@,
{
}

/// An issue that was refused or failed mints nothing.
pub proof fn only_an_issued_credential_is_used(reply: &IssueReply, r: Result<(), String>)
    requires
        call_ensures(mint_verdict, (reply,), r),
    ensures
        r is Ok <==> reply is Issued,
{
}

/// A run without anything to hide is told as it ended, and one that is cut off
/// is a failure.
pub proof fn a_run_that_hides_nothing_is_told_as_it_was(
    run: AdapterRun,
    secrets: &Vec<String>,
    r: Result<AdapterResult, AdapterError>,
)
    requires
        secrets@.len() == 0,
        call_ensures(execute_adapter_with_budget, (run, secrets, None::<&str>), r),
    ensures
        run is Finished ==> execution(r) == execution(run->Finished_0),
        !(run is Finished) ==> r is Err && r->Err_0@ is Execution,
{
    let rs = choose|rs: Seq<(Seq<char>, Seq<char>)>| #[trigger]
        redactions_of(rs, texts(secrets@), opt_str(None::<&str>)) && execution(r)
            == clear_execution(run_result(run), rs);
    if rs.len() > 0 {
        assert(is_hidden(rs[0].0, texts(secrets@), opt_str(None::<&str>)));
        assert(!texts(secrets@).contains(rs[0].0));
    }
}

/// A run that succeeded or failed still did after what is hidden was taken out,
/// and it took as long.
pub proof fn redaction_changes_no_verdict(
    outcome: Result<AdapterResult, AdapterError>,
    redactions: &Vec<Redaction>,
    r: Result<AdapterResult, AdapterError>,
)
    requires
        redactable(views(redactions@)),
        call_ensures(redact_adapter_execution, (outcome, redactions), r),
    ensures
        r is Ok <==> outcome is Ok,
        r is Ok ==> r->Ok_0@.success == outcome->Ok_0@.success && r->Ok_0@.duration_ms
            == outcome->Ok_0@.duration_ms && (r->Ok_0@.callback_action is Some
            <==> outcome->Ok_0@.callback_action is Some) && (r->Ok_0@.error is Some
            <==> outcome->Ok_0@.error is Some),
        r is Err ==> (r->Err_0@ is Invocation <==> outcome->Err_0@ is Invocation) && (r->Err_0@ is Parse
            <==> outcome->Err_0@ is Parse),
{
}

/// The credential of the agent is marked as one wherever it is a secret too, any
/// other secret as a secret, and a longer text is hidden before a shorter one,
/// so that no part of it is left.
pub proof fn each_secret_has_its_mark(
    secrets: &Vec<String>,
    credential: Option<&str>,
    r: Vec<Redaction>,
    i: int,
)
    requires
        call_ensures(adapter_redactions, (secrets, credential), r),
        0 <= i < r@.len(),
    ensures
        r@[i]@.0.len() > 0,
        credential is Some && r@[i]@.0 == credential->0@ ==> r@[i]@.1
            == "[REDACTED_ADAPTER_CREDENTIAL]"@,
        credential is None || r@[i]@.0 != credential->0@ ==> r@[i]@.1 == "[REDACTED_ADAPTER_SECRET]"@
            && texts(secrets@).contains(r@[i]@.0),
        forall|j: int|
            i < j < r@.len() ==> encode_utf8(r@[i]@.0).len() >= encode_utf8(
                (#[trigger] r@[j])@.0,
            ).len() && r@[i]@.0 != r@[j]@.0,
{
    let rs = views(r@);
    assert(rs[i] == r@[i]@);
    assert(is_hidden(rs[i].0, texts(secrets@), opt_str(credential)));
    assert(rs[i].1 == mark_for(rs[i].0, opt_str(credential)));
    assert forall|j: int| i < j < r@.len() implies encode_utf8(r@[i]@.0).len() >= encode_utf8(
        (#[trigger] r@[j])@.0,
    ).len() && r@[i]@.0 != r@[j]@.0 by {
        assert(rs[j] == r@[j]@);
        assert(Hidden::before(rs[i].0, rs[j].0));
        if rs[i].0 == rs[j].0 {
            Hidden::before_is_irreflexive(rs[i].0);
        }
    }
}

/// A text in which nothing that is hidden occurs is told as it is.
pub proof fn a_text_without_secrets_is_told_as_it_is(
    text: Seq<char>,
    rs: Seq<(Seq<char>, Seq<char>)>,
    n: int,
)
    requires
        0 <= n <= rs.len(),
        redactable(rs),
        forall|i: int| 0 <= i < rs.len() ==> !occurs(text, (#[trigger] rs[i]).0),
    ensures
        redacted(text, rs, n) == text,
        n == rs.len() ==> clear(text, rs) == text,
    decreases n,
{
    if n > 0 {
        a_text_without_secrets_is_told_as_it_is(text, rs, n - 1);
        assert(!occurs(text, rs[n - 1].0));
    }
}

/// Redaction keeps the shape of a value: a number, a flag and nothing are told
/// as they are, a list is as long, and each text in it is cleared.
pub proof fn redaction_keeps_the_shape(j: JsonModel, rs: Seq<(Seq<char>, Seq<char>)>, i: int)
    ensures
        j is Text ==> clear_json(j, rs) == JsonModel::Text(clear(j->Text_0, rs)),
        j is Array ==> clear_json(j, rs) is Array && clear_json(j, rs)->Array_0.len()
            == j->Array_0.len(),
        j is Array && 0 <= i < j->Array_0.len() ==> clear_json(j, rs)->Array_0[i] == clear_json(
            j->Array_0[i],
            rs,
        ),
        j is Object ==> clear_json(j, rs) is Object,
        j is Number || j is Bool || j is Null ==> clear_json(j, rs) == j,
{
}

} // verus!
