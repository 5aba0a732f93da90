//! Approvals that the store keeps: pending decisions, the session grants among
//! them, and the secrets of a tenant.

use vstd::prelude::*;
use vstd::string::*;

use crate::text::opt_text;
use crate::text::same;

verus! {

/// Where a decision stands.
#[derive(Clone, Copy, Debug, PartialEq, Eq, Structural)]
pub enum DecisionStatus {
    Pending,
    Approved,
    Denied,
    Expired,
}

/// How long an approval holds.
#[derive(Clone, Copy, Debug, PartialEq, Eq, Structural)]
pub enum DurationScope {
    /// For one session.
    Session,
    /// For anything else.
    Other,
}

/// The scope of an approval.
#[derive(Clone, Debug, PartialEq, Eq)]
pub struct ApprovedScope {
    pub duration: DurationScope,
    pub session_id: Option<String>,
}

/// A stored decision, as far as a session grant is concerned.
#[derive(Clone, Debug, PartialEq, Eq)]
pub struct PendingDecision {
    pub agent_id: String,
    pub status: DecisionStatus,
    pub approved_scope: Option<ApprovedScope>,
}

/// The word under which a decision's status is stored.
pub open spec fn status_word(status: DecisionStatus) -> Seq<char> {
    match status {
        DecisionStatus::Pending => "pending"@,
        DecisionStatus::Approved => "approved"@,
        DecisionStatus::Denied => "denied"@,
        DecisionStatus::Expired => "expired"@,
    }
}

/// The word under which a decision's status is stored.
pub fn decision_status_word(status: DecisionStatus) -> (r: &'static str)
    ensures
        r@ == status_word(status),
{
    match status {
        DecisionStatus::Pending => "pending",
        DecisionStatus::Approved => "approved",
        DecisionStatus::Denied => "denied",
        DecisionStatus::Expired => "expired",
    }
}

/// Whether a decision is a grant of this session to this agent: it is approved,
/// for this agent, for the length of a session, and for this session.
pub open spec fn grants(d: PendingDecision, agent_id: Seq<char>, session_id: Seq<char>) -> bool {
    &&& d.status == DecisionStatus::Approved
    &&& d.agent_id@ == agent_id
    &&& d.approved_scope is Some
    &&& d.approved_scope->0.duration == DurationScope::Session
    &&& opt_text(d.approved_scope->0.session_id) == Some(session_id)
}

fn is_grant(d: &PendingDecision, agent_id: &str, session_id: &str) -> (r: bool)
    ensures
        r == grants(*d, agent_id@, session_id@),
{
    if d.status != DecisionStatus::Approved || !same(d.agent_id.as_str(), agent_id) {
        return false;
    }
    match &d.approved_scope {
        None => false,
        Some(scope) => match &scope.session_id {
            None => false,
            Some(id) => scope.duration == DurationScope::Session && same(id.as_str(), session_id),
        },
    }
}

/// What the store gave for the approved decisions of a session: none without a
/// store, an error, or the decisions, those that do not decode among them.
pub type GrantLookup = Option<Result<Vec<Result<PendingDecision, String>>, String>>;

/// Whether a session is granted to an agent. Without a store, and on an error,
/// it is not.
pub open spec fn granted(lookup: GrantLookup, agent_id: Seq<char>, session_id: Seq<char>) -> bool {
    match lookup {
        Some(Ok(decisions)) => exists|i: int|
            0 <= i < decisions@.len() && (#[trigger] decisions@[i]) is Ok && grants(
                decisions@[i]->Ok_0,
                agent_id,
                session_id,
            ),
        _ => false,
    }
}

/// Whether a session is granted to an agent by a decision that the store holds.
pub fn session_grant_verified(lookup: &GrantLookup, agent_id: &str, session_id: &str) -> (r: bool)
    ensures
        r == granted(*lookup, agent_id@, session_id@),
{
    match lookup {
        Some(Ok(decisions)) => {
            let mut i: usize = 0;
            while i < decisions.len()
                invariant
                    i <= decisions.len(),
                    *lookup == Some(Ok::<Vec<Result<PendingDecision, String>>, String>(*decisions)),
                    forall|k: int|
                        0 <= k < i ==> !((#[trigger] decisions@[k]) is Ok && grants(
                            decisions@[k]->Ok_0,
                            agent_id@,
                            session_id@,
                        )),
                decreases decisions.len() - i,
            {
                match &decisions[i] {
                    Ok(d) => if is_grant(d, agent_id, session_id) {
                        proof {
                            assert(decisions@[i as int] is Ok);
                        }
                        return true;
                    },
                    Err(_) => {},
                }
                i = i + 1;
            }
            false
        },
        _ => false,
    }
}

/// A grant binds one agent and one session: a single decision never grants a
/// session to two agents, nor two sessions to one.
pub proof fn a_grant_binds_one_agent_and_session(
    d: PendingDecision,
    agent: Seq<char>,
    session: Seq<char>,
    other_agent: Seq<char>,
    other_session: Seq<char>,
)
    requires
        grants(d, agent, session),
        grants(d, other_agent, other_session),
    ensures
        agent == other_agent,
        session == other_session,
{
}

/// What the decryption of a stored secret gave.
#[derive(Clone, Debug, PartialEq, Eq)]
pub enum DecryptedSecret {
    /// It could not be decrypted.
    Failed,
    /// Its bytes are not text, for this reason.
    NotText(String),
    Plain(String),
}

/// A stored secret.
#[derive(Clone, Debug, PartialEq, Eq)]
pub struct SecretRow {
    pub key_name: String,
    pub secret: DecryptedSecret,
}

/// The secrets of the first `n` rows that are remembered: those that decrypt.
pub open spec fn readable(rows: Seq<SecretRow>, n: int) -> Seq<(Seq<char>, Seq<char>)>
    decreases n,
{
    if n <= 0 {
        Seq::empty()
    } else {
        match rows[n - 1].secret {
            DecryptedSecret::Plain(value) => readable(rows, n - 1).push(
                (rows[n - 1].key_name@, value@),
            ),
            _ => readable(rows, n - 1),
        }
    }
}

/// How many of the first `rows` come before the first secret that is not text.
pub open spec fn readable_rows(rows: Seq<SecretRow>) -> int
    decreases rows.len(),
{
    if rows.len() == 0 {
        0
    } else if rows[0].secret is NotText {
        0
    } else {
        1 + readable_rows(rows.drop_first())
    }
}

/// The secrets to remember, and the error that ends the load early where a
/// secret is not text.
#[derive(Clone, Debug, PartialEq, Eq)]
pub struct LoadedSecrets {
    pub values: Vec<(String, String)>,
    pub failure: Option<String>,
}

/// What secrets hold.
pub open spec fn secret_views(v: Seq<(String, String)>) -> Seq<(Seq<char>, Seq<char>)> {
    Seq::new(v.len(), |i: int| (v[i].0@, v[i].1@))
}

proof fn readable_rows_at(rows: Seq<SecretRow>, n: int)
    requires
        0 <= n <= rows.len(),
        forall|k: int| 0 <= k < n ==> !((#[trigger] rows[k]).secret is NotText),
    ensures
        readable_rows(rows) == n + readable_rows(rows.skip(n)),
    decreases n,
{
    if n == 0 {
        assert(rows.skip(0) =~= rows);
    } else {
        assert forall|k: int| 0 <= k < n - 1 implies !((
        #[trigger] rows.drop_first()[k]).secret is NotText) by {
            assert(rows.drop_first()[k] == rows[k + 1]);
        }
        readable_rows_at(rows.drop_first(), n - 1);
        assert(rows.drop_first().skip(n - 1) =~= rows.skip(n));
        assert(!(rows[0].secret is NotText));
    }
}

/// Loads the secrets of a tenant: one that does not decrypt is passed over, and
/// one that is not text ends the load.
pub fn load_tenant_secrets(rows: &Vec<SecretRow>) -> (r: LoadedSecrets)
    ensures
        secret_views(r.values@) == readable(rows@, readable_rows(rows@)),
        match r.failure {
            None => readable_rows(rows@) == rows@.len(),
            Some(e) => {
                let at = readable_rows(rows@);
                &&& 0 <= at < rows@.len()
                &&& rows@[at].secret is NotText
                &&& e@ == "secret "@ + rows@[at].key_name@ + " is not valid UTF-8: "@
                    + rows@[at].secret->NotText_0@
            },
        },
{
    let mut values: Vec<(String, String)> = Vec::new();
    let mut i: usize = 0;
    proof {
        assert(secret_views(values@) =~= Seq::<(Seq<char>, Seq<char>)>::empty());
    }
    while i < rows.len()
        invariant
            i <= rows.len(),
            secret_views(values@) == readable(rows@, i as int),
            forall|k: int| 0 <= k < i ==> !((#[trigger] rows@[k]).secret is NotText),
        decreases rows.len() - i,
    {
        match &rows[i].secret {
            DecryptedSecret::Failed => {},
            DecryptedSecret::NotText(reason) => {
                proof {
                    readable_rows_at(rows@, i as int);
                    assert(rows@.skip(i as int)[0] == rows@[i as int]);
                }
                let mut text = "secret ".to_owned();
                text.append(rows[i].key_name.as_str());
                text.append(" is not valid UTF-8: ");
                text.append(reason.as_str());
                return LoadedSecrets { values, failure: Some(text) };
            },
            DecryptedSecret::Plain(value) => {
                let ghost before = secret_views(values@);
                values.push((rows[i].key_name.clone(), value.clone()));
                proof {
                    assert(secret_views(values@) =~= before.push(
                        (rows@[i as int].key_name@, value@),
                    ));
                }
            },
        }
        i = i + 1;
    }
    proof {
        readable_rows_at(rows@, rows@.len() as int);
        assert(rows@.skip(rows@.len() as int).len() == 0);
    }
    LoadedSecrets { values, failure: None }
}

/// The store that a tenant's metadata is kept in.
#[derive(Clone, Debug, PartialEq, Eq)]
pub enum MetadataBackend {
    /// The tenant has none: nothing is kept.
    Nothing,
    Postgres,
    Turso,
    /// It does not keep what is written to it, and says so with this text.
    Ephemeral(String),
}

/// Why a decision is not kept.
pub open spec fn decision_failure(
    id: Seq<char>,
    backend: MetadataBackend,
    encoded: Result<(), String>,
    stored: Result<(), String>,
) -> Option<Seq<char>> {
    if backend is Nothing {
        None
    } else if encoded is Err {
        Some("failed to serialize decision "@ + id + ": "@ + encoded->Err_0@)
    } else {
        match backend {
            MetadataBackend::Nothing => None,
            MetadataBackend::Ephemeral(e) => Some(e@),
            MetadataBackend::Postgres => match stored {
                Ok(_) => None,
                Err(e) => Some(
                    "failed to persist pending decision "@ + id + " in postgres: "@ + e@,
                ),
            },
            MetadataBackend::Turso => match stored {
                Ok(_) => None,
                Err(e) => Some("failed to persist pending decision "@ + id + " in turso: "@ + e@),
            },
        }
    }
}

fn text_of_four(a: &str, b: &str, c: &str, d: &str) -> (r: String)
    ensures
        r@ == a@ + b@ + c@ + d@,
{
    let mut text = a.to_owned();
    text.append(b);
    text.append(c);
    text.append(d);
    text
}

/// What became of a decision that was to be kept. `encoded` and `stored` are how
/// its encoding and its writing ended.
pub fn persist_pending_decision(
    id: &str,
    backend: &MetadataBackend,
    encoded: &Result<(), String>,
    stored: &Result<(), String>,
) -> (r: Result<(), String>)
    ensures
        match r {
            Ok(_) => decision_failure(id@, *backend, *encoded, *stored) is None,
            Err(e) => decision_failure(id@, *backend, *encoded, *stored) == Some(e@),
        },
{
    match backend {
        MetadataBackend::Nothing => return Ok(()),
        _ => {},
    }
    match encoded {
        Ok(_) => {},
        Err(e) => return Err(text_of_four("failed to serialize decision ", id, ": ", e.as_str())),
    }
    match (backend, stored) {
        (MetadataBackend::Ephemeral(e), _) => Err(e.clone()),
        (MetadataBackend::Postgres, Err(e)) => Err(
            text_of_four(
                "failed to persist pending decision ",
                id,
                " in postgres: ",
                e.as_str(),
            ),
        ),
        (MetadataBackend::Turso, Err(e)) => Err(
            text_of_four("failed to persist pending decision ", id, " in turso: ", e.as_str()),
        ),
        _ => Ok(()),
    }
}

/// What is done with a stored secret.
#[derive(Clone, Copy, Debug, PartialEq, Eq, Structural)]
pub enum SecretChange {
    Upsert,
    Delete,
}

/// The word for what is done with a stored secret.
pub open spec fn change_word(change: SecretChange) -> Seq<char> {
    match change {
        SecretChange::Upsert => "upsert"@,
        SecretChange::Delete => "delete"@,
    }
}

/// How a failed change of a secret is told: by the secret, and by the store where
/// it is not Postgres.
pub open spec fn secret_failure(
    change: SecretChange,
    tenant: Seq<char>,
    key_name: Seq<char>,
    turso: bool,
    error: Seq<char>,
) -> Seq<char> {
    "failed to "@ + change_word(change) + " secret "@ + tenant + "/"@ + key_name + (if turso {
        " in turso: "@
    } else {
        ": "@
    }) + error
}

fn secret_failure_of(
    change: SecretChange,
    tenant: &str,
    key_name: &str,
    turso: bool,
    error: &str,
) -> (r: String)
    ensures
        r@ == secret_failure(change, tenant@, key_name@, turso, error@),
{
    let word = match change {
        SecretChange::Upsert => "upsert",
        SecretChange::Delete => "delete",
    };
    let mut text = "failed to ".to_owned();
    text.append(word);
    text.append(" secret ");
    text.append(tenant);
    text.append("/");
    text.append(key_name);
    if turso {
        text.append(" in turso: ");
    } else {
        text.append(": ");
    }
    text.append(error);
    text
}

/// What became of a change to a stored secret: whether there was one to change,
/// where there is a store at all.
pub fn change_secret(
    change: SecretChange,
    tenant: &str,
    key_name: &str,
    backend: &MetadataBackend,
    stored: &Result<bool, String>,
) -> (r: Result<bool, String>)
    ensures
        match *backend {
            MetadataBackend::Nothing => r == Ok::<bool, String>(false),
            MetadataBackend::Ephemeral(e) => r is Err && r->Err_0@ == e@,
            _ => match *stored {
                Ok(changed) => r == Ok::<bool, String>(changed),
                Err(e) => r is Err && r->Err_0@ == secret_failure(
                    change,
                    tenant@,
                    key_name@,
                    *backend is Turso,
                    e@,
                ),
            },
        },
{
    match backend {
        MetadataBackend::Nothing => Ok(false),
        MetadataBackend::Ephemeral(e) => Err(e.clone()),
        MetadataBackend::Postgres => match stored {
            Ok(changed) => Ok(*changed),
            Err(e) => Err(secret_failure_of(change, tenant, key_name, false, e.as_str())),
        },
        MetadataBackend::Turso => match stored {
            Ok(changed) => Ok(*changed),
            Err(e) => Err(secret_failure_of(change, tenant, key_name, true, e.as_str())),
        },
    }
}

/// A session is granted exactly if a decision that could be read grants it: one
/// that was approved, for this agent, for the length of this session. What
/// could not be looked up grants nothing.
pub proof fn a_session_is_granted_by_a_decision(
    lookup: &GrantLookup,
    agent: &str,
    session: &str,
    r: bool,
)
    requires
        call_ensures(session_grant_verified, (lookup, agent, session), r),
    ensures
        lookup is None ==> !r,
        lookup is Some && lookup->0 is Err ==> !r,
        lookup is Some && lookup->0 is Ok ==> (r <==> exists|i: int|
            {
                let d = (#[trigger] lookup->0->Ok_0@[i])->Ok_0;
                &&& 0 <= i < lookup->0->Ok_0@.len()
                &&& lookup->0->Ok_0@[i] is Ok
                &&& d.status is Approved
                &&& d.agent_id@ == agent@
                &&& d.approved_scope is Some
                &&& d.approved_scope->0.duration is Session
                &&& d.approved_scope->0.session_id is Some
                &&& d.approved_scope->0.session_id->0@ == session@
            }),
{
}

proof fn readable_are_the_plain(rows: Seq<SecretRow>, n: int, x: (Seq<char>, Seq<char>))
    requires
        0 <= n <= rows.len(),
    ensures
        readable(rows, n).contains(x) <==> exists|i: int|
            0 <= i < n && (#[trigger] rows[i]).secret is Plain && rows[i].key_name@ == x.0
                && rows[i].secret->Plain_0@ == x.1,
    decreases n,
{
    if n > 0 {
        readable_are_the_plain(rows, n - 1, x);
        let before = readable(rows, n - 1);
        let after = readable(rows, n);
        if rows[n - 1].secret is Plain {
            let last = (rows[n - 1].key_name@, rows[n - 1].secret->Plain_0@);
            assert(after == before.push(last));
            assert(after[before.len() as int] == last);
            if before.contains(x) {
                assert(after[before.index_of(x)] == x);
            }
        }
        if exists|i: int|
            0 <= i < n && (#[trigger] rows[i]).secret is Plain && rows[i].key_name@ == x.0
                && rows[i].secret->Plain_0@ == x.1 {
            let i = choose|i: int|
                0 <= i < n && (#[trigger] rows[i]).secret is Plain && rows[i].key_name@ == x.0
                    && rows[i].secret->Plain_0@ == x.1;
            assert(i < n - 1 || i == n - 1);
        }
    }
}

proof fn readable_rows_are_text(rows: Seq<SecretRow>)
    ensures
        0 <= readable_rows(rows) <= rows.len(),
        forall|i: int|
            0 <= i < readable_rows(rows) ==> !((#[trigger] rows[i]).secret is NotText),
        readable_rows(rows) < rows.len() ==> rows[readable_rows(rows)].secret is NotText,
    decreases rows.len(),
{
    if rows.len() > 0 && !(rows[0].secret is NotText) {
        let rest = rows.drop_first();
        readable_rows_are_text(rest);
        assert forall|i: int| 0 <= i < readable_rows(rows) implies !((#[trigger] rows[i]).secret is NotText) by {
            if i > 0 {
                assert(rows[i] == rest[i - 1]);
            }
        }
        if readable_rows(rows) < rows.len() {
            assert(rows[readable_rows(rows)] == rest[readable_rows(rest)]);
        }
    }
}

/// Where every secret is text, those that could be decrypted are loaded, each
/// under its own key, and no others. One that is not text ends the loading: the
/// first such is named, and only what stands before it is loaded.
pub proof fn every_decrypted_secret_is_loaded(
    rows: &Vec<SecretRow>,
    r: LoadedSecrets,
    x: (Seq<char>, Seq<char>),
)
    requires
        call_ensures(load_tenant_secrets, (rows,), r),
    ensures
        r.failure is Some <==> exists|i: int|
            0 <= i < rows@.len() && (#[trigger] rows@[i]).secret is NotText,
        exists|at: int|
            0 <= at <= rows@.len() && (forall|i: int|
                0 <= i < at ==> !((#[trigger] rows@[i]).secret is NotText)) && (at < rows@.len()
                ==> rows@[at].secret is NotText) && (secret_views(r.values@).contains(x)
                <==> #[trigger] loaded_before(rows@, at, x)),
        r.failure is None ==> (secret_views(r.values@).contains(x) <==> loaded_before(
            rows@,
            rows@.len() as int,
            x,
        )),
{
    readable_rows_are_text(rows@);
    let at = readable_rows(rows@);
    readable_are_the_plain(rows@, at, x);
    assert(secret_views(r.values@).contains(x) <==> loaded_before(rows@, at, x));
    if r.failure is Some {
        assert(rows@[at].secret is NotText);
    }
}

/// Whether one of the first `n` rows is the secret `x.1` under the key `x.0`.
pub open spec fn loaded_before(rows: Seq<SecretRow>, n: int, x: (Seq<char>, Seq<char>)) -> bool {
    exists|i: int|
        0 <= i < n && (#[trigger] rows[i]).secret is Plain && rows[i].key_name@ == x.0
            && rows[i].secret->Plain_0@ == x.1
}

/// A decision is taken for stored only where nothing stores decisions, or where
/// it was encoded and a durable backend stored it.
pub proof fn only_a_stored_decision_is_taken_for_stored(
    id: &str,
    backend: &MetadataBackend,
    encoded: &Result<(), String>,
    stored: &Result<(), String>,
    r: Result<(), String>,
)
    requires
        call_ensures(persist_pending_decision, (id, backend, encoded, stored), r),
    ensures
        r is Ok <==> backend is Nothing || (encoded is Ok && stored is Ok && (backend is Postgres
            || backend is Turso)),
        backend is Ephemeral && encoded is Ok ==> r->Err_0@ == backend->Ephemeral_0@,
{
}

/// A secret is said to have changed only if a durable backend says so.
pub proof fn only_a_stored_secret_is_changed(
    change: SecretChange,
    tenant: &str,
    key_name: &str,
    backend: &MetadataBackend,
    stored: &Result<bool, String>,
    r: Result<bool, String>,
)
    requires
        call_ensures(change_secret, (change, tenant, key_name, backend, stored), r),
    ensures
        r is Ok && r->Ok_0 ==> (backend is Postgres || backend is Turso) && stored is Ok
            && stored->Ok_0,
        backend is Nothing ==> r is Ok,
        backend is Ephemeral ==> r is Err,
        backend is Postgres || backend is Turso ==> (r is Ok <==> stored is Ok) && (stored is Ok
            ==> r->Ok_0 == stored->Ok_0),
{
}

} // verus!
