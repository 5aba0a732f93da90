//! What the server holds in memory for all its tenants: what each of them is
//! opted in to, and who awaits which execution.

use vstd::prelude::*;
use vstd::string::*;

use crate::ordered::OrdMap;
use crate::ordered::OrdSet;
use crate::server_config::awaited_owner_key;
use crate::server_config::exports;
use crate::server_config::tenant_exports_llm_content;
use crate::text::ascii_digit;
use crate::text::decimal;
use crate::text::decimal_reads_back;
use crate::text::digit_char;
use crate::text::parse_unsigned;
use crate::text::parse_unsigned_of;

verus! {

/// One that awaits an execution, by a number of its own.
#[derive(Clone, Copy, Debug, PartialEq, Eq, Structural)]
pub struct AwaitedOwner {
    pub number: u64,
}

impl View for AwaitedOwner {
    type V = u64;

    open spec fn view(&self) -> u64 {
        self.number
    }
}

/// The in-memory state of the server.
#[derive(Clone, Debug, PartialEq, Eq)]
pub struct ServerState {
    /// The tenants that export the content of language models.
    pub llm_content_export_tenants: OrdSet<String>,
    /// The tenants whose writes are held to the guardrails of the commons.
    pub commons_guardrail_tenants: OrdSet<String>,
    pub cross_invariant_enforce: bool,
    pub cross_invariant_eventual_enforce: bool,
    /// Who awaits an execution, by delivery and fencing token.
    pub awaited_execution_owners: OrdMap<String, AwaitedOwner>,
}

/// The key under which the owner of an awaited execution stands.
pub open spec fn owner_key(delivery_id: Seq<char>, fencing_token: u64) -> Seq<char> {
    delivery_id + ":"@ + decimal(fencing_token as nat)
}

impl ServerState {
    pub open spec fn wf(&self) -> bool {
        &&& self.llm_content_export_tenants.wf()
        &&& self.commons_guardrail_tenants.wf()
        &&& self.awaited_execution_owners.wf()
    }

    /// The state of a server with these tenants opted in to the export of
    /// content, and invariants enforced.
    pub fn new(llm_content_export_tenants: OrdSet<String>) -> (r: Self)
        requires
            llm_content_export_tenants.wf(),
        ensures
            r.wf(),
            r.llm_content_export_tenants == llm_content_export_tenants,
            r.commons_guardrail_tenants@ == Set::<Seq<char>>::empty(),
            r.cross_invariant_enforce,
            r.cross_invariant_eventual_enforce,
            r.awaited_execution_owners@ == Map::<Seq<char>, u64>::empty(),
    {
        ServerState {
            llm_content_export_tenants,
            commons_guardrail_tenants: OrdSet::new(),
            cross_invariant_enforce: true,
            cross_invariant_eventual_enforce: true,
            awaited_execution_owners: OrdMap::new(),
        }
    }

    /// Sets whether invariants across entities are enforced.
    pub fn with_cross_invariant_enforcement(self, enforce: bool, eventual_enforce: bool) -> (r:
        Self)
        ensures
            r == (ServerState {
                cross_invariant_enforce: enforce,
                cross_invariant_eventual_enforce: eventual_enforce,
                ..self
            }),
    {
        ServerState {
            llm_content_export_tenants: self.llm_content_export_tenants,
            commons_guardrail_tenants: self.commons_guardrail_tenants,
            cross_invariant_enforce: enforce,
            cross_invariant_eventual_enforce: eventual_enforce,
            awaited_execution_owners: self.awaited_execution_owners,
        }
    }

    /// Holds the writes of a tenant to the guardrails of the commons.
    pub fn enable_commons_guardrails(&mut self, tenant: &str)
        requires
            old(self).wf(),
        ensures
            final(self).wf(),
            final(self).commons_guardrail_tenants@ == old(self).commons_guardrail_tenants@.insert(
                tenant@,
            ),
            final(self).llm_content_export_tenants == old(self).llm_content_export_tenants,
            final(self).cross_invariant_enforce == old(self).cross_invariant_enforce,
            final(self).cross_invariant_eventual_enforce == old(
                self,
            ).cross_invariant_eventual_enforce,
            final(self).awaited_execution_owners == old(self).awaited_execution_owners,
    {
        let _fresh = self.commons_guardrail_tenants.insert(tenant.to_owned());
    }

    /// Whether the writes of a tenant are held to the guardrails of the commons.
    pub fn commons_guardrails_enabled(&self, tenant: &str) -> (r: bool)
        requires
            self.wf(),
        ensures
            r == self.commons_guardrail_tenants@.contains(tenant@),
    {
        self.commons_guardrail_tenants.contains(&tenant.to_owned())
    }

    /// Whether a tenant's prompts, completions, instructions and tool calls may
    /// be exported. They are not unless the tenant, or every tenant, is opted
    /// in.
    pub fn export_llm_content(&self, tenant: &str) -> (r: bool)
        requires
            self.wf(),
        ensures
            r == exports(self.llm_content_export_tenants@, tenant@),
    {
        tenant_exports_llm_content(&self.llm_content_export_tenants, tenant)
    }

    /// Notes who awaits an execution under a fencing token.
    pub fn register_awaited_execution_owner(
        &mut self,
        delivery_id: &str,
        fencing_token: u64,
        owner: AwaitedOwner,
    )
        requires
            old(self).wf(),
        ensures
            final(self).wf(),
            final(self).awaited_execution_owners@ == old(self).awaited_execution_owners@.insert(
                owner_key(delivery_id@, fencing_token),
                owner@,
            ),
            *final(self) == (ServerState {
                awaited_execution_owners: final(self).awaited_execution_owners,
                ..*old(self)
            }),
    {
        self.awaited_execution_owners.insert(
            awaited_owner_key(delivery_id, fencing_token),
            owner,
        );
    }

    /// Who awaits an execution under the fencing token that the caller's
    /// metadata carries. Nobody where it carries none, or not a number.
    pub fn awaited_execution_owner(&self, delivery_id: &str, fence: Option<&str>) -> (r: Option<
        AwaitedOwner,
    >)
        requires
            self.wf(),
        ensures
            ({
                let token = match fence {
                    Some(text) => parse_unsigned(text@, u64::MAX as nat),
                    None => None,
                };
                let owners = self.awaited_execution_owners@;
                match r {
                    Some(owner) => token is Some && owners.contains_key(
                        owner_key(delivery_id@, token->0 as u64),
                    ) && owners[owner_key(delivery_id@, token->0 as u64)] == owner@,
                    None => token is None || !owners.contains_key(
                        owner_key(delivery_id@, token->0 as u64),
                    ),
                }
            }),
    {
        match fence {
            None => None,
            Some(text) => match parse_unsigned_of(text, u64::MAX) {
                None => None,
                Some(token) => match self.awaited_execution_owners.get(
                    &awaited_owner_key(delivery_id, token),
                ) {
                    Some(owner) => Some(*owner),
                    None => None,
                },
            },
        }
    }

    /// Releases the owner under one fencing token.
    pub fn remove_awaited_execution_owner(&mut self, delivery_id: &str, fencing_token: u64)
        requires
            old(self).wf(),
        ensures
            final(self).wf(),
            final(self).awaited_execution_owners@ == old(self).awaited_execution_owners@.remove(
                owner_key(delivery_id@, fencing_token),
            ),
            *final(self) == (ServerState {
                awaited_execution_owners: final(self).awaited_execution_owners,
                ..*old(self)
            }),
    {
        let _was_there = self.awaited_execution_owners.remove(
            &awaited_owner_key(delivery_id, fencing_token),
        );
    }
}

proof fn decimals_are_digits(n: nat)
    ensures
        forall|i: int| 0 <= i < decimal(n).len() ==> ascii_digit(#[trigger] decimal(n)[i]),
    decreases n,
{
    if n >= 10 {
        decimals_are_digits(n / 10);
    }
    assert forall|i: int| 0 <= i < decimal(n).len() implies ascii_digit(
        #[trigger] decimal(n)[i],
    ) by {
        if n < 10 {
            assert(decimal(n)[i] == digit_char(n));
        } else if i < decimal(n / 10).len() {
            assert(decimal(n)[i] == decimal(n / 10)[i]);
        } else {
            assert(decimal(n)[i] == digit_char(n % 10));
        }
    }
}

/// No two executions share a key: owners under different deliveries or fencing
/// tokens are kept apart, so that releasing one does not touch one that took
/// over.
pub proof fn owners_are_kept_apart(first: Seq<char>, a: u64, second: Seq<char>, b: u64)
    requires
        owner_key(first, a) == owner_key(second, b),
    ensures
        first == second,
        a == b,
{
    reveal_strlit(":");
    let x = decimal(a as nat);
    let y = decimal(b as nat);
    let key = owner_key(first, a);
    decimals_are_digits(a as nat);
    decimals_are_digits(b as nat);
    assert(key.len() == first.len() + 1 + x.len());
    assert(key.len() == second.len() + 1 + y.len());
    assert(key[first.len() as int] == ':');
    assert(owner_key(second, b)[second.len() as int] == ':');
    if first.len() < second.len() {
        let i = second.len() - first.len() - 1;
        assert(key[second.len() as int] == x[i]);
        assert(ascii_digit(x[i]));
    } else if second.len() < first.len() {
        let i = first.len() - second.len() - 1;
        assert(owner_key(second, b)[first.len() as int] == y[i]);
        assert(ascii_digit(y[i]));
    }
    assert(key.take(first.len() as int) =~= first);
    assert(owner_key(second, b).take(second.len() as int) =~= second);
    assert(key.skip(first.len() as int + 1) =~= x);
    assert(owner_key(second, b).skip(second.len() as int + 1) =~= y);
    decimal_reads_back(a as nat);
    decimal_reads_back(b as nat);
}

/// An owner that was registered is found under its delivery and its token, and
/// every other owner is as it was.
pub proof fn a_registered_owner_is_found()
    ensures
        forall|
            s: &mut ServerState,
            delivery: &str,
            token: u64,
            owner: AwaitedOwner,
            r: (),
            after: &ServerState,
            fence: &str,
            found: Option<AwaitedOwner>,
        |
            s.wf() && #[trigger] call_ensures(
                ServerState::register_awaited_execution_owner,
                (s, delivery, token, owner),
                r,
            ) && *after == *final(s) && fence@ == decimal(token as nat)
                && #[trigger] call_ensures(
                ServerState::awaited_execution_owner,
                (after, delivery, Some(fence)),
                found,
            ) ==> found is Some && found->0@ == owner@,
        forall|
            s: &mut ServerState,
            delivery: &str,
            token: u64,
            owner: AwaitedOwner,
            r: (),
            other: Seq<char>,
            at: u64,
        |
            s.wf() && #[trigger] call_ensures(
                ServerState::register_awaited_execution_owner,
                (s, delivery, token, owner),
                r,
            ) && (other != delivery@ || at != token) ==> {
                let key = #[trigger] owner_key(other, at);
                &&& final(s).awaited_execution_owners@.contains_key(key)
                    == s.awaited_execution_owners@.contains_key(key)
                &&& s.awaited_execution_owners@.contains_key(key) ==> final(s).awaited_execution_owners@[key] == s.awaited_execution_owners@[key]
            },
{
    assert forall|
        s: &mut ServerState,
        delivery: &str,
        token: u64,
        owner: AwaitedOwner,
        r: (),
        after: &ServerState,
        fence: &str,
        found: Option<AwaitedOwner>,
    |
        s.wf() && #[trigger] call_ensures(
            ServerState::register_awaited_execution_owner,
            (s, delivery, token, owner),
            r,
        ) && *after == *final(s) && fence@ == decimal(token as nat) && #[trigger] call_ensures(
            ServerState::awaited_execution_owner,
            (after, delivery, Some(fence)),
            found,
        ) implies found is Some && found->0@ == owner@ by {
        read_again(token);
    }
    assert forall|
        s: &mut ServerState,
        delivery: &str,
        token: u64,
        owner: AwaitedOwner,
        r: (),
        other: Seq<char>,
        at: u64,
    |
        s.wf() && #[trigger] call_ensures(
            ServerState::register_awaited_execution_owner,
            (s, delivery, token, owner),
            r,
        ) && (other != delivery@ || at != token) implies {
        let key = #[trigger] owner_key(other, at);
        &&& final(s).awaited_execution_owners@.contains_key(key)
            == s.awaited_execution_owners@.contains_key(key)
        &&& s.awaited_execution_owners@.contains_key(key) ==> final(s).awaited_execution_owners@[key]
            == s.awaited_execution_owners@[key]
    } by {
        if owner_key(other, at) == owner_key(delivery@, token) {
            owners_are_kept_apart(other, at, delivery@, token);
        }
    }
}

proof fn read_again(token: u64)
    ensures
        parse_unsigned(decimal(token as nat), u64::MAX as nat) == Some(token as nat),
{
    decimal_reads_back(token as nat);
    crate::text::decimals_are_all_digits(token as nat);
}

/// An owner that was released is not found, and every other owner is as it was.
pub proof fn a_released_owner_is_gone()
    ensures
        forall|s: &mut ServerState, delivery: &str, token: u64, r: (), other: Seq<char>, at: u64|
            s.wf() && #[trigger] call_ensures(
                ServerState::remove_awaited_execution_owner,
                (s, delivery, token),
                r,
            ) ==> {
                let key = #[trigger] owner_key(other, at);
                let before = s.awaited_execution_owners@;
                let after = final(s).awaited_execution_owners@;
                &&& !after.contains_key(owner_key(delivery@, token))
                &&& (other != delivery@ || at != token) ==> after.contains_key(key)
                    == before.contains_key(key) && (before.contains_key(key) ==> after[key]
                    == before[key])
            },
{
    assert forall|s: &mut ServerState, delivery: &str, token: u64, r: (), other: Seq<char>, at: u64|
        s.wf() && #[trigger] call_ensures(
            ServerState::remove_awaited_execution_owner,
            (s, delivery, token),
            r,
        ) implies {
        let key = #[trigger] owner_key(other, at);
        let before = s.awaited_execution_owners@;
        let after = final(s).awaited_execution_owners@;
        &&& !after.contains_key(owner_key(delivery@, token))
        &&& (other != delivery@ || at != token) ==> after.contains_key(key) == before.contains_key(
            key,
        ) && (before.contains_key(key) ==> after[key] == before[key])
    } by {
        if owner_key(other, at) == owner_key(delivery@, token) {
            owners_are_kept_apart(other, at, delivery@, token);
        }
    }
}

/// Without a token that can be read no owner is found.
pub proof fn an_owner_is_found_by_its_token_only(
    s: &ServerState,
    delivery: &str,
    found: Option<AwaitedOwner>,
)
    requires
        s.wf(),
        call_ensures(ServerState::awaited_execution_owner, (s, delivery, None::<&str>), found),
    ensures
        found is None,
{
}

/// The guardrails are on for a tenant once they were switched on, and switching
/// them on for one changes nothing for another.
pub proof fn guardrails_are_switched_on_one_by_one()
    ensures
        forall|s: &mut ServerState, tenant: &str, r: (), after: &ServerState, asked: &str, on: bool|
            s.wf() && #[trigger] call_ensures(
                ServerState::enable_commons_guardrails,
                (s, tenant),
                r,
            ) && *after == *final(s) && #[trigger] call_ensures(
                ServerState::commons_guardrails_enabled,
                (after, asked),
                on,
            ) ==> on == (asked@ == tenant@ || s.commons_guardrail_tenants@.contains(asked@)),
{
}

} // verus!
