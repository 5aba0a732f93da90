//! When the background workers of the server run: the recovery of reactions,
//! tenant by tenant, and the migration of schemas.

use vstd::prelude::*;
use vstd::string::*;

use crate::ordered::OrdMap;
use crate::text::filter_keeps_exactly;
use crate::text::views;

verus! {

/// The most nanoseconds that a failed recovery waits.
pub const RECOVERY_RETRY_NANOS: u64 = 1_000_000_000;

/// When each tenant's reactions are recovered next, in nanoseconds of one
/// clock.
#[derive(Clone, Debug, PartialEq, Eq)]
pub struct RecoverySchedule {
    pub due: OrdMap<String, u64>,
}

/// How a recovery of one tenant ended.
#[derive(Clone, Copy, Debug, PartialEq, Eq, Structural)]
pub enum RecoveryCycle {
    /// It ran; the tenant is due again after this many nanoseconds.
    Ran(u64),
    /// It failed.
    Failed,
    /// It used up its time.
    TimedOut,
}

pub open spec fn later_by(now: u64, nanos: u64) -> u64 {
    if now + nanos > u64::MAX {
        u64::MAX
    } else {
        (now + nanos) as u64
    }
}

/// When a tenant is due after a cycle.
pub open spec fn due_after(now: u64, cycle: RecoveryCycle) -> u64 {
    match cycle {
        RecoveryCycle::Ran(delay) => later_by(now, delay),
        RecoveryCycle::Failed => later_by(now, RECOVERY_RETRY_NANOS),
        RecoveryCycle::TimedOut => later_by(now, RECOVERY_RETRY_NANOS),
    }
}

/// Whether a worker stops: its server is gone, or another worker replaced it.
pub fn worker_is_retired(owner_alive: bool, current_generation: u64, own_generation: u64) -> (r:
    bool)
    ensures
        r == (!owner_alive || current_generation != own_generation),
{
    !owner_alive || current_generation != own_generation
}

/// The tenants among `keys` that are due at `now`, in their order.
pub open spec fn due_among(keys: Seq<Seq<char>>, due: Map<Seq<char>, u64>, now: u64) -> Seq<
    Seq<char>,
> {
    keys.filter(|t: Seq<char>| due[t] <= now)
}

impl RecoverySchedule {
    pub open spec fn wf(&self) -> bool {
        self.due.wf()
    }

    /// Every tenant is due at once.
    pub fn start(tenants: &Vec<String>, now: u64) -> (r: Self)
        ensures
            r.wf(),
            forall|t: Seq<char>| #[trigger]
                r.due@.contains_key(t) == views(tenants@).contains(t),
            forall|t: Seq<char>| #[trigger] r.due@.contains_key(t) ==> r.due@[t] == now,
    {
        let mut schedule = RecoverySchedule { due: OrdMap::new() };
        schedule.wake(tenants, now);
        proof {
            assert forall|t: Seq<char>| #[trigger] schedule.due@.contains_key(t) implies
                schedule.due@[t] == now by {
                assert(views(tenants@).contains(t));
            }
        }
        schedule
    }

    /// Makes tenants due now.
    pub fn wake(&mut self, tenants: &Vec<String>, now: u64)
        requires
            old(self).wf(),
        ensures
            final(self).wf(),
            forall|t: Seq<char>| #[trigger]
                final(self).due@.contains_key(t) == (old(self).due@.contains_key(t) || views(
                    tenants@,
                ).contains(t)),
            forall|t: Seq<char>|
                views(tenants@).contains(t) ==> #[trigger] final(self).due@[t] == now,
            forall|t: Seq<char>|
                !views(tenants@).contains(t) && old(self).due@.contains_key(t)
                    ==> #[trigger] final(self).due@[t] == old(self).due@[t],
    {
        let ghost all = views(tenants@);
        let mut i: usize = 0;
        while i < tenants.len()
            invariant
                i <= tenants.len(),
                all == views(tenants@),
                self.wf(),
                forall|t: Seq<char>| #[trigger]
                    self.due@.contains_key(t) == (old(self).due@.contains_key(t) || all.take(
                        i as int,
                    ).contains(t)),
                forall|t: Seq<char>|
                    all.take(i as int).contains(t) ==> #[trigger] self.due@[t] == now,
                forall|t: Seq<char>|
                    !all.take(i as int).contains(t) && old(self).due@.contains_key(t)
                        ==> #[trigger] self.due@[t] == old(self).due@[t],
            decreases tenants.len() - i,
        {
            proof {
                assert(all[i as int] == tenants@[i as int]@);
                assert forall|t: Seq<char>| #[trigger] all.take(i + 1).contains(t) == (all.take(
                    i as int,
                ).contains(t) || t == all[i as int]) by {
                    if all.take(i as int).contains(t) {
                        let k = all.take(i as int).index_of(t);
                        assert(all.take(i + 1)[k] == t);
                    }
                    if all.take(i + 1).contains(t) {
                        let k = all.take(i + 1).index_of(t);
                        if k < i {
                            assert(all.take(i as int)[k] == t);
                        }
                    }
                    assert(all.take(i + 1)[i as int] == all[i as int]);
                }
            }
            self.due.insert(tenants[i].clone(), now);
            i = i + 1;
        }
        proof {
            assert(all.take(all.len() as int) =~= all);
        }
    }

    /// The tenants that are due, in the order of their names.
    pub fn due_tenants(&self, now: u64) -> (r: Vec<String>)
        requires
            self.wf(),
        ensures
            views(r@) == due_among(self.due.list(), self.due@, now),
    {
        let ghost keys = self.due.list();
        let ghost pred = |t: Seq<char>| self.due@[t] <= now;
        let n: usize = self.due.len();
        let mut out: Vec<String> = Vec::new();
        let mut i: usize = 0;
        proof {
            assert(keys.take(0).filter(pred) =~= Seq::<Seq<char>>::empty());
            assert(views(out@) =~= Seq::<Seq<char>>::empty());
        }
        while i < n
            invariant
                i <= n,
                n == keys.len(),
                self.wf(),
                keys == self.due.list(),
                pred == (|t: Seq<char>| self.due@[t] <= now),
                views(out@) == keys.take(i as int).filter(pred),
            decreases n - i,
        {
            proof {
                assert(keys.take(i + 1).drop_last() =~= keys.take(i as int));
                assert(keys.take(i + 1).last() == keys[i as int]);
                reveal(Seq::filter);
            }
            if *self.due.value_at(i) <= now {
                let ghost before = views(out@);
                out.push(self.due.key_at(i).clone());
                proof {
                    assert(views(out@) =~= before.push(keys[i as int]));
                }
            }
            i = i + 1;
        }
        proof {
            assert(keys.take(keys.len() as int) =~= keys);
        }
        out
    }

    /// The time that the worker sleeps to: that of the tenant that is due
    /// first, and `now` where there is none.
    pub fn next_due(&self, now: u64) -> (r: u64)
        requires
            self.wf(),
        ensures
            self.due@.dom().len() == 0 ==> r == now,
            forall|t: Seq<char>| #[trigger] self.due@.contains_key(t) ==> r <= self.due@[t],
            self.due@.dom().len() > 0 ==> exists|t: Seq<char>| #[trigger]
                self.due@.contains_key(t) && self.due@[t] == r,
    {
        let ghost keys = self.due.list();
        let n: usize = self.due.len();
        proof {
            self.due.places();
        }
        if n == 0 {
            proof {
                assert forall|t: Seq<char>| #[trigger] self.due@.contains_key(t) implies now
                    <= self.due@[t] by {
                    assert(keys.contains(t));
                }
            }
            return now;
        }
        let mut best: u64 = *self.due.value_at(0);
        let ghost mut at: int = 0;
        let mut i: usize = 1;
        while i < n
            invariant
                1 <= i <= n,
                n == keys.len(),
                self.wf(),
                keys == self.due.list(),
                0 <= at < n,
                best == self.due@[keys[at]],
                forall|k: int| 0 <= k < i ==> best <= self.due@[#[trigger] keys[k]],
            decreases n - i,
        {
            let v: u64 = *self.due.value_at(i);
            if v < best {
                best = v;
                proof {
                    at = i as int;
                }
            }
            i = i + 1;
        }
        proof {
            self.due.places();
            assert(self.due@.contains_key(keys[at]));
            assert forall|t: Seq<char>| #[trigger] self.due@.contains_key(t) implies best
                <= self.due@[t] by {
                assert(keys.contains(t));
                let k = keys.index_of(t);
                assert(keys[k] == t);
            }
        }
        best
    }

    /// Ends the cycle of one tenant.
    pub fn finish(&mut self, tenant: &str, now: u64, cycle: RecoveryCycle)
        requires
            old(self).wf(),
        ensures
            final(self).wf(),
            final(self).due@ == old(self).due@.insert(tenant@, due_after(now, cycle)),
    {
        let delay: u64 = match cycle {
            RecoveryCycle::Ran(delay) => delay,
            RecoveryCycle::Failed => RECOVERY_RETRY_NANOS,
            RecoveryCycle::TimedOut => RECOVERY_RETRY_NANOS,
        };
        self.due.insert(tenant.to_owned(), now.saturating_add(delay));
    }
}

/// A tenant is handed out exactly when it is due, and none that is due is left
/// out.
pub proof fn the_due_tenants_are_handed_out(
    keys: Seq<Seq<char>>,
    due: Map<Seq<char>, u64>,
    now: u64,
    tenant: Seq<char>,
)
    ensures
        due_among(keys, due, now).contains(tenant) == (keys.contains(tenant) && due[tenant]
            <= now),
{
    filter_keeps_exactly(keys, |t: Seq<char>| due[t] <= now, tenant);
}

/// Where a schema migration stands, as far as its supervisor is concerned.
#[derive(Clone, Debug, PartialEq, Eq)]
pub struct MigrationLease {
    /// A worker has claimed it.
    pub migrating: bool,
    /// When that claim runs out, in milliseconds.
    pub lease_expires_at: Option<u64>,
}

/// Whether a recovered migration is driven: nobody has it, or its claim has run
/// out. A claim without an end does not run out.
pub open spec fn is_drivable(lease: MigrationLease, now_millis: u64) -> bool {
    !lease.migrating || (lease.lease_expires_at is Some && lease.lease_expires_at->0 <= now_millis)
}

/// Whether a recovered migration is driven.
pub fn migration_is_drivable(lease: &MigrationLease, now_millis: u64) -> (r: bool)
    ensures
        r == is_drivable(*lease, now_millis),
{
    !lease.migrating || match lease.lease_expires_at {
        Some(deadline) => deadline <= now_millis,
        None => false,
    }
}

/// The places of the migrations among the first `n` that may be driven.
pub open spec fn drivable_places(leases: Seq<MigrationLease>, now_millis: u64, n: int) -> Seq<usize>
    decreases n,
{
    if n <= 0 {
        Seq::empty()
    } else if is_drivable(leases[n - 1], now_millis) {
        drivable_places(leases, now_millis, n - 1).push((n - 1) as usize)
    } else {
        drivable_places(leases, now_millis, n - 1)
    }
}

/// The migrations of a scan that may be driven, in their order.
pub fn drivable_migrations(leases: &Vec<MigrationLease>, now_millis: u64) -> (r: Vec<usize>)
    ensures
        r@ == drivable_places(leases@, now_millis, leases@.len() as int),
{
    let mut places: Vec<usize> = Vec::new();
    let mut i: usize = 0;
    while i < leases.len()
        invariant
            i <= leases.len(),
            places@ == drivable_places(leases@, now_millis, i as int),
        decreases leases.len() - i,
    {
        if migration_is_drivable(&leases[i], now_millis) {
            places.push(i);
        }
        i = i + 1;
    }
    places
}

/// The milliseconds that leases are held against: none before the epoch.
pub fn lease_clock(epoch_millis: i64) -> (r: u64)
    ensures
        r == if epoch_millis >= 0 {
            epoch_millis as u64
        } else {
            0
        },
{
    if epoch_millis >= 0 {
        epoch_millis as u64
    } else {
        0
    }
}

/// Why a migration could not be handed to the supervisor.
#[derive(Clone, Copy, Debug, PartialEq, Eq, Structural)]
pub enum HandoffFailure {
    Poisoned,
    Unavailable,
    Full,
    Closed,
}

/// The text of a failed handoff.
pub fn handoff_failure_text(failure: HandoffFailure) -> (r: &'static str)
    ensures
        r@ == match failure {
            HandoffFailure::Poisoned => "schema migration supervisor lock poisoned"@,
            HandoffFailure::Unavailable => "schema migration supervisor is unavailable"@,
            HandoffFailure::Full => "schema migration supervisor queue budget exhausted"@,
            HandoffFailure::Closed => "schema migration supervisor stopped"@,
        },
{
    match failure {
        HandoffFailure::Poisoned => "schema migration supervisor lock poisoned",
        HandoffFailure::Unavailable => "schema migration supervisor is unavailable",
        HandoffFailure::Full => "schema migration supervisor queue budget exhausted",
        HandoffFailure::Closed => "schema migration supervisor stopped",
    }
}

/// A tenant whose cycle ran is due again after the delay that it asked for, and
/// one whose cycle did not run through after the delay for retries; no other
/// tenant is moved.
pub proof fn a_finished_tenant_is_due_again()
    ensures
        forall|s: &mut RecoverySchedule, tenant: &str, now: u64, cycle: RecoveryCycle, r: ()|
            s.wf() && #[trigger] call_ensures(
                RecoverySchedule::finish,
                (s, tenant, now, cycle),
                r,
            ) ==> {
                let wait = if cycle is Ran {
                    cycle->Ran_0
                } else {
                    RECOVERY_RETRY_NANOS
                };
                let next = final(s).due@[tenant@];
                &&& final(s).due@.dom() =~= s.due@.dom().insert(tenant@)
                &&& now + wait <= u64::MAX ==> next == now + wait
                &&& now + wait > u64::MAX ==> next == u64::MAX
                &&& forall|t: Seq<char>|
                    t != tenant@ && s.due@.contains_key(t) ==> #[trigger] final(s).due@[t]
                        == s.due@[t]
            },
{
}

/// A worker goes on only for an owner that is alive and of its own generation.
pub proof fn only_the_current_worker_goes_on(alive: bool, current: u64, own: u64, r: bool)
    requires
        call_ensures(worker_is_retired, (alive, current, own), r),
    ensures
        !r <==> alive && current == own,
{
}

proof fn drivable_places_grow(leases: Seq<MigrationLease>, now: u64, n: int, at: usize)
    requires
        0 <= n <= leases.len() <= usize::MAX,
    ensures
        drivable_places(leases, now, n).contains(at) <==> at < n && (!leases[at as int].migrating
            || (leases[at as int].lease_expires_at is Some && leases[at as int].lease_expires_at->0
            <= now)),
        forall|i: int| 0 <= i < drivable_places(leases, now, n).len() ==> (
        #[trigger] drivable_places(leases, now, n)[i]) < n,
        forall|i: int, j: int|
            0 <= i < j < drivable_places(leases, now, n).len() ==> (#[trigger] drivable_places(
                leases,
                now,
                n,
            )[i]) < (#[trigger] drivable_places(leases, now, n)[j]),
    decreases n,
{
    if n > 0 {
        drivable_places_grow(leases, now, n - 1, at);
        let before = drivable_places(leases, now, n - 1);
        let after = drivable_places(leases, now, n);
        if is_drivable(leases[n - 1], now) {
            assert(after == before.push((n - 1) as usize));
            assert(after[before.len() as int] == (n - 1) as usize);
            if before.contains(at) {
                assert(after[before.index_of(at)] == at);
            }
            if after.contains(at) {
                let k = after.index_of(at);
                if k < before.len() {
                    assert(before[k] == at);
                }
            }
        }
    }
}

/// A migration is driven exactly if nobody has claimed it or the claim has run
/// out, and none is driven twice.
pub proof fn only_a_free_migration_is_driven(
    leases: &Vec<MigrationLease>,
    now: u64,
    r: Vec<usize>,
    at: usize,
)
    requires
        call_ensures(drivable_migrations, (leases, now), r),
    ensures
        r@.contains(at) <==> at < leases@.len() && (!leases@[at as int].migrating || (
        leases@[at as int].lease_expires_at is Some && leases@[at as int].lease_expires_at->0 <= now)),
        forall|i: int, j: int| 0 <= i < j < r@.len() ==> (#[trigger] r@[i]) < (#[trigger] r@[j]),
{
    assert(leases.len() == leases@.len());
    drivable_places_grow(leases@, now, leases@.len() as int, at);
}

} // verus!
