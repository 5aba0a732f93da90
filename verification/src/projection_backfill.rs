//! Backfill of the query projections: what is done with each entity, and the
//! account that is kept of it.

use vstd::prelude::*;
use vstd::string::*;

use crate::json::Json;
use crate::ordered::OrdMap;
use crate::ordered::Pair;
use crate::query_projection::hidden_names;
use crate::query_projection::projection_row;
use crate::query_projection::row_of;
use crate::query_projection::ProjectionRow;
use crate::query_projection::ReplayedEntity;
use crate::query_projection::RowModel;
use crate::text::same;
use crate::text::texts;
use crate::text::views;

verus! {

/// Outcome of loading one entity's current state for an index backfill.
#[derive(Debug, PartialEq, Eq)]
pub enum EntityLoadOutcome {
    /// Loaded: index it from these fields.
    Fields(Json),
    /// Definitively skippable: deleted, or without events. Not indexed, and not
    /// a failure.
    Skip,
    /// The entity exists but its state could not be loaded, so its type must
    /// not be marked as covered.
    LoadFailed,
}

/// Classifies the load of one entity. `replayed` is the strict replay of its
/// journal, which needs the transition table of its type.
pub fn load_entity_current_fields(
    has_table: bool,
    replayed: Result<ReplayedEntity, String>,
) -> (r: EntityLoadOutcome)
    ensures
        r is LoadFailed == (!has_table || replayed is Err),
        r is Skip == (has_table && replayed is Ok && (replayed->Ok_0.status@ == "Deleted"@
            || replayed->Ok_0.total_event_count == 0)),
        r is Fields ==> r->Fields_0 == replayed->Ok_0.fields,
{
    if !has_table {
        return EntityLoadOutcome::LoadFailed;
    }
    match replayed {
        Err(_) => EntityLoadOutcome::LoadFailed,
        Ok(entity) => if same(entity.status.as_str(), "Deleted") || entity.total_event_count == 0 {
            EntityLoadOutcome::Skip
        } else {
            EntityLoadOutcome::Fields(entity.fields)
        },
    }
}

/// Whether a type may be marked as covered by an index: no entity of it failed
/// to load.
pub fn index_is_covered(outcomes: &Vec<EntityLoadOutcome>) -> (r: bool)
    ensures
        r == (forall|i: int|
            0 <= i < outcomes@.len() ==> !((#[trigger] outcomes@[i]) is LoadFailed)),
{
    let mut i: usize = 0;
    while i < outcomes.len()
        invariant
            i <= outcomes.len(),
            forall|k: int| 0 <= k < i ==> !((#[trigger] outcomes@[k]) is LoadFailed),
        decreases outcomes.len() - i,
    {
        match &outcomes[i] {
            EntityLoadOutcome::LoadFailed => {
                return false;
            },
            _ => {},
        }
        i = i + 1;
    }
    true
}

/// The snapshot of an entity, as it was read.
#[derive(Debug, PartialEq, Eq)]
pub enum SnapshotRead {
    /// It could not be read.
    Failed,
    /// There is none.
    Absent,
    /// Its bytes do not decode.
    Undecodable,
    Read(ReplayedEntity),
}

/// What is done with the row of an entity in the first phase.
#[derive(Debug, PartialEq, Eq)]
pub enum SnapshotPlan {
    /// Nothing, for this outcome.
    Settled(SnapshotOutcome),
    /// This row is written.
    Upsert(ProjectionRow),
}

/// What a [`SnapshotPlan`] holds.
pub enum SnapshotPlanModel {
    Settled(SnapshotOutcome),
    Upsert(RowModel),
}

impl View for SnapshotPlan {
    type V = SnapshotPlanModel;

    open spec fn view(&self) -> SnapshotPlanModel {
        match self {
            Self::Settled(outcome) => SnapshotPlanModel::Settled(*outcome),
            Self::Upsert(row) => SnapshotPlanModel::Upsert(row@),
        }
    }
}

/// What is done with the row of an entity whose snapshot was read. `hidden` are
/// the names that its specification keeps out of queries, where it has one.
pub open spec fn snapshot_planned(
    snapshot: SnapshotRead,
    hidden: Option<Seq<Seq<char>>>,
) -> SnapshotPlanModel {
    match snapshot {
        SnapshotRead::Failed => SnapshotPlanModel::Settled(SnapshotOutcome::LoadFailed),
        SnapshotRead::Absent => SnapshotPlanModel::Settled(SnapshotOutcome::Missing),
        SnapshotRead::Undecodable => SnapshotPlanModel::Settled(SnapshotOutcome::Unreadable),
        SnapshotRead::Read(entity) => SnapshotPlanModel::Upsert(row_of(entity, hidden)),
    }
}

/// What is done with the row of an entity whose snapshot was read.
pub fn snapshot_plan(snapshot: &SnapshotRead, unindexed: &Option<Vec<String>>) -> (r: SnapshotPlan)
    ensures
        r@ == snapshot_planned(*snapshot, hidden_names(*unindexed)),
{
    match snapshot {
        SnapshotRead::Failed => SnapshotPlan::Settled(SnapshotOutcome::LoadFailed),
        SnapshotRead::Absent => SnapshotPlan::Settled(SnapshotOutcome::Missing),
        SnapshotRead::Undecodable => SnapshotPlan::Settled(SnapshotOutcome::Unreadable),
        SnapshotRead::Read(entity) => SnapshotPlan::Upsert(projection_row(entity, unindexed)),
    }
}

/// What became of one entity in the first phase, from its snapshot.
#[derive(Clone, Copy, Debug, PartialEq, Eq, Structural)]
pub enum SnapshotOutcome {
    Indexed,
    UpsertFailed,
    /// The snapshot does not decode: the journal is replayed in the second phase.
    Unreadable,
    /// There is no snapshot: the journal is replayed in the second phase.
    Missing,
    LoadFailed,
}

/// What became of one entity in the second phase, from its journal.
#[derive(Clone, Copy, Debug, PartialEq, Eq, Structural)]
pub enum ReplayOutcome {
    MissingTable,
    ReplayFailed,
    Empty,
    /// It is deleted, and its row was taken out.
    Removed,
    RemoveFailed,
    Indexed,
    UpsertFailed,
}

/// What is done with the row of a replayed entity.
#[derive(Debug, PartialEq, Eq)]
pub enum ReplayPlan {
    /// Nothing, for this outcome.
    Settled(ReplayOutcome),
    /// The row is taken out.
    Remove,
    /// This row is written.
    Upsert(ProjectionRow),
}

/// What a [`ReplayPlan`] holds.
pub enum ReplayPlanModel {
    Settled(ReplayOutcome),
    Remove,
    Upsert(RowModel),
}

impl View for ReplayPlan {
    type V = ReplayPlanModel;

    open spec fn view(&self) -> ReplayPlanModel {
        match self {
            Self::Settled(outcome) => ReplayPlanModel::Settled(*outcome),
            Self::Remove => ReplayPlanModel::Remove,
            Self::Upsert(row) => ReplayPlanModel::Upsert(row@),
        }
    }
}

/// What is done with the row of an entity whose journal was replayed. `hidden`
/// are the names that its specification keeps out of queries, where it has one.
pub open spec fn planned(
    has_table: bool,
    replayed: Result<ReplayedEntity, String>,
    hidden: Option<Seq<Seq<char>>>,
) -> ReplayPlanModel {
    if !has_table {
        ReplayPlanModel::Settled(ReplayOutcome::MissingTable)
    } else {
        match replayed {
            Err(_) => ReplayPlanModel::Settled(ReplayOutcome::ReplayFailed),
            Ok(e) => if e.total_event_count == 0 {
                ReplayPlanModel::Settled(ReplayOutcome::Empty)
            } else if e.status@ == "Deleted"@ {
                ReplayPlanModel::Remove
            } else {
                ReplayPlanModel::Upsert(row_of(e, hidden))
            },
        }
    }
}

/// What is done with the row of an entity whose journal was replayed.
pub fn replay_plan(
    has_table: bool,
    replayed: &Result<ReplayedEntity, String>,
    unindexed: &Option<Vec<String>>,
) -> (r: ReplayPlan)
    ensures
        r@ == planned(has_table, *replayed, hidden_names(*unindexed)),
{
    if !has_table {
        return ReplayPlan::Settled(ReplayOutcome::MissingTable);
    }
    match replayed {
        Err(_) => ReplayPlan::Settled(ReplayOutcome::ReplayFailed),
        Ok(entity) => if entity.total_event_count == 0 {
            ReplayPlan::Settled(ReplayOutcome::Empty)
        } else if same(entity.status.as_str(), "Deleted") {
            ReplayPlan::Remove
        } else {
            ReplayPlan::Upsert(projection_row(entity, unindexed))
        },
    }
}

/// The account of a backfill.
#[derive(Clone, Copy, Debug, PartialEq, Eq, Structural)]
pub struct BackfillTally {
    pub indexed: u64,
    pub errors: u64,
    /// Entities that wait for the second phase.
    pub needs_replay: u64,
    /// Deleted entities whose row was taken out.
    pub removed: u64,
}

impl BackfillTally {
    /// How many entities the account covers.
    pub open spec fn covered(&self) -> int {
        self.indexed + self.errors + self.needs_replay + self.removed
    }

    pub fn new() -> (r: Self)
        ensures
            r.covered() == 0,
            r.indexed == 0,
            r.errors == 0,
            r.needs_replay == 0,
            r.removed == 0,
    {
        BackfillTally { indexed: 0, errors: 0, needs_replay: 0, removed: 0 }
    }

    /// Enters an entity of the first phase. Gives the word that its metric is
    /// counted under, if it is counted.
    pub fn enter_snapshot(&mut self, outcome: SnapshotOutcome) -> (r: Option<&'static str>)
        requires
            old(self).covered() < u64::MAX,
        ensures
            *final(self) == snapshot_entered(*old(self), outcome),
            final(self).covered() == old(self).covered() + 1,
            crate::text::opt_str(r) == snapshot_word(outcome),
    {
        match outcome {
            SnapshotOutcome::Indexed => {
                self.indexed = self.indexed + 1;
                Some("ok")
            },
            SnapshotOutcome::UpsertFailed => {
                self.errors = self.errors + 1;
                Some("error")
            },
            SnapshotOutcome::LoadFailed => {
                self.errors = self.errors + 1;
                Some("error")
            },
            SnapshotOutcome::Missing => {
                self.needs_replay = self.needs_replay + 1;
                Some("missing_snapshot")
            },
            SnapshotOutcome::Unreadable => {
                self.needs_replay = self.needs_replay + 1;
                None
            },
        }
    }

    /// Enters an entity of the second phase, which waited for it. Gives the
    /// word that its metric is counted under, if it is counted.
    pub fn enter_replay(&mut self, outcome: ReplayOutcome) -> (r: Option<&'static str>)
        requires
            old(self).needs_replay > 0,
            old(self).covered() <= u64::MAX,
        ensures
            *final(self) == replay_entered(*old(self), outcome),
            final(self).covered() == old(self).covered(),
            crate::text::opt_str(r) == replay_word(outcome),
    {
        self.needs_replay = self.needs_replay - 1;
        match outcome {
            ReplayOutcome::Indexed => {
                self.indexed = self.indexed + 1;
                Some("ok")
            },
            ReplayOutcome::Removed => {
                self.removed = self.removed + 1;
                Some("deleted_removed")
            },
            ReplayOutcome::MissingTable => {
                self.errors = self.errors + 1;
                Some("missing_table")
            },
            ReplayOutcome::ReplayFailed => {
                self.errors = self.errors + 1;
                None
            },
            ReplayOutcome::Empty => {
                self.errors = self.errors + 1;
                Some("empty")
            },
            ReplayOutcome::RemoveFailed => {
                self.errors = self.errors + 1;
                Some("error")
            },
            ReplayOutcome::UpsertFailed => {
                self.errors = self.errors + 1;
                Some("error")
            },
        }
    }
}

/// The account after an entity of the first phase.
pub open spec fn snapshot_entered(t: BackfillTally, outcome: SnapshotOutcome) -> BackfillTally {
    match outcome {
        SnapshotOutcome::Indexed => BackfillTally { indexed: (t.indexed + 1) as u64, ..t },
        SnapshotOutcome::UpsertFailed => BackfillTally { errors: (t.errors + 1) as u64, ..t },
        SnapshotOutcome::LoadFailed => BackfillTally { errors: (t.errors + 1) as u64, ..t },
        SnapshotOutcome::Missing => BackfillTally {
            needs_replay: (t.needs_replay + 1) as u64,
            ..t
        },
        SnapshotOutcome::Unreadable => BackfillTally {
            needs_replay: (t.needs_replay + 1) as u64,
            ..t
        },
    }
}

/// The word that an entity of the first phase is counted under.
pub open spec fn snapshot_word(outcome: SnapshotOutcome) -> Option<Seq<char>> {
    match outcome {
        SnapshotOutcome::Indexed => Some("ok"@),
        SnapshotOutcome::UpsertFailed => Some("error"@),
        SnapshotOutcome::LoadFailed => Some("error"@),
        SnapshotOutcome::Missing => Some("missing_snapshot"@),
        SnapshotOutcome::Unreadable => None,
    }
}

/// The account after an entity of the second phase.
pub open spec fn replay_entered(t: BackfillTally, outcome: ReplayOutcome) -> BackfillTally {
    let left = BackfillTally { needs_replay: (t.needs_replay - 1) as u64, ..t };
    match outcome {
        ReplayOutcome::Indexed => BackfillTally { indexed: (t.indexed + 1) as u64, ..left },
        ReplayOutcome::Removed => BackfillTally { removed: (t.removed + 1) as u64, ..left },
        _ => BackfillTally { errors: (t.errors + 1) as u64, ..left },
    }
}

/// The word that an entity of the second phase is counted under.
pub open spec fn replay_word(outcome: ReplayOutcome) -> Option<Seq<char>> {
    match outcome {
        ReplayOutcome::Indexed => Some("ok"@),
        ReplayOutcome::Removed => Some("deleted_removed"@),
        ReplayOutcome::MissingTable => Some("missing_table"@),
        ReplayOutcome::ReplayFailed => None,
        ReplayOutcome::Empty => Some("empty"@),
        ReplayOutcome::RemoveFailed => Some("error"@),
        ReplayOutcome::UpsertFailed => Some("error"@),
    }
}

/// The account after the first `n` entities of the first phase.
pub open spec fn first_phase(outcomes: Seq<SnapshotOutcome>, n: int) -> BackfillTally
    decreases n,
{
    if n <= 0 {
        BackfillTally { indexed: 0, errors: 0, needs_replay: 0, removed: 0 }
    } else {
        snapshot_entered(first_phase(outcomes, n - 1), outcomes[n - 1])
    }
}

/// The account after the second phase of the first `n` entities that waited.
pub open spec fn second_phase(
    start: BackfillTally,
    outcomes: Seq<ReplayOutcome>,
    n: int,
) -> BackfillTally
    decreases n,
{
    if n <= 0 {
        start
    } else {
        replay_entered(second_phase(start, outcomes, n - 1), outcomes[n - 1])
    }
}

/// Every entity of a backfill ends in exactly one column of its account: once
/// all that waited were replayed, the columns add up to the entities.
pub proof fn a_backfill_accounts_for_every_entity(
    snapshots: Seq<SnapshotOutcome>,
    replays: Seq<ReplayOutcome>,
)
    requires
        snapshots.len() <= u64::MAX,
        replays.len() == first_phase(snapshots, snapshots.len() as int).needs_replay,
    ensures
        ({
            let done = second_phase(
                first_phase(snapshots, snapshots.len() as int),
                replays,
                replays.len() as int,
            );
            &&& done.needs_replay == 0
            &&& done.indexed + done.errors + done.removed == snapshots.len()
        }),
{
    first_phase_adds_up(snapshots, snapshots.len() as int);
    second_phase_keeps(
        first_phase(snapshots, snapshots.len() as int),
        replays,
        replays.len() as int,
    );
}

proof fn first_phase_adds_up(outcomes: Seq<SnapshotOutcome>, n: int)
    requires
        0 <= n <= outcomes.len(),
        outcomes.len() <= u64::MAX,
    ensures
        first_phase(outcomes, n).covered() == n,
        first_phase(outcomes, n).removed == 0,
    decreases n,
{
    if n > 0 {
        first_phase_adds_up(outcomes, n - 1);
    }
}

/// The identifiers that a type's listing gave: none where it failed.
pub open spec fn listed_ids(listing: Result<Vec<String>, String>) -> Seq<Seq<char>> {
    match listing {
        Ok(ids) => texts(ids@),
        Err(_) => Seq::empty(),
    }
}

/// The entities of the first `n` types, by the listings of their journals.
pub open spec fn enumerated(
    types: Seq<String>,
    listings: Seq<Result<Vec<String>, String>>,
    n: int,
) -> Seq<(Seq<char>, Seq<char>)>
    decreases n,
{
    if n <= 0 {
        Seq::empty()
    } else {
        enumerated(types, listings, n - 1) + listed_ids(listings[n - 1]).map_values(
            |id: Seq<char>| (types[n - 1]@, id),
        )
    }
}

/// The entities that a backfill considers: those that the journals of the types
/// list, type by type. A type whose listing failed is left out.
pub fn enumerate_entities(
    types: &Vec<String>,
    listings: &Vec<Result<Vec<String>, String>>,
) -> (r: Vec<Pair>)
    requires
        listings@.len() == types@.len(),
    ensures
        views(r@) == enumerated(types@, listings@, types@.len() as int),
{
    let mut out: Vec<Pair> = Vec::new();
    let mut i: usize = 0;
    proof {
        assert(views(out@) =~= Seq::<(Seq<char>, Seq<char>)>::empty());
    }
    while i < types.len()
        invariant
            i <= types.len(),
            listings@.len() == types@.len(),
            views(out@) == enumerated(types@, listings@, i as int),
        decreases types.len() - i,
    {
        let ghost before = views(out@);
        let ghost t = types@[i as int]@;
        match &listings[i] {
            Ok(ids) => {
                let ghost all = texts(ids@).map_values(|id: Seq<char>| (t, id));
                let mut j: usize = 0;
                proof {
                    assert(all.take(0) =~= Seq::<(Seq<char>, Seq<char>)>::empty());
                    assert(before + all.take(0) =~= before);
                }
                while j < ids.len()
                    invariant
                        j <= ids.len(),
                        i < types.len(),
                        t == types@[i as int]@,
                        all == texts(ids@).map_values(|id: Seq<char>| (t, id)),
                        all.len() == ids@.len(),
                        views(out@) == before + all.take(j as int),
                    decreases ids.len() - j,
                {
                    let ghost so_far = views(out@);
                    out.push(Pair { first: types[i].clone(), second: ids[j].clone() });
                    proof {
                        assert(all[j as int] == (t, ids@[j as int]@));
                        assert(all.take(j + 1) =~= all.take(j as int).push(all[j as int]));
                        assert(views(out@) =~= so_far.push(all[j as int]));
                        assert(views(out@) =~= before + all.take(j + 1));
                    }
                    j = j + 1;
                }
                proof {
                    assert(all.take(all.len() as int) =~= all);
                    assert(listed_ids(listings@[i as int]) == texts(ids@));
                }
            },
            Err(_) => {
                proof {
                    assert(before + Seq::<Seq<char>>::empty().map_values(
                        |id: Seq<char>| (t, id),
                    ) =~= before);
                }
            },
        }
        i = i + 1;
    }
    out
}

/// Whether an entity of the first phase waits for the second: its snapshot is
/// not there, or does not decode.
pub open spec fn waits(outcome: SnapshotOutcome) -> bool {
    outcome is Missing || outcome is Unreadable
}

/// The places of the entities among the first `n` that wait for the second
/// phase.
pub open spec fn waiting_places(outcomes: Seq<SnapshotOutcome>, n: int) -> Seq<usize>
    decreases n,
{
    if n <= 0 {
        Seq::empty()
    } else if waits(outcomes[n - 1]) {
        waiting_places(outcomes, n - 1).push((n - 1) as usize)
    } else {
        waiting_places(outcomes, n - 1)
    }
}

proof fn waiting_is_counted(outcomes: Seq<SnapshotOutcome>, n: int)
    requires
        0 <= n <= outcomes.len(),
        outcomes.len() <= u64::MAX,
    ensures
        waiting_places(outcomes, n).len() == first_phase(outcomes, n).needs_replay,
        forall|i: int|
            0 <= i < waiting_places(outcomes, n).len() ==> #[trigger] waiting_places(
                outcomes,
                n,
            )[i] < n,
    decreases n,
{
    if n > 0 {
        waiting_is_counted(outcomes, n - 1);
        first_phase_adds_up(outcomes, n - 1);
    }
}

proof fn first_phase_of_more(outcomes: Seq<SnapshotOutcome>, x: SnapshotOutcome, n: int)
    requires
        0 <= n <= outcomes.len(),
    ensures
        first_phase(outcomes.push(x), n) == first_phase(outcomes, n),
        waiting_places(outcomes.push(x), n) == waiting_places(outcomes, n),
    decreases n,
{
    if n > 0 {
        first_phase_of_more(outcomes, x, n - 1);
        assert(outcomes.push(x)[n - 1] == outcomes[n - 1]);
    }
}

proof fn second_phase_of_more(
    start: BackfillTally,
    outcomes: Seq<ReplayOutcome>,
    x: ReplayOutcome,
    n: int,
)
    requires
        0 <= n <= outcomes.len(),
    ensures
        second_phase(start, outcomes.push(x), n) == second_phase(start, outcomes, n),
    decreases n,
{
    if n > 0 {
        second_phase_of_more(start, outcomes, x, n - 1);
        assert(outcomes.push(x)[n - 1] == outcomes[n - 1]);
    }
}

/// What a backfill does next.
#[derive(Clone, Copy, Debug, PartialEq, Eq, Structural)]
pub enum FieldIndexStep {
    /// The snapshot of this entity is loaded and indexed.
    Snapshot(usize),
    /// The journal of this entity is replayed.
    Replay(usize),
    /// Everything is done.
    Finished,
}

/// The run of a backfill of the query projections: every entity from its
/// snapshot, then those without one that decodes from their journals.
#[derive(Clone, Debug, PartialEq, Eq)]
pub struct FieldIndexRun {
    pub entities: Vec<Pair>,
    /// What became of the entities of the first phase so far.
    pub outcomes: Vec<SnapshotOutcome>,
    /// The places of those that wait for the second phase.
    pub waiting: Vec<usize>,
    /// What became of those that waited so far.
    pub replays: Vec<ReplayOutcome>,
    pub tally: BackfillTally,
}

impl FieldIndexRun {
    /// The account is that of what was done; the second phase begins when the
    /// first has ended, and is for exactly those that wait for it.
    pub open spec fn wf(&self) -> bool {
        &&& self.outcomes@.len() <= self.entities@.len() <= u64::MAX
        &&& self.waiting@ == waiting_places(self.outcomes@, self.outcomes@.len() as int)
        &&& self.replays@.len() <= self.waiting@.len()
        &&& self.replays@.len() > 0 ==> self.outcomes@.len() == self.entities@.len()
        &&& self.tally == second_phase(
            first_phase(self.outcomes@, self.outcomes@.len() as int),
            self.replays@,
            self.replays@.len() as int,
        )
    }

    /// Begins a backfill of these entities.
    pub fn begin(entities: Vec<Pair>) -> (r: Self)
        requires
            entities@.len() <= u64::MAX,
        ensures
            r.wf(),
            r.entities == entities,
            r.outcomes@.len() == 0,
            r.replays@.len() == 0,
    {
        FieldIndexRun {
            entities,
            outcomes: Vec::new(),
            waiting: Vec::new(),
            replays: Vec::new(),
            tally: BackfillTally::new(),
        }
    }

    /// What is done next.
    pub open spec fn next_step(&self) -> FieldIndexStep {
        if self.outcomes@.len() < self.entities@.len() {
            FieldIndexStep::Snapshot(self.outcomes@.len() as usize)
        } else if self.replays@.len() < self.waiting@.len() {
            FieldIndexStep::Replay(self.waiting@[self.replays@.len() as int])
        } else {
            FieldIndexStep::Finished
        }
    }

    /// What is done next.
    pub fn step(&self) -> (r: FieldIndexStep)
        requires
            self.wf(),
        ensures
            r == self.next_step(),
            match r {
                FieldIndexStep::Snapshot(i) => i < self.entities@.len(),
                FieldIndexStep::Replay(i) => i < self.entities@.len() && waits(
                    self.outcomes@[i as int],
                ),
                FieldIndexStep::Finished => true,
            },
    {
        if self.outcomes.len() < self.entities.len() {
            FieldIndexStep::Snapshot(self.outcomes.len())
        } else if self.replays.len() < self.waiting.len() {
            let i: usize = self.waiting[self.replays.len()];
            proof {
                waiting_do_wait(
                    self.outcomes@,
                    self.outcomes@.len() as int,
                    self.replays@.len() as int,
                );
            }
            FieldIndexStep::Replay(i)
        } else {
            FieldIndexStep::Finished
        }
    }

    /// Enters what became of the next entity of the first phase.
    pub fn enter_snapshot(&mut self, outcome: SnapshotOutcome) -> (r: Option<&'static str>)
        requires
            old(self).wf(),
            old(self).next_step() is Snapshot,
        ensures
            final(self).wf(),
            final(self).entities == old(self).entities,
            final(self).outcomes@ == old(self).outcomes@.push(outcome),
            final(self).replays@ == old(self).replays@,
            crate::text::opt_str(r) == snapshot_word(outcome),
    {
        let at: usize = self.outcomes.len();
        proof {
            first_phase_adds_up(self.outcomes@, at as int);
            first_phase_of_more(self.outcomes@, outcome, at as int);
            assert(self.outcomes@.push(outcome)[at as int] == outcome);
        }
        let word = self.tally.enter_snapshot(outcome);
        match outcome {
            SnapshotOutcome::Missing => {
                self.waiting.push(at);
            },
            SnapshotOutcome::Unreadable => {
                self.waiting.push(at);
            },
            _ => {},
        }
        self.outcomes.push(outcome);
        word
    }

    /// Enters what became of the next entity of the second phase.
    pub fn enter_replay(&mut self, outcome: ReplayOutcome) -> (r: Option<&'static str>)
        requires
            old(self).wf(),
            old(self).next_step() is Replay,
        ensures
            final(self).wf(),
            final(self).entities == old(self).entities,
            final(self).outcomes@ == old(self).outcomes@,
            final(self).replays@ == old(self).replays@.push(outcome),
            crate::text::opt_str(r) == replay_word(outcome),
    {
        let ghost start = first_phase(self.outcomes@, self.outcomes@.len() as int);
        proof {
            waiting_is_counted(self.outcomes@, self.outcomes@.len() as int);
            first_phase_adds_up(self.outcomes@, self.outcomes@.len() as int);
            second_phase_keeps(start, self.replays@, self.replays@.len() as int);
            second_phase_of_more(start, self.replays@, outcome, self.replays@.len() as int);
            assert(self.replays@.push(outcome)[self.replays@.len() as int] == outcome);
        }
        let word = self.tally.enter_replay(outcome);
        self.replays.push(outcome);
        word
    }
}

proof fn waiting_do_wait(outcomes: Seq<SnapshotOutcome>, n: int, i: int)
    requires
        0 <= n <= outcomes.len(),
        outcomes.len() <= u64::MAX,
        n <= usize::MAX,
        0 <= i < waiting_places(outcomes, n).len(),
    ensures
        waiting_places(outcomes, n)[i] < n,
        waits(outcomes[waiting_places(outcomes, n)[i] as int]),
    decreases n,
{
    if n > 0 {
        if waits(outcomes[n - 1]) && i == waiting_places(outcomes, n - 1).len() {
        } else {
            waiting_do_wait(outcomes, n - 1, i);
        }
    }
}

proof fn second_phase_keeps(start: BackfillTally, outcomes: Seq<ReplayOutcome>, n: int)
    requires
        0 <= n <= outcomes.len(),
        n <= start.needs_replay,
        start.covered() <= u64::MAX,
    ensures
        second_phase(start, outcomes, n).covered() == start.covered(),
        second_phase(start, outcomes, n).needs_replay == start.needs_replay - n,
    decreases n,
{
    if n > 0 {
        second_phase_keeps(start, outcomes, n - 1);
    }
}

/// A backfill that has finished has accounted for every entity once: indexed,
/// removed, or in error.
pub proof fn a_finished_backfill_leaves_nothing(run: FieldIndexRun)
    requires
        run.wf(),
        run.next_step() is Finished,
    ensures
        run.tally.needs_replay == 0,
        run.tally.indexed + run.tally.errors + run.tally.removed == run.entities@.len(),
{
    waiting_is_counted(run.outcomes@, run.outcomes@.len() as int);
    first_phase_adds_up(run.outcomes@, run.outcomes@.len() as int);
    second_phase_keeps(
        first_phase(run.outcomes@, run.outcomes@.len() as int),
        run.replays@,
        run.replays@.len() as int,
    );
}

/// What is held of an entity: its snapshot, whether its type has a transition
/// table, the replay of its journal, and the names that its specification keeps
/// out of queries, where it has one.
pub struct Durable {
    pub snapshot: SnapshotRead,
    pub has_table: bool,
    pub replayed: Result<ReplayedEntity, String>,
    pub hidden: Option<Seq<Seq<char>>>,
}

/// The rows after both phases of one entity.
pub open spec fn row_backfilled(
    rows: Map<(Seq<char>, Seq<char>), RowModel>,
    entity: (Seq<char>, Seq<char>),
    d: Durable,
) -> Map<(Seq<char>, Seq<char>), RowModel> {
    match snapshot_planned(d.snapshot, d.hidden) {
        SnapshotPlanModel::Upsert(row) => rows.insert(entity, row),
        SnapshotPlanModel::Settled(outcome) => if !waits(outcome) {
            rows
        } else {
            match planned(d.has_table, d.replayed, d.hidden) {
                ReplayPlanModel::Settled(_) => rows,
                ReplayPlanModel::Remove => rows.remove(entity),
                ReplayPlanModel::Upsert(row) => rows.insert(entity, row),
            }
        },
    }
}

/// The rows after a backfill of the first `n` entities whose writes all went
/// through.
pub open spec fn backfilled(
    rows: Map<(Seq<char>, Seq<char>), RowModel>,
    entities: Seq<(Seq<char>, Seq<char>)>,
    store: spec_fn((Seq<char>, Seq<char>)) -> Durable,
    n: int,
) -> Map<(Seq<char>, Seq<char>), RowModel>
    decreases n,
{
    if n <= 0 {
        rows
    } else {
        row_backfilled(
            backfilled(rows, entities, store, n - 1),
            entities[n - 1],
            store(entities[n - 1]),
        )
    }
}

/// Whether two sets of rows agree on an entity.
pub open spec fn same_row(
    a: Map<(Seq<char>, Seq<char>), RowModel>,
    b: Map<(Seq<char>, Seq<char>), RowModel>,
    k: (Seq<char>, Seq<char>),
) -> bool {
    a.contains_key(k) == b.contains_key(k) && (a.contains_key(k) ==> a[k] == b[k])
}

proof fn backfill_settles(
    rows: Map<(Seq<char>, Seq<char>), RowModel>,
    entities: Seq<(Seq<char>, Seq<char>)>,
    store: spec_fn((Seq<char>, Seq<char>)) -> Durable,
    n: int,
    k: (Seq<char>, Seq<char>),
)
    requires
        0 <= n <= entities.len(),
    ensures
        entities.take(n).contains(k) ==> same_row(
            backfilled(rows, entities, store, n),
            row_backfilled(rows, k, store(k)),
            k,
        ),
        !entities.take(n).contains(k) ==> same_row(
            backfilled(rows, entities, store, n),
            rows,
            k,
        ),
    decreases n,
{
    if n > 0 {
        backfill_settles(rows, entities, store, n - 1, k);
        let last = entities[n - 1];
        assert(entities.take(n) =~= entities.take(n - 1).push(last));
        assert(entities.take(n).contains(k) == (entities.take(n - 1).contains(k) || k == last))
            by {
            if entities.take(n - 1).contains(k) {
                let i = choose|i: int|
                    0 <= i < entities.take(n - 1).len() && #[trigger] entities.take(n - 1)[i] == k;
                assert(entities.take(n)[i] == k);
            }
            if k == last {
                assert(entities.take(n)[n - 1] == k);
            }
            if entities.take(n).contains(k) && k != last {
                let i = choose|i: int|
                    0 <= i < entities.take(n).len() && #[trigger] entities.take(n)[i] == k;
                assert(entities.take(n - 1)[i] == k);
            }
        }
    }
}

/// Backfills converge: one that is run again over what the store still holds
/// leaves every row as the first one did.
pub proof fn a_backfill_converges(
    rows: Map<(Seq<char>, Seq<char>), RowModel>,
    entities: Seq<(Seq<char>, Seq<char>)>,
    store: spec_fn((Seq<char>, Seq<char>)) -> Durable,
)
    ensures
        ({
            let n = entities.len() as int;
            let once = backfilled(rows, entities, store, n);
            backfilled(once, entities, store, n) == once
        }),
{
    let n = entities.len() as int;
    let once = backfilled(rows, entities, store, n);
    let twice = backfilled(once, entities, store, n);
    assert forall|k: (Seq<char>, Seq<char>)| same_row(twice, once, k) by {
        backfill_settles(rows, entities, store, n, k);
        backfill_settles(once, entities, store, n, k);
    }
    assert forall|k: (Seq<char>, Seq<char>)| #[trigger] twice.contains_key(k) == once.contains_key(
        k,
    ) && (twice.contains_key(k) ==> twice[k] == once[k]) by {
        assert(same_row(twice, once, k));
    }
    assert(twice =~= once);
}

/// Every entity that a backfill considers is loaded from its snapshot, or from
/// its journal where that is not there or does not decode, and has the projected
/// row of the state that was loaded.
pub proof fn a_loaded_entity_has_its_row(
    rows: Map<(Seq<char>, Seq<char>), RowModel>,
    entities: Seq<(Seq<char>, Seq<char>)>,
    store: spec_fn((Seq<char>, Seq<char>)) -> Durable,
    k: (Seq<char>, Seq<char>),
)
    requires
        entities.contains(k),
    ensures
        ({
            let after = backfilled(rows, entities, store, entities.len() as int);
            let d = store(k);
            &&& d.snapshot is Read ==> after.contains_key(k) && after[k] == row_of(
                d.snapshot->Read_0,
                d.hidden,
            )
            &&& (d.snapshot is Absent || d.snapshot is Undecodable) && d.has_table && d.replayed
                is Ok && d.replayed->Ok_0.total_event_count > 0 ==> if d.replayed->Ok_0.status@
                == "Deleted"@ {
                !after.contains_key(k)
            } else {
                after.contains_key(k) && after[k] == row_of(d.replayed->Ok_0, d.hidden)
            }
        }),
{
    backfill_settles(rows, entities, store, entities.len() as int, k);
    assert(entities.take(entities.len() as int) =~= entities);
}

/// How many of the first `n` names are `name`.
pub open spec fn occurrences(names: Seq<Seq<char>>, name: Seq<char>, n: int) -> nat
    decreases n,
{
    if n <= 0 {
        0
    } else {
        occurrences(names, name, n - 1) + if names[n - 1] == name {
            1nat
        } else {
            0
        }
    }
}

proof fn occurrences_are_bounded(names: Seq<Seq<char>>, name: Seq<char>, n: int)
    requires
        0 <= n,
    ensures
        occurrences(names, name, n) <= n,
    decreases n,
{
    if n > 0 {
        occurrences_are_bounded(names, name, n - 1);
    }
}

/// How many entities of each type a backfill considers.
pub fn considered_by_type(types: &Vec<String>) -> (r: OrdMap<String, u64>)
    ensures
        r.wf(),
        forall|t: Seq<char>| #[trigger]
            r@.contains_key(t) == (occurrences(texts(types@), t, types@.len() as int) > 0),
        forall|t: Seq<char>| #[trigger]
            r@.contains_key(t) ==> r@[t] == occurrences(texts(types@), t, types@.len() as int),
{
    let ghost all = texts(types@);
    let mut counts: OrdMap<String, u64> = OrdMap::new();
    let mut i: usize = 0;
    while i < types.len()
        invariant
            i <= types.len(),
            all == texts(types@),
            counts.wf(),
            forall|t: Seq<char>| #[trigger]
                counts@.contains_key(t) == (occurrences(all, t, i as int) > 0),
            forall|t: Seq<char>| #[trigger]
                counts@.contains_key(t) ==> counts@[t] == occurrences(all, t, i as int),
        decreases types.len() - i,
    {
        let ghost x = types@[i as int]@;
        proof {
            assert(all[i as int] == x);
            occurrences_are_bounded(all, x, i as int);
        }
        let next: u64 = match counts.get(&types[i]) {
            Some(n) => *n + 1,
            None => 1,
        };
        counts.insert(types[i].clone(), next);
        i = i + 1;
    }
    counts
}

/// An entity whose state cannot be loaded is told apart from one that has
/// nothing to index: a deleted one, or one without events. Every other is
/// indexed from its own fields.
pub proof fn a_living_entity_is_indexed_from_its_fields(
    has_table: bool,
    replayed: Result<ReplayedEntity, String>,
    r: EntityLoadOutcome,
)
    requires
        call_ensures(load_entity_current_fields, (has_table, replayed), r),
    ensures
        !has_table ==> r is LoadFailed,
        replayed is Err ==> r is LoadFailed,
        has_table && replayed is Ok ==> !(r is LoadFailed) && (r is Skip <==> replayed->Ok_0.status@
            == "Deleted"@ || replayed->Ok_0.total_event_count == 0),
        r is Fields ==> r->Fields_0@ == replayed->Ok_0.fields@,
{
}

/// One entity that could not be loaded is enough for its type not to be covered.
pub proof fn one_failed_load_leaves_a_type_uncovered(
    outcomes: &Vec<EntityLoadOutcome>,
    r: bool,
    at: int,
)
    requires
        call_ensures(index_is_covered, (outcomes,), r),
        0 <= at < outcomes@.len(),
        outcomes@[at] is LoadFailed,
    ensures
        !r,
{
}

/// A type of which every entity was loaded or has nothing to index is covered.
pub proof fn a_type_without_failed_loads_is_covered(outcomes: &Vec<EntityLoadOutcome>, r: bool)
    requires
        call_ensures(index_is_covered, (outcomes,), r),
        forall|i: int| 0 <= i < outcomes@.len() ==> !((#[trigger] outcomes@[i]) is LoadFailed),
    ensures
        r,
{
}

/// A row is written from a snapshot only if there is one that can be read, and
/// then it is the row of that entity.
pub proof fn a_snapshot_is_indexed_as_it_was_read(
    snapshot: &SnapshotRead,
    unindexed: &Option<Vec<String>>,
    r: SnapshotPlan,
    row: ProjectionRow,
)
    requires
        call_ensures(snapshot_plan, (snapshot, unindexed), r),
        snapshot is Read ==> call_ensures(
            crate::query_projection::projection_row,
            (&snapshot->Read_0, unindexed),
            row,
        ),
    ensures
        r is Upsert <==> snapshot is Read,
        snapshot is Read ==> r->Upsert_0@ == row@,
        snapshot is Read ==> r->Upsert_0@.status == snapshot->Read_0.status@
            && r->Upsert_0@.sequence_nr == snapshot->Read_0.sequence_nr,
        snapshot is Failed ==> r->Settled_0 is LoadFailed,
        snapshot is Absent ==> r->Settled_0 is Missing,
        snapshot is Undecodable ==> r->Settled_0 is Unreadable,
{
}

/// A row is taken out only for an entity whose journal says that it is deleted,
/// and written only for one whose journal says that it is there.
pub proof fn a_journal_decides_about_its_row(
    has_table: bool,
    replayed: &Result<ReplayedEntity, String>,
    unindexed: &Option<Vec<String>>,
    r: ReplayPlan,
)
    requires
        call_ensures(replay_plan, (has_table, replayed, unindexed), r),
    ensures
        r is Remove || r is Upsert ==> has_table && replayed is Ok
            && replayed->Ok_0.total_event_count > 0,
        r is Remove ==> replayed->Ok_0.status@ == "Deleted"@,
        r is Upsert ==> replayed->Ok_0.status@ != "Deleted"@ && r->Upsert_0@.status
            == replayed->Ok_0.status@ && r->Upsert_0@.sequence_nr == replayed->Ok_0.sequence_nr,
        r is Upsert && unindexed is None ==> r->Upsert_0@.fields == replayed->Ok_0.fields@,
        has_table && replayed is Ok && replayed->Ok_0.total_event_count > 0 ==> !(r is Settled),
        !has_table ==> r->Settled_0 is MissingTable,
        has_table && replayed is Err ==> r->Settled_0 is ReplayFailed,
        has_table && replayed is Ok && replayed->Ok_0.total_event_count == 0 ==> r->Settled_0 is Empty,
{
}

/// One entity more of the first phase is one more of exactly one count, and that
/// of the indexed entities only if it was indexed.
pub proof fn a_snapshot_is_counted_once()
    ensures
        forall|tally: &mut BackfillTally, outcome: SnapshotOutcome, r: Option<&'static str>|
            tally.covered() < u64::MAX && #[trigger] call_ensures(
                BackfillTally::enter_snapshot,
                (tally, outcome),
                r,
            ) ==> {
                &&& final(tally).removed == tally.removed
                &&& final(tally).indexed - tally.indexed == if outcome is Indexed {
                    1int
                } else {
                    0
                }
                &&& final(tally).needs_replay - tally.needs_replay == if outcome is Missing
                    || outcome is Unreadable {
                    1int
                } else {
                    0
                }
                &&& final(tally).errors - tally.errors == if outcome is UpsertFailed || outcome is LoadFailed {
                    1int
                } else {
                    0
                }
            },
{
}

/// An entity that is replayed no longer waits, and is counted as indexed, as
/// removed or as an error, by how that ended.
pub proof fn a_replay_is_counted_once()
    ensures
        forall|tally: &mut BackfillTally, outcome: ReplayOutcome, r: Option<&'static str>|
            tally.needs_replay > 0 && tally.covered() <= u64::MAX && #[trigger] call_ensures(
                BackfillTally::enter_replay,
                (tally, outcome),
                r,
            ) ==> {
                &&& final(tally).needs_replay == tally.needs_replay - 1
                &&& final(tally).indexed - tally.indexed == if outcome is Indexed {
                    1int
                } else {
                    0
                }
                &&& final(tally).removed - tally.removed == if outcome is Removed {
                    1int
                } else {
                    0
                }
                &&& final(tally).errors - tally.errors == if outcome is Indexed || outcome is Removed {
                    0int
                } else {
                    1
                }
            },
{
}

/// The entities that are indexed are exactly those that are listed under their
/// type.
pub proof fn every_listed_entity_is_enumerated(
    types: Seq<String>,
    listings: Seq<Result<Vec<String>, String>>,
    n: int,
    x: (Seq<char>, Seq<char>),
)
    requires
        0 <= n <= types.len() == listings.len(),
    ensures
        enumerated(types, listings, n).contains(x) <==> exists|i: int, j: int|
            0 <= i < n && listings[i] is Ok && 0 <= j < listings[i]->Ok_0@.len() && types[i]@ == x.0
                && (#[trigger] listings[i]->Ok_0@[j])@ == x.1,
    decreases n,
{
    if n > 0 {
        every_listed_entity_is_enumerated(types, listings, n - 1, x);
        let before = enumerated(types, listings, n - 1);
        let t = types[n - 1]@;
        let last = listed_ids(listings[n - 1]).map_values(|id: Seq<char>| (types[n - 1]@, id));
        let all = enumerated(types, listings, n);
        assert(all == before + last);
        if all.contains(x) {
            let k = all.index_of(x);
            if k < before.len() {
                assert(before[k] == x);
            } else {
                let j = k - before.len();
                assert(last[j] == x);
                assert(listings[n - 1] is Ok);
                assert(listings[n - 1]->Ok_0@[j]@ == x.1);
            }
        }
        if exists|i: int, j: int|
            0 <= i < n && listings[i] is Ok && 0 <= j < listings[i]->Ok_0@.len() && types[i]@ == x.0
                && (#[trigger] listings[i]->Ok_0@[j])@ == x.1 {
            let (i, j) = choose|i: int, j: int|
                0 <= i < n && listings[i] is Ok && 0 <= j < listings[i]->Ok_0@.len() && types[i]@
                    == x.0 && (#[trigger] listings[i]->Ok_0@[j])@ == x.1;
            if i < n - 1 {
                assert(listings[i]->Ok_0@[j]@ == x.1);
                let k = before.index_of(x);
                assert(all[k] == x);
            } else {
                assert(last[j] == x);
                assert(all[before.len() + j] == x);
            }
        }
    }
}

proof fn waiting_places_grow(outcomes: Seq<SnapshotOutcome>, n: int, at: usize)
    requires
        0 <= n <= outcomes.len() <= usize::MAX,
    ensures
        waiting_places(outcomes, n).contains(at) <==> at < n && (outcomes[at as int] is Missing
            || outcomes[at as int] is Unreadable),
        forall|i: int, j: int|
            0 <= i < j < waiting_places(outcomes, n).len() ==> (#[trigger] waiting_places(
                outcomes,
                n,
            )[i]) < (#[trigger] waiting_places(outcomes, n)[j]),
        forall|i: int|
            0 <= i < waiting_places(outcomes, n).len() ==> (#[trigger] waiting_places(outcomes, n)[i])
                < n,
    decreases n,
{
    if n > 0 {
        waiting_places_grow(outcomes, n - 1, at);
        let before = waiting_places(outcomes, n - 1);
        let after = waiting_places(outcomes, n);
        if waits(outcomes[n - 1]) {
            assert(after == before.push((n - 1) as usize));
            assert(after[before.len() as int] == (n - 1) as usize);
            if before.contains(at) {
                assert(after[before.index_of(at)] == at);
            }
            if after.contains(at) {
                let k = after.index_of(at);
                if k < before.len() {
                    assert(before[k] == at);
                }
            }
        }
    }
}

/// An entity is replayed from its journal exactly if the first phase found no
/// snapshot of it that decodes, and none is replayed twice.
pub proof fn exactly_the_waiting_are_replayed(run: FieldIndexRun, at: usize)
    requires
        run.wf(),
    ensures
        run.waiting@.contains(at) <==> at < run.outcomes@.len() && (run.outcomes@[at as int] is Missing
            || run.outcomes@[at as int] is Unreadable),
        forall|i: int, j: int|
            0 <= i < j < run.waiting@.len() ==> (#[trigger] run.waiting@[i]) < (
            #[trigger] run.waiting@[j]),
{
    assert(run.outcomes.len() == run.outcomes@.len());
    waiting_places_grow(run.outcomes@, run.outcomes@.len() as int, at);
}

/// A run looks at every snapshot, in order, before it replays a journal, and it
/// is finished only when every waiting entity was replayed.
pub proof fn a_run_leaves_nothing_out(run: &FieldIndexRun, r: FieldIndexStep)
    requires
        run.wf(),
        call_ensures(FieldIndexRun::step, (run,), r),
    ensures
        run.outcomes@.len() < run.entities@.len() <==> r is Snapshot,
        r is Snapshot ==> r->Snapshot_0 == run.outcomes@.len(),
        r is Replay ==> run.replays@.len() < run.waiting@.len() && r->Replay_0
            == run.waiting@[run.replays@.len() as int],
        r is Finished <==> run.outcomes@.len() == run.entities@.len() && run.replays@.len()
            == run.waiting@.len(),
{
    assert(run.outcomes.len() == run.outcomes@.len());
}

/// A type that is named once more is counted once more, and the others as often
/// as before.
pub proof fn each_name_is_counted(
    types: &Vec<String>,
    more: &Vec<String>,
    r: OrdMap<String, u64>,
    s: OrdMap<String, u64>,
    t: Seq<char>,
)
    requires
        call_ensures(considered_by_type, (types,), r),
        call_ensures(considered_by_type, (more,), s),
        more@.len() == types@.len() + 1,
        texts(more@).drop_last() == texts(types@),
    ensures
        types@.len() == 0 ==> !r@.contains_key(t),
        t == more@.last()@ ==> s@.contains_key(t) && s@[t] == 1 + if r@.contains_key(t) {
            r@[t] as int
        } else {
            0
        },
        t != more@.last()@ ==> s@.contains_key(t) == r@.contains_key(t) && (r@.contains_key(t)
            ==> s@[t] == r@[t]),
{
    let n = types@.len() as int;
    assert(texts(types@) == texts(more@).take(n)) by {
        assert(texts(more@).drop_last() =~= texts(more@).take(n));
    }
    occurrences_of_more(texts(types@), texts(more@), t, n);
    assert(texts(more@)[n] == more@.last()@);
    assert(occurrences(texts(more@), t, n + 1) == occurrences(texts(more@), t, n) + if texts(
        more@,
    )[n] == t {
        1nat
    } else {
        0
    });
}

proof fn occurrences_of_more(a: Seq<Seq<char>>, b: Seq<Seq<char>>, t: Seq<char>, n: int)
    requires
        0 <= n <= a.len() <= b.len(),
        a == b.take(a.len() as int),
    ensures
        occurrences(a, t, n) == occurrences(b, t, n),
    decreases n,
{
    if n > 0 {
        occurrences_of_more(a, b, t, n - 1);
        assert(a[n - 1] == b[n - 1]);
    }
}

} // verus!
