//! The run of a composite's batch: its sub-writes are staged one by one, each on
//! the stream of its entity as the earlier ones left it, and the streams are
//! appended together or not at all.

use vstd::prelude::*;
use vstd::string::*;

use crate::composite::admit_in_batch;
use crate::composite::batch_sequenced;
use crate::composite::batch_wf;
use crate::composite::ensure_atomic_composite_stream;
use crate::composite::is_skipped;
use crate::composite::opened;
use crate::composite::preflight_composite_sub_write_transition;
use crate::composite::preflight_refusal;
use crate::composite::recreates_pack_object;
use crate::composite::stage_in_batch;
use crate::composite::stage_parent_event;
use crate::composite::stage_refusal;
use crate::composite::staged;
use crate::composite::stale_on_stream;
use crate::composite::AtomicCompositeStream;
use crate::composite::CompositeParent;
use crate::composite::CompositeTarget;
use crate::composite::Evaluation;
use crate::composite::PreparedCompositeSubWrite;
use crate::composite::StageVerdict;
use crate::composite::StreamModel;
use crate::composite::SubWriteResult;
use crate::dispatch_actions::DispatchError;
use crate::dispatch_actions::DispatchErrorModel;
use crate::composite::composite_event_of;
use crate::composite::composite_record;
use crate::composite::recorded;
use crate::composite::recorded_sub_write;
use crate::composite::CompositeEvent;
use crate::composite::CompositeEventSubWrite;
use crate::ordered::OrdMap;
use crate::ordered::OrdSet;
use crate::ordered::Pair;
use crate::stream::EntityEvent;
use crate::text::views;
use crate::text::same;
use crate::time::Timestamp;

verus! {

/// A sub-write of a batch: where its entity's journal is, and the entity as it
/// was found before the batch.
#[derive(Debug, PartialEq, Eq)]
pub struct BatchWrite {
    pub prepared: PreparedCompositeSubWrite,
    pub persistence_id: String,
    pub target: CompositeTarget,
}

/// What is known of a sub-write's entity before anything is staged.
#[derive(Clone, Copy, Debug, PartialEq, Eq, Structural)]
pub struct Outlook {
    pub can_accept_event: bool,
    pub evaluation: Evaluation,
}

/// Why one of the first `n` sub-writes would fail: the first reason.
pub open spec fn preflight_refusals(
    p: CompositeParent,
    writes: Seq<BatchWrite>,
    outlooks: Seq<Outlook>,
    n: int,
) -> Option<DispatchErrorModel>
    decreases n,
{
    if n <= 0 {
        None
    } else {
        match preflight_refusals(p, writes, outlooks, n - 1) {
            Some(e) => Some(e),
            None => preflight_refusal(
                p,
                writes[n - 1].prepared,
                writes[n - 1].target@,
                outlooks[n - 1].can_accept_event,
                outlooks[n - 1].evaluation,
            ),
        }
    }
}

proof fn first_preflight_refusal_stays(
    p: CompositeParent,
    writes: Seq<BatchWrite>,
    outlooks: Seq<Outlook>,
    n: int,
    m: int,
)
    requires
        0 <= n <= m,
        preflight_refusals(p, writes, outlooks, n) is Some,
    ensures
        preflight_refusals(p, writes, outlooks, m) == preflight_refusals(p, writes, outlooks, n),
    decreases m - n,
{
    if n < m {
        first_preflight_refusal_stays(p, writes, outlooks, n, m - 1);
    }
}

/// The sets of keys of every sub-write's entity are in order.
pub open spec fn targets_wf(writes: Seq<BatchWrite>) -> bool {
    forall|i: int| 0 <= i < writes.len() ==> (#[trigger] writes[i]).target.processed.wf()
}

/// Checks, before anything is staged, that every sub-write would succeed.
pub fn preflight_composite_sub_writes(
    parent: &CompositeParent,
    writes: &Vec<BatchWrite>,
    outlooks: &Vec<Outlook>,
) -> (r: Result<(), DispatchError>)
    requires
        outlooks@.len() == writes@.len(),
        targets_wf(writes@),
    ensures
        match r {
            Ok(_) => preflight_refusals(*parent, writes@, outlooks@, writes@.len() as int) is None,
            Err(e) => preflight_refusals(*parent, writes@, outlooks@, writes@.len() as int) == Some(
                e@,
            ),
        },
{
    let mut i: usize = 0;
    while i < writes.len()
        invariant
            i <= writes.len(),
            outlooks@.len() == writes@.len(),
            targets_wf(writes@),
            preflight_refusals(*parent, writes@, outlooks@, i as int) is None,
        decreases writes.len() - i,
    {
        match preflight_composite_sub_write_transition(
            parent,
            &writes[i].prepared,
            &writes[i].target,
            outlooks[i].can_accept_event,
            outlooks[i].evaluation,
        ) {
            Ok(_) => {},
            Err(e) => {
                proof {
                    assert(preflight_refusals(*parent, writes@, outlooks@, i + 1) == Some(e@));
                    first_preflight_refusal_stays(
                        *parent,
                        writes@,
                        outlooks@,
                        i + 1,
                        writes@.len() as int,
                    );
                }
                return Err(e);
            },
        }
        i = i + 1;
    }
    Ok(())
}

/// Whether a batch brings an entity into being: one of its sub-writes creates it
/// and it was not there before.
pub open spec fn brings(writes: Seq<BatchWrite>, n: int, entity: (Seq<char>, Seq<char>)) -> bool {
    exists|i: int|
        0 <= i < n && (#[trigger] writes[i]).prepared.write.action@ == "Create"@
            && !writes[i].target.existed && writes[i].prepared.write.entity_type@ == entity.0
            && writes[i].prepared.write.entity_id@ == entity.1
}

/// The entities that a batch brings into being: a reference to one of them is
/// valid within the batch.
pub fn atomic_targets(writes: &Vec<BatchWrite>) -> (r: OrdSet<Pair>)
    ensures
        r.wf(),
        forall|entity: (Seq<char>, Seq<char>)| #[trigger]
            r@.contains(entity) == brings(writes@, writes@.len() as int, entity),
{
    let mut set: OrdSet<Pair> = OrdSet::new();
    let mut i: usize = 0;
    while i < writes.len()
        invariant
            i <= writes.len(),
            set.wf(),
            forall|entity: (Seq<char>, Seq<char>)| #[trigger]
                set@.contains(entity) == brings(writes@, i as int, entity),
        decreases writes.len() - i,
    {
        let w = &writes[i];
        let ghost before = set@;
        let creates = same(w.prepared.write.action.as_str(), "Create") && !w.target.existed;
        if creates {
            let _fresh = set.insert(
                Pair {
                    first: w.prepared.write.entity_type.clone(),
                    second: w.prepared.write.entity_id.clone(),
                },
            );
        }
        proof {
            let own = (w.prepared.write.entity_type@, w.prepared.write.entity_id@);
            assert forall|entity: (Seq<char>, Seq<char>)| #[trigger]
                set@.contains(entity) == brings(writes@, i + 1, entity) by {
                if brings(writes@, i as int, entity) {
                    let k = choose|k: int|
                        0 <= k < i && (#[trigger] writes@[k]).prepared.write.action@ == "Create"@
                            && !writes@[k].target.existed
                            && writes@[k].prepared.write.entity_type@ == entity.0
                            && writes@[k].prepared.write.entity_id@ == entity.1;
                    assert(writes@[k].prepared.write.action@ == "Create"@);
                }
                if creates && entity == own {
                    assert(writes@[i as int].prepared.write.action@ == "Create"@);
                }
                assert(before.contains(entity) == brings(writes@, i as int, entity));
            }
        }
        i = i + 1;
    }
    set
}

/// How a composite's sub-writes are carried out.
#[derive(Clone, Copy, Debug, PartialEq, Eq, Structural)]
pub enum BatchStart {
    /// There is no journal to write a batch to: they are dispatched one by one.
    OneByOne,
    /// There are none.
    Nothing,
    Batch,
}

/// How a composite's sub-writes are carried out.
pub fn batch_start(has_journal: bool, sub_writes: usize) -> (r: BatchStart)
    ensures
        r == if !has_journal {
            BatchStart::OneByOne
        } else if sub_writes == 0 {
            BatchStart::Nothing
        } else {
            BatchStart::Batch
        },
{
    if !has_journal {
        BatchStart::OneByOne
    } else if sub_writes == 0 {
        BatchStart::Nothing
    } else {
        BatchStart::Batch
    }
}

/// The run of a batch: the streams so far, and the sub-write that comes next.
#[derive(Debug, PartialEq, Eq)]
pub struct BatchRun {
    pub parent: CompositeParent,
    /// The composite runs under a schema pin.
    pub scoped: bool,
    pub writes: Vec<BatchWrite>,
    pub streams: OrdMap<String, AtomicCompositeStream>,
    pub next: usize,
}

/// Whether the first event of a sub-write's entity is left to the sub-write
/// itself.
pub open spec fn begins_itself(w: PreparedCompositeSubWrite) -> bool {
    w.uses_parent_gate && w.write.action@ == "Create"@
}

/// The streams of a batch with one for the entity of `w`.
pub open spec fn with_stream(
    streams: Map<Seq<char>, StreamModel>,
    w: BatchWrite,
    now: Timestamp,
) -> Map<Seq<char>, StreamModel> {
    if streams.contains_key(w.persistence_id@) {
        streams
    } else {
        streams.insert(
            w.persistence_id@,
            opened(
                w.prepared.write.entity_type@,
                w.prepared.write.entity_id@,
                w.target@,
                begins_itself(w.prepared),
                now,
            ),
        )
    }
}

/// Where the search for the next sub-write to stage ends: the streams that are
/// open then, the sub-write, and why it is refused, if it is.
pub struct Walk {
    pub streams: Map<Seq<char>, StreamModel>,
    pub next: int,
    pub refusal: Option<Seq<char>>,
}

/// The search for the next sub-write to stage, from `n` on: a stream is opened
/// for each, and those that were carried out before are left out.
pub open spec fn walk(
    p: CompositeParent,
    writes: Seq<BatchWrite>,
    streams: Map<Seq<char>, StreamModel>,
    n: int,
    now: Timestamp,
) -> Walk
    decreases writes.len() - n,
{
    if n < 0 || n >= writes.len() {
        Walk { streams, next: n, refusal: None }
    } else {
        let open = with_stream(streams, writes[n], now);
        let s = open[writes[n].persistence_id@];
        if is_skipped(writes[n].prepared, s) {
            walk(p, writes, open, n + 1, now)
        } else {
            Walk { streams: open, next: n, refusal: stale_on_stream(p, writes[n].prepared, s) }
        }
    }
}

/// Whether a sub-write needs nothing more: its key is on its stream, or it is a
/// git object that was there.
pub open spec fn is_settled(w: BatchWrite, streams: Map<Seq<char>, StreamModel>) -> bool {
    &&& streams.contains_key(w.persistence_id@)
    &&& streams[w.persistence_id@].processed.contains(w.prepared.idempotency_key@)
        || recreates_pack_object(w.prepared, streams[w.persistence_id@])
}

/// What the run of a batch does next.
#[derive(Clone, Copy, Debug, PartialEq, Eq, Structural)]
pub enum BatchStep {
    /// The state machine is run for this sub-write on its stream.
    Process(usize),
    /// Everything is staged: the streams are appended.
    Append,
}

impl BatchRun {
    /// The streams are in order, and every sub-write before the next is settled.
    pub open spec fn wf(&self) -> bool {
        &&& batch_wf(self.streams)
        &&& targets_wf(self.writes@)
        &&& self.next <= self.writes@.len()
        &&& forall|i: int|
            0 <= i < self.next ==> is_settled(#[trigger] self.writes@[i], self.streams@)
    }

    /// Whether the next sub-write was found to be carried out.
    pub open spec fn at_write(&self) -> bool {
        &&& self.next < self.writes@.len()
        &&& self.streams@.contains_key(self.writes@[self.next as int].persistence_id@)
    }

    /// Begins a batch.
    pub fn begin(parent: CompositeParent, scoped: bool, writes: Vec<BatchWrite>) -> (r: Self)
        requires
            targets_wf(writes@),
        ensures
            r.wf(),
            r.parent == parent,
            r.scoped == scoped,
            r.writes == writes,
            r.streams@ == Map::<Seq<char>, StreamModel>::empty(),
            r.next == 0,
            batch_sequenced(r.streams@),
    {
        let streams: OrdMap<String, AtomicCompositeStream> = OrdMap::new();
        proof {
            streams.places();
            assert forall|s: AtomicCompositeStream| #[trigger]
                streams.values@.contains(s) implies s.processed.wf() by {}
        }
        BatchRun { parent, scoped, writes, streams, next: 0 }
    }

    /// The event by which the composite of a batch records itself.
    pub fn composite_event(&self) -> (r: CompositeEvent)
        ensures
            r@ == composite_record(
                self.parent,
                Seq::new(self.writes@.len(), |i: int| self.writes@[i].prepared),
            ),
    {
        let ghost prepared = Seq::new(self.writes@.len(), |i: int| self.writes@[i].prepared);
        let mut out: Vec<CompositeEventSubWrite> = Vec::new();
        let mut i: usize = 0;
        while i < self.writes.len()
            invariant
                i <= self.writes.len(),
                out.len() == i,
                prepared == Seq::new(self.writes@.len(), |i: int| self.writes@[i].prepared),
                forall|k: int| 0 <= k < i ==> (#[trigger] out@[k])@ == recorded(prepared)[k],
            decreases self.writes.len() - i,
        {
            out.push(recorded_sub_write(&self.writes[i].prepared));
            i = i + 1;
        }
        proof {
            assert(views(out@) =~= recorded(prepared));
        }
        composite_event_of(&self.parent, out)
    }

    /// Adds the event by which the composite records itself, on its own entity's
    /// stream.
    pub fn record_parent(
        &mut self,
        persistence_id: &String,
        target: &CompositeTarget,
        event: EntityEvent,
        now: Timestamp,
    )
        requires
            old(self).wf(),
            target.processed.wf(),
            old(self).next == 0,
            old(self).streams@ == Map::<Seq<char>, StreamModel>::empty(),
        ensures
            final(self).wf(),
            final(self).parent == old(self).parent,
            final(self).scoped == old(self).scoped,
            final(self).writes == old(self).writes,
            final(self).next == 0,
            ({
                let s = opened(
                    old(self).parent.entity_type@,
                    old(self).parent.entity_id@,
                    target@,
                    false,
                    now,
                );
                final(self).streams@ == Map::<Seq<char>, StreamModel>::empty().insert(
                    persistence_id@,
                    StreamModel {
                        sequence_nr: if s.sequence_nr < u64::MAX {
                            (s.sequence_nr + 1) as u64
                        } else {
                            u64::MAX
                        },
                        events: s.events.push(event@),
                        ..s
                    },
                )
            }),
            target.sequence_nr < u64::MAX ==> batch_sequenced(final(self).streams@),
    {
        let mut stream = crate::composite::open_stream(
            self.parent.entity_type.as_str(),
            self.parent.entity_id.as_str(),
            target,
            false,
            now,
        );
        stage_parent_event(&mut stream, event);
        self.streams.insert(persistence_id.clone(), stream);
    }

    /// Finds the next sub-write to stage. Each is judged on its entity's stream
    /// as the earlier ones left it; those that were carried out before are left
    /// out.
    pub fn next_write(&mut self, now: Timestamp) -> (r: Result<BatchStep, DispatchError>)
        requires
            old(self).wf(),
        ensures
            final(self).wf(),
            final(self).parent == old(self).parent,
            final(self).scoped == old(self).scoped,
            final(self).writes == old(self).writes,
            batch_sequenced(old(self).streams@) ==> batch_sequenced(final(self).streams@),
            ({
                let w = walk(
                    old(self).parent,
                    old(self).writes@,
                    old(self).streams@,
                    old(self).next as int,
                    now,
                );
                &&& final(self).streams@ == w.streams
                &&& final(self).next == w.next
                &&& match r {
                    Ok(BatchStep::Process(i)) => w.refusal is None && i == w.next
                        && final(self).at_write(),
                    Ok(BatchStep::Append) => w.refusal is None && w.next
                        == old(self).writes@.len(),
                    Err(e) => w.refusal is Some && e@ == DispatchErrorModel::Conflict(
                        w.refusal->0,
                    ),
                }
            }),
    {
        let ghost start = walk(self.parent, self.writes@, self.streams@, self.next as int, now);
        let ghost was = *self;
        while self.next < self.writes.len()
            invariant
                self.wf(),
                was == *old(self),
                self.parent == was.parent,
                self.scoped == was.scoped,
                self.writes == was.writes,
                batch_sequenced(was.streams@) ==> batch_sequenced(self.streams@),
                start == walk(was.parent, was.writes@, was.streams@, was.next as int, now),
                start == walk(self.parent, self.writes@, self.streams@, self.next as int, now),
            decreases self.writes.len() - self.next,
        {
            let ghost before = self.streams@;
            let at: usize = self.next;
            let suppress = self.writes[at].prepared.uses_parent_gate && same(
                self.writes[at].prepared.write.action.as_str(),
                "Create",
            );
            ensure_atomic_composite_stream(
                &mut self.streams,
                &self.writes[at].persistence_id,
                self.writes[at].prepared.write.entity_type.as_str(),
                self.writes[at].prepared.write.entity_id.as_str(),
                &self.writes[at].target,
                suppress,
                now,
            );
            proof {
                let w = self.writes@[at as int];
                assert(self.streams@ == with_stream(before, w, now));
                assert forall|i: int| 0 <= i < at implies is_settled(
                    #[trigger] self.writes@[i],
                    self.streams@,
                ) by {
                    assert(is_settled(self.writes@[i], before));
                }
            }
            match admit_in_batch(
                &self.streams,
                &self.writes[at].persistence_id,
                &self.parent,
                &self.writes[at].prepared,
            ) {
                Ok(carried_out) => {
                    if carried_out {
                        return Ok(BatchStep::Process(at));
                    }
                    self.next = at + 1;
                    proof {
                        assert forall|i: int| 0 <= i < self.next implies is_settled(
                            #[trigger] self.writes@[i],
                            self.streams@,
                        ) by {}
                    }
                },
                Err(e) => return Err(e),
            }
        }
        Ok(BatchStep::Append)
    }

    /// Stages the next sub-write with what the state machine gave for it. On an
    /// error, and where the batch is given up, nothing is staged.
    pub fn stage(&mut self, result: SubWriteResult) -> (r: Result<StageVerdict, DispatchError>)
        requires
            old(self).wf(),
            old(self).at_write(),
        ensures
            final(self).wf(),
            final(self).parent == old(self).parent,
            final(self).scoped == old(self).scoped,
            final(self).writes == old(self).writes,
            ({
                let w = old(self).writes@[old(self).next as int];
                let refusal = stage_refusal(
                    old(self).parent,
                    w.prepared,
                    result,
                    old(self).scoped,
                );
                let s = old(self).streams@[w.persistence_id@];
                match r {
                    Ok(StageVerdict::Staged) => {
                        &&& refusal is None
                        &&& !result.has_effects
                        &&& final(self).next == old(self).next + 1
                        &&& final(self).streams@ == old(self).streams@.insert(
                            w.persistence_id@,
                            staged(s, w.prepared, result),
                        )
                        &&& batch_sequenced(old(self).streams@) && s.sequence_nr < u64::MAX
                            ==> batch_sequenced(final(self).streams@)
                    },
                    Ok(StageVerdict::OneByOne) => {
                        &&& refusal is None
                        &&& result.has_effects
                        &&& final(self).next == old(self).next
                        &&& final(self).streams@ == old(self).streams@
                    },
                    Err(e) => {
                        &&& refusal is Some
                        &&& e@ == DispatchErrorModel::Internal(refusal->0)
                        &&& final(self).next == old(self).next
                        &&& final(self).streams@ == old(self).streams@
                    },
                }
            }),
    {
        let at: usize = self.next;
        let end: usize = self.writes.len();
        let ghost before = self.streams@;
        let r = stage_in_batch(
            &mut self.streams,
            &self.writes[at].persistence_id,
            &self.parent,
            &self.writes[at].prepared,
            result,
            self.scoped,
        );
        match r {
            Ok(StageVerdict::Staged) => {
                proof {
                    assert(at < end);
                }
                self.next = at + 1;
                proof {
                    assert forall|i: int| 0 <= i < self.next implies is_settled(
                        #[trigger] self.writes@[i],
                        self.streams@,
                    ) by {
                        if i < at {
                            assert(is_settled(self.writes@[i], before));
                        }
                    }
                }
                Ok(StageVerdict::Staged)
            },
            other => other,
        }
    }
}

/// A batch that is appended leaves no sub-write out: each was carried out, now
/// or before, or is a git object that was there.
pub proof fn an_appended_batch_is_whole(run: BatchRun, i: int)
    requires
        run.wf(),
        run.next == run.writes@.len(),
        0 <= i < run.writes@.len(),
    ensures
        is_settled(run.writes@[i], run.streams@),
{
    assert(is_settled(run.writes@[i], run.streams@));
}

/// A batch that was carried out is not staged a second time: where every
/// sub-write's key is on its stream and none repairs an object, the search finds
/// nothing to stage.
pub proof fn a_repeated_batch_stages_nothing(
    p: CompositeParent,
    writes: Seq<BatchWrite>,
    streams: Map<Seq<char>, StreamModel>,
    n: int,
    now: Timestamp,
)
    requires
        0 <= n <= writes.len(),
        forall|i: int|
            0 <= i < writes.len() ==> {
                let w = #[trigger] writes[i];
                &&& streams.contains_key(w.persistence_id@)
                &&& streams[w.persistence_id@].processed.contains(w.prepared.idempotency_key@)
                &&& !recreates_pack_object(w.prepared, streams[w.persistence_id@])
            },
    ensures
        walk(p, writes, streams, n, now) == (Walk {
            streams,
            next: writes.len() as int,
            refusal: None,
        }),
    decreases writes.len() - n,
{
    if n < writes.len() {
        assert(is_skipped(writes[n].prepared, streams[writes[n].persistence_id@]));
        a_repeated_batch_stages_nothing(p, writes, streams, n + 1, now);
    }
}

/// The text of a batch that was written but whose entity could not be loaded
/// again.
pub fn reload_failure(stream: &AtomicCompositeStream) -> (r: String)
    ensures
        r@ == "composite batch committed "@ + stream.entity_type@ + ":"@ + stream.entity_id@
            + " but failed to reload it"@,
{
    let mut text = "composite batch committed ".to_owned();
    text.append(stream.entity_type.as_str());
    text.append(":");
    text.append(stream.entity_id.as_str());
    text.append(" but failed to reload it");
    text
}

/// The text of a parent's journal that could not be read.
pub fn parent_journal_failure(error: &str) -> (r: String)
    ensures
        r@ == "failed to read parent journal before CompositeEvent append: "@ + error@,
{
    let mut text = "failed to read parent journal before CompositeEvent append: ".to_owned();
    text.append(error);
    text
}

/// Why the sub-writes in an integration's result are not taken: its action is
/// not a composite.
pub fn unexpected_sub_writes(entity_type: &str, action: &str) -> (r: DispatchError)
    ensures
        r@ == DispatchErrorModel::Internal(
            "Integration result for non-Composite action "@ + entity_type@ + "."@ + action@
                + " included sub_writes"@,
        ),
{
    let mut text = "Integration result for non-Composite action ".to_owned();
    text.append(entity_type);
    text.append(".");
    text.append(action);
    text.append(" included sub_writes");
    DispatchError::Internal(text)
}

/// Whether a composite may be entered from an entity's state.
pub fn composite_entry(evaluation: Evaluation, action: &str, status: &str) -> (r: Result<
    (),
    DispatchError,
>)
    ensures
        match r {
            Ok(_) => evaluation == Evaluation::Allowed,
            Err(e) => evaluation != Evaluation::Allowed && e@ == DispatchErrorModel::Internal(
                if evaluation == Evaluation::NotAllowed {
                    "Composite action '"@ + action@ + "' not valid from state '"@ + status@ + "'"@
                } else {
                    "Unknown composite action: "@ + action@
                },
            ),
        },
{
    match evaluation {
        Evaluation::Allowed => Ok(()),
        Evaluation::NotAllowed => {
            let mut text = "Composite action '".to_owned();
            text.append(action);
            text.append("' not valid from state '");
            text.append(status);
            text.append("'");
            Err(DispatchError::Internal(text))
        },
        Evaluation::UnknownAction => {
            let mut text = "Unknown composite action: ".to_owned();
            text.append(action);
            Err(DispatchError::Internal(text))
        },
    }
}

/// The whole batch is looked at before anything is staged: where none of its
/// sub-writes is refused each of them passes, and a refusal is that of the first
/// that does not.
pub proof fn a_batch_is_looked_at_as_a_whole(
    p: CompositeParent,
    writes: Seq<BatchWrite>,
    outlooks: Seq<Outlook>,
    n: int,
    k: int,
)
    requires
        0 <= k < n <= writes.len(),
    ensures
        ({
            let one = preflight_refusal(
                p,
                writes[k].prepared,
                writes[k].target@,
                outlooks[k].can_accept_event,
                outlooks[k].evaluation,
            );
            &&& preflight_refusals(p, writes, outlooks, n) is None ==> one is None
            &&& preflight_refusals(p, writes, outlooks, k) is None && one is Some
                ==> preflight_refusals(p, writes, outlooks, n) == one
        }),
    decreases n,
{
    if k < n - 1 {
        a_batch_is_looked_at_as_a_whole(p, writes, outlooks, n - 1, k);
    }
}

/// The search for the next sub-write passes over none that is to be staged: each
/// that it passes over is left out on its own stream, and the one that it stops
/// at is not. It opens streams and changes none that was open.
pub proof fn the_search_passes_over_nothing(
    p: CompositeParent,
    writes: Seq<BatchWrite>,
    streams: Map<Seq<char>, StreamModel>,
    n: int,
    now: Timestamp,
    k: int,
    id: Seq<char>,
)
    requires
        0 <= n <= k <= writes.len(),
    ensures
        ({
            let found = walk(p, writes, streams, n, now);
            &&& n <= found.next <= writes.len()
            &&& streams.contains_key(id) ==> found.streams.contains_key(id) && found.streams[id]
                == streams[id]
            &&& n <= k < found.next ==> found.streams.contains_key(writes[k].persistence_id@)
                && is_skipped(writes[k].prepared, found.streams[writes[k].persistence_id@])
            &&& k == found.next && k < writes.len() ==> found.streams.contains_key(
                writes[k].persistence_id@,
            ) && !is_skipped(writes[k].prepared, found.streams[writes[k].persistence_id@])
                && found.refusal == stale_on_stream(
                p,
                writes[k].prepared,
                found.streams[writes[k].persistence_id@],
            )
            &&& found.next == writes.len() ==> found.refusal is None
        }),
    decreases writes.len() - n,
{
    if n < writes.len() {
        let open = with_stream(streams, writes[n], now);
        let s = open[writes[n].persistence_id@];
        if is_skipped(writes[n].prepared, s) {
            let from = if k > n {
                k
            } else {
                n + 1
            };
            the_search_passes_over_nothing(p, writes, open, n + 1, now, from, id);
            the_search_passes_over_nothing(
                p,
                writes,
                open,
                n + 1,
                now,
                from,
                writes[n].persistence_id@,
            );
        }
    }
}

/// A stream that the search opens is that of the sub-write's own entity, as it
/// was found before the batch; a git object that the parent's gate covers makes
/// its first event itself.
pub proof fn a_write_opens_its_own_stream(
    streams: Map<Seq<char>, StreamModel>,
    w: BatchWrite,
    now: Timestamp,
    other: Seq<char>,
)
    ensures
        ({
            let after = with_stream(streams, w, now);
            let id = w.persistence_id@;
            &&& after.contains_key(id)
            &&& streams.contains_key(id) ==> after == streams
            &&& other != id ==> after.contains_key(other) == streams.contains_key(other)
            &&& !streams.contains_key(id) ==> {
                &&& after[id].entity_type == w.prepared.write.entity_type@
                &&& after[id].entity_id == w.prepared.write.entity_id@
                &&& after[id].status == w.target@.status
                &&& after[id].fields == w.target@.fields
                &&& after[id].processed == w.target@.processed
                &&& after[id].expected_sequence == w.target@.sequence_nr
                &&& w.prepared.uses_parent_gate && w.prepared.write.action@ == "Create"@
                    ==> after[id].events.len() == 0
            }
        }),
{
}

/// Sub-writes are made one by one only where nothing keeps a journal; otherwise
/// they are made together, where there are any.
pub proof fn a_journal_takes_a_batch_whole(has_journal: bool, sub_writes: usize, r: BatchStart)
    requires
        call_ensures(batch_start, (has_journal, sub_writes), r),
    ensures
        r == BatchStart::OneByOne <==> !has_journal,
        r == BatchStart::Nothing <==> has_journal && sub_writes == 0,
        r == BatchStart::Batch <==> has_journal && sub_writes > 0,
{
}

/// A composite action goes on only where its state allows it.
pub proof fn only_an_allowed_composite_goes_on(
    evaluation: Evaluation,
    action: &str,
    status: &str,
    r: Result<(), DispatchError>,
)
    requires
        call_ensures(composite_entry, (evaluation, action, status), r),
    ensures
        r is Ok <==> evaluation == Evaluation::Allowed,
        r is Err ==> r->Err_0@ is Internal,
{
}

/// What a write of a batch creates, and was not there, can be referred to within
/// the batch.
pub proof fn a_created_entity_can_be_referred_to(
    writes: &Vec<BatchWrite>,
    r: OrdSet<Pair>,
    at: int,
)
    requires
        call_ensures(atomic_targets, (writes,), r),
        0 <= at < writes@.len(),
        writes@[at].prepared.write.action@ == "Create"@,
        !writes@[at].target.existed,
    ensures
        r@.contains(
            (writes@[at].prepared.write.entity_type@, writes@[at].prepared.write.entity_id@),
        ),
{
    let entity = (
        writes@[at].prepared.write.entity_type@,
        writes@[at].prepared.write.entity_id@,
    );
    assert(r@.contains(entity) == brings(writes@, writes@.len() as int, entity));
    assert(writes@[at].prepared.write.action@ == "Create"@);
}

/// Nothing else can be referred to as new: an entity that a batch brings into
/// being is one that a write of it creates and that was not there.
pub proof fn only_a_created_entity_is_new(
    writes: &Vec<BatchWrite>,
    r: OrdSet<Pair>,
    entity: (Seq<char>, Seq<char>),
)
    requires
        call_ensures(atomic_targets, (writes,), r),
        r@.contains(entity),
    ensures
        exists|i: int|
            {
                let w = (#[trigger] writes@[i]).prepared.write;
                &&& 0 <= i < writes@.len()
                &&& w.action@ == "Create"@
                &&& !writes@[i].target.existed
                &&& w.entity_type@ == entity.0
                &&& w.entity_id@ == entity.1
            },
{
    assert(r@.contains(entity) == brings(writes@, writes@.len() as int, entity));
    let n = writes@.len() as int;
    let i = choose|i: int|
        0 <= i < n && (#[trigger] writes@[i]).prepared.write.action@ == "Create"@
            && !writes@[i].target.existed && writes@[i].prepared.write.entity_type@ == entity.0
            && writes@[i].prepared.write.entity_id@ == entity.1;
    assert(writes@[i].prepared.write.action@ == "Create"@);
}

} // verus!
