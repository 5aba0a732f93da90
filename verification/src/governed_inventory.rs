//! Bounded inventory scanning: which subjects a page takes up, and what is read
//! of each.

use vstd::prelude::*;
use vstd::string::*;

use crate::governed_job::applied;
use crate::governed_job::apply_outcome;
use crate::governed_job::attempt_of;
use crate::governed_job::parse_unresolved_subject_key;
use crate::governed_job::sound;
use crate::governed_job::subject_of_key;
use crate::governed_job::DurableJobV1;
use crate::governed_job::JobModel;
use crate::governed_types::digest_text;
use crate::governed_types::is_canonical_sha256;
use crate::governed_types::StreamDescriptorMigrationBudgetsV1;
use crate::governed_types::StreamDescriptorMigrationTargetV1;
use crate::governed_types::TargetModel;
use crate::json::member;
use crate::json::text_member;
use crate::json::unsigned_value;
use crate::ordered::in_order;
use crate::ordered::insert_in_order;
use crate::ordered::key_views;
use crate::ordered::pair_before;
use crate::ordered::OrdMap;
use crate::ordered::Pair;
use crate::ordered::SortKey;
use crate::provenance::BACKFILL_HISTORY_EVENT_BUDGET;
use crate::provenance::historical_facts;
use crate::provenance::historical_stream_facts;
use crate::provenance::local_name;
use crate::provenance::local_type;
use crate::provenance::FactsModel;
use crate::provenance::HistoricalStreamFacts;
use crate::stream::CapabilityModel;
use crate::stream::Envelope;
use crate::stream::EnvelopeModel;
use crate::stream::ProvenanceModel;
use crate::stream::StreamCapability;
use crate::stream::StreamMutability;
use crate::stream_migration::admission;
use crate::stream_migration::event_at;
use crate::stream_migration::tail_sequence;
use crate::stream_migration::CandidateModel;
use crate::stream_migration::StreamDescriptorBackfillCandidateV1;
use crate::stream_migration::StreamDescriptorBackfillOutcomeV1;
use crate::text::opt_as_str;
use crate::text::opt_copy;
use crate::text::opt_text;
use crate::text::opt_view;
use crate::text::outcome;
use crate::text::views;

verus! {

/// The subjects of the first `n` keys, or why one of them names none.
pub open spec fn decoded_keys(keys: Seq<Seq<char>>, n: int) -> Result<
    Seq<(Seq<char>, Seq<char>)>,
    Seq<char>,
>
    decreases n,
{
    if n <= 0 {
        Ok(Seq::empty())
    } else {
        match decoded_keys(keys, n - 1) {
            Err(e) => Err(e),
            Ok(done) => match subject_of_key(keys[n - 1]) {
                Err(e) => Err(e),
                Ok(p) => Ok(done.push(p)),
            },
        }
    }
}

proof fn decoding_error_stays(keys: Seq<Seq<char>>, n: int, m: int)
    requires
        0 <= n <= m,
        decoded_keys(keys, n) is Err,
    ensures
        decoded_keys(keys, m) == decoded_keys(keys, n),
    decreases m - n,
{
    if n < m {
        decoding_error_stays(keys, n, m - 1);
    }
}

/// The unresolved subjects in order: by type and then by identifier, whatever
/// the order of their keys.
pub fn ordered_unresolved_subjects(unresolved: &OrdMap<String, String>) -> (r: Result<
    Vec<Pair>,
    String,
>)
    requires
        unresolved.wf(),
    ensures
        ({
            let keys = unresolved.list();
            match r {
                Ok(list) => decoded_keys(keys, keys.len() as int) is Ok && in_order::<Pair>(key_views(list@))
                    && key_views(list@).to_multiset() == decoded_keys(
                    keys,
                    keys.len() as int,
                )->Ok_0.to_multiset(),
                Err(e) => decoded_keys(keys, keys.len() as int) == Err::<
                    Seq<(Seq<char>, Seq<char>)>,
                    Seq<char>,
                >(e@),
            }
        }),
{
    broadcast use vstd::seq_lib::group_to_multiset_ensures;

    let ghost keys = unresolved.list();
    let mut list: Vec<Pair> = Vec::new();
    let n: usize = unresolved.len();
    let mut i: usize = 0;
    proof {
        assert(key_views(list@) =~= Seq::<(Seq<char>, Seq<char>)>::empty());
    }
    while i < n
        invariant
            i <= n,
            n == keys.len(),
            unresolved.wf(),
            keys == unresolved.list(),
            decoded_keys(keys, i as int) is Ok,
            in_order::<Pair>(key_views(list@)),
            key_views(list@).to_multiset() == decoded_keys(keys, i as int)->Ok_0.to_multiset(),
        decreases n - i,
    {
        match parse_unresolved_subject_key(unresolved.key_at(i).as_str()) {
            Ok(pair) => {
                proof {
                    broadcast use vstd::seq_lib::group_to_multiset_ensures;

                    let done = decoded_keys(keys, i as int)->Ok_0;
                    assert(done.push(pair@).to_multiset() =~= done.to_multiset().insert(pair@));
                }
                insert_in_order(&mut list, pair);
            },
            Err(e) => {
                proof {
                    decoding_error_stays(keys, i + 1, n as int);
                }
                return Err(e);
            },
        }
        i = i + 1;
    }
    Ok(list)
}

/// The first `n` items of `s`, or all of them.
pub open spec fn at_most<T>(s: Seq<T>, n: int) -> Seq<T> {
    if n < s.len() {
        s.take(n)
    } else {
        s
    }
}

/// The subjects that a page retries: those behind the last one retried, and
/// then from the start again, up to the page's limit.
pub open spec fn retried(
    ordered: Seq<(Seq<char>, Seq<char>)>,
    after: Option<(Seq<char>, Seq<char>)>,
    limit: int,
) -> Seq<(Seq<char>, Seq<char>)> {
    match after {
        None => at_most(ordered, limit),
        Some(a) => {
            let behind = at_most(
                ordered.filter(|p: (Seq<char>, Seq<char>)| pair_before(a, p)),
                limit,
            );
            behind + at_most(
                ordered.filter(|p: (Seq<char>, Seq<char>)| !pair_before(a, p)),
                limit - behind.len(),
            )
        },
    }
}

/// Appends, up to `limit` items of the list in all, those subjects that stand
/// on the wanted side of `after`.
fn take_side(
    ordered: &Vec<Pair>,
    after: &Pair,
    behind: bool,
    limit: usize,
) -> (r: Vec<Pair>)
    ensures
        behind ==> key_views(r@) == at_most(
            key_views(ordered@).filter(|p: (Seq<char>, Seq<char>)| pair_before(after@, p)),
            limit as int,
        ),
        !behind ==> key_views(r@) == at_most(
            key_views(ordered@).filter(|p: (Seq<char>, Seq<char>)| !pair_before(after@, p)),
            limit as int,
        ),
{
    let ghost all = key_views(ordered@);
    let ghost pred = if behind {
        |p: (Seq<char>, Seq<char>)| pair_before(after@, p)
    } else {
        |p: (Seq<char>, Seq<char>)| !pair_before(after@, p)
    };
    let mut out: Vec<Pair> = Vec::new();
    let mut i: usize = 0;
    proof {
        assert(all.take(0).filter(pred) =~= Seq::<(Seq<char>, Seq<char>)>::empty());
        assert(key_views(out@) =~= Seq::<(Seq<char>, Seq<char>)>::empty());
    }
    while i < ordered.len()
        invariant
            i <= ordered.len(),
            all == key_views(ordered@),
            forall|p: (Seq<char>, Seq<char>)| #[trigger]
                pred(p) == (pair_before(after@, p) == behind),
            key_views(out@) == at_most(all.take(i as int).filter(pred), limit as int),
        decreases ordered.len() - i,
    {
        proof {
            assert(all.take(i + 1).drop_last() =~= all.take(i as int));
            assert(all.take(i + 1).last() == ordered@[i as int]@);
            reveal(Seq::filter);
        }
        let ghost done = all.take(i as int).filter(pred);
        if out.len() < limit && after.is_before(&ordered[i]) == behind {
            proof {
                assert(key_views(out@).len() == out.len());
                assert(key_views(out@) == done);
            }
            out.push(ordered[i].duplicate());
            proof {
                assert(key_views(out@) =~= done.push(ordered@[i as int]@));
            }
        } else {
            proof {
                let next = all.take(i + 1).filter(pred);
                if pred(ordered@[i as int]@) {
                    assert(next == done.push(ordered@[i as int]@));
                    assert(key_views(out@).len() >= limit);
                    assert(at_most(next, limit as int) =~= at_most(done, limit as int));
                } else {
                    assert(next == done);
                }
            }
        }
        i = i + 1;
    }
    proof {
        assert(all.take(all.len() as int) =~= all);
        if behind {
            assert(pred =~= (|p: (Seq<char>, Seq<char>)| pair_before(after@, p)));
        } else {
            assert(pred =~= (|p: (Seq<char>, Seq<char>)| !pair_before(after@, p)));
        }
    }
    out
}

/// The subjects that a page retries.
pub fn retry_page(ordered: &Vec<Pair>, after: &Option<Pair>, limit: usize) -> (r: Vec<Pair>)
    ensures
        key_views(r@) == retried(key_views(ordered@), opt_view(*after), limit as int),
{
    match after {
        None => {
            let ghost all = key_views(ordered@);
            let mut out: Vec<Pair> = Vec::new();
            let mut i: usize = 0;
            while i < ordered.len() && i < limit
                invariant
                    i <= ordered.len(),
                    i <= limit,
                    all == key_views(ordered@),
                    out.len() == i,
                    forall|k: int| 0 <= k < i ==> (#[trigger] out@[k])@ == all[k],
                decreases ordered.len() - i,
            {
                out.push(ordered[i].duplicate());
                i = i + 1;
            }
            proof {
                assert(key_views(out@) =~= at_most(all, limit as int));
            }
            out
        },
        Some(a) => {
            let mut out = take_side(ordered, a, true, limit);
            proof {
                assert(key_views(out@).len() == out.len());
            }
            let left: usize = limit - out.len();
            let mut rest = take_side(ordered, a, false, left);
            let ghost x = key_views(out@);
            let ghost y = key_views(rest@);
            out.append(&mut rest);
            proof {
                assert(key_views(out@) =~= x + y);
            }
            out
        },
    }
}

/// A page never retries more subjects than its limit.
pub proof fn a_retry_page_is_bounded(
    ordered: Seq<(Seq<char>, Seq<char>)>,
    after: Option<(Seq<char>, Seq<char>)>,
    limit: int,
)
    requires
        limit >= 0,
    ensures
        retried(ordered, after, limit).len() <= limit,
{
}

proof fn filter_partition(
    s: Seq<(Seq<char>, Seq<char>)>,
    p: spec_fn((Seq<char>, Seq<char>)) -> bool,
    q: spec_fn((Seq<char>, Seq<char>)) -> bool,
)
    requires
        forall|x: (Seq<char>, Seq<char>)| #[trigger] p(x) == !q(x),
    ensures
        s.filter(p).to_multiset().add(s.filter(q).to_multiset()) == s.to_multiset(),
        s.filter(p).len() + s.filter(q).len() == s.len(),
    decreases s.len(),
{
    broadcast use vstd::seq_lib::group_to_multiset_ensures;

    reveal(Seq::filter);
    if s.len() == 0 {
        assert(s.filter(p) =~= s);
        assert(s.filter(q) =~= s);
        assert(s.to_multiset().add(s.to_multiset()) =~= s.to_multiset());
    } else {
        let t = s.drop_last();
        let x = s.last();
        filter_partition(t, p, q);
        assert(s =~= t.push(x));
        assert(t.push(x).to_multiset() =~= t.to_multiset().insert(x));
        if p(x) {
            assert(s.filter(p) == t.filter(p).push(x));
            assert(s.filter(q) == t.filter(q));
            assert(t.filter(p).push(x).to_multiset() =~= t.filter(p).to_multiset().insert(x));
        } else {
            assert(q(x));
            assert(s.filter(q) == t.filter(q).push(x));
            assert(s.filter(p) == t.filter(p));
            assert(t.filter(q).push(x).to_multiset() =~= t.filter(q).to_multiset().insert(x));
        }
        assert(s.filter(p).to_multiset().add(s.filter(q).to_multiset()) =~= s.to_multiset());
    }
}

/// A page whose limit covers every unresolved subject retries each of them
/// once, wherever the last page left off.
pub proof fn a_wide_page_retries_every_subject(
    ordered: Seq<(Seq<char>, Seq<char>)>,
    after: Option<(Seq<char>, Seq<char>)>,
    limit: int,
)
    requires
        limit >= ordered.len(),
    ensures
        retried(ordered, after, limit).to_multiset() == ordered.to_multiset(),
{
    match after {
        None => {},
        Some(a) => {
            let p = |x: (Seq<char>, Seq<char>)| pair_before(a, x);
            let q = |x: (Seq<char>, Seq<char>)| !pair_before(a, x);
            filter_partition(ordered, p, q);
            vstd::seq_lib::lemma_multiset_commutative(ordered.filter(p), ordered.filter(q));
        },
    }
}

/// The capability that governs a type: the first one of that local name.
pub open spec fn capability_for(
    capabilities: Seq<CapabilityModel>,
    entity_type: Seq<char>,
) -> Option<CapabilityModel>
    decreases capabilities.len(),
{
    if capabilities.len() == 0 {
        None
    } else if local_name(capabilities[0].subject_type) == entity_type {
        Some(capabilities[0])
    } else {
        capability_for(capabilities.drop_first(), entity_type)
    }
}

/// The place of the capability that governs a type.
pub fn find_capability(capabilities: &Vec<StreamCapability>, entity_type: &str) -> (r: Option<
    usize,
>)
    ensures
        match r {
            Some(i) => i < capabilities.len() && capability_for(
                views(capabilities@),
                entity_type@,
            ) == Some(capabilities@[i as int]@),
            None => capability_for(views(capabilities@), entity_type@) is None,
        },
{
    let ghost all = views(capabilities@);
    let mut i: usize = 0;
    proof {
        assert(all.skip(0) =~= all);
    }
    while i < capabilities.len()
        invariant
            i <= capabilities.len(),
            all == views(capabilities@),
            capability_for(all, entity_type@) == capability_for(all.skip(i as int), entity_type@),
        decreases capabilities.len() - i,
    {
        proof {
            assert(all.skip(i as int)[0] == all[i as int]);
            assert(all.skip(i as int).drop_first() =~= all.skip(i + 1));
        }
        if local_type(capabilities[i].subject_type.as_str()) == entity_type.to_owned() {
            return Some(i);
        }
        i = i + 1;
    }
    None
}

/// The publications among the events of a stream.
pub open spec fn publications(events: Seq<EnvelopeModel>, action: Seq<char>) -> Seq<
    EnvelopeModel,
> {
    events.filter(|e: EnvelopeModel| e.event_type == action)
}

/// The publication that the inventory takes a subject's facts from, or why it
/// takes none.
pub open spec fn inventoried(
    events: Seq<EnvelopeModel>,
    c: CapabilityModel,
    max_events: u32,
    parent_form: Result<(), String>,
) -> Result<(EnvelopeModel, ProvenanceModel, FactsModel), Seq<char>> {
    if events.len() > max_events {
        Err("event_budget_exceeded"@)
    } else if events.len() == 0 {
        Err("missing_journal"@)
    } else if c.migration_provenance is None {
        Err("missing_verified_provenance"@)
    } else {
        let p = c.migration_provenance->0;
        let published = publications(events, p.publication_action);
        if published.len() == 0 {
            Err("missing_publication"@)
        } else if c.mutability == StreamMutability::Immutable && published.len() != 1 {
            Err("ambiguous_immutable_publication"@)
        } else {
            match historical_facts(
                published.last(),
                p,
                local_name(c.subject_type),
                c.authorization_parent_type,
                parent_form,
            ) {
                Err(_) => Err("invalid_publication"@),
                Ok(facts) => Ok((published.last(), p, facts)),
            }
        }
    }
}

/// The bytes of the page that are spent once a subject is taken up, or that its
/// budget does not cover it.
pub open spec fn spent(consumed: u64, byte_length: u64, max_blob_bytes: u64) -> Result<
    u64,
    Seq<char>,
> {
    if consumed + byte_length > u64::MAX || consumed + byte_length > max_blob_bytes {
        Err("blob_budget_exceeded"@)
    } else {
        Ok((consumed + byte_length) as u64)
    }
}

/// The candidate of one subject of an inventory, or the class of its failure.
pub open spec fn subject_candidate(
    events: Seq<EnvelopeModel>,
    c: CapabilityModel,
    entity_id: Seq<char>,
    budgets: StreamDescriptorMigrationBudgetsV1,
    consumed: u64,
    parent_form: Result<(), String>,
) -> Result<CandidateModel, Seq<char>> {
    match inventoried(events, c, budgets.max_events_per_subject, parent_form) {
        Err(e) => Err(e),
        Ok((event, p, facts)) => match spent(
            consumed,
            facts.byte_length,
            budgets.max_blob_bytes,
        ) {
            Err(e) => Err(e),
            Ok(_) => if !digest_text(facts.content_hash, "sha256:"@) {
                Err("invalid_content_hash"@)
            } else {
                Ok(
                    CandidateModel {
                        entity_type: local_name(c.subject_type),
                        entity_id,
                        content_hash: facts.content_hash,
                        storage_object_id: p.storage_key_prefix + facts.content_hash,
                        byte_length: facts.byte_length,
                        content_type: facts.content_type,
                        content_event_sequence: event.sequence_nr,
                        expected_current_sequence: tail_sequence(events),
                        mutability: c.mutability,
                    },
                )
            },
        },
    }
}

/// The bytes of the page that are spent after a subject was looked at.
pub open spec fn consumed_after(
    events: Seq<EnvelopeModel>,
    c: CapabilityModel,
    budgets: StreamDescriptorMigrationBudgetsV1,
    consumed: u64,
    parent_form: Result<(), String>,
) -> u64 {
    match inventoried(events, c, budgets.max_events_per_subject, parent_form) {
        Err(_) => consumed,
        Ok((_, _, facts)) => match spent(consumed, facts.byte_length, budgets.max_blob_bytes) {
            Err(_) => consumed,
            Ok(n) => n,
        },
    }
}

/// Finds the publication that the inventory takes a subject's facts from: its
/// place among the events, and the facts. `parent_form` is what the constructor
/// of references says of the names of the parent.
pub fn inventoried_publication(
    events: &Vec<Envelope>,
    capability: &StreamCapability,
    max_events: u32,
    parent_form: &Result<(), String>,
) -> (r: Result<(usize, HistoricalStreamFacts), String>)
    ensures
        match r {
            Ok((at, facts)) => {
                &&& at < events@.len()
                &&& capability@.migration_provenance is Some
                &&& inventoried(views(events@), capability@, max_events, *parent_form) == Ok::<
                    (EnvelopeModel, ProvenanceModel, FactsModel),
                    Seq<char>,
                >((events@[at as int]@, capability@.migration_provenance->0, facts@))
                &&& events@[at as int].event_type@
                    == capability@.migration_provenance->0.publication_action
                &&& forall|j: int|
                    at < j < events@.len() ==> (#[trigger] events@[j]).event_type@
                        != capability@.migration_provenance->0.publication_action
            },
            Err(e) => inventoried(views(events@), capability@, max_events, *parent_form) == Err::<
                (EnvelopeModel, ProvenanceModel, FactsModel),
                Seq<char>,
            >(e@),
        },
{
    let ghost all = views(events@);
    if events.len() > max_events as usize {
        return Err("event_budget_exceeded".to_owned());
    }
    if events.len() == 0 {
        return Err("missing_journal".to_owned());
    }
    let provenance = match &capability.migration_provenance {
        Some(p) => p,
        None => return Err("missing_verified_provenance".to_owned()),
    };
    let ghost action = provenance.publication_action@;
    let ghost pred = |e: EnvelopeModel| e.event_type == action;
    let mut count: usize = 0;
    let mut latest: usize = 0;
    let mut i: usize = 0;
    proof {
        assert(all.take(0).filter(pred) =~= Seq::<EnvelopeModel>::empty());
    }
    while i < events.len()
        invariant
            i <= events.len(),
            count <= i,
            all == views(events@),
            action == provenance.publication_action@,
            pred == (|e: EnvelopeModel| e.event_type == action),
            all.take(i as int).filter(pred).len() == count,
            count > 0 ==> latest < events.len() && all.take(i as int).filter(pred).last()
                == events@[latest as int]@,
            count > 0 ==> events@[latest as int].event_type@ == action,
            count > 0 ==> forall|j: int|
                latest < j < i ==> (#[trigger] events@[j]).event_type@ != action,
        decreases events.len() - i,
    {
        proof {
            assert(all.take(i + 1).drop_last() =~= all.take(i as int));
            assert(all.take(i + 1).last() == events@[i as int]@);
            reveal(Seq::filter);
        }
        if events[i].event_type == provenance.publication_action {
            count = count + 1;
            latest = i;
        }
        i = i + 1;
    }
    proof {
        assert(all.take(all.len() as int) =~= all);
    }
    if count == 0 {
        return Err("missing_publication".to_owned());
    }
    if capability.mutability == StreamMutability::Immutable && count != 1 {
        return Err("ambiguous_immutable_publication".to_owned());
    }
    let entity_type = local_type(capability.subject_type.as_str());
    let facts = match historical_stream_facts(
        &events[latest],
        provenance,
        entity_type.as_str(),
        opt_as_str(&capability.authorization_parent_type),
        parent_form,
    ) {
        Ok(facts) => facts,
        Err(_) => return Err("invalid_publication".to_owned()),
    };
    Ok((latest, facts))
}

/// Reads the candidate of one subject from its journal, within the budgets of
/// the page. `parent_form` is what the constructor of references says of the
/// names of the parent.
pub fn inventory_candidate(
    events: &Vec<Envelope>,
    capability: &StreamCapability,
    entity_id: &str,
    budgets: &StreamDescriptorMigrationBudgetsV1,
    consumed_bytes: &mut u64,
    parent_form: &Result<(), String>,
) -> (r: Result<StreamDescriptorBackfillCandidateV1, String>)
    ensures
        outcome(r) == subject_candidate(
            views(events@),
            capability@,
            entity_id@,
            *budgets,
            *old(consumed_bytes),
            *parent_form,
        ),
        *final(consumed_bytes) == consumed_after(
            views(events@),
            capability@,
            *budgets,
            *old(consumed_bytes),
            *parent_form,
        ),
        *old(consumed_bytes) <= budgets.max_blob_bytes ==> *final(consumed_bytes)
            <= budgets.max_blob_bytes,
{
    let (latest, facts) = match inventoried_publication(
        events,
        capability,
        budgets.max_events_per_subject,
        parent_form,
    ) {
        Ok(found) => found,
        Err(e) => return Err(e),
    };
    let provenance = match &capability.migration_provenance {
        Some(p) => p,
        None => return Err("missing_verified_provenance".to_owned()),
    };
    let entity_type = local_type(capability.subject_type.as_str());
    proof {
        assert(views(events@).last() == events@[events@.len() - 1]@);
    }
    let next_bytes: u64 = match consumed_bytes.checked_add(facts.byte_length) {
        Some(n) => n,
        None => return Err("blob_budget_exceeded".to_owned()),
    };
    if next_bytes > budgets.max_blob_bytes {
        return Err("blob_budget_exceeded".to_owned());
    }
    *consumed_bytes = next_bytes;
    if !is_canonical_sha256(facts.content_hash.as_str()) {
        return Err("invalid_content_hash".to_owned());
    }
    let mut storage_object_id = provenance.storage_key_prefix.clone();
    storage_object_id.append(facts.content_hash.as_str());
    Ok(
        StreamDescriptorBackfillCandidateV1 {
            entity_type,
            entity_id: entity_id.to_owned(),
            storage_object_id,
            content_hash: facts.content_hash,
            byte_length: facts.byte_length,
            content_type: facts.content_type,
            content_event_sequence: events[latest].sequence_nr,
            expected_current_sequence: events[events.len() - 1].sequence_nr,
            mutability: capability.mutability,
        },
    )
}

/// The journals that the subjects of a scan stand in.
#[derive(Clone, Debug, PartialEq, Eq)]
pub enum SubjectSource {
    /// Those of one task scope under the schema that is replaced.
    Scoped { scope_id: String, bundle_digest: String },
    /// None: the task has no earlier schema.
    Nothing,
    /// Those of the tenant.
    Unscoped,
}

/// What a [`SubjectSource`] holds.
pub enum SourceModel {
    Scoped { scope_id: Seq<char>, bundle_digest: Seq<char> },
    Nothing,
    Unscoped,
}

impl View for SubjectSource {
    type V = SourceModel;

    open spec fn view(&self) -> SourceModel {
        match self {
            Self::Scoped { scope_id, bundle_digest } => SourceModel::Scoped {
                scope_id: scope_id@,
                bundle_digest: bundle_digest@,
            },
            Self::Nothing => SourceModel::Nothing,
            Self::Unscoped => SourceModel::Unscoped,
        }
    }
}

/// Where the subjects of a migration stand.
pub open spec fn source_of(target: TargetModel, source_digest: Option<Seq<char>>) -> SourceModel {
    match target {
        TargetModel::TaskBundle { scope_id, .. } => match source_digest {
            Some(bundle_digest) => SourceModel::Scoped { scope_id, bundle_digest },
            None => SourceModel::Nothing,
        },
        TargetModel::InstalledApplication { .. } => SourceModel::Unscoped,
    }
}

/// Where the subjects of a migration stand: for a task with an earlier schema,
/// the scope and the digest that its entities are pinned to.
pub fn source_pin(
    target: &StreamDescriptorMigrationTargetV1,
    source_bundle_digest: &Option<String>,
) -> (r: SubjectSource)
    ensures
        r@ == source_of(target@, opt_text(*source_bundle_digest)),
{
    match (target, source_bundle_digest) {
        (
            StreamDescriptorMigrationTargetV1::TaskBundle { scope_id, .. },
            Some(bundle_digest),
        ) => SubjectSource::Scoped {
            scope_id: scope_id.clone(),
            bundle_digest: bundle_digest.clone(),
        },
        (StreamDescriptorMigrationTargetV1::TaskBundle { .. }, None) => SubjectSource::Nothing,
        (
            StreamDescriptorMigrationTargetV1::InstalledApplication { .. },
            _,
        ) => SubjectSource::Unscoped,
    }
}

/// A listing that a scan asks for: at most `limit` subjects of a type behind
/// the last one scanned.
#[derive(Clone, Debug, PartialEq, Eq)]
pub struct ScanRequest {
    pub entity_type: String,
    pub source: SubjectSource,
    pub after_entity_id: Option<String>,
    pub limit: usize,
}

/// What the scan of a page asks for next: nothing once the page or the
/// inventory is at its end, else one more subject than the page still takes.
pub fn scan_request(job: &DurableJobV1, remaining: usize) -> (r: Option<ScanRequest>)
    ensures
        match r {
            Some(q) => {
                &&& remaining > 0
                &&& job.capability_index < job.capabilities.len()
                &&& q.entity_type@ == local_name(
                    job@.capabilities[job.capability_index as int].subject_type,
                )
                &&& q.source@ == source_of(job@.target, job@.source_bundle_digest)
                &&& opt_text(q.after_entity_id) == job@.after_entity_id
                &&& q.limit == if remaining < usize::MAX {
                    remaining + 1
                } else {
                    usize::MAX as int
                }
            },
            None => remaining == 0 || job.capability_index >= job.capabilities.len(),
        },
{
    if remaining == 0 || job.capability_index >= job.capabilities.len() {
        return None;
    }
    let capability = &job.capabilities[job.capability_index];
    Some(
        ScanRequest {
            entity_type: local_type(capability.subject_type.as_str()),
            source: source_pin(&job.target, &job.source_bundle_digest),
            after_entity_id: opt_copy(&job.after_entity_id),
            limit: remaining.saturating_add(1),
        },
    )
}

/// A job after one subject of a scan, or why the page is given up.
pub open spec fn scanned(
    j: JobModel,
    subject: (Seq<char>, Seq<char>),
    attempt: crate::governed_job::Attempt,
) -> Result<JobModel, Seq<char>> {
    if j.scanned_subjects == u64::MAX {
        Err("migration subject count overflowed"@)
    } else {
        match applied(j, subject, attempt) {
            Err(e) => Err(e),
            Ok(k) => Ok(
                JobModel {
                    scanned_subjects: (j.scanned_subjects + 1) as u64,
                    after_entity_id: Some(subject.1),
                    ..k
                },
            ),
        }
    }
}

/// Enters one subject of a scan. On an error the job is as it was.
pub fn scan_subject(
    job: &mut DurableJobV1,
    entity_type: &str,
    entity_id: &str,
    outcome: &Result<StreamDescriptorBackfillOutcomeV1, String>,
) -> (r: Result<(), String>)
    requires
        old(job).wf(),
    ensures
        final(job).wf(),
        match r {
            Ok(_) => scanned(old(job)@, (entity_type@, entity_id@), attempt_of(*outcome)) == Ok::<
                JobModel,
                Seq<char>,
            >(final(job)@),
            Err(e) => scanned(old(job)@, (entity_type@, entity_id@), attempt_of(*outcome)) == Err::<
                JobModel,
                Seq<char>,
            >(e@) && *final(job) == *old(job),
        },
        sound(old(job)@) ==> sound(final(job)@),
{
    if job.scanned_subjects == u64::MAX {
        return Err("migration subject count overflowed".to_owned());
    }
    match apply_outcome(job, entity_type, entity_id, outcome) {
        Ok(_) => {},
        Err(e) => return Err(e),
    }
    job.scanned_subjects = job.scanned_subjects + 1;
    job.after_entity_id = Some(entity_id.to_owned());
    Ok(())
}

/// A job after the listing of one type was used up.
pub open spec fn listed(j: JobModel, has_more: bool, remaining: usize) -> JobModel {
    if has_more || remaining == 0 {
        j
    } else {
        JobModel {
            capability_index: (j.capability_index + 1) as usize,
            after_entity_id: None,
            ..j
        }
    }
}

/// Ends the listing of one type: the scan goes on with the next type unless the
/// page is full or the type has more subjects. Tells whether it goes on.
pub fn scan_listed(job: &mut DurableJobV1, has_more: bool, remaining: usize) -> (r: bool)
    requires
        old(job).wf(),
        old(job).capability_index < old(job).capabilities.len(),
    ensures
        final(job).wf(),
        final(job)@ == listed(old(job)@, has_more, remaining),
        r == !(has_more || remaining == 0),
        sound(old(job)@) ==> sound(final(job)@),
{
    if has_more || remaining == 0 {
        return false;
    }
    job.capability_index = job.capability_index + 1;
    job.after_entity_id = None;
    true
}

/// Ends the scan of a page: the scan is complete once no type is left.
pub fn scan_end(job: &mut DurableJobV1)
    requires
        old(job).wf(),
    ensures
        final(job).wf(),
        final(job)@ == (JobModel {
            scan_complete: old(job)@.capability_index >= old(job)@.capabilities.len(),
            ..old(job)@
        }),
        sound(old(job)@) ==> sound(final(job)@),
{
    job.scan_complete = job.capability_index >= job.capabilities.len();
}

/// A job after one subject was retried, or why the page is given up.
pub open spec fn retried_one(
    j: JobModel,
    subject: (Seq<char>, Seq<char>),
    attempt: crate::governed_job::Attempt,
) -> Result<JobModel, Seq<char>> {
    match applied(j, subject, attempt) {
        Err(e) => Err(e),
        Ok(k) => Ok(JobModel { retry_after: Some(subject), ..k }),
    }
}

/// Enters one subject that was retried. On an error the job is as it was.
pub fn retry_subject(
    job: &mut DurableJobV1,
    subject: Pair,
    outcome: &Result<StreamDescriptorBackfillOutcomeV1, String>,
) -> (r: Result<(), String>)
    requires
        old(job).wf(),
    ensures
        final(job).wf(),
        match r {
            Ok(_) => retried_one(old(job)@, subject@, attempt_of(*outcome)) == Ok::<
                JobModel,
                Seq<char>,
            >(final(job)@),
            Err(e) => retried_one(old(job)@, subject@, attempt_of(*outcome)) == Err::<
                JobModel,
                Seq<char>,
            >(e@) && *final(job) == *old(job),
        },
        sound(old(job)@) ==> sound(final(job)@),
{
    match apply_outcome(job, subject.first.as_str(), subject.second.as_str(), outcome) {
        Ok(_) => {},
        Err(e) => return Err(e),
    }
    job.retry_after = Some(subject);
    Ok(())
}

proof fn the_last_kept_member_is_the_last(events: Seq<EnvelopeModel>, action: Seq<char>)
    ensures
        publications(events, action).len() == 0 <==> forall|i: int|
            0 <= i < events.len() ==> (#[trigger] events[i]).event_type != action,
        publications(events, action).len() > 0 ==> exists|i: int|
            {
                &&& 0 <= i < events.len()
                &&& #[trigger] events[i] == publications(events, action).last()
                &&& events[i].event_type == action
                &&& forall|j: int|
                    i < j < events.len() ==> (#[trigger] events[j]).event_type != action
            },
    decreases events.len(),
{
    reveal(Seq::filter);
    if events.len() > 0 {
        let rest = events.drop_last();
        the_last_kept_member_is_the_last(rest, action);
        if events.last().event_type == action {
            assert(events[events.len() - 1] == publications(events, action).last());
        } else {
            if publications(rest, action).len() > 0 {
                let i = choose|i: int|
                    {
                        &&& 0 <= i < rest.len()
                        &&& #[trigger] rest[i] == publications(rest, action).last()
                        &&& rest[i].event_type == action
                        &&& forall|j: int|
                            i < j < rest.len() ==> (#[trigger] rest[j]).event_type != action
                    };
                assert(events[i] == rest[i]);
                assert forall|j: int| i < j < events.len() implies (
                #[trigger] events[j]).event_type != action by {
                    if j < rest.len() {
                        assert(rest[j] == events[j]);
                    }
                }
            } else {
                assert forall|j: int| 0 <= j < events.len() implies (
                #[trigger] events[j]).event_type != action by {
                    if j < rest.len() {
                        assert(rest[j] == events[j]);
                    }
                }
            }
        }
    }
}

proof fn one_publication_is_alone(events: Seq<EnvelopeModel>, action: Seq<char>, i: int, j: int)
    requires
        0 <= i < j < events.len(),
        events[i].event_type == action,
        events[j].event_type == action,
    ensures
        publications(events, action).len() >= 2,
    decreases events.len(),
{
    reveal(Seq::filter);
    let rest = events.drop_last();
    if j < rest.len() {
        one_publication_is_alone(rest, action, i, j);
    } else {
        the_last_kept_member_is_the_last(rest, action);
        assert(rest[i].event_type == action);
    }
}

/// The inventory takes the facts of a stream from its latest publication: the
/// event that it gives publishes the stream, no later event of the journal does,
/// and an immutable stream has no other.
pub proof fn an_inventoried_publication_has_no_later_one(
    events: &Vec<Envelope>,
    capability: &StreamCapability,
    max_events: u32,
    parent_form: &Result<(), String>,
    r: Result<(usize, HistoricalStreamFacts), String>,
    j: int,
)
    requires
        call_ensures(
            inventoried_publication,
            (events, capability, max_events, parent_form),
            r,
        ),
        r is Ok,
    ensures
        capability@.migration_provenance is Some,
        ({
            let at = r->Ok_0.0 as int;
            let action = capability@.migration_provenance->0.publication_action;
            &&& 0 <= at < events@.len() <= max_events
            &&& events@[at].event_type@ == action
            &&& at < j < events@.len() ==> events@[j].event_type@ != action
            &&& capability.mutability == StreamMutability::Immutable && 0 <= j < events@.len() && j
                != at ==> events@[j].event_type@ != action
        }),
{
    let all = views(events@);
    let at = r->Ok_0.0 as int;
    let action = capability@.migration_provenance->0.publication_action;
    if 0 <= j < at && events@[j].event_type@ == action {
        assert(all[j] == events@[j]@);
        assert(all[at] == events@[at]@);
        one_publication_is_alone(all, action, j, at);
    }
}

/// The inventory leaves no stream out that it can take up: where the latest
/// publication of a journal within its budget can be read, and a stream that is
/// immutable has no other, that publication and what it says are taken.
pub proof fn a_readable_publication_is_inventoried(
    events: Seq<EnvelopeModel>,
    c: CapabilityModel,
    max_events: u32,
    parent_form: Result<(), String>,
    at: int,
    facts: FactsModel,
)
    requires
        0 <= at < events.len() <= max_events,
        c.migration_provenance is Some,
        events[at].event_type == c.migration_provenance->0.publication_action,
        forall|j: int|
            at < j < events.len() ==> (#[trigger] events[j]).event_type
                != c.migration_provenance->0.publication_action,
        c.mutability == StreamMutability::Immutable ==> forall|j: int|
            0 <= j < at ==> (#[trigger] events[j]).event_type
                != c.migration_provenance->0.publication_action,
        historical_facts(
            events[at],
            c.migration_provenance->0,
            local_name(c.subject_type),
            c.authorization_parent_type,
            parent_form,
        ) == Ok::<FactsModel, Seq<char>>(facts),
    ensures
        inventoried(events, c, max_events, parent_form) == Ok::<
            (EnvelopeModel, ProvenanceModel, FactsModel),
            Seq<char>,
        >((events[at], c.migration_provenance->0, facts)),
{
    let action = c.migration_provenance->0.publication_action;
    the_last_kept_member_is_the_last(events, action);
    let i = choose|i: int|
        {
            &&& 0 <= i < events.len()
            &&& #[trigger] events[i] == publications(events, action).last()
            &&& events[i].event_type == action
            &&& forall|j: int| i < j < events.len() ==> (#[trigger] events[j]).event_type != action
        };
    assert(i == at);
    if c.mutability == StreamMutability::Immutable {
        a_lone_publication_is_one(events, action, at);
    }
}

proof fn a_lone_publication_is_one(events: Seq<EnvelopeModel>, action: Seq<char>, at: int)
    requires
        0 <= at < events.len(),
        events[at].event_type == action,
        forall|j: int|
            0 <= j < events.len() && j != at ==> (#[trigger] events[j]).event_type != action,
    ensures
        publications(events, action).len() == 1,
    decreases events.len(),
{
    reveal(Seq::filter);
    let rest = events.drop_last();
    assert forall|j: int| 0 <= j < rest.len() implies #[trigger] rest[j] == events[j] by {}
    if at == events.len() - 1 {
        the_last_kept_member_is_the_last(rest, action);
    } else {
        a_lone_publication_is_one(rest, action, at);
    }
}

/// A candidate is that of its subject, as its latest publication describes it:
/// stored under the declared prefix and its digest, at the fence that the journal
/// is at. What it counts against the page is its length, within the budget.
pub proof fn a_candidate_is_what_its_publication_says(
    events: Seq<EnvelopeModel>,
    c: CapabilityModel,
    entity_id: Seq<char>,
    budgets: StreamDescriptorMigrationBudgetsV1,
    consumed: u64,
    parent_form: Result<(), String>,
)
    requires
        subject_candidate(events, c, entity_id, budgets, consumed, parent_form) is Ok,
    ensures
        ({
            let made = subject_candidate(
                events,
                c,
                entity_id,
                budgets,
                consumed,
                parent_form,
            )->Ok_0;
            let p = c.migration_provenance->0;
            &&& c.migration_provenance is Some
            &&& exists|at: int|
                {
                    &&& 0 <= at < events.len()
                    &&& (#[trigger] events[at]).event_type == p.publication_action
                    &&& made.content_event_sequence == events[at].sequence_nr
                    &&& forall|j: int|
                        at < j < events.len() ==> (#[trigger] events[j]).event_type
                            != p.publication_action
                    &&& events[at].event is Ok
                    &&& text_member(events[at].event->Ok_0.params, p.content_hash_parameter)
                        == Some(made.content_hash)
                    &&& unsigned_value(
                        member(events[at].event->Ok_0.params, p.byte_length_parameter),
                    ) == Some(made.byte_length)
                }
            &&& made.entity_type == local_name(c.subject_type)
            &&& made.entity_id == entity_id
            &&& made.storage_object_id == p.storage_key_prefix + made.content_hash
            &&& made.mutability == c.mutability
            &&& made.expected_current_sequence == events.last().sequence_nr
            &&& digest_text(made.content_hash, "sha256:"@)
            &&& consumed_after(events, c, budgets, consumed, parent_form) == consumed
                + made.byte_length
            &&& consumed + made.byte_length <= budgets.max_blob_bytes
        }),
{
    let p = c.migration_provenance->0;
    the_last_kept_member_is_the_last(events, p.publication_action);
    let at = choose|i: int|
        {
            &&& 0 <= i < events.len()
            &&& #[trigger] events[i] == publications(events, p.publication_action).last()
            &&& events[i].event_type == p.publication_action
            &&& forall|j: int|
                i < j < events.len() ==> (#[trigger] events[j]).event_type != p.publication_action
        };
    assert(events[at].event_type == p.publication_action);
}

/// What the inventory finds the repair takes up: on the same journal, within the
/// repair's own budget and with its events numbered in order, a candidate of the
/// inventory is admitted.
pub proof fn an_inventoried_candidate_is_admitted(
    events: Seq<EnvelopeModel>,
    c: CapabilityModel,
    entity_id: Seq<char>,
    budgets: StreamDescriptorMigrationBudgetsV1,
    consumed: u64,
    parent_form: Result<(), String>,
)
    requires
        subject_candidate(events, c, entity_id, budgets, consumed, parent_form) is Ok,
        events.len() <= BACKFILL_HISTORY_EVENT_BUDGET,
        forall|i: int, j: int|
            0 <= i < j < events.len() ==> (#[trigger] events[i]).sequence_nr < (
            #[trigger] events[j]).sequence_nr,
    ensures
        admission(
            events,
            subject_candidate(events, c, entity_id, budgets, consumed, parent_form)->Ok_0,
            c.migration_provenance->0,
            c.authorization_parent_type,
            parent_form,
        ) is Ok,
{
    let p = c.migration_provenance->0;
    let made = subject_candidate(events, c, entity_id, budgets, consumed, parent_form)->Ok_0;
    the_last_kept_member_is_the_last(events, p.publication_action);
    let at = choose|i: int|
        {
            &&& 0 <= i < events.len()
            &&& #[trigger] events[i] == publications(events, p.publication_action).last()
            &&& events[i].event_type == p.publication_action
            &&& forall|j: int|
                i < j < events.len() ==> (#[trigger] events[j]).event_type != p.publication_action
        };
    an_event_is_found_at_its_sequence(events, at);
    assert forall|j: int| 0 <= j < events.len() && (#[trigger] events[j]).sequence_nr
        > made.content_event_sequence implies events[j].event_type != p.publication_action by {
        if j < at {
            assert(events[j].sequence_nr < events[at].sequence_nr);
        }
    }
}

proof fn an_event_is_found_at_its_sequence(events: Seq<EnvelopeModel>, at: int)
    requires
        0 <= at < events.len(),
        forall|i: int, j: int|
            0 <= i < j < events.len() ==> (#[trigger] events[i]).sequence_nr < (
            #[trigger] events[j]).sequence_nr,
    ensures
        event_at(events, events[at].sequence_nr) == Some(events[at]),
    decreases events.len(),
{
    if at > 0 {
        let rest = events.drop_first();
        assert forall|i: int| 0 <= i < rest.len() implies #[trigger] rest[i] == events[i + 1] by {}
        assert(events[0].sequence_nr < events[at].sequence_nr);
        an_event_is_found_at_its_sequence(rest, at - 1);
    }
}

/// A subject is migrated under the first capability whose type is its own.
pub proof fn a_subject_has_the_capability_of_its_type(
    capabilities: Seq<CapabilityModel>,
    entity_type: Seq<char>,
)
    ensures
        match capability_for(capabilities, entity_type) {
            Some(c) => exists|i: int|
                {
                    &&& 0 <= i < capabilities.len()
                    &&& #[trigger] capabilities[i] == c
                    &&& local_name(c.subject_type) == entity_type
                    &&& forall|j: int|
                        0 <= j < i ==> local_name((#[trigger] capabilities[j]).subject_type)
                            != entity_type
                },
            None => forall|j: int|
                0 <= j < capabilities.len() ==> local_name(
                    (#[trigger] capabilities[j]).subject_type,
                ) != entity_type,
        },
    decreases capabilities.len(),
{
    if capabilities.len() > 0 {
        let rest = capabilities.drop_first();
        if local_name(capabilities[0].subject_type) == entity_type {
            assert(capabilities[0] == capability_for(capabilities, entity_type)->0);
        } else {
            a_subject_has_the_capability_of_its_type(rest, entity_type);
            assert forall|j: int| 0 <= j < rest.len() implies #[trigger] rest[j]
                == capabilities[j + 1] by {}
            if capability_for(rest, entity_type) is Some {
                let c = capability_for(rest, entity_type)->0;
                let i = choose|i: int|
                    {
                        &&& 0 <= i < rest.len()
                        &&& #[trigger] rest[i] == c
                        &&& local_name(c.subject_type) == entity_type
                        &&& forall|j: int|
                            0 <= j < i ==> local_name((#[trigger] rest[j]).subject_type)
                                != entity_type
                    };
                assert(capabilities[i + 1] == c);
                assert forall|j: int| 0 <= j < i + 1 implies local_name(
                    (#[trigger] capabilities[j]).subject_type,
                ) != entity_type by {
                    if j > 0 {
                        assert(rest[j - 1] == capabilities[j]);
                    }
                }
            } else {
                assert forall|j: int| 0 <= j < capabilities.len() implies local_name(
                    (#[trigger] capabilities[j]).subject_type,
                ) != entity_type by {
                    if j > 0 {
                        assert(rest[j - 1] == capabilities[j]);
                    }
                }
            }
        }
    }
}

/// A scan counts every subject that it enters and goes on behind it; one whose
/// store is down or whose fence is stale gives the page up and enters nothing.
pub proof fn a_scan_counts_what_it_enters(
    j: JobModel,
    subject: (Seq<char>, Seq<char>),
    attempt: crate::governed_job::Attempt,
)
    requires
        j.scanned_subjects < u64::MAX,
    ensures
        attempt is Transient ==> scanned(j, subject, attempt) is Err,
        scanned(j, subject, attempt) is Ok ==> {
            let k = scanned(j, subject, attempt)->Ok_0;
            &&& k.scanned_subjects == j.scanned_subjects + 1
            &&& k.after_entity_id == Some(subject.1)
            &&& k.capability_index == j.capability_index
            &&& k.scan_complete == j.scan_complete
            &&& k.retry_after == j.retry_after
            &&& k.latest_page_outcomes.len() == j.latest_page_outcomes.len() + 1
        },
        retried_one(j, subject, attempt) is Ok ==> {
            let k = retried_one(j, subject, attempt)->Ok_0;
            &&& k.scanned_subjects == j.scanned_subjects
            &&& k.after_entity_id == j.after_entity_id
            &&& k.retry_after == Some(subject)
            &&& k.latest_page_outcomes.len() == j.latest_page_outcomes.len() + 1
        },
{
}

/// A scan goes from one type to the next only where the page has room and the
/// type is used up; it is complete exactly once every type was.
pub proof fn a_scan_goes_through_every_type()
    ensures
        forall|job: &mut DurableJobV1, has_more: bool, remaining: usize, r: bool|
            job.wf() && job.capability_index < job.capabilities.len() && #[trigger] call_ensures(
                scan_listed,
                (job, has_more, remaining),
                r,
            ) ==> {
                &&& r <==> !has_more && remaining > 0
                &&& r ==> final(job)@.capability_index == job@.capability_index + 1
                    && final(job)@.after_entity_id is None
                &&& !r ==> final(job)@.capability_index == job@.capability_index
                    && final(job)@.after_entity_id == job@.after_entity_id
                &&& final(job)@.unresolved == job@.unresolved
                &&& final(job)@.resolved == job@.resolved
            },
        forall|job: &mut DurableJobV1, r: ()|
            job.wf() && #[trigger] call_ensures(scan_end, (job,), r) ==> {
                &&& final(job)@.scan_complete <==> job@.capability_index
                    >= job@.capabilities.len()
                &&& final(job)@.unresolved == job@.unresolved
                &&& final(job)@.scanned_subjects == job@.scanned_subjects
            },
{
    assert forall|job: &mut DurableJobV1, has_more: bool, remaining: usize, r: bool|
        job.wf() && job.capability_index < job.capabilities.len() && #[trigger] call_ensures(
            scan_listed,
            (job, has_more, remaining),
            r,
        ) && r implies final(job)@.capability_index == job@.capability_index + 1 by {
        assert(views(job.capabilities@).len() == job.capabilities@.len());
    }
}

/// A subject more than can be counted is refused.
pub proof fn subjects_are_counted_to_the_end(
    j: JobModel,
    subject: (Seq<char>, Seq<char>),
    attempt: crate::governed_job::Attempt,
)
    ensures
        scanned(j, subject, attempt) is Ok ==> j.scanned_subjects < u64::MAX,
        scanned(j, subject, attempt) is Ok ==> scanned(j, subject, attempt)->Ok_0.scanned_subjects
            == j.scanned_subjects + 1,
        scanned(j, subject, attempt) is Ok ==> scanned(j, subject, attempt)->Ok_0.after_entity_id
            == Some(subject.1),
{
}

} // verus!
