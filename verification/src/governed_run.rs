//! The runs of a governed migration: a start, which is answered from the stored
//! job where there is one, and the pages by which a job scans its inventory and
//! retries what was left unresolved.

use vstd::prelude::*;
use vstd::string::*;
use vstd::utf8::encode_utf8;

use crate::digest::content_digest;
use crate::digest::content_digest_of;
use crate::governed::active;
use crate::governed::active_capabilities;
use crate::governed::admit_advance;
use crate::governed::admit_capabilities;
use crate::governed::admit_start;
use crate::governed::advance_refusal;
use crate::governed::advance_replay;
use crate::governed::begin_page;
use crate::governed::capabilities_refusal;
use crate::governed::fresh_job;
use crate::governed::job_id;
use crate::governed::job_id_of;
use crate::governed::page_begun;
use crate::governed::replay_advance;
use crate::governed::replay_start;
use crate::governed::start_job;
use crate::governed::start_refusal;
use crate::governed::start_replay;
use crate::governed::started;
use crate::governed::StartStreamDescriptorMigrationRequestV1;
use crate::governed::StartedMigration;
use crate::governed_job::attempt_of;
use crate::governed_gate::gate;
use crate::governed_gate::require_stream_descriptor_completion_v1;
use crate::governed_gate::FenceModel;
use crate::governed_gate::StreamPublicationFence;
use crate::governed_inventory::capability_for;
use crate::governed_inventory::find_capability;
use crate::governed_inventory::listed;
use crate::governed_inventory::retried_one;
use crate::governed_inventory::retry_subject;
use crate::governed_inventory::scan_listed;
use crate::governed_inventory::scan_request;
use crate::governed_inventory::scan_subject;
use crate::governed_inventory::scanned;
use crate::governed_inventory::source_of;
use crate::governed_inventory::ScanRequest;
use crate::governed_job::receipt_at;
use crate::governed_job::sound;
use crate::governed_job::DurableJobV1;
use crate::governed_job::JobModel;
use crate::governed_types::canonical_id;
use crate::governed_types::validate_job_id;
use crate::governed_types::validate_operation_id;
use crate::governed_types::PublicationGenerationV1;
use crate::governed_types::ReceiptModel;
use crate::governed_types::StreamDescriptorMigrationReceiptV1;
use crate::governed_types::StreamDescriptorMigrationTargetV1;
use crate::governed_types::TargetModel;
use crate::ordered::Pair;
use crate::provenance::local_name;
use crate::provenance::local_type;
use crate::stream::StreamCapability;
use crate::stream_migration::StreamDescriptorBackfillOutcomeV1;
use crate::governed_types::digest_text;
use crate::text::filter_keeps_exactly;
use crate::text::opt_str;
use crate::text::opt_text;
use crate::text::opt_view;
use crate::text::outcome;
use crate::text::texts;
use crate::text::views;

verus! {

/// What was found for a start: what its target declares, the digest and the
/// encodings of its parts, the job that is stored for it, and the state of
/// publication.
#[derive(Debug, PartialEq, Eq)]
pub struct StartFacts {
    /// The capabilities of the target, and the digest of its source bundle.
    pub declared: Result<(Vec<StreamCapability>, Option<String>), String>,
    /// The digest of the active capabilities.
    pub capability_digest: Result<String, String>,
    pub request_encoding: Result<Vec<u8>, String>,
    pub target_encoding: Result<Vec<u8>, String>,
    pub existing: Result<Option<DurableJobV1>, String>,
    pub generation: Result<PublicationGenerationV1, String>,
    /// The encoding of the evidence of completion, for a target without streams.
    pub evidence: Result<Vec<u8>, String>,
}

impl StartFacts {
    pub open spec fn wf(&self) -> bool {
        &&& self.generation is Ok ==> self.generation->Ok_0.wf()
        &&& self.existing is Ok && self.existing->Ok_0 is Some ==> self.existing->Ok_0->0.wf()
    }

    /// The digest of the request.
    pub open spec fn request_digest(&self) -> Seq<char> {
        content_digest(self.request_encoding->Ok_0@)
    }
}

/// What a start is answered with.
#[derive(Clone, Debug, PartialEq, Eq)]
pub enum StartAnswer {
    /// The receipt of the job that is stored already.
    Replayed(StreamDescriptorMigrationReceiptV1),
    /// A new job, to be stored.
    Started(StartedMigration),
}

/// Why a start fails: the first of the reasons, in the order in which they are
/// looked at.
pub open spec fn start_failure(
    q: StartStreamDescriptorMigrationRequestV1,
    f: StartFacts,
) -> Option<Seq<char>> {
    if start_refusal(q) is Some {
        start_refusal(q)
    } else if f.declared is Err {
        Some(f.declared->Err_0@)
    } else if capabilities_refusal(
        active(views(f.declared->Ok_0.0@)),
        outcome(f.capability_digest),
        q.expected_capability_digest@,
    ) is Some {
        capabilities_refusal(
            active(views(f.declared->Ok_0.0@)),
            outcome(f.capability_digest),
            q.expected_capability_digest@,
        )
    } else if f.request_encoding is Err {
        Some(f.request_encoding->Err_0@)
    } else if f.target_encoding is Err {
        Some(f.target_encoding->Err_0@)
    } else if f.existing is Err {
        Some(f.existing->Err_0@)
    } else if f.existing->Ok_0 is Some {
        match start_replay(f.existing->Ok_0->0@, f.request_digest(), q.idempotency_key@) {
            Ok(_) => None,
            Err(e) => Some(e),
        }
    } else if f.generation is Err {
        Some(f.generation->Err_0@)
    } else if active(views(f.declared->Ok_0.0@)).len() == 0 && f.evidence is Err {
        Some(f.evidence->Err_0@)
    } else {
        None
    }
}

/// Starts the migration of a target, or answers from the job that is stored for
/// it.
pub fn start_governed_stream_descriptor_migration_v1(
    tenant: &str,
    request: StartStreamDescriptorMigrationRequestV1,
    facts: StartFacts,
) -> (r: Result<StartAnswer, String>)
    requires
        facts.wf(),
    ensures
        match r {
            Err(e) => start_failure(request, facts) == Some(e@),
            Ok(StartAnswer::Replayed(receipt)) => {
                &&& start_failure(request, facts) is None
                &&& facts.existing->Ok_0 is Some
                &&& start_replay(
                    facts.existing->Ok_0->0@,
                    facts.request_digest(),
                    request.idempotency_key@,
                ) == Ok::<ReceiptModel, Seq<char>>(receipt@)
            },
            Ok(StartAnswer::Started(s)) => {
                let j = fresh_job(
                    request,
                    facts.request_digest(),
                    job_id(tenant@, facts.target_encoding->Ok_0@),
                    facts.capability_digest->Ok_0@,
                    active(views(facts.declared->Ok_0.0@)),
                    opt_text(facts.declared->Ok_0.1),
                    facts.generation->Ok_0@,
                    match facts.evidence {
                        Ok(b) => b@,
                        Err(_) => Seq::empty(),
                    },
                );
                &&& start_failure(request, facts) is None
                &&& facts.existing->Ok_0 is None
                &&& s.job.wf()
                &&& s.job@ == started(j, request.request_id@)
                &&& s.receipt@ == receipt_at(j, request.request_id@, 1)
                &&& sound(s.job@)
            },
        },
{
    match admit_start(&request) {
        Ok(_) => {},
        Err(e) => return Err(e),
    }
    let (declared, source_bundle_digest) = match facts.declared {
        Ok(d) => d,
        Err(e) => return Err(e),
    };
    let in_force = active_capabilities(&declared);
    match admit_capabilities(
        &in_force,
        &facts.capability_digest,
        request.expected_capability_digest.as_str(),
    ) {
        Ok(_) => {},
        Err(e) => return Err(e),
    }
    let capability_digest = match facts.capability_digest {
        Ok(d) => d,
        Err(e) => return Err(e),
    };
    let request_digest = match facts.request_encoding {
        Ok(bytes) => content_digest_of(bytes.as_slice()),
        Err(e) => return Err(e),
    };
    let id = match facts.target_encoding {
        Ok(bytes) => job_id_of(tenant, &bytes),
        Err(e) => return Err(e),
    };
    match facts.existing {
        Err(e) => return Err(e),
        Ok(Some(job)) => return match replay_start(
            &job,
            request_digest.as_str(),
            request.idempotency_key.as_str(),
        ) {
            Ok(receipt) => Ok(StartAnswer::Replayed(receipt)),
            Err(e) => Err(e),
        },
        Ok(None) => {},
    }
    let generation = match facts.generation {
        Ok(g) => g,
        Err(e) => return Err(e),
    };
    proof {
        assert(views(in_force@).len() == in_force@.len());
    }
    match start_job(
        request,
        request_digest,
        id,
        capability_digest,
        in_force,
        source_bundle_digest,
        generation,
        &facts.evidence,
    ) {
        Ok(s) => Ok(StartAnswer::Started(s)),
        Err(e) => Err(e),
    }
}

/// What was found for an advance.
#[derive(Debug, PartialEq, Eq)]
pub struct AdvanceFacts {
    pub job: Result<Option<DurableJobV1>, String>,
    /// The digest of the capabilities that the target has now, and the digest of
    /// its source bundle.
    pub target: Result<(Result<String, String>, Option<String>), String>,
    /// The state of publication. Not read unless the job was complete.
    pub generation: Result<PublicationGenerationV1, String>,
}

impl AdvanceFacts {
    pub open spec fn wf(&self) -> bool {
        &&& self.generation is Ok ==> self.generation->Ok_0.wf()
        &&& self.job is Ok && self.job->Ok_0 is Some ==> self.job->Ok_0->0.wf()
    }
}

/// What an advance is answered with.
#[derive(Clone, Debug, PartialEq, Eq)]
pub enum AdvanceStep {
    /// The receipt of the same advance, which was carried out already.
    Replayed(StreamDescriptorMigrationReceiptV1),
    /// The job, for one more page.
    Page(DurableJobV1),
}

/// The digest by which an advance is told from another one under its key.
pub open spec fn advance_digest(id: Seq<char>) -> Seq<char> {
    content_digest(encode_utf8(id))
}

/// The digest by which an advance is told from another one under its key: that of
/// the identifier of its job.
pub fn advance_digest_of(id: &str) -> (r: String)
    ensures
        r@ == advance_digest(id@),
{
    content_digest_of(id.as_bytes())
}

/// Why an advance fails before its page.
pub open spec fn advance_failure(
    request_id: Seq<char>,
    idempotency_key: Seq<char>,
    id: Seq<char>,
    f: AdvanceFacts,
) -> Option<Seq<char>> {
    if !canonical_id(request_id) {
        Some("request id"@ + " is not a bounded canonical identifier"@)
    } else if !canonical_id(idempotency_key) {
        Some("idempotency key"@ + " is not a bounded canonical identifier"@)
    } else if !digest_text(id, "sdm:"@) {
        Some("stream descriptor migration job id is invalid"@)
    } else if f.job is Err {
        Some(f.job->Err_0@)
    } else if f.job->Ok_0 is None {
        Some("stream descriptor migration job was not found"@)
    } else {
        let j = f.job->Ok_0->0@;
        match advance_replay(j, idempotency_key, advance_digest(id)) {
            Err(e) => Some(e),
            Ok(Some(_)) => None,
            Ok(None) => if j.committed_sequence >= crate::governed_types::JOB_EVENT_BUDGET {
                Some("stream descriptor migration operation budget is exhausted"@)
            } else if f.target is Err {
                Some(f.target->Err_0@)
            } else if advance_refusal(
                j,
                outcome(f.target->Ok_0.0),
                opt_text(f.target->Ok_0.1),
            ) is Some {
                advance_refusal(j, outcome(f.target->Ok_0.0), opt_text(f.target->Ok_0.1))
            } else if j.completion_receipt_id is Some && f.generation is Err {
                Some(f.generation->Err_0@)
            } else {
                None
            },
        }
    }
}

/// Opens an advance: it is answered from the job where it was carried out
/// before, else the job is made ready for one more page.
pub fn open_advance(
    request_id: &str,
    idempotency_key: &str,
    id: &str,
    facts: AdvanceFacts,
) -> (r: Result<AdvanceStep, String>)
    requires
        facts.wf(),
    ensures
        match r {
            Err(e) => advance_failure(request_id@, idempotency_key@, id@, facts) == Some(e@),
            Ok(step) => {
                let j = facts.job->Ok_0->0@;
                &&& advance_failure(request_id@, idempotency_key@, id@, facts) is None
                &&& match step {
                    AdvanceStep::Replayed(receipt) => advance_replay(
                        j,
                        idempotency_key@,
                        advance_digest(id@),
                    ) == Ok::<Option<ReceiptModel>, Seq<char>>(Some(receipt@)),
                    AdvanceStep::Page(job) => {
                        &&& advance_replay(j, idempotency_key@, advance_digest(id@)) == Ok::<
                            Option<ReceiptModel>,
                            Seq<char>,
                        >(None)
                        &&& job.wf()
                        &&& j.completion_receipt_id is Some ==> job@ == page_begun(
                            j,
                            facts.generation->Ok_0@,
                        )
                        &&& j.completion_receipt_id is None ==> job@ == (JobModel {
                            latest_page_outcomes: Seq::empty(),
                            ..j
                        })
                        &&& sound(j) ==> sound(job@)
                    },
                }
            },
        },
{
    match validate_operation_id("request id", request_id) {
        Ok(_) => {},
        Err(e) => return Err(e),
    }
    match validate_operation_id("idempotency key", idempotency_key) {
        Ok(_) => {},
        Err(e) => return Err(e),
    }
    match validate_job_id(id) {
        Ok(_) => {},
        Err(e) => return Err(e),
    }
    let mut job = match facts.job {
        Err(e) => return Err(e),
        Ok(None) => return Err("stream descriptor migration job was not found".to_owned()),
        Ok(Some(job)) => job,
    };
    match replay_advance(&job, idempotency_key, advance_digest_of(id).as_str()) {
        Err(e) => return Err(e),
        Ok(Some(receipt)) => return Ok(AdvanceStep::Replayed(receipt)),
        Ok(None) => {},
    }
    if job.committed_sequence >= crate::governed_types::JOB_EVENT_BUDGET as u64 {
        return Err("stream descriptor migration operation budget is exhausted".to_owned());
    }
    let (capability_digest, source_bundle_digest) = match facts.target {
        Err(e) => return Err(e),
        Ok(t) => t,
    };
    match admit_advance(
        &job,
        &capability_digest,
        crate::text::opt_as_str(&source_bundle_digest),
    ) {
        Ok(_) => {},
        Err(e) => return Err(e),
    }
    if job.completion_receipt_id.is_some() {
        let generation = match facts.generation {
            Err(e) => return Err(e),
            Ok(g) => g,
        };
        begin_page(&mut job, &generation);
    } else {
        job.latest_page_outcomes = Vec::new();
        proof {
            assert(views(job.latest_page_outcomes@) =~= Seq::<(Seq<char>, Seq<char>)>::empty());
        }
    }
    Ok(AdvanceStep::Page(job))
}

/// The scan of one page: the job, how many subjects the page still takes, and
/// the identifiers that were listed for the type at hand.
#[derive(Clone, Debug, PartialEq, Eq)]
pub struct ScanRun {
    pub job: DurableJobV1,
    /// How many subjects the page takes, and how many the job had before it.
    pub limit: usize,
    pub scanned_before: u64,
    pub remaining: usize,
    pub rows: Vec<String>,
    pub at: usize,
    pub has_more: bool,
    /// The page is at its end.
    pub stopped: bool,
}

/// What a scan does next.
#[derive(Clone, Debug, PartialEq, Eq)]
pub enum ScanStep {
    /// The subjects of a type are listed.
    List(ScanRequest),
    /// The subject with this identifier, of the type at hand, is migrated.
    Migrate(String),
    /// The page is at its end.
    End,
}

/// What the scan of one page holds.
pub struct ScanModel {
    pub job: JobModel,
    pub limit: usize,
    pub scanned_before: u64,
    pub remaining: usize,
    pub rows: Seq<Seq<char>>,
    pub at: int,
    pub has_more: bool,
    pub stopped: bool,
}

impl View for ScanRun {
    type V = ScanModel;

    open spec fn view(&self) -> ScanModel {
        ScanModel {
            job: self.job@,
            limit: self.limit,
            scanned_before: self.scanned_before,
            remaining: self.remaining,
            rows: texts(self.rows@),
            at: self.at as int,
            has_more: self.has_more,
            stopped: self.stopped,
        }
    }
}

/// A scan whose listed subjects are used up ends its page, or goes on with the
/// next type.
pub open spec fn scan_settled(s: ScanModel) -> ScanModel {
    if s.at < s.rows.len() {
        s
    } else if s.has_more || s.remaining == 0 {
        ScanModel { stopped: true, ..s }
    } else {
        ScanModel {
            job: listed(s.job, s.has_more, s.remaining),
            rows: Seq::empty(),
            at: 0,
            ..s
        }
    }
}

/// A scan after the subjects of a type were listed: as many as the page still
/// takes.
pub open spec fn scan_with_rows(s: ScanModel, listing: Seq<Seq<char>>) -> ScanModel {
    scan_settled(
        ScanModel {
            rows: if listing.len() > s.remaining {
                listing.take(s.remaining as int)
            } else {
                listing
            },
            at: 0,
            has_more: listing.len() > s.remaining,
            ..s
        },
    )
}

impl ScanRun {
    /// The page has taken what it says, and no more than it may: the subjects
    /// that are listed fit in what is left of it.
    pub open spec fn wf(&self) -> bool {
        &&& self.job.wf()
        &&& self.remaining <= self.limit
        &&& self.job.scanned_subjects == self.scanned_before + (self.limit - self.remaining)
        &&& self.at <= self.rows@.len()
        &&& self.rows@.len() - self.at <= self.remaining
        &&& self.at < self.rows@.len() ==> self.job.capability_index
            < self.job.capabilities@.len() && !self.stopped
    }

    /// Begins the scan of a page of at most `limit` subjects.
    pub fn begin(job: DurableJobV1, limit: usize) -> (r: Self)
        requires
            job.wf(),
        ensures
            r.wf(),
            r@ == (ScanModel {
                job: job@,
                limit,
                scanned_before: job.scanned_subjects,
                remaining: limit,
                rows: Seq::empty(),
                at: 0,
                has_more: false,
                stopped: false,
            }),
    {
        let scanned_before: u64 = job.scanned_subjects;
        let r = ScanRun {
            job,
            limit,
            scanned_before,
            remaining: limit,
            rows: Vec::new(),
            at: 0,
            has_more: false,
            stopped: false,
        };
        proof {
            assert(texts(r.rows@) =~= Seq::<Seq<char>>::empty());
        }
        r
    }

    /// What the scan does next.
    pub fn step(&self) -> (r: ScanStep)
        requires
            self.wf(),
        ensures
            match r {
                ScanStep::Migrate(id) => self.at < self.rows@.len() && id@
                    == self.rows@[self.at as int]@,
                ScanStep::List(q) => {
                    &&& self.at == self.rows@.len()
                    &&& !self.stopped
                    &&& self.remaining > 0
                    &&& self.job.capability_index < self.job.capabilities@.len()
                    &&& q.entity_type@ == local_name(
                        self.job@.capabilities[self.job.capability_index as int].subject_type,
                    )
                    &&& q.source@ == source_of(self.job@.target, self.job@.source_bundle_digest)
                    &&& opt_text(q.after_entity_id) == self.job@.after_entity_id
                    &&& q.limit == if self.remaining < usize::MAX {
                        self.remaining + 1
                    } else {
                        usize::MAX as int
                    }
                },
                ScanStep::End => self.at == self.rows@.len() && (self.stopped || self.remaining
                    == 0 || self.job.capability_index >= self.job.capabilities@.len()),
            },
    {
        if self.at < self.rows.len() {
            return ScanStep::Migrate(self.rows[self.at].clone());
        }
        if self.stopped {
            return ScanStep::End;
        }
        match scan_request(&self.job, self.remaining) {
            Some(q) => ScanStep::List(q),
            None => ScanStep::End,
        }
    }

    fn settle(&mut self)
        requires
            old(self).wf(),
            old(self).job.capability_index < old(self).job.capabilities@.len(),
        ensures
            final(self).wf(),
            final(self)@ == scan_settled(old(self)@),
            sound(old(self).job@) ==> sound(final(self).job@),
    {
        if self.at < self.rows.len() {
            return;
        }
        if self.has_more || self.remaining == 0 {
            self.stopped = true;
            return;
        }
        let _goes_on = scan_listed(&mut self.job, self.has_more, self.remaining);
        self.rows = Vec::new();
        self.at = 0;
        proof {
            assert(texts(self.rows@) =~= Seq::<Seq<char>>::empty());
        }
    }

    /// The subjects of the type at hand were listed.
    pub fn rows_listed(&mut self, listing: Vec<String>)
        requires
            old(self).wf(),
            old(self).at == old(self).rows@.len(),
            !old(self).stopped,
            old(self).job.capability_index < old(self).job.capabilities@.len(),
        ensures
            final(self).wf(),
            final(self)@ == scan_with_rows(old(self)@, texts(listing@)),
            sound(old(self).job@) ==> sound(final(self).job@),
    {
        let ghost all = texts(listing@);
        let has_more = listing.len() > self.remaining;
        let mut rows: Vec<String> = listing;
        if has_more {
            rows.truncate(self.remaining);
            proof {
                assert(texts(rows@) =~= all.take(self.remaining as int));
            }
        }
        self.rows = rows;
        self.at = 0;
        self.has_more = has_more;
        self.settle();
    }

    /// The next listed subject was migrated, with this outcome. On an error the
    /// page is given up, and the run is as it was.
    pub fn migrated(&mut self, outcome: &Result<StreamDescriptorBackfillOutcomeV1, String>) -> (r:
        Result<(), String>)
        requires
            old(self).wf(),
            old(self).at < old(self).rows@.len(),
        ensures
            final(self).wf(),
            ({
                let s = old(self)@;
                let entered = scanned(
                    s.job,
                    (
                        local_name(s.job.capabilities[s.job.capability_index as int].subject_type),
                        s.rows[s.at],
                    ),
                    attempt_of(*outcome),
                );
                match r {
                    Ok(_) => entered is Ok && final(self)@ == scan_settled(
                        ScanModel {
                            job: entered->Ok_0,
                            remaining: (s.remaining - 1) as usize,
                            at: s.at + 1,
                            ..s
                        },
                    ),
                    Err(e) => entered == Err::<JobModel, Seq<char>>(e@) && *final(self) == *old(
                        self,
                    ),
                }
            }),
            sound(old(self).job@) ==> sound(final(self).job@),
    {
        let entity_type = local_type(
            self.job.capabilities[self.job.capability_index].subject_type.as_str(),
        );
        let id = self.rows[self.at].clone();
        let end: usize = self.rows.len();
        let ghost before = self.job@;
        proof {
            assert(texts(self.rows@)[self.at as int] == self.rows@[self.at as int]@);
            assert(before.capabilities[self.job.capability_index as int]
                == self.job.capabilities@[self.job.capability_index as int]@);
        }
        match scan_subject(&mut self.job, entity_type.as_str(), id.as_str(), outcome) {
            Ok(_) => {},
            Err(e) => return Err(e),
        }
        proof {
            assert(self.at < end);
            assert(self.job@.capabilities == before.capabilities);
            assert(self.job@.capabilities.len() == self.job.capabilities@.len());
            assert(self.job@.capability_index == before.capability_index);
        }
        self.remaining = self.remaining - 1;
        self.at = self.at + 1;
        self.settle();
        Ok(())
    }
}

/// A page takes no more subjects than its budget.
pub proof fn a_page_is_bounded(run: ScanRun)
    requires
        run.wf(),
    ensures
        run.scanned_before <= run.job.scanned_subjects <= run.scanned_before + run.limit,
{
}

/// The retry of one page of unresolved subjects.
#[derive(Clone, Debug, PartialEq, Eq)]
pub struct RetryRun {
    pub job: DurableJobV1,
    pub subjects: Vec<Pair>,
    pub at: usize,
}

/// The place, from `n` on, of the first subject whose type the job still covers.
pub open spec fn next_covered(
    capabilities: Seq<crate::stream::CapabilityModel>,
    subjects: Seq<(Seq<char>, Seq<char>)>,
    n: int,
) -> int
    decreases subjects.len() - n,
{
    if n < 0 || n >= subjects.len() {
        n
    } else if capability_for(capabilities, subjects[n].0) is Some {
        n
    } else {
        next_covered(capabilities, subjects, n + 1)
    }
}

impl RetryRun {
    pub open spec fn wf(&self) -> bool {
        self.job.wf() && self.at <= self.subjects@.len()
    }

    /// Moves to the next subject whose type the job still covers, and gives the
    /// place of its capability; none at the end of the page.
    pub fn next_subject(&mut self) -> (r: Option<usize>)
        requires
            old(self).wf(),
        ensures
            final(self).wf(),
            final(self).job == old(self).job,
            final(self).subjects == old(self).subjects,
            final(self).at == next_covered(
                old(self).job@.capabilities,
                views(old(self).subjects@),
                old(self).at as int,
            ),
            match r {
                Some(i) => final(self).at < final(self).subjects@.len() && i
                    < final(self).job.capabilities@.len() && capability_for(
                    final(self).job@.capabilities,
                    final(self).subjects@[final(self).at as int]@.0,
                ) == Some(final(self).job.capabilities@[i as int]@),
                None => final(self).at == final(self).subjects@.len(),
            },
    {
        let ghost start = next_covered(
            self.job@.capabilities,
            views(self.subjects@),
            self.at as int,
        );
        let ghost was = *self;
        while self.at < self.subjects.len()
            invariant
                self.wf(),
                was == *old(self),
                self.job == was.job,
                self.subjects == was.subjects,
                start == next_covered(
                    was.job@.capabilities,
                    views(was.subjects@),
                    was.at as int,
                ),
                start == next_covered(
                    self.job@.capabilities,
                    views(self.subjects@),
                    self.at as int,
                ),
            decreases self.subjects.len() - self.at,
        {
            proof {
                assert(views(self.subjects@)[self.at as int] == self.subjects@[self.at as int]@);
            }
            match find_capability(
                &self.job.capabilities,
                self.subjects[self.at].first.as_str(),
            ) {
                Some(i) => return Some(i),
                None => {
                    self.at = self.at + 1;
                },
            }
        }
        None
    }

    /// The subject at hand was migrated, with this outcome. On an error the page
    /// is given up, and the run is as it was.
    pub fn migrated(&mut self, outcome: &Result<StreamDescriptorBackfillOutcomeV1, String>) -> (r:
        Result<(), String>)
        requires
            old(self).wf(),
            old(self).at < old(self).subjects@.len(),
        ensures
            final(self).wf(),
            final(self).subjects == old(self).subjects,
            ({
                let entered = retried_one(
                    old(self).job@,
                    old(self).subjects@[old(self).at as int]@,
                    attempt_of(*outcome),
                );
                match r {
                    Ok(_) => entered == Ok::<JobModel, Seq<char>>(final(self).job@)
                        && final(self).at == old(self).at + 1,
                    Err(e) => entered == Err::<JobModel, Seq<char>>(e@) && final(self).at == old(
                        self,
                    ).at && final(self).job == old(self).job,
                }
            }),
            sound(old(self).job@) ==> sound(final(self).job@),
    {
        let subject = Pair {
            first: self.subjects[self.at].first.clone(),
            second: self.subjects[self.at].second.clone(),
        };
        let end: usize = self.subjects.len();
        match retry_subject(&mut self.job, subject, outcome) {
            Ok(_) => {},
            Err(e) => return Err(e),
        }
        proof {
            assert(self.at < end);
        }
        self.at = self.at + 1;
        Ok(())
    }
}

/// Why the progress of a job cannot be read.
pub open spec fn read_failure(
    request_id: Seq<char>,
    id: Seq<char>,
    job: Result<Option<DurableJobV1>, String>,
) -> Option<Seq<char>> {
    if !canonical_id(request_id) {
        Some("request id"@ + " is not a bounded canonical identifier"@)
    } else if !digest_text(id, "sdm:"@) {
        Some("stream descriptor migration job id is invalid"@)
    } else if job is Err {
        Some(job->Err_0@)
    } else if job->Ok_0 is None {
        Some("stream descriptor migration job was not found"@)
    } else {
        None
    }
}

/// The progress of a job.
pub fn get_governed_stream_descriptor_migration_v1(
    request_id: String,
    id: &str,
    job: &Result<Option<DurableJobV1>, String>,
) -> (r: Result<StreamDescriptorMigrationReceiptV1, String>)
    requires
        job is Ok && job->Ok_0 is Some ==> job->Ok_0->0.wf(),
    ensures
        match r {
            Ok(receipt) => read_failure(request_id@, id@, *job) is None && receipt@ == receipt_at(
                job->Ok_0->0@,
                request_id@,
                job->Ok_0->0.committed_sequence,
            ),
            Err(e) => read_failure(request_id@, id@, *job) == Some(e@),
        },
{
    match validate_operation_id("request id", request_id.as_str()) {
        Ok(_) => {},
        Err(e) => return Err(e),
    }
    match validate_job_id(id) {
        Ok(_) => {},
        Err(e) => return Err(e),
    }
    match job {
        Err(e) => Err(e.clone()),
        Ok(None) => Err("stream descriptor migration job was not found".to_owned()),
        Ok(Some(job)) => Ok(crate::governed_job::job_receipt(job, request_id)),
    }
}

/// What was found for the activation of a target.
#[derive(Debug, PartialEq, Eq)]
pub struct GateFacts {
    /// The capabilities that the target declares.
    pub declared: Result<Vec<StreamCapability>, String>,
    /// The digest of each active capability, and that of all of them.
    pub digests: Vec<Result<String, String>>,
    pub capability_digest: Result<String, String>,
    pub target_encoding: Result<Vec<u8>, String>,
    /// The job that is stored for the target. Not read where the target cannot be
    /// encoded.
    pub job: Result<Option<DurableJobV1>, String>,
    pub generation: Result<PublicationGenerationV1, String>,
}

impl GateFacts {
    pub open spec fn wf(&self) -> bool {
        &&& self.declared is Ok ==> self.digests@.len() == active(
            views(self.declared->Ok_0@),
        ).len()
        &&& self.generation is Ok ==> self.generation->Ok_0.wf()
        &&& self.job is Ok && self.job->Ok_0 is Some ==> self.job->Ok_0->0.wf()
    }
}

/// Whether a target may be activated, and behind which fence. A target without
/// active streams needs no evidence.
pub open spec fn gate_answer(
    target: TargetModel,
    f: GateFacts,
    shown: Option<Seq<char>>,
) -> Result<Option<FenceModel>, Seq<char>> {
    match f.declared {
        Err(e) => Err(e@),
        Ok(declared) => {
            let streams = active(views(declared@));
            if streams.len() == 0 {
                Ok(None)
            } else if f.target_encoding is Err {
                Err(f.target_encoding->Err_0@)
            } else {
                match f.job {
                    Err(e) => Err(e@),
                    Ok(None) => Err("stream descriptor migration completion evidence is absent"@),
                    Ok(Some(job)) => if f.generation is Err {
                        Err(f.generation->Err_0@)
                    } else if f.capability_digest is Err {
                        Err(f.capability_digest->Err_0@)
                    } else {
                        gate(
                            target,
                            streams,
                            f.digests@,
                            f.capability_digest->Ok_0@,
                            Some(job@),
                            shown,
                            f.generation->Ok_0@,
                        )
                    },
                }
            }
        },
    }
}

/// Answers whether a target may be activated, and behind which fence.
pub fn activation_gate(
    target: &StreamDescriptorMigrationTargetV1,
    facts: GateFacts,
    receipt_id: Option<&str>,
) -> (r: Result<Option<StreamPublicationFence>, String>)
    requires
        facts.wf(),
    ensures
        match r {
            Ok(fence) => gate_answer(target@, facts, opt_str(receipt_id)) == Ok::<
                Option<FenceModel>,
                Seq<char>,
            >(opt_view(fence)),
            Err(e) => gate_answer(target@, facts, opt_str(receipt_id)) == Err::<
                Option<FenceModel>,
                Seq<char>,
            >(e@),
        },
{
    let declared = match facts.declared {
        Err(e) => return Err(e),
        Ok(declared) => declared,
    };
    let streams = active_capabilities(&declared);
    proof {
        assert(views(streams@).len() == streams@.len());
    }
    if streams.len() == 0 {
        return Ok(None);
    }
    match facts.target_encoding {
        Err(e) => return Err(e),
        Ok(_) => {},
    }
    let job = match facts.job {
        Err(e) => return Err(e),
        Ok(None) => return Err(
            "stream descriptor migration completion evidence is absent".to_owned(),
        ),
        Ok(Some(job)) => job,
    };
    let generation = match facts.generation {
        Err(e) => return Err(e),
        Ok(g) => g,
    };
    let capability_digest = match facts.capability_digest {
        Err(e) => return Err(e),
        Ok(d) => d,
    };
    require_stream_descriptor_completion_v1(
        target,
        &streams,
        &facts.digests,
        capability_digest.as_str(),
        &Some(job),
        receipt_id,
        &generation,
    )
}

/// A migration is started at most once for a target: a stored job answers a start
/// with its own receipt, where the start is the one that made it, and any other
/// start is refused. A new job is that of the request and its target.
pub proof fn a_target_has_one_migration(
    tenant: &str,
    request: StartStreamDescriptorMigrationRequestV1,
    facts: StartFacts,
    r: Result<StartAnswer, String>,
)
    requires
        facts.wf(),
        call_ensures(
            start_governed_stream_descriptor_migration_v1,
            (tenant, request, facts),
            r,
        ),
        r is Ok,
    ensures
        facts.existing is Ok,
        r->Ok_0 is Replayed <==> facts.existing->Ok_0 is Some,
        r->Ok_0 is Replayed ==> {
            let j = facts.existing->Ok_0->0@;
            &&& j.start_receipt == Some(r->Ok_0->Replayed_0@)
            &&& j.idempotency_key == request.idempotency_key@
            &&& j.request_digest == content_digest(facts.request_encoding->Ok_0@)
        },
        r->Ok_0 is Started ==> {
            let j = r->Ok_0->Started_0.job@;
            &&& j.target == request.target@
            &&& j.job_id == "sdm:"@ + crate::digest::hex(
                crate::digest::sha256(encode_utf8(tenant@) + facts.target_encoding->Ok_0@),
            )
            &&& j.request_digest == content_digest(facts.request_encoding->Ok_0@)
            &&& j.idempotency_key == request.idempotency_key@
            &&& j.capability_digest == request.expected_capability_digest@
            &&& j.scanned_subjects == 0
            &&& j.unresolved.dom().len() == 0
            &&& j.completion_receipt_id is Some ==> j.capabilities.len() == 0
            &&& forall|i: int|
                0 <= i < j.capabilities.len() ==> (#[trigger] j.capabilities[i])
                    .descriptor_contract_v1_active && j.capabilities[i].migration_provenance
                    is Some
            &&& r->Ok_0->Started_0.receipt@.request_id == request.request_id@
        },
{
    if r->Ok_0 is Started {
        let declared = views(facts.declared->Ok_0.0@);
        let streams = active(declared);
        assert(Map::<Seq<char>, Seq<char>>::empty().dom() =~= Set::<Seq<char>>::empty());
        assert forall|i: int| 0 <= i < streams.len() implies (
        #[trigger] streams[i]).descriptor_contract_v1_active && streams[i].migration_provenance
            is Some by {
            assert(streams.contains(streams[i]));
            filter_keeps_exactly(
                declared,
                |c: crate::stream::CapabilityModel| c.descriptor_contract_v1_active,
                streams[i],
            );
        }
    }
}

/// An advance that was carried out is answered from the job and not carried out
/// again; another one under its key is refused. One that is new goes on with the
/// job as it is stored, which tells of nothing yet.
pub proof fn an_advance_goes_on_once(
    request_id: &str,
    idempotency_key: &str,
    id: &str,
    facts: AdvanceFacts,
    r: Result<AdvanceStep, String>,
)
    requires
        facts.wf(),
        call_ensures(open_advance, (request_id, idempotency_key, id, facts), r),
        r is Ok,
    ensures
        facts.job is Ok,
        facts.job->Ok_0 is Some,
        ({
            let j = facts.job->Ok_0->0@;
            let known = j.advance_operations.contains_key(idempotency_key@);
            &&& r->Ok_0 is Replayed <==> known
            &&& r->Ok_0 is Replayed ==> j.advance_operations[idempotency_key@]
                == (content_digest(encode_utf8(id@)), r->Ok_0->Replayed_0@)
            &&& r->Ok_0 is Page ==> {
                let page = r->Ok_0->Page_0@;
                &&& page.job_id == j.job_id
                &&& page.target == j.target
                &&& page.unresolved == j.unresolved
                &&& page.resolved == j.resolved
                &&& page.capabilities == j.capabilities
                &&& page.latest_page_outcomes.len() == 0
                &&& page.committed_sequence == j.committed_sequence
                &&& page.advance_operations == j.advance_operations
            }
        }),
{
}

/// A scan takes no more subjects than its page has room for, takes them in the
/// order of the listing, and knows whether the type has more.
pub proof fn a_listing_is_taken_within_the_page(s: ScanModel, listing: Seq<Seq<char>>, k: int)
    requires
        s.remaining > 0,
        listing.len() > 0,
    ensures
        ({
            let after = scan_with_rows(s, listing);
            &&& after.rows.len() == if listing.len() > s.remaining {
                s.remaining as int
            } else {
                listing.len() as int
            }
            &&& 0 <= k < after.rows.len() ==> after.rows[k] == listing[k]
            &&& after.at == 0
            &&& after.has_more <==> listing.len() > s.remaining
            &&& after.remaining == s.remaining
            &&& after.job == s.job
        }),
{
}

/// A scan goes on to the next type once the rows of one are used up and no more
/// follow, and stops at the end of its page.
pub proof fn a_scan_moves_on_when_a_type_is_used_up(s: ScanModel)
    requires
        s.job.capability_index < usize::MAX,
    ensures
        ({
            let after = scan_settled(s);
            &&& s.at < s.rows.len() ==> after == s
            &&& s.at >= s.rows.len() && (s.has_more || s.remaining == 0) ==> after.stopped
                && after.job == s.job
            &&& s.at >= s.rows.len() && !s.has_more && s.remaining > 0 ==> {
                &&& after.job.capability_index == s.job.capability_index + 1
                &&& after.job.after_entity_id is None
                &&& after.rows.len() == 0
                &&& after.stopped == s.stopped
                &&& after.job.unresolved == s.job.unresolved
            }
        }),
{
}

/// A retry passes over only the subjects whose type is no longer declared.
pub proof fn a_retry_passes_over_undeclared_types_only(
    capabilities: Seq<crate::stream::CapabilityModel>,
    subjects: Seq<(Seq<char>, Seq<char>)>,
    n: int,
    k: int,
)
    requires
        0 <= n <= subjects.len(),
    ensures
        ({
            let next = next_covered(capabilities, subjects, n);
            &&& n <= next <= subjects.len()
            &&& n <= k < next ==> capability_for(capabilities, subjects[k].0) is None
            &&& next < subjects.len() ==> capability_for(capabilities, subjects[next].0) is Some
        }),
    decreases subjects.len() - n,
{
    if n < subjects.len() && capability_for(capabilities, subjects[n].0) is None {
        a_retry_passes_over_undeclared_types_only(capabilities, subjects, n + 1, k);
    }
}

/// The progress of a job is told of the job that was asked for, to a canonical
/// request, at the sequence that it was committed at.
pub proof fn progress_is_that_of_the_stored_job(
    request_id: String,
    id: &str,
    job: &Result<Option<DurableJobV1>, String>,
    r: Result<StreamDescriptorMigrationReceiptV1, String>,
)
    requires
        job is Ok && job->Ok_0 is Some ==> job->Ok_0->0.wf(),
        call_ensures(get_governed_stream_descriptor_migration_v1, (request_id, id, job), r),
    ensures
        r is Ok <==> canonical_id(request_id@) && digest_text(id@, "sdm:"@) && *job is Ok
            && job->Ok_0 is Some,
        r is Ok ==> {
            let j = job->Ok_0->0@;
            &&& r->Ok_0@.request_id == request_id@
            &&& r->Ok_0@.job_id == j.job_id
            &&& r->Ok_0@.scanned_subjects == j.scanned_subjects
            &&& r->Ok_0@.migrated_subjects == j.migrated_subjects
            &&& r->Ok_0@.unresolved_subjects == j.unresolved.dom().len()
            &&& r->Ok_0@.completion_receipt_id == j.completion_receipt_id
            &&& r->Ok_0@.committed_sequence == j.committed_sequence
        },
{
}

/// A target with active streams is activated only on the evidence of its own
/// completed job, of the capabilities and the state of publication that it has
/// now.
pub proof fn an_activation_rests_on_a_completed_job(
    target: &StreamDescriptorMigrationTargetV1,
    facts: GateFacts,
    receipt_id: Option<&str>,
    r: Result<Option<StreamPublicationFence>, String>,
    i: int,
)
    requires
        facts.wf(),
        call_ensures(activation_gate, (target, facts, receipt_id), r),
        r is Ok,
        facts.declared is Ok ==> 0 <= i < facts.declared->Ok_0@.len()
            && facts.declared->Ok_0@[i].descriptor_contract_v1_active,
    ensures
        facts.job is Ok,
        facts.job->Ok_0 is Some,
        ({
            let j = facts.job->Ok_0->0@;
            &&& j.scan_complete
            &&& j.unresolved.dom().len() == 0
            &&& j.completion_generation == Some(facts.generation->Ok_0@)
            &&& j.capability_digest == facts.capability_digest->Ok_0@
            &&& receipt_id is Some ==> j.completion_receipt_id == Some(receipt_id->0@)
        }),
{
    let declared = views(facts.declared->Ok_0@);
    let c = facts.declared->Ok_0@[i]@;
    assert(declared[i] == c);
    filter_keeps_exactly(
        declared,
        |c: crate::stream::CapabilityModel| c.descriptor_contract_v1_active,
        c,
    );
    assert(active(declared).contains(c));
}

/// A migration is started, or answered from its job, only for a request that is
/// valid, on what is declared, and for the capabilities that the caller expects.
pub proof fn only_a_valid_start_is_answered(
    tenant: &str,
    q: StartStreamDescriptorMigrationRequestV1,
    f: StartFacts,
    r: Result<StartAnswer, String>,
)
    requires
        f.wf(),
        call_ensures(start_governed_stream_descriptor_migration_v1, (tenant, q, f), r),
        r is Ok,
    ensures
        canonical_id(q.request_id@),
        canonical_id(q.idempotency_key@),
        q.descriptor_contract_version == 1,
        0 < q.budgets.max_subjects <= 256,
        f.declared is Ok,
        f.capability_digest is Ok && f.capability_digest->Ok_0@ == q.expected_capability_digest@,
        f.request_encoding is Ok,
        f.target_encoding is Ok,
        f.existing is Ok,
        r->Ok_0 is Replayed <==> f.existing->Ok_0 is Some,
        r->Ok_0 is Started ==> f.generation is Ok,
{
}

/// An advance goes on only for a request and a job that are valid and a job that
/// there is, within the budget of its journal. One that was made before is
/// answered with the receipt that it got.
pub proof fn only_a_valid_advance_goes_on(
    request_id: &str,
    key: &str,
    id: &str,
    f: AdvanceFacts,
    r: Result<AdvanceStep, String>,
)
    requires
        f.wf(),
        call_ensures(open_advance, (request_id, key, id, f), r),
        r is Ok,
    ensures
        canonical_id(request_id@),
        canonical_id(key@),
        digest_text(id@, "sdm:"@),
        f.job is Ok && f.job->Ok_0 is Some,
        r->Ok_0 is Page ==> !f.job->Ok_0->0@.advance_operations.contains_key(key@),
        r->Ok_0 is Page ==> f.job->Ok_0->0@.committed_sequence
            < crate::governed_types::JOB_EVENT_BUDGET,
        r->Ok_0 is Page ==> f.target is Ok,
        r->Ok_0 is Replayed ==> f.job->Ok_0->0@.advance_operations.contains_key(key@)
            && r->Ok_0->Replayed_0@ == f.job->Ok_0->0@.advance_operations[key@].1,
{
}

/// A target without active streams needs no fence, and one with active streams
/// gets none without a job, a generation and the digest of its capabilities.
pub proof fn active_streams_need_evidence(
    target: TargetModel,
    f: GateFacts,
    shown: Option<Seq<char>>,
)
    ensures
        f.declared is Err ==> gate_answer(target, f, shown) is Err,
        f.declared is Ok && f.declared->Ok_0@.len() == 0 ==> gate_answer(target, f, shown) == Ok::<
            Option<FenceModel>,
            Seq<char>,
        >(None),
        f.declared is Ok && active(views(f.declared->Ok_0@)).len() > 0 && gate_answer(
            target,
            f,
            shown,
        ) is Ok ==> f.target_encoding is Ok && f.job is Ok && f.job->Ok_0 is Some && f.generation is Ok
            && f.capability_digest is Ok && f.job->Ok_0->0@.capability_digest
            == f.capability_digest->Ok_0@ && f.job->Ok_0->0@.scan_complete
            && f.job->Ok_0->0@.completion_generation == Some(f.generation->Ok_0@),
{
    if f.declared is Ok && f.declared->Ok_0@.len() == 0 {
        let none = views(f.declared->Ok_0@);
        assert(none.len() == 0);
        if active(none).len() > 0 {
            let c = active(none)[0];
            assert(active(none).contains(c));
            reveal(Seq::filter);
        }
    }
}

} // verus!
