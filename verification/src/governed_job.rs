//! The durable job of a governed stream migration: its state, its receipts, and
//! what each subject's outcome does to it.

use vstd::prelude::*;
use vstd::string::*;
use vstd::utf8::encode_utf8;

use crate::digest::content_digest;
use crate::digest::content_digest_of;
use crate::digest::hex;
use crate::digest::sha256;
use crate::digest::sha256_hex;
use crate::governed_types::copy_outcomes;
use crate::governed_types::DurableAdvanceReplayV1;
use crate::governed_types::GenerationModel;
use crate::governed_types::PublicationGenerationV1;
use crate::governed_types::ReceiptModel;
use crate::governed_types::StreamDescriptorMigrationBudgetsV1;
use crate::governed_types::StreamDescriptorMigrationPageOutcomeV1;
use crate::governed_types::StreamDescriptorMigrationReceiptV1;
use crate::governed_types::StreamDescriptorMigrationTargetV1;
use crate::governed_types::TargetModel;
use crate::ordered::OrdMap;
use crate::ordered::OrdSet;
use crate::ordered::Pair;
use crate::stream::CapabilityModel;
use crate::stream::StreamCapability;
use crate::stream_migration::extend_bytes;
use crate::stream_migration::StreamDescriptorBackfillOutcomeV1;
use crate::text::before_first;
use crate::text::before_first_char;
use crate::text::chars_of;
use crate::text::decimal;
use crate::text::decimal_of;
use crate::text::has_prefix;
use crate::text::opt_copy;
use crate::text::opt_text;
use crate::text::opt_view;
use crate::text::outcome;
use crate::text::starts_with;
use crate::text::string_of;
use crate::text::views;

verus! {

/// How JSON writes a character of a text.
pub open spec fn escaped_char(c: char) -> Seq<char> {
    if c == '"' || c == '\\' {
        seq!['\\', c]
    } else if c == '\u{8}' {
        seq!['\\', 'b']
    } else if c == '\t' {
        seq!['\\', 't']
    } else if c == '\n' {
        seq!['\\', 'n']
    } else if c == '\u{c}' {
        seq!['\\', 'f']
    } else if c == '\r' {
        seq!['\\', 'r']
    } else if (c as u32) < 0x20 {
        seq!['\\', 'u', '0', '0'] + hex(seq![c as u8])
    } else {
        seq![c]
    }
}

/// How JSON writes the characters of a text.
pub open spec fn escaped(text: Seq<char>) -> Seq<char>
    decreases text.len(),
{
    if text.len() == 0 {
        Seq::empty()
    } else {
        escaped(text.drop_last()) + escaped_char(text.last())
    }
}

/// The JSON text of a text.
pub open spec fn text_json(text: Seq<char>) -> Seq<char> {
    seq!['"'] + escaped(text) + seq!['"']
}

/// The JSON text of a pair of texts.
pub open spec fn pair_json(first: Seq<char>, second: Seq<char>) -> Seq<char> {
    seq!['['] + text_json(first) + seq![','] + text_json(second) + seq![']']
}

/// The pair of texts that a JSON text writes, or why it writes none.
pub uninterp spec fn json_pair(text: Seq<char>) -> Result<(Seq<char>, Seq<char>), Seq<char>>;

/// Whether `text` is a JSON text that writes the pair of `first` and `second`.
pub open spec fn writes_pair(text: Seq<char>, first: Seq<char>, second: Seq<char>) -> bool {
    json_pair(text) == Ok::<(Seq<char>, Seq<char>), Seq<char>>((first, second))
}

/// `serde_json::to_string` of a pair of string slices does not fail: it gives the
/// two as a compact list, each in quotes, with quotes, backslashes and control
/// characters escaped, and `serde_json::from_str` reads the same pair from it.
#[verifier::external_body]
fn write_pair_json(first: &str, second: &str) -> (r: Result<String, String>)
    ensures
        r is Ok,
        r->Ok_0@ == pair_json(first@, second@),
        writes_pair(r->Ok_0@, first@, second@),
{
    serde_json::to_string(&(first, second)).map_err(|error| error.to_string())
}

/// `serde_json::from_str` at a pair of strings: the pair that the text writes,
/// or the text of the error, which depend on the text alone.
#[verifier::external_body]
fn read_pair_json(text: &str) -> (r: Result<(String, String), String>)
    ensures
        outcome(r) == json_pair(text@),
{
    serde_json::from_str(text).map_err(|error| error.to_string())
}

/// The key under which an unresolved subject is kept.
pub fn unresolved_subject_key(entity_type: &str, entity_id: &str) -> (r: Result<String, String>)
    ensures
        r is Ok,
        r->Ok_0@ == pair_json(entity_type@, entity_id@),
        writes_pair(r->Ok_0@, entity_type@, entity_id@),
{
    write_pair_json(entity_type, entity_id)
}

/// The subject of a key, or why the key names none.
pub open spec fn subject_of_key(key: Seq<char>) -> Result<(Seq<char>, Seq<char>), Seq<char>> {
    match json_pair(key) {
        Ok(p) => Ok(p),
        Err(e) => Err("stream descriptor unresolved subject key is invalid: "@ + e),
    }
}

/// The subject that an unresolved key names.
pub fn parse_unresolved_subject_key(value: &str) -> (r: Result<Pair, String>)
    ensures
        outcome(r) == subject_of_key(value@),
{
    match read_pair_json(value) {
        Ok((first, second)) => Ok(Pair { first, second }),
        Err(e) => {
            let mut text = "stream descriptor unresolved subject key is invalid: ".to_owned();
            text.append(e.as_str());
            Err(text)
        },
    }
}

/// A migration job as it is stored.
#[derive(Clone, Debug, PartialEq, Eq)]
pub struct DurableJobV1 {
    pub contract_version: u16,
    pub request_digest: String,
    pub idempotency_key: String,
    pub accepted_request_id: String,
    pub job_id: String,
    pub target: StreamDescriptorMigrationTargetV1,
    pub capability_digest: String,
    pub descriptor_contract_version: u16,
    pub budgets: StreamDescriptorMigrationBudgetsV1,
    pub capabilities: Vec<StreamCapability>,
    pub source_bundle_digest: Option<String>,
    /// The capability whose subjects are scanned next.
    pub capability_index: usize,
    /// The last subject of that capability that was scanned.
    pub after_entity_id: Option<String>,
    pub scan_complete: bool,
    pub scanned_subjects: u64,
    pub migrated_subjects: u64,
    /// Why each unresolved subject is not migrated, by its key.
    pub unresolved: OrdMap<String, String>,
    /// The subjects that are migrated.
    pub resolved: OrdSet<Pair>,
    pub latest_page_outcomes: Vec<StreamDescriptorMigrationPageOutcomeV1>,
    /// The last unresolved subject that was retried.
    pub retry_after: Option<Pair>,
    pub scan_generation: PublicationGenerationV1,
    pub completion_generation: Option<PublicationGenerationV1>,
    pub completion_receipt_id: Option<String>,
    pub start_receipt: Option<StreamDescriptorMigrationReceiptV1>,
    pub advance_operations: OrdMap<String, DurableAdvanceReplayV1>,
    pub committed_sequence: u64,
}

/// What a job holds.
pub struct JobModel {
    pub contract_version: u16,
    pub request_digest: Seq<char>,
    pub idempotency_key: Seq<char>,
    pub accepted_request_id: Seq<char>,
    pub job_id: Seq<char>,
    pub target: TargetModel,
    pub capability_digest: Seq<char>,
    pub descriptor_contract_version: u16,
    pub budgets: StreamDescriptorMigrationBudgetsV1,
    pub capabilities: Seq<CapabilityModel>,
    pub source_bundle_digest: Option<Seq<char>>,
    pub capability_index: usize,
    pub after_entity_id: Option<Seq<char>>,
    pub scan_complete: bool,
    pub scanned_subjects: u64,
    pub migrated_subjects: u64,
    pub unresolved: Map<Seq<char>, Seq<char>>,
    pub resolved: Set<(Seq<char>, Seq<char>)>,
    pub latest_page_outcomes: Seq<(Seq<char>, Seq<char>)>,
    pub retry_after: Option<(Seq<char>, Seq<char>)>,
    pub scan_generation: GenerationModel,
    pub completion_generation: Option<GenerationModel>,
    pub completion_receipt_id: Option<Seq<char>>,
    pub start_receipt: Option<ReceiptModel>,
    pub advance_operations: Map<Seq<char>, (Seq<char>, ReceiptModel)>,
    pub committed_sequence: u64,
}

impl View for DurableJobV1 {
    type V = JobModel;

    open spec fn view(&self) -> JobModel {
        JobModel {
            contract_version: self.contract_version,
            request_digest: self.request_digest@,
            idempotency_key: self.idempotency_key@,
            accepted_request_id: self.accepted_request_id@,
            job_id: self.job_id@,
            target: self.target@,
            capability_digest: self.capability_digest@,
            descriptor_contract_version: self.descriptor_contract_version,
            budgets: self.budgets,
            capabilities: views(self.capabilities@),
            source_bundle_digest: opt_text(self.source_bundle_digest),
            capability_index: self.capability_index,
            after_entity_id: opt_text(self.after_entity_id),
            scan_complete: self.scan_complete,
            scanned_subjects: self.scanned_subjects,
            migrated_subjects: self.migrated_subjects,
            unresolved: self.unresolved@,
            resolved: self.resolved@,
            latest_page_outcomes: views(self.latest_page_outcomes@),
            retry_after: opt_view(self.retry_after),
            scan_generation: self.scan_generation@,
            completion_generation: opt_view(self.completion_generation),
            completion_receipt_id: opt_text(self.completion_receipt_id),
            start_receipt: opt_view(self.start_receipt),
            advance_operations: self.advance_operations@,
            committed_sequence: self.committed_sequence,
        }
    }
}

impl DurableJobV1 {
    /// The collections of the job are sorted.
    pub open spec fn wf(&self) -> bool {
        &&& self.unresolved.wf()
        &&& self.resolved.wf()
        &&& self.advance_operations.wf()
        &&& self.scan_generation.wf()
        &&& self.completion_generation is Some ==> self.completion_generation->0.wf()
    }
}

/// The eight bytes of `n`, the most significant first.
pub open spec fn be_bytes(n: u64) -> Seq<u8> {
    seq![
        (n / 0x100_0000_0000_0000) as u8,
        (n / 0x1_0000_0000_0000 % 256) as u8,
        (n / 0x100_0000_0000 % 256) as u8,
        (n / 0x1_0000_0000 % 256) as u8,
        (n / 0x100_0000 % 256) as u8,
        (n / 0x1_0000 % 256) as u8,
        (n / 0x100 % 256) as u8,
        (n % 256) as u8,
    ]
}

/// Appends the eight bytes of `n`, the most significant first.
pub fn push_be_bytes(bytes: &mut Vec<u8>, n: u64)
    ensures
        final(bytes)@ == old(bytes)@ + be_bytes(n),
{
    bytes.push((n / 0x100_0000_0000_0000) as u8);
    bytes.push((n / 0x1_0000_0000_0000 % 256) as u8);
    bytes.push((n / 0x100_0000_0000 % 256) as u8);
    bytes.push((n / 0x1_0000_0000 % 256) as u8);
    bytes.push((n / 0x100_0000 % 256) as u8);
    bytes.push((n / 0x1_0000 % 256) as u8);
    bytes.push((n / 0x100 % 256) as u8);
    bytes.push((n % 256) as u8);
    proof {
        assert(bytes@ =~= old(bytes)@ + be_bytes(n));
    }
}

/// Appends the UTF-8 bytes of `s`.
pub fn push_text_bytes(bytes: &mut Vec<u8>, s: &str)
    ensures
        final(bytes)@ == old(bytes)@ + encode_utf8(s@),
{
    let more = s.as_bytes_vec();
    extend_bytes(bytes, &more);
}

/// The bytes that the place of a scan is named by.
pub open spec fn cursor_bytes(capability_index: usize, after: Option<Seq<char>>) -> Seq<u8> {
    match after {
        Some(id) => be_bytes(capability_index as u64) + seq![1u8] + be_bytes(
            encode_utf8(id).len() as u64,
        ) + encode_utf8(id),
        None => be_bytes(capability_index as u64) + seq![0u8],
    }
}

/// The word for how far a job has come.
pub open spec fn job_status(j: JobModel) -> Seq<char> {
    if j.completion_receipt_id is Some {
        "completed"@
    } else if j.scan_complete {
        "unresolved"@
    } else {
        "migrating"@
    }
}

/// The receipt of a job at a committed sequence.
pub open spec fn receipt_at(j: JobModel, request_id: Seq<char>, sequence: u64) -> ReceiptModel {
    ReceiptModel {
        request_id,
        job_id: j.job_id,
        target: j.target,
        capability_digest: j.capability_digest,
        descriptor_contract_version: j.descriptor_contract_version,
        status: job_status(j),
        cursor: if j.scan_complete {
            None
        } else {
            Some(
                "cursor:"@ + decimal(sequence as nat) + ":"@ + hex(
                    sha256(cursor_bytes(j.capability_index, j.after_entity_id)),
                ),
            )
        },
        scanned_subjects: j.scanned_subjects,
        migrated_subjects: j.migrated_subjects,
        unresolved_subjects: j.unresolved.dom().len(),
        page_outcomes: j.latest_page_outcomes,
        completion_receipt_id: j.completion_receipt_id,
        committed_sequence: sequence,
    }
}

/// The receipt of a job at a committed sequence.
pub fn job_receipt_at(job: &DurableJobV1, request_id: String, committed_sequence: u64) -> (r:
    StreamDescriptorMigrationReceiptV1)
    requires
        job.wf(),
    ensures
        r@ == receipt_at(job@, request_id@, committed_sequence),
{
    let status = if job.completion_receipt_id.is_some() {
        "completed".to_owned()
    } else if job.scan_complete {
        "unresolved".to_owned()
    } else {
        "migrating".to_owned()
    };
    let cursor = if job.scan_complete {
        None
    } else {
        let mut bytes: Vec<u8> = Vec::new();
        push_be_bytes(&mut bytes, job.capability_index as u64);
        proof {
            assert(bytes@ =~= be_bytes(job.capability_index as u64));
        }
        match &job.after_entity_id {
            Some(id) => {
                bytes.push(1);
                proof {
                    assert(bytes@ =~= be_bytes(job.capability_index as u64) + seq![1u8]);
                }
                let length: u64 = id.as_str().as_bytes().len() as u64;
                push_be_bytes(&mut bytes, length);
                push_text_bytes(&mut bytes, id.as_str());
            },
            None => {
                bytes.push(0);
                proof {
                    assert(bytes@ =~= be_bytes(job.capability_index as u64) + seq![0u8]);
                }
            },
        }
        let mut text = "cursor:".to_owned();
        text.append(decimal_of(committed_sequence).as_str());
        text.append(":");
        text.append(sha256_hex(bytes.as_slice()).as_str());
        Some(text)
    };
    StreamDescriptorMigrationReceiptV1 {
        request_id,
        job_id: job.job_id.clone(),
        target: job.target.copy(),
        capability_digest: job.capability_digest.clone(),
        descriptor_contract_version: job.descriptor_contract_version,
        status,
        cursor,
        scanned_subjects: job.scanned_subjects,
        migrated_subjects: job.migrated_subjects,
        unresolved_subjects: job.unresolved.len() as u64,
        page_outcomes: copy_outcomes(&job.latest_page_outcomes),
        completion_receipt_id: opt_copy(&job.completion_receipt_id),
        committed_sequence,
    }
}

/// The receipt of a job at its committed sequence.
pub fn job_receipt(job: &DurableJobV1, request_id: String) -> (r:
    StreamDescriptorMigrationReceiptV1)
    requires
        job.wf(),
    ensures
        r@ == receipt_at(job@, request_id@, job.committed_sequence),
{
    job_receipt_at(job, request_id, job.committed_sequence)
}

/// The digest by which a subject is shown without being named.
pub open spec fn subject_digest(entity_type: Seq<char>, entity_id: Seq<char>) -> Seq<char> {
    content_digest(encode_utf8(entity_type) + seq![0u8] + encode_utf8(entity_id))
}

/// The digest by which a subject is shown without being named.
pub fn subject_digest_of(entity_type: &str, entity_id: &str) -> (r: String)
    ensures
        r@ == subject_digest(entity_type@, entity_id@),
{
    let mut bytes: Vec<u8> = entity_type.as_bytes_vec();
    bytes.push(0);
    proof {
        assert(bytes@ =~= encode_utf8(entity_type@) + seq![0u8]);
    }
    push_text_bytes(&mut bytes, entity_id);
    content_digest_of(bytes.as_slice())
}

/// The class of a failure: its text up to the first colon, at most 96
/// characters of it.
pub open spec fn classification(reason: Seq<char>) -> Seq<char> {
    let head = before_first(reason, ':');
    if head.len() > 96 {
        head.take(96)
    } else {
        head
    }
}

/// The class of a failure.
pub fn bounded_classification(reason: &str) -> (r: String)
    ensures
        r@ == classification(reason@),
        r@.len() <= 96,
{
    let head = before_first_char(reason, ':');
    let v = chars_of(head.as_str());
    if v.len() > 96 {
        proof {
            assert(v@.subrange(0, 96) =~= v@.take(96));
        }
        string_of(&v, 0, 96)
    } else {
        head
    }
}

/// Whether a failure says nothing of the subject, so that the page is given up.
pub open spec fn is_transient(reason: Seq<char>) -> bool {
    has_prefix(reason, "backend unavailable:"@) || has_prefix(reason, "stale fence:"@)
}

/// What the attempt on one subject gave.
pub enum Attempt {
    Migrated,
    AlreadyPresent,
    Failed(Seq<char>),
    Transient(Seq<char>),
}

/// What the attempt on one subject gave.
pub open spec fn attempt_of(
    outcome: Result<StreamDescriptorBackfillOutcomeV1, String>,
) -> Attempt {
    match outcome {
        Ok(StreamDescriptorBackfillOutcomeV1::Appended { .. }) => Attempt::Migrated,
        Ok(StreamDescriptorBackfillOutcomeV1::AlreadyPresent { .. }) => Attempt::AlreadyPresent,
        Ok(StreamDescriptorBackfillOutcomeV1::Unresolved { reason }) => Attempt::Failed(reason@),
        Err(reason) => if is_transient(reason@) {
            Attempt::Transient(reason@)
        } else {
            Attempt::Failed(reason@)
        },
    }
}

/// A job after one subject was found migrated.
pub open spec fn with_resolved(
    j: JobModel,
    subject: (Seq<char>, Seq<char>),
    key: Seq<char>,
    word: Seq<char>,
) -> Result<JobModel, Seq<char>> {
    if !j.resolved.contains(subject) && j.migrated_subjects == u64::MAX {
        Err("migration migrated-subject count overflowed"@)
    } else {
        Ok(
            JobModel {
                resolved: j.resolved.insert(subject),
                migrated_subjects: if j.resolved.contains(subject) {
                    j.migrated_subjects
                } else {
                    (j.migrated_subjects + 1) as u64
                },
                unresolved: j.unresolved.remove(key),
                latest_page_outcomes: j.latest_page_outcomes.push(
                    (subject_digest(subject.0, subject.1), word),
                ),
                ..j
            },
        )
    }
}

/// A job after one subject failed for a reason of its own.
pub open spec fn with_unresolved(
    j: JobModel,
    subject: (Seq<char>, Seq<char>),
    key: Seq<char>,
    reason: Seq<char>,
) -> Result<JobModel, Seq<char>> {
    if j.resolved.contains(subject) && j.migrated_subjects == 0 {
        Err("migration migrated-subject count underflowed"@)
    } else {
        Ok(
            JobModel {
                resolved: j.resolved.remove(subject),
                migrated_subjects: if j.resolved.contains(subject) {
                    (j.migrated_subjects - 1) as u64
                } else {
                    j.migrated_subjects
                },
                unresolved: j.unresolved.insert(key, classification(reason)),
                latest_page_outcomes: j.latest_page_outcomes.push(
                    (subject_digest(subject.0, subject.1), classification(reason)),
                ),
                ..j
            },
        )
    }
}

/// A job after the attempt on one subject, or why the page is given up.
pub open spec fn applied(
    j: JobModel,
    subject: (Seq<char>, Seq<char>),
    attempt: Attempt,
) -> Result<JobModel, Seq<char>> {
    let key = pair_json(subject.0, subject.1);
    match attempt {
        Attempt::Migrated => with_resolved(j, subject, key, "migrated"@),
        Attempt::AlreadyPresent => with_resolved(j, subject, key, "already_present"@),
        Attempt::Transient(reason) => Err(reason),
        Attempt::Failed(reason) => with_unresolved(j, subject, key, reason),
    }
}

/// The count of migrated subjects is the number of resolved ones; no subject is
/// resolved and unresolved at once; and every resolved subject has a key of its
/// own.
pub open spec fn sound(j: JobModel) -> bool {
    &&& j.resolved.finite()
    &&& j.migrated_subjects == j.resolved.len()
    &&& forall|s: (Seq<char>, Seq<char>)| #[trigger]
        j.resolved.contains(s) ==> {
            let key = pair_json(s.0, s.1);
            writes_pair(key, s.0, s.1) && !j.unresolved.contains_key(key)
        }
}

/// Enters the outcome of one subject in the job. On an error the job is as it
/// was.
pub fn apply_outcome(
    job: &mut DurableJobV1,
    entity_type: &str,
    entity_id: &str,
    outcome: &Result<StreamDescriptorBackfillOutcomeV1, String>,
) -> (r: Result<(), String>)
    requires
        old(job).wf(),
    ensures
        final(job).wf(),
        match r {
            Ok(_) => applied(old(job)@, (entity_type@, entity_id@), attempt_of(*outcome)) == Ok::<
                JobModel,
                Seq<char>,
            >(final(job)@),
            Err(e) => applied(old(job)@, (entity_type@, entity_id@), attempt_of(*outcome)) == Err::<
                JobModel,
                Seq<char>,
            >(e@) && *final(job) == *old(job),
        },
        sound(old(job)@) ==> sound(final(job)@),
{
    let ghost start = job@;
    let ghost subject = (entity_type@, entity_id@);
    let key = match unresolved_subject_key(entity_type, entity_id) {
        Ok(key) => key,
        Err(e) => return Err(e),
    };
    let pair = Pair { first: entity_type.to_owned(), second: entity_id.to_owned() };
    let digest = subject_digest_of(entity_type, entity_id);
    match outcome {
        Ok(StreamDescriptorBackfillOutcomeV1::Appended { .. }) => record_resolved(
            job,
            pair,
            &key,
            digest,
            "migrated",
        ),
        Ok(StreamDescriptorBackfillOutcomeV1::AlreadyPresent { .. }) => record_resolved(
            job,
            pair,
            &key,
            digest,
            "already_present",
        ),
        Ok(StreamDescriptorBackfillOutcomeV1::Unresolved { reason }) => record_unresolved(
            job,
            pair,
            key,
            digest,
            reason.as_str(),
        ),
        Err(reason) => {
            if starts_with(reason.as_str(), "backend unavailable:") || starts_with(
                reason.as_str(),
                "stale fence:",
            ) {
                return Err(reason.clone());
            }
            record_unresolved(job, pair, key, digest, reason.as_str())
        },
    }
}

fn record_outcome(job: &mut DurableJobV1, subject_digest: String, classification: String)
    requires
        old(job).wf(),
    ensures
        final(job).wf(),
        final(job)@ == (JobModel {
            latest_page_outcomes: old(job)@.latest_page_outcomes.push(
                (subject_digest@, classification@),
            ),
            ..old(job)@
        }),
{
    let ghost before = views(job.latest_page_outcomes@);
    job.latest_page_outcomes.push(
        StreamDescriptorMigrationPageOutcomeV1 { subject_digest, classification },
    );
    proof {
        assert(views(job.latest_page_outcomes@) =~= before.push(
            (subject_digest@, classification@),
        ));
    }
}

/// Enters a migrated subject.
fn record_resolved(
    job: &mut DurableJobV1,
    pair: Pair,
    key: &String,
    digest: String,
    word: &str,
) -> (r: Result<(), String>)
    requires
        old(job).wf(),
        digest@ == subject_digest(pair@.0, pair@.1),
        pair_json(pair@.0, pair@.1) == key@,
        writes_pair(key@, pair@.0, pair@.1),
    ensures
        final(job).wf(),
        match r {
            Ok(_) => with_resolved(old(job)@, pair@, key@, word@) == Ok::<JobModel, Seq<char>>(
                final(job)@,
            ),
            Err(e) => with_resolved(old(job)@, pair@, key@, word@) == Err::<JobModel, Seq<char>>(
                e@,
            ) && *final(job) == *old(job),
        },
        sound(old(job)@) ==> sound(final(job)@),
{
    let ghost start = job@;
    let known = job.resolved.contains(&pair);
    if !known && job.migrated_subjects == u64::MAX {
        return Err("migration migrated-subject count overflowed".to_owned());
    }
    if !known {
        job.migrated_subjects = job.migrated_subjects + 1;
    }
    let _fresh = job.resolved.insert(pair);
    let _gone = job.unresolved.remove(key);
    record_outcome(job, digest, word.to_owned());
    proof {
        if sound(start) {
            assert forall|s: (Seq<char>, Seq<char>)| #[trigger]
                job@.resolved.contains(s) implies ({
                let k = pair_json(s.0, s.1);
                writes_pair(k, s.0, s.1) && !job@.unresolved.contains_key(k)
            }) by {
                if s != pair@ {
                    assert(start.resolved.contains(s));
                }
            }
        }
    }
    Ok(())
}

/// Enters a subject that failed.
fn record_unresolved(
    job: &mut DurableJobV1,
    pair: Pair,
    key: String,
    digest: String,
    reason: &str,
) -> (r: Result<(), String>)
    requires
        old(job).wf(),
        digest@ == subject_digest(pair@.0, pair@.1),
        pair_json(pair@.0, pair@.1) == key@,
        writes_pair(key@, pair@.0, pair@.1),
    ensures
        final(job).wf(),
        match r {
            Ok(_) => with_unresolved(old(job)@, pair@, key@, reason@) == Ok::<JobModel, Seq<char>>(
                final(job)@,
            ),
            Err(e) => with_unresolved(old(job)@, pair@, key@, reason@) == Err::<
                JobModel,
                Seq<char>,
            >(e@) && *final(job) == *old(job),
        },
        sound(old(job)@) ==> sound(final(job)@),
{
    let ghost start = job@;
    let known = job.resolved.contains(&pair);
    if known && job.migrated_subjects == 0 {
        return Err("migration migrated-subject count underflowed".to_owned());
    }
    if known {
        job.migrated_subjects = job.migrated_subjects - 1;
    }
    let _gone = job.resolved.remove(&pair);
    let class = bounded_classification(reason);
    job.unresolved.insert(key, class.clone());
    record_outcome(job, digest, class);
    proof {
        if sound(start) {
            assert forall|s: (Seq<char>, Seq<char>)| #[trigger]
                job@.resolved.contains(s) implies ({
                let k = pair_json(s.0, s.1);
                writes_pair(k, s.0, s.1) && !job@.unresolved.contains_key(k)
            }) by {
                assert(start.resolved.contains(s));
                assert(s != pair@);
            }
        }
    }
    Ok(())
}

/// A subject that was migrated, now or before, is resolved and no longer
/// unresolved; one that failed is unresolved, under the class of its reason, and
/// no longer resolved. No other subject changes, and the page tells of it last.
pub proof fn an_attempt_settles_its_own_subject(
    j: JobModel,
    subject: (Seq<char>, Seq<char>),
    attempt: Attempt,
    other: (Seq<char>, Seq<char>),
    key: Seq<char>,
)
    requires
        applied(j, subject, attempt) is Ok,
    ensures
        ({
            let k = applied(j, subject, attempt)->Ok_0;
            let own = pair_json(subject.0, subject.1);
            let told = k.latest_page_outcomes.last();
            let digest = content_digest(
                encode_utf8(subject.0) + seq![0u8] + encode_utf8(subject.1),
            );
            &&& !(attempt is Transient)
            &&& attempt is Migrated || attempt is AlreadyPresent ==> k.resolved.contains(subject)
                && !k.unresolved.contains_key(own)
            &&& attempt is Failed ==> !k.resolved.contains(subject) && k.unresolved.contains_key(
                own,
            ) && k.unresolved[own] == classification(attempt->Failed_0)
            &&& other != subject ==> k.resolved.contains(other) == j.resolved.contains(other)
            &&& key != own ==> k.unresolved.contains_key(key) == j.unresolved.contains_key(key) && (
            j.unresolved.contains_key(key) ==> k.unresolved[key] == j.unresolved[key])
            &&& k.latest_page_outcomes.drop_last() == j.latest_page_outcomes
            &&& told.0 == digest
            &&& told.1 == match attempt {
                Attempt::Migrated => "migrated"@,
                Attempt::AlreadyPresent => "already_present"@,
                Attempt::Failed(reason) => classification(reason),
                Attempt::Transient(reason) => reason,
            }
            &&& k.migrated_subjects - j.migrated_subjects == if k.resolved.contains(subject)
                && !j.resolved.contains(subject) {
                1int
            } else if !k.resolved.contains(subject) && j.resolved.contains(subject) {
                -1int
            } else {
                0int
            }
            &&& k.scanned_subjects == j.scanned_subjects
            &&& k.completion_receipt_id == j.completion_receipt_id
            &&& k.target == j.target
            &&& k.capabilities == j.capabilities
        }),
{
    let k = applied(j, subject, attempt)->Ok_0;
    assert(k.latest_page_outcomes.drop_last() =~= j.latest_page_outcomes);
}

/// A repair that appended or found its descriptor migrated the subject. A repair
/// that is unresolved or failed leaves it unresolved, unless the store was down
/// or the fence was stale, which may pass.
pub proof fn an_outcome_is_taken_for_what_it_is(
    outcome: Result<StreamDescriptorBackfillOutcomeV1, String>,
)
    ensures
        ({
            let attempt = attempt_of(outcome);
            let passes = outcome is Err && (has_prefix(
                outcome->Err_0@,
                "backend unavailable:"@,
            ) || has_prefix(outcome->Err_0@, "stale fence:"@));
            &&& attempt is Migrated <==> outcome is Ok && outcome->Ok_0 is Appended
            &&& attempt is AlreadyPresent <==> outcome is Ok && outcome->Ok_0 is AlreadyPresent
            &&& attempt is Transient <==> passes
            &&& attempt is Transient ==> attempt->Transient_0 == outcome->Err_0@
            &&& outcome is Ok && outcome->Ok_0 is Unresolved ==> attempt == Attempt::Failed(
                outcome->Ok_0->Unresolved_reason@,
            )
            &&& outcome is Err && !passes ==> attempt == Attempt::Failed(outcome->Err_0@)
        }),
{
}

/// The receipt of a job says where the job stands: completed exactly where it has
/// a completion, else unresolved or migrating by whether its scan is done, with a
/// cursor only while it scans.
pub proof fn a_receipt_says_where_its_job_stands(
    j: JobModel,
    request_id: Seq<char>,
    sequence: u64,
)
    ensures
        ({
            let r = receipt_at(j, request_id, sequence);
            &&& r.request_id == request_id
            &&& r.job_id == j.job_id
            &&& r.target == j.target
            &&& r.capability_digest == j.capability_digest
            &&& r.scanned_subjects == j.scanned_subjects
            &&& r.migrated_subjects == j.migrated_subjects
            &&& r.unresolved_subjects == j.unresolved.dom().len()
            &&& r.page_outcomes == j.latest_page_outcomes
            &&& r.completion_receipt_id == j.completion_receipt_id
            &&& r.committed_sequence == sequence
            &&& r.cursor is Some <==> !j.scan_complete
            &&& j.completion_receipt_id is Some ==> r.status == "completed"@
            &&& j.completion_receipt_id is None && j.scan_complete ==> r.status == "unresolved"@
            &&& j.completion_receipt_id is None && !j.scan_complete ==> r.status == "migrating"@
        }),
{
}

/// A number is written with its most significant byte first, so that it can be
/// read back.
pub proof fn a_number_is_written_highest_byte_first(n: u64)
    ensures
        be_bytes(n).len() == 8,
        n == ((((((be_bytes(n)[0] * 256 + be_bytes(n)[1]) * 256 + be_bytes(n)[2]) * 256 + be_bytes(
            n,
        )[3]) * 256 + be_bytes(n)[4]) * 256 + be_bytes(n)[5]) * 256 + be_bytes(n)[6]) * 256
            + be_bytes(n)[7],
{
    let b = be_bytes(n);
    let n1 = n / 256;
    let n2 = n1 / 256;
    let n3 = n2 / 256;
    let n4 = n3 / 256;
    let n5 = n4 / 256;
    let n6 = n5 / 256;
    let n7 = n6 / 256;
    assert(n2 == n / 0x1_0000);
    assert(n3 == n / 0x100_0000);
    assert(n4 == n / 0x1_0000_0000);
    assert(n5 == n / 0x100_0000_0000);
    assert(n6 == n / 0x1_0000_0000_0000);
    assert(n7 == n / 0x100_0000_0000_0000);
    assert(b[7] == n % 256 && b[6] == n1 % 256 && b[5] == n2 % 256 && b[4] == n3 % 256);
    assert(b[3] == n4 % 256 && b[2] == n5 % 256 && b[1] == n6 % 256 && b[0] == n7);
}

/// A text is written as it is, but for quotes, backslashes and control
/// characters, which are written after a backslash; and a text that is written
/// holds no bare quote and no control character.
pub proof fn only_special_characters_are_escaped(text: Seq<char>)
    ensures
        (forall|i: int|
            0 <= i < text.len() ==> (#[trigger] text[i]) != '"' && text[i] != '\\'
                && text[i] as u32 >= 0x20) ==> escaped(text) == text,
        forall|i: int|
            0 <= i < text.len() && ((#[trigger] text[i]) == '"' || text[i] == '\\') ==> escaped(
                text,
            ).len() > text.len(),
        escaped(text).len() >= text.len(),
    decreases text.len(),
{
    if text.len() > 0 {
        let front = text.drop_last();
        only_special_characters_are_escaped(front);
        an_escape_is_longer(text.last());
        if forall|i: int|
            0 <= i < text.len() ==> (#[trigger] text[i]) != '"' && text[i] != '\\'
                && text[i] as u32 >= 0x20 {
            assert forall|i: int| 0 <= i < front.len() implies (#[trigger] front[i]) != '"'
                && front[i] != '\\' && front[i] as u32 >= 0x20 by {
                assert(front[i] == text[i]);
            }
            assert(text[text.len() - 1] != '"');
            assert(escaped(text) =~= text);
        }
        assert forall|i: int|
            0 <= i < text.len() && ((#[trigger] text[i]) == '"' || text[i] == '\\') implies escaped(
            text,
        ).len() > text.len() by {
            if i < front.len() {
                assert(front[i] == text[i]);
            }
        }
    } else {
        assert(escaped(text) =~= text);
    }
}

proof fn an_escape_is_longer(c: char)
    ensures
        escaped_char(c).len() >= 1,
        c == '"' || c == '\\' ==> escaped_char(c) == seq!['\\', c],
        c != '"' && c != '\\' && c as u32 >= 0x20 ==> escaped_char(c) == seq![c],
        (c as u32) < 0x20 ==> escaped_char(c)[0] == '\\' && escaped_char(c).len() >= 2,
{
}

/// The key of a subject names that subject, so that no two subjects share one.
pub proof fn a_key_names_its_subject(
    entity_type: &str,
    entity_id: &str,
    r: Result<String, String>,
    other_type: &str,
    other_id: &str,
    other: Result<String, String>,
)
    requires
        call_ensures(unresolved_subject_key, (entity_type, entity_id), r),
        call_ensures(unresolved_subject_key, (other_type, other_id), other),
    ensures
        r is Ok && other is Ok,
        json_pair(r->Ok_0@) == Ok::<(Seq<char>, Seq<char>), Seq<char>>((entity_type@, entity_id@)),
        r->Ok_0@ == other->Ok_0@ ==> entity_type@ == other_type@ && entity_id@ == other_id@,
{
}

/// The subject of a key is the pair that it writes, and a key that writes none
/// has none.
pub proof fn a_key_is_read_as_its_pair(value: &str, r: Result<Pair, String>)
    requires
        call_ensures(parse_unresolved_subject_key, (value,), r),
    ensures
        r is Ok <==> json_pair(value@) is Ok,
        r is Ok ==> r->Ok_0@ == json_pair(value@)->Ok_0,
{
}

/// A reason is classed by what it begins with: the text before its first colon,
/// or as much of that as is kept.
pub proof fn a_reason_is_classed_by_its_beginning(reason: Seq<char>, head: Seq<char>, rest: Seq<char>)
    requires
        forall|i: int| 0 <= i < head.len() ==> #[trigger] head[i] != ':',
        reason == head || reason == head.push(':') + rest,
    ensures
        head.len() <= 96 ==> classification(reason) == head,
        head.len() > 96 ==> classification(reason) == head.take(96),
{
    crate::text::what_stands_before_the_first(reason, ':');
    let b = before_first(reason, ':');
    let n = head.len() as int;
    assert forall|i: int| 0 <= i < n implies #[trigger] reason[i] == head[i] by {}
    if b.len() < n {
        assert(reason[b.len() as int] == head[b.len() as int]);
    }
    if b.len() > n {
        assert(reason[n] == ':');
    }
    assert(b =~= head);
}

} // verus!
