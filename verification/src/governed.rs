//! Governed, target-bound migration of stream descriptors: starting a job,
//! advancing it page by page, reading its progress, and the barrier that its
//! completion opens.

use vstd::prelude::*;
use vstd::string::*;
use vstd::utf8::encode_utf8;

use crate::digest::hex;
use crate::digest::sha256;
use crate::digest::sha256_hex;
use crate::governed_job::be_bytes;
use crate::governed_job::job_receipt_at;
use crate::governed_job::push_be_bytes;
use crate::governed_job::push_text_bytes;
use crate::governed_job::receipt_at;
use crate::governed_job::sound;
use crate::governed_job::DurableJobV1;
use crate::governed_job::JobModel;
use crate::governed_types::budgets_supported;
use crate::governed_types::canonical_id;
use crate::governed_types::digest_text;
use crate::governed_types::digests_are_canonical;
use crate::governed_types::validate_budgets;
use crate::governed_types::validate_operation_id;
use crate::governed_types::DurableAdvanceReplayV1;
use crate::governed_types::GenerationModel;
use crate::governed_types::PublicationGenerationV1;
use crate::governed_types::ReceiptModel;
use crate::governed_types::StreamDescriptorMigrationBudgetsV1;
use crate::governed_types::StreamDescriptorMigrationReceiptV1;
use crate::governed_types::StreamDescriptorMigrationTargetV1;
use crate::governed_types::TargetModel;
use crate::governed_types::JOB_EVENT_BUDGET;
use crate::governed_types::JOB_PAYLOAD_BYTE_BUDGET;
use crate::ordered::OrdMap;
use crate::ordered::OrdSet;
use crate::stream::CapabilityModel;
use crate::stream::StreamCapability;
use crate::stream_migration::failure_text;
use crate::stream_migration::persistence_error;
use crate::stream_migration::StoreFailure;
use crate::text::decimal;
use crate::text::decimal_of;
use crate::text::filter_keeps_exactly;
use crate::text::opt_as_str;
use crate::text::opt_copy;
use crate::text::opt_str;
use crate::text::opt_text;
use crate::text::opt_view;
use crate::text::outcome;
use crate::text::same;
use crate::text::same_opt;
use crate::text::views;

verus! {

/// A request to start a migration.
#[derive(Clone, Debug, PartialEq, Eq)]
pub struct StartStreamDescriptorMigrationRequestV1 {
    pub request_id: String,
    pub idempotency_key: String,
    pub target: StreamDescriptorMigrationTargetV1,
    pub expected_capability_digest: String,
    pub descriptor_contract_version: u16,
    pub budgets: StreamDescriptorMigrationBudgetsV1,
}

/// Why a start is refused before its target is looked at.
pub open spec fn start_refusal(q: StartStreamDescriptorMigrationRequestV1) -> Option<Seq<char>> {
    if !canonical_id(q.request_id@) {
        Some("request id"@ + " is not a bounded canonical identifier"@)
    } else if !canonical_id(q.idempotency_key@) {
        Some("idempotency key"@ + " is not a bounded canonical identifier"@)
    } else if !budgets_supported(q.budgets) {
        Some("stream descriptor migration budgets are outside supported bounds"@)
    } else if q.descriptor_contract_version != 1 {
        Some("unsupported stream descriptor contract version"@)
    } else {
        None
    }
}

/// Checks a start before its target is looked at.
pub fn admit_start(request: &StartStreamDescriptorMigrationRequestV1) -> (r: Result<(), String>)
    ensures
        match r {
            Ok(_) => start_refusal(*request) is None,
            Err(e) => start_refusal(*request) == Some(e@),
        },
{
    match validate_operation_id("request id", request.request_id.as_str()) {
        Ok(_) => {},
        Err(e) => return Err(e),
    }
    match validate_operation_id("idempotency key", request.idempotency_key.as_str()) {
        Ok(_) => {},
        Err(e) => return Err(e),
    }
    match validate_budgets(&request.budgets) {
        Ok(_) => {},
        Err(e) => return Err(e),
    }
    if request.descriptor_contract_version != 1 {
        return Err("unsupported stream descriptor contract version".to_owned());
    }
    Ok(())
}

/// The capabilities whose descriptor contract is in force.
pub open spec fn active(declared: Seq<CapabilityModel>) -> Seq<CapabilityModel> {
    declared.filter(|c: CapabilityModel| c.descriptor_contract_v1_active)
}

/// The capabilities whose descriptor contract is in force.
pub fn active_capabilities(declared: &Vec<StreamCapability>) -> (r: Vec<StreamCapability>)
    ensures
        views(r@) == active(views(declared@)),
{
    let ghost all = views(declared@);
    let ghost pred = |c: CapabilityModel| c.descriptor_contract_v1_active;
    let mut out: Vec<StreamCapability> = Vec::new();
    let mut i: usize = 0;
    proof {
        assert(all.take(0).filter(pred) =~= Seq::<CapabilityModel>::empty());
        assert(views(out@) =~= Seq::<CapabilityModel>::empty());
    }
    while i < declared.len()
        invariant
            i <= declared.len(),
            all == views(declared@),
            pred == (|c: CapabilityModel| c.descriptor_contract_v1_active),
            views(out@) == all.take(i as int).filter(pred),
        decreases declared.len() - i,
    {
        proof {
            assert(all.take(i + 1).drop_last() =~= all.take(i as int));
            assert(all.take(i + 1).last() == declared@[i as int]@);
            reveal(Seq::filter);
        }
        if declared[i].descriptor_contract_v1_active {
            let ghost before = views(out@);
            out.push(declared[i].copy());
            proof {
                assert(views(out@) =~= before.push(declared@[i as int]@));
            }
        }
        i = i + 1;
    }
    proof {
        assert(all.take(all.len() as int) =~= all);
    }
    out
}

/// Whether some capability has no provenance.
pub open spec fn lacks_provenance(active: Seq<CapabilityModel>) -> bool {
    exists|i: int| 0 <= i < active.len() && (#[trigger] active[i]).migration_provenance is None
}

/// Why the capabilities of a target are not those that a start expects.
pub open spec fn capabilities_refusal(
    active: Seq<CapabilityModel>,
    digest: Result<Seq<char>, Seq<char>>,
    expected: Seq<char>,
) -> Option<Seq<char>> {
    if lacks_provenance(active) {
        Some("target stream capability has no verified migration provenance"@)
    } else {
        match digest {
            Err(e) => Some(e),
            Ok(d) => if d != expected {
                Some("stream capability digest differs from the requested target"@)
            } else {
                None
            },
        }
    }
}

/// Holds the active capabilities of a target, and their digest, against those
/// that a start expects.
pub fn admit_capabilities(
    active: &Vec<StreamCapability>,
    digest: &Result<String, String>,
    expected: &str,
) -> (r: Result<(), String>)
    ensures
        match r {
            Ok(_) => capabilities_refusal(views(active@), outcome(*digest), expected@) is None,
            Err(e) => capabilities_refusal(views(active@), outcome(*digest), expected@) == Some(e@),
        },
{
    let ghost all = views(active@);
    let mut i: usize = 0;
    while i < active.len()
        invariant
            i <= active.len(),
            all == views(active@),
            forall|k: int| 0 <= k < i ==> (#[trigger] all[k]).migration_provenance is Some,
        decreases active.len() - i,
    {
        proof {
            assert(all[i as int] == active@[i as int]@);
        }
        if active[i].migration_provenance.is_none() {
            return Err("target stream capability has no verified migration provenance".to_owned());
        }
        i = i + 1;
    }
    match digest {
        Err(e) => Err(e.clone()),
        Ok(d) => if !same(d.as_str(), expected) {
            Err("stream capability digest differs from the requested target".to_owned())
        } else {
            Ok(())
        },
    }
}

/// The identifier of the job of a target.
pub open spec fn job_id(tenant: Seq<char>, target_encoding: Seq<u8>) -> Seq<char> {
    "sdm:"@ + hex(sha256(encode_utf8(tenant) + target_encoding))
}

/// The identifier of the job of a target, from the encoding of the target. It
/// is one that requests may name.
pub fn job_id_of(tenant: &str, target_encoding: &Vec<u8>) -> (r: String)
    ensures
        r@ == job_id(tenant@, target_encoding@),
        digest_text(r@, "sdm:"@),
{
    let mut bytes: Vec<u8> = tenant.as_bytes_vec();
    crate::stream_migration::extend_bytes(&mut bytes, target_encoding);
    let digest = sha256_hex(bytes.as_slice());
    proof {
        digests_are_canonical("sdm:"@, digest@);
    }
    let mut text = "sdm:".to_owned();
    text.append(digest.as_str());
    text
}

/// The journal of a job.
pub fn job_persistence_id(tenant: &str, job_id: &str) -> (r: String)
    ensures
        r@ == tenant@ + ":_TemperStreamMigration:"@ + job_id@,
{
    let mut text = tenant.to_owned();
    text.append(":_TemperStreamMigration:");
    text.append(job_id);
    text
}

/// The journal of the staged stream target of an application.
pub fn staged_application_persistence_id(tenant: &str, application_id: &str) -> (r: String)
    ensures
        r@ == tenant@ + ":_TemperStreamMigrationTarget:"@ + hex(
            sha256(encode_utf8(application_id@)),
        ),
{
    let mut text = tenant.to_owned();
    text.append(":_TemperStreamMigrationTarget:");
    text.append(sha256_hex(application_id.as_bytes()).as_str());
    text
}

/// The answer to a start whose job exists.
pub open spec fn start_replay(
    j: JobModel,
    request_digest: Seq<char>,
    idempotency_key: Seq<char>,
) -> Result<ReceiptModel, Seq<char>> {
    if j.request_digest != request_digest || j.idempotency_key != idempotency_key {
        Err("stream descriptor migration idempotency conflict"@)
    } else {
        match j.start_receipt {
            Some(receipt) => Ok(receipt),
            None => Err("stream descriptor migration start receipt is absent"@),
        }
    }
}

/// Answers a start whose job exists: with the receipt of the first start where
/// it is the same request, and with a conflict otherwise.
pub fn replay_start(existing: &DurableJobV1, request_digest: &str, idempotency_key: &str) -> (r:
    Result<StreamDescriptorMigrationReceiptV1, String>)
    ensures
        outcome(r) == start_replay(existing@, request_digest@, idempotency_key@),
{
    if !same(existing.request_digest.as_str(), request_digest) || !same(
        existing.idempotency_key.as_str(),
        idempotency_key,
    ) {
        return Err("stream descriptor migration idempotency conflict".to_owned());
    }
    match &existing.start_receipt {
        Some(receipt) => Ok(receipt.copy()),
        None => Err("stream descriptor migration start receipt is absent".to_owned()),
    }
}

/// The identifier of a completion.
pub open spec fn completion_id(evidence: Seq<u8>) -> Seq<char> {
    "sdm-complete:"@ + hex(sha256(evidence))
}

/// The identifier of a completion, from the encoding of its evidence.
pub fn completion_id_of(evidence: &Vec<u8>) -> (r: String)
    ensures
        r@ == completion_id(evidence@),
{
    let mut text = "sdm-complete:".to_owned();
    text.append(sha256_hex(evidence.as_slice()).as_str());
    text
}

/// What a completion is evidence of: the target of the job, what it declares,
/// how many subjects were scanned and migrated, and the state of publication
/// that the scan covers.
#[derive(Clone, Debug, PartialEq, Eq)]
pub struct CompletionEvidence {
    pub tenant: String,
    pub target: StreamDescriptorMigrationTargetV1,
    pub capability_digest: String,
    pub descriptor_contract_version: u16,
    pub source_bundle_digest: Option<String>,
    pub scanned_subjects: u64,
    pub migrated_subjects: u64,
    pub completion_generation: Option<PublicationGenerationV1>,
}

/// What a [`CompletionEvidence`] holds.
pub struct EvidenceModel {
    pub tenant: Seq<char>,
    pub target: TargetModel,
    pub capability_digest: Seq<char>,
    pub descriptor_contract_version: u16,
    pub source_bundle_digest: Option<Seq<char>>,
    pub scanned_subjects: u64,
    pub migrated_subjects: u64,
    pub completion_generation: Option<GenerationModel>,
}

impl View for CompletionEvidence {
    type V = EvidenceModel;

    open spec fn view(&self) -> EvidenceModel {
        EvidenceModel {
            tenant: self.tenant@,
            target: self.target@,
            capability_digest: self.capability_digest@,
            descriptor_contract_version: self.descriptor_contract_version,
            source_bundle_digest: opt_text(self.source_bundle_digest),
            scanned_subjects: self.scanned_subjects,
            migrated_subjects: self.migrated_subjects,
            completion_generation: opt_view(self.completion_generation),
        }
    }
}

/// What the completion of a job is evidence of.
pub open spec fn evidence_of(tenant: Seq<char>, j: JobModel) -> EvidenceModel {
    EvidenceModel {
        tenant,
        target: j.target,
        capability_digest: j.capability_digest,
        descriptor_contract_version: j.descriptor_contract_version,
        source_bundle_digest: j.source_bundle_digest,
        scanned_subjects: j.scanned_subjects,
        migrated_subjects: j.migrated_subjects,
        completion_generation: j.completion_generation,
    }
}

/// The evidence of a job that completes at a state of publication.
pub fn completion_evidence(
    tenant: &str,
    job: &DurableJobV1,
    generation: &PublicationGenerationV1,
) -> (r: CompletionEvidence)
    requires
        generation.wf(),
    ensures
        r@ == evidence_of(
            tenant@,
            JobModel { completion_generation: Some(generation@), ..job@ },
        ),
{
    CompletionEvidence {
        tenant: tenant.to_owned(),
        target: job.target.copy(),
        capability_digest: job.capability_digest.clone(),
        descriptor_contract_version: job.descriptor_contract_version,
        source_bundle_digest: opt_copy(&job.source_bundle_digest),
        scanned_subjects: job.scanned_subjects,
        migrated_subjects: job.migrated_subjects,
        completion_generation: Some(generation.copy()),
    }
}

/// The evidence of the job of a target without active streams, which is complete
/// when it starts.
pub fn start_evidence(
    tenant: &str,
    request: &StartStreamDescriptorMigrationRequestV1,
    capability_digest: &str,
    source_bundle_digest: Option<&str>,
    generation: &PublicationGenerationV1,
) -> (r: CompletionEvidence)
    requires
        generation.wf(),
    ensures
        r@ == (EvidenceModel {
            tenant: tenant@,
            target: request.target@,
            capability_digest: capability_digest@,
            descriptor_contract_version: 1,
            source_bundle_digest: opt_str(source_bundle_digest),
            scanned_subjects: 0,
            migrated_subjects: 0,
            completion_generation: Some(generation@),
        }),
{
    CompletionEvidence {
        tenant: tenant.to_owned(),
        target: request.target.copy(),
        capability_digest: capability_digest.to_owned(),
        descriptor_contract_version: 1,
        source_bundle_digest: match source_bundle_digest {
            Some(s) => Some(s.to_owned()),
            None => None,
        },
        scanned_subjects: 0,
        migrated_subjects: 0,
        completion_generation: Some(generation.copy()),
    }
}

/// A new job before its start receipt is entered.
pub open spec fn fresh_job(
    q: StartStreamDescriptorMigrationRequestV1,
    request_digest: Seq<char>,
    job_id: Seq<char>,
    capability_digest: Seq<char>,
    active: Seq<CapabilityModel>,
    source: Option<Seq<char>>,
    generation: GenerationModel,
    evidence: Seq<u8>,
) -> JobModel {
    JobModel {
        contract_version: 1,
        request_digest,
        idempotency_key: q.idempotency_key@,
        accepted_request_id: q.request_id@,
        job_id,
        target: q.target@,
        capability_digest,
        descriptor_contract_version: 1,
        budgets: q.budgets,
        capabilities: active,
        source_bundle_digest: source,
        capability_index: 0,
        after_entity_id: None,
        scan_complete: active.len() == 0,
        scanned_subjects: 0,
        migrated_subjects: 0,
        unresolved: Map::empty(),
        resolved: Set::empty(),
        latest_page_outcomes: Seq::empty(),
        retry_after: None,
        scan_generation: generation,
        completion_generation: if active.len() == 0 {
            Some(generation)
        } else {
            None
        },
        completion_receipt_id: if active.len() == 0 {
            Some(completion_id(evidence))
        } else {
            None
        },
        start_receipt: None,
        advance_operations: Map::empty(),
        committed_sequence: 0,
    }
}

/// A job together with the receipt of its start, which is the receipt at its
/// first commit.
pub open spec fn started(j: JobModel, request_id: Seq<char>) -> JobModel {
    JobModel { start_receipt: Some(receipt_at(j, request_id, 1)), ..j }
}

/// What a start makes.
#[derive(Clone, Debug, PartialEq, Eq)]
pub struct StartedMigration {
    pub job: DurableJobV1,
    pub receipt: StreamDescriptorMigrationReceiptV1,
}

/// Makes the job of a start that was admitted and has none yet. A target
/// without active streams is complete at once; `evidence` is the encoding of
/// that completion's evidence, or why there is none, and is read only then.
pub fn start_job(
    request: StartStreamDescriptorMigrationRequestV1,
    request_digest: String,
    job_id: String,
    capability_digest: String,
    active: Vec<StreamCapability>,
    source_bundle_digest: Option<String>,
    scan_generation: PublicationGenerationV1,
    evidence: &Result<Vec<u8>, String>,
) -> (r: Result<StartedMigration, String>)
    requires
        scan_generation.wf(),
    ensures
        match r {
            Ok(s) => {
                let bytes = match *evidence {
                    Ok(b) => b@,
                    Err(_) => Seq::empty(),
                };
                let j = fresh_job(
                    request,
                    request_digest@,
                    job_id@,
                    capability_digest@,
                    views(active@),
                    opt_text(source_bundle_digest),
                    scan_generation@,
                    bytes,
                );
                &&& active@.len() == 0 ==> evidence is Ok
                &&& s.job.wf()
                &&& s.job@ == started(j, request.request_id@)
                &&& s.receipt@ == receipt_at(j, request.request_id@, 1)
                &&& sound(s.job@)
            },
            Err(e) => active@.len() == 0 && *evidence is Err && e@ == evidence->Err_0@,
        },
{
    let empty = active.len() == 0;
    let mut completion_receipt_id: Option<String> = None;
    let mut completion_generation: Option<PublicationGenerationV1> = None;
    if empty {
        match evidence {
            Ok(bytes) => {
                completion_receipt_id = Some(completion_id_of(bytes));
                completion_generation = Some(scan_generation.copy());
            },
            Err(e) => return Err(e.clone()),
        }
    }
    let request_id = request.request_id.clone();
    let mut job = DurableJobV1 {
        contract_version: 1,
        request_digest,
        idempotency_key: request.idempotency_key,
        accepted_request_id: request.request_id,
        job_id,
        target: request.target,
        capability_digest,
        descriptor_contract_version: 1,
        budgets: request.budgets,
        capabilities: active,
        source_bundle_digest,
        capability_index: 0,
        after_entity_id: None,
        scan_complete: empty,
        scanned_subjects: 0,
        migrated_subjects: 0,
        unresolved: OrdMap::new(),
        resolved: OrdSet::new(),
        latest_page_outcomes: Vec::new(),
        retry_after: None,
        scan_generation,
        completion_generation,
        completion_receipt_id,
        start_receipt: None,
        advance_operations: OrdMap::new(),
        committed_sequence: 0,
    };
    proof {
        assert(views(job.latest_page_outcomes@) =~= Seq::<(Seq<char>, Seq<char>)>::empty());
        assert(views(job.capabilities@).len() == job.capabilities@.len());
    }
    let receipt = job_receipt_at(&job, request_id, 1);
    job.start_receipt = Some(receipt.copy());
    Ok(StartedMigration { job, receipt })
}

/// A start that is sent again is answered with the receipt of the first one, and
/// one that differs is refused.
pub proof fn a_start_is_answered_once(
    j: JobModel,
    request_id: Seq<char>,
    request_digest: Seq<char>,
    idempotency_key: Seq<char>,
)
    ensures
        start_replay(started(j, request_id), j.request_digest, j.idempotency_key) == Ok::<
            ReceiptModel,
            Seq<char>,
        >(receipt_at(j, request_id, 1)),
        (request_digest != j.request_digest || idempotency_key != j.idempotency_key)
            ==> start_replay(started(j, request_id), request_digest, idempotency_key) is Err,
{
}

/// How far the types of the first `n` write versions had come, in bytes.
pub open spec fn version_bytes(versions: Seq<(String, u64)>, n: int) -> Seq<u8>
    decreases n,
{
    if n <= 0 {
        Seq::empty()
    } else {
        version_bytes(versions, n - 1) + encode_utf8(versions[n - 1].0@) + seq![0u8] + be_bytes(
            versions[n - 1].1,
        )
    }
}

/// The last version that was read for each of the first `n` types.
pub open spec fn version_map(versions: Seq<(String, u64)>, n: int) -> Map<Seq<char>, u64>
    decreases n,
{
    if n <= 0 {
        Map::empty()
    } else {
        version_map(versions, n - 1).insert(versions[n - 1].0@, versions[n - 1].1)
    }
}

/// The generation of a task's publications; zero where the task has no earlier
/// schema.
pub fn scoped_generation(write_version: Option<u64>) -> (r: PublicationGenerationV1)
    ensures
        r.wf(),
        r@ == (GenerationModel {
            token: "scoped:"@ + decimal(
                match write_version {
                    Some(n) => n as nat,
                    None => 0,
                },
            ),
            scoped_write_version: Some(
                match write_version {
                    Some(n) => n,
                    None => 0,
                },
            ),
            unscoped_write_versions: Map::empty(),
        }),
{
    let version: u64 = match write_version {
        Some(n) => n,
        None => 0,
    };
    let mut token = "scoped:".to_owned();
    token.append(decimal_of(version).as_str());
    PublicationGenerationV1 {
        token,
        scoped_write_version: Some(version),
        unscoped_write_versions: OrdMap::new(),
    }
}

/// The generation of a tenant's publications, from the write version of each
/// migrated type.
pub fn global_generation(versions: &Vec<(String, u64)>) -> (r: PublicationGenerationV1)
    ensures
        r.wf(),
        r@ == (GenerationModel {
            token: "global-sha256:"@ + hex(
                sha256(version_bytes(versions@, versions@.len() as int)),
            ),
            scoped_write_version: None,
            unscoped_write_versions: version_map(versions@, versions@.len() as int),
        }),
{
    let mut bytes: Vec<u8> = Vec::new();
    let mut map: OrdMap<String, u64> = OrdMap::new();
    let mut i: usize = 0;
    proof {
        assert(bytes@ =~= version_bytes(versions@, 0));
    }
    while i < versions.len()
        invariant
            i <= versions.len(),
            map.wf(),
            bytes@ == version_bytes(versions@, i as int),
            map@ == version_map(versions@, i as int),
        decreases versions.len() - i,
    {
        push_text_bytes(&mut bytes, versions[i].0.as_str());
        let ghost before = bytes@;
        bytes.push(0);
        proof {
            assert(bytes@ =~= before + seq![0u8]);
        }
        push_be_bytes(&mut bytes, versions[i].1);
        map.insert(versions[i].0.clone(), versions[i].1);
        i = i + 1;
    }
    let mut token = "global-sha256:".to_owned();
    token.append(sha256_hex(bytes.as_slice()).as_str());
    PublicationGenerationV1 { token, scoped_write_version: None, unscoped_write_versions: map }
}

/// The answer to an advance that was made before, if it was.
pub open spec fn advance_replay(
    j: JobModel,
    idempotency_key: Seq<char>,
    request_digest: Seq<char>,
) -> Result<Option<ReceiptModel>, Seq<char>> {
    if !j.advance_operations.contains_key(idempotency_key) {
        Ok(None)
    } else if j.advance_operations[idempotency_key].0 != request_digest {
        Err("stream descriptor migration advance idempotency conflict"@)
    } else {
        Ok(Some(j.advance_operations[idempotency_key].1))
    }
}

/// Answers an advance that was made before with the receipt that it got.
pub fn replay_advance(job: &DurableJobV1, idempotency_key: &str, request_digest: &str) -> (r:
    Result<Option<StreamDescriptorMigrationReceiptV1>, String>)
    requires
        job.wf(),
    ensures
        match r {
            Ok(receipt) => advance_replay(job@, idempotency_key@, request_digest@) == Ok::<
                Option<ReceiptModel>,
                Seq<char>,
            >(opt_view(receipt)),
            Err(e) => advance_replay(job@, idempotency_key@, request_digest@) == Err::<
                Option<ReceiptModel>,
                Seq<char>,
            >(e@),
        },
{
    match job.advance_operations.get(&idempotency_key.to_owned()) {
        None => Ok(None),
        Some(replay) => if !same(replay.request_digest.as_str(), request_digest) {
            Err("stream descriptor migration advance idempotency conflict".to_owned())
        } else {
            Ok(Some(replay.receipt.copy()))
        },
    }
}

/// Why a job is not advanced: its journal is full, or its target changed.
pub open spec fn advance_refusal(
    j: JobModel,
    capability_digest: Result<Seq<char>, Seq<char>>,
    source: Option<Seq<char>>,
) -> Option<Seq<char>> {
    if j.committed_sequence >= JOB_EVENT_BUDGET {
        Some("stream descriptor migration operation budget is exhausted"@)
    } else {
        match capability_digest {
            Err(e) => Some(e),
            Ok(d) => if d != j.capability_digest || source != j.source_bundle_digest {
                Some("stream descriptor migration target changed after job creation"@)
            } else {
                None
            },
        }
    }
}

/// Checks that a job has room for one more advance and that its target is the
/// one that it was made for.
pub fn admit_advance(
    job: &DurableJobV1,
    capability_digest: &Result<String, String>,
    source_bundle_digest: Option<&str>,
) -> (r: Result<(), String>)
    ensures
        match r {
            Ok(_) => advance_refusal(job@, outcome(*capability_digest), opt_str(source_bundle_digest))
                is None,
            Err(e) => advance_refusal(
                job@,
                outcome(*capability_digest),
                opt_str(source_bundle_digest),
            ) == Some(e@),
        },
{
    if job.committed_sequence >= JOB_EVENT_BUDGET as u64 {
        return Err("stream descriptor migration operation budget is exhausted".to_owned());
    }
    match capability_digest {
        Err(e) => Err(e.clone()),
        Ok(d) => if *d != job.capability_digest || !same_opt(
            source_bundle_digest,
            opt_as_str(&job.source_bundle_digest),
        ) {
            Err("stream descriptor migration target changed after job creation".to_owned())
        } else {
            Ok(())
        },
    }
}

/// A job whose scan starts over at a generation.
pub open spec fn rescanned(j: JobModel, generation: GenerationModel) -> JobModel {
    JobModel {
        scan_generation: generation,
        capability_index: 0,
        after_entity_id: None,
        scan_complete: false,
        ..j
    }
}

/// A job at the start of a page. A completed job whose publications moved on is
/// opened again.
pub open spec fn page_begun(j: JobModel, generation: GenerationModel) -> JobModel {
    let cleared = JobModel { latest_page_outcomes: Seq::empty(), ..j };
    if j.completion_receipt_id is Some && j.completion_generation != Some(generation) {
        JobModel {
            completion_generation: None,
            completion_receipt_id: None,
            ..rescanned(cleared, generation)
        }
    } else {
        cleared
    }
}

/// Begins a page. `generation` is how far the publications have come; it is not
/// read where the job is not completed.
pub fn begin_page(job: &mut DurableJobV1, generation: &PublicationGenerationV1)
    requires
        old(job).wf(),
        generation.wf(),
    ensures
        final(job).wf(),
        final(job)@ == page_begun(old(job)@, generation@),
        sound(old(job)@) ==> sound(final(job)@),
{
    job.latest_page_outcomes = Vec::new();
    proof {
        assert(views(job.latest_page_outcomes@) =~= Seq::<(Seq<char>, Seq<char>)>::empty());
    }
    if job.completion_receipt_id.is_some() {
        let current = match &job.completion_generation {
            Some(g) => g.equals(generation),
            None => false,
        };
        if !current {
            job.scan_generation = generation.copy();
            job.capability_index = 0;
            job.after_entity_id = None;
            job.scan_complete = false;
            job.completion_generation = None;
            job.completion_receipt_id = None;
        }
    }
}

/// Whether a page may end its job: every type is scanned and no subject is
/// unresolved.
pub open spec fn may_complete(j: JobModel) -> bool {
    j.scan_complete && j.unresolved.dom().len() == 0
}

/// Whether a page may end its job.
pub fn job_may_complete(job: &DurableJobV1) -> (r: bool)
    requires
        job.wf(),
    ensures
        r == may_complete(job@),
{
    job.scan_complete && job.unresolved.len() == 0
}

/// A job at the end of a page: complete where nothing was published since its
/// scan began, else scanned anew.
pub open spec fn page_ended(
    j: JobModel,
    generation: GenerationModel,
    evidence: Seq<u8>,
) -> JobModel {
    if !may_complete(j) {
        j
    } else if generation == j.scan_generation {
        JobModel {
            completion_generation: Some(generation),
            completion_receipt_id: Some(completion_id(evidence)),
            ..j
        }
    } else {
        rescanned(j, generation)
    }
}

/// Ends a page. `generation` and `evidence` are not read where the job may not
/// complete; `evidence` is the encoding of the completion's evidence.
pub fn end_page(
    job: &mut DurableJobV1,
    generation: &PublicationGenerationV1,
    evidence: &Result<Vec<u8>, String>,
) -> (r: Result<(), String>)
    requires
        old(job).wf(),
        generation.wf(),
    ensures
        final(job).wf(),
        match r {
            Ok(_) => final(job)@ == page_ended(
                old(job)@,
                generation@,
                match *evidence {
                    Ok(b) => b@,
                    Err(_) => Seq::empty(),
                },
            ),
            Err(e) => may_complete(old(job)@) && generation@ == old(job)@.scan_generation
                && evidence is Err && e@ == evidence->Err_0@ && *final(job) == *old(job),
        },
        may_complete(old(job)@) && generation@ == old(job)@.scan_generation && evidence is Err
            ==> r is Err,
        sound(old(job)@) ==> sound(final(job)@),
{
    if !job_may_complete(job) {
        return Ok(());
    }
    if generation.equals(&job.scan_generation) {
        match evidence {
            Ok(bytes) => {
                job.completion_generation = Some(generation.copy());
                job.completion_receipt_id = Some(completion_id_of(bytes));
            },
            Err(e) => return Err(e.clone()),
        }
    } else {
        job.scan_generation = generation.copy();
        job.capability_index = 0;
        job.after_entity_id = None;
        job.scan_complete = false;
    }
    Ok(())
}

/// A page that completes a job leaves none of its subjects unresolved, and
/// covers every publication up to the generation that it records.
pub proof fn completion_means_nothing_is_left(
    j: JobModel,
    generation: GenerationModel,
    evidence: Seq<u8>,
)
    requires
        j.completion_receipt_id is None,
        page_ended(j, generation, evidence).completion_receipt_id is Some,
    ensures
        ({
            let done = page_ended(j, generation, evidence);
            &&& done.scan_complete
            &&& done.unresolved.dom().len() == 0
            &&& done.completion_generation == Some(done.scan_generation)
            &&& done.scan_generation == generation
        }),
{
}

/// The evidence by which a page completes a job is that of the job as the page
/// leaves it, with the generation that it records.
pub proof fn a_completion_is_evidence_of_its_job(
    tenant: Seq<char>,
    j: JobModel,
    generation: GenerationModel,
    evidence: Seq<u8>,
)
    requires
        may_complete(j),
        generation == j.scan_generation,
    ensures
        evidence_of(tenant, page_ended(j, generation, evidence)) == evidence_of(
            tenant,
            JobModel { completion_generation: Some(generation), ..j },
        ),
        page_ended(j, generation, evidence).completion_receipt_id == Some(completion_id(evidence)),
{
}

/// The evidence by which a job is complete when it starts is that of the job as
/// it is started.
pub proof fn a_start_is_evidence_of_its_job(
    tenant: Seq<char>,
    q: StartStreamDescriptorMigrationRequestV1,
    request_digest: Seq<char>,
    id: Seq<char>,
    capability_digest: Seq<char>,
    source: Option<Seq<char>>,
    generation: GenerationModel,
    evidence: Seq<u8>,
)
    ensures
        ({
            let j = started(
                fresh_job(
                    q,
                    request_digest,
                    id,
                    capability_digest,
                    Seq::empty(),
                    source,
                    generation,
                    evidence,
                ),
                q.request_id@,
            );
            &&& j.completion_receipt_id == Some(completion_id(evidence))
            &&& evidence_of(tenant, j) == (EvidenceModel {
                tenant,
                target: q.target@,
                capability_digest,
                descriptor_contract_version: 1,
                source_bundle_digest: source,
                scanned_subjects: 0,
                migrated_subjects: 0,
                completion_generation: Some(generation),
            })
        }),
{
}

/// A job with the answer to an advance entered.
pub open spec fn advanced(
    j: JobModel,
    request_id: Seq<char>,
    idempotency_key: Seq<char>,
    request_digest: Seq<char>,
) -> JobModel {
    JobModel {
        advance_operations: j.advance_operations.insert(
            idempotency_key,
            (request_digest, receipt_at(j, request_id, (j.committed_sequence + 1) as u64)),
        ),
        ..j
    }
}

/// Enters the answer to an advance, which is the receipt at the next commit.
pub fn record_advance(
    job: &mut DurableJobV1,
    request_id: String,
    idempotency_key: String,
    request_digest: String,
) -> (r: Result<StreamDescriptorMigrationReceiptV1, String>)
    requires
        old(job).wf(),
    ensures
        final(job).wf(),
        match r {
            Ok(receipt) => {
                &&& old(job)@.committed_sequence < u64::MAX
                &&& final(job)@ == advanced(
                    old(job)@,
                    request_id@,
                    idempotency_key@,
                    request_digest@,
                )
                &&& receipt@ == receipt_at(
                    old(job)@,
                    request_id@,
                    (old(job)@.committed_sequence + 1) as u64,
                )
            },
            Err(e) => old(job)@.committed_sequence == u64::MAX && e@
                == "migration sequence overflowed"@ && *final(job) == *old(job),
        },
        sound(old(job)@) ==> sound(final(job)@),
{
    if job.committed_sequence == u64::MAX {
        return Err("migration sequence overflowed".to_owned());
    }
    let receipt = job_receipt_at(job, request_id, job.committed_sequence + 1);
    let entry = DurableAdvanceReplayV1 { request_digest, receipt: receipt.copy() };
    job.advance_operations.insert(idempotency_key, entry);
    Ok(receipt)
}

/// An advance that is sent again is answered with the receipt of the first one,
/// and one under the same key for another request is refused.
pub proof fn an_advance_is_answered_once(
    j: JobModel,
    request_id: Seq<char>,
    idempotency_key: Seq<char>,
    request_digest: Seq<char>,
    other_digest: Seq<char>,
)
    requires
        j.committed_sequence < u64::MAX,
    ensures
        advance_replay(
            advanced(j, request_id, idempotency_key, request_digest),
            idempotency_key,
            request_digest,
        ) == Ok::<Option<ReceiptModel>, Seq<char>>(
            Some(receipt_at(j, request_id, (j.committed_sequence + 1) as u64)),
        ),
        other_digest != request_digest ==> advance_replay(
            advanced(j, request_id, idempotency_key, request_digest),
            idempotency_key,
            other_digest,
        ) is Err,
{
}

/// Takes the next sequence for a commit, and gives the one that the journal is
/// expected to be at.
pub fn prepare_commit(job: &mut DurableJobV1) -> (r: Result<u64, String>)
    requires
        old(job).wf(),
    ensures
        final(job).wf(),
        match r {
            Ok(expected) => expected == old(job)@.committed_sequence && final(job)@ == (JobModel {
                committed_sequence: (old(job)@.committed_sequence + 1) as u64,
                ..old(job)@
            }) && old(job)@.committed_sequence < u64::MAX,
            Err(e) => old(job)@.committed_sequence == u64::MAX && e@
                == "migration sequence overflowed"@ && *final(job) == *old(job),
        },
{
    let expected: u64 = job.committed_sequence;
    if expected == u64::MAX {
        return Err("migration sequence overflowed".to_owned());
    }
    job.committed_sequence = expected + 1;
    Ok(expected)
}

/// Why a commit did not take place.
pub open spec fn commit_refusal(
    payload_bytes: usize,
    appended: Result<(), StoreFailure>,
) -> Option<Seq<char>> {
    if payload_bytes > JOB_PAYLOAD_BYTE_BUDGET {
        Some("stream descriptor migration job exceeded its payload byte budget"@)
    } else {
        match appended {
            Ok(_) => None,
            Err(f) => Some(failure_text(f)),
        }
    }
}

/// Ends a commit: one that did not take place gives its sequence back.
/// `appended` is how the append ended, and is not read where the stored job is
/// too large to be appended.
pub fn settle_commit(
    job: &mut DurableJobV1,
    expected: u64,
    payload_bytes: usize,
    appended: &Result<(), StoreFailure>,
) -> (r: Result<(), String>)
    requires
        old(job).wf(),
    ensures
        final(job).wf(),
        match r {
            Ok(_) => commit_refusal(payload_bytes, *appended) is None && *final(job) == *old(job),
            Err(e) => commit_refusal(payload_bytes, *appended) == Some(e@) && final(job)@ == (
            JobModel { committed_sequence: expected, ..old(job)@ }),
        },
{
    if payload_bytes > JOB_PAYLOAD_BYTE_BUDGET {
        job.committed_sequence = expected;
        return Err("stream descriptor migration job exceeded its payload byte budget".to_owned());
    }
    match appended {
        Ok(_) => Ok(()),
        Err(f) => {
            job.committed_sequence = expected;
            Err(persistence_error(f))
        },
    }
}

/// A target is migrated by exactly the capabilities that it declares and whose
/// contract is in force.
pub proof fn exactly_the_active_capabilities_are_taken(
    declared: &Vec<StreamCapability>,
    r: Vec<StreamCapability>,
    c: CapabilityModel,
)
    requires
        call_ensures(active_capabilities, (declared,), r),
    ensures
        views(r@).contains(c) <==> views(declared@).contains(c) && c.descriptor_contract_v1_active,
{
    filter_keeps_exactly(
        views(declared@),
        |c: CapabilityModel| c.descriptor_contract_v1_active,
        c,
    );
}

/// A start is admitted exactly where its identifiers are canonical, its budgets
/// are within bounds and its contract is the one that is supported; and its
/// target exactly where every active stream has provenance and the digest is the
/// one that was asked for.
pub proof fn a_start_is_admitted_on_its_target(
    request: &StartStreamDescriptorMigrationRequestV1,
    r: Result<(), String>,
    streams: &Vec<StreamCapability>,
    digest: &Result<String, String>,
    expected: &str,
    taken: Result<(), String>,
)
    requires
        call_ensures(admit_start, (request,), r),
        call_ensures(admit_capabilities, (streams, digest, expected), taken),
    ensures
        r is Ok <==> {
            &&& canonical_id(request.request_id@)
            &&& canonical_id(request.idempotency_key@)
            &&& budgets_supported(request.budgets)
            &&& request.descriptor_contract_version == 1
        },
        taken is Ok <==> {
            &&& forall|i: int|
                0 <= i < streams@.len() ==> (#[trigger] streams@[i]).migration_provenance is Some
            &&& *digest is Ok
            &&& digest->Ok_0@ == expected@
        },
{
    let all = views(streams@);
    assert(all.len() == streams@.len());
    if lacks_provenance(all) {
        let i = choose|i: int|
            0 <= i < all.len() && (#[trigger] all[i]).migration_provenance is None;
        assert(all[i] == streams@[i]@);
        assert(streams@[i].migration_provenance is None);
    } else {
        assert forall|i: int| 0 <= i < streams@.len() implies (
        #[trigger] streams@[i]).migration_provenance is Some by {
            assert(all[i] == streams@[i]@);
            assert(all[i].migration_provenance is Some);
        }
    }
}

/// A new job has scanned, migrated and left nothing, belongs to its request and
/// its target, and is complete exactly where the target has no active stream.
pub proof fn a_new_job_begins_at_the_beginning(
    request: StartStreamDescriptorMigrationRequestV1,
    request_digest: String,
    job_id: String,
    capability_digest: String,
    streams: Vec<StreamCapability>,
    source: Option<String>,
    generation: PublicationGenerationV1,
    evidence: &Result<Vec<u8>, String>,
    r: Result<StartedMigration, String>,
)
    requires
        generation.wf(),
        call_ensures(
            start_job,
            (
                request,
                request_digest,
                job_id,
                capability_digest,
                streams,
                source,
                generation,
                evidence,
            ),
            r,
        ),
    ensures
        r is Err <==> streams@.len() == 0 && *evidence is Err,
        r is Ok ==> {
            let j = r->Ok_0.job@;
            &&& j.job_id == job_id@
            &&& j.target == request.target@
            &&& j.request_digest == request_digest@
            &&& j.idempotency_key == request.idempotency_key@
            &&& j.accepted_request_id == request.request_id@
            &&& j.capability_digest == capability_digest@
            &&& j.capabilities == views(streams@)
            &&& j.source_bundle_digest == opt_text(source)
            &&& j.budgets == request.budgets
            &&& j.scan_generation == generation@
            &&& j.scanned_subjects == 0
            &&& j.migrated_subjects == 0
            &&& j.capability_index == 0
            &&& j.after_entity_id is None
            &&& j.committed_sequence == 0
            &&& j.unresolved.dom().len() == 0
            &&& j.scan_complete <==> streams@.len() == 0
            &&& j.completion_receipt_id is Some <==> streams@.len() == 0
            &&& j.completion_receipt_id is Some ==> j.completion_generation == Some(generation@)
                && j.completion_receipt_id->0 == "sdm-complete:"@ + hex(
                sha256(evidence->Ok_0@),
            )
            &&& j.start_receipt == Some(r->Ok_0.receipt@)
            &&& r->Ok_0.receipt@.request_id == request.request_id@
            &&& r->Ok_0.receipt@.job_id == job_id@
            &&& r->Ok_0.receipt@.committed_sequence == 1
        },
{
    assert(views(streams@).len() == streams@.len());
    assert(Map::<Seq<char>, Seq<char>>::empty().dom() =~= Set::<Seq<char>>::empty());
}

/// A page begins with nothing to tell. A completed job keeps its completion as
/// long as nothing was published since; else it forgets it and is scanned from
/// the beginning. What was resolved and what was not stays.
pub proof fn a_publication_undoes_a_completion()
    ensures
        forall|job: &mut DurableJobV1, generation: &PublicationGenerationV1, r: ()|
            job.wf() && generation.wf() && #[trigger] call_ensures(
                begin_page,
                (job, generation),
                r,
            ) ==> {
                let before = job@;
                let after = final(job)@;
                let published = before.completion_receipt_id is Some
                    && before.completion_generation != Some(generation@);
                &&& after.latest_page_outcomes.len() == 0
                &&& after.unresolved == before.unresolved
                &&& after.resolved == before.resolved
                &&& after.scanned_subjects == before.scanned_subjects
                &&& after.migrated_subjects == before.migrated_subjects
                &&& published ==> after.completion_receipt_id is None
                    && after.completion_generation is None && !after.scan_complete
                    && after.capability_index == 0 && after.after_entity_id is None
                    && after.scan_generation == generation@
                &&& !published ==> after.completion_receipt_id == before.completion_receipt_id
                    && after.scan_complete == before.scan_complete && after.capability_index
                    == before.capability_index && after.after_entity_id == before.after_entity_id
                    && after.scan_generation == before.scan_generation
            },
{
}

/// A page completes its job exactly where every type is scanned, nothing is
/// unresolved and nothing was published since the scan began. Where something
/// was published the scan begins anew; else the job goes on as it is.
pub proof fn a_job_completes_when_nothing_is_left()
    ensures
        forall|
            job: &mut DurableJobV1,
            generation: &PublicationGenerationV1,
            evidence: &Result<Vec<u8>, String>,
            r: Result<(), String>,
        |
            job.wf() && generation.wf() && #[trigger] call_ensures(
                end_page,
                (job, generation, evidence),
                r,
            ) ==> {
                let before = job@;
                let after = final(job)@;
                let done = before.scan_complete && before.unresolved.dom().len() == 0;
                let still = generation@ == before.scan_generation;
                &&& r is Err <==> done && still && *evidence is Err
                &&& !done ==> after == before
                &&& done && still && r is Ok ==> {
                    &&& after.completion_generation == Some(generation@)
                    &&& after.completion_receipt_id == Some(
                        "sdm-complete:"@ + hex(sha256(evidence->Ok_0@)),
                    )
                    &&& after.scan_complete
                }
                &&& done && !still ==> {
                    &&& !after.scan_complete
                    &&& after.capability_index == 0
                    &&& after.after_entity_id is None
                    &&& after.scan_generation == generation@
                    &&& after.completion_receipt_id == before.completion_receipt_id
                }
                &&& after.unresolved == before.unresolved
                &&& after.resolved == before.resolved
                &&& after.scanned_subjects == before.scanned_subjects
                &&& after.migrated_subjects == before.migrated_subjects
            },
{
}

/// A commit that fails leaves the job at the sequence that it was at, and one
/// that is taken moves it on by one: the journal is asked for the sequence that
/// the job was at.
pub proof fn a_failed_commit_is_undone()
    ensures
        forall|job: &mut DurableJobV1, r: Result<u64, String>|
            job.wf() && #[trigger] call_ensures(prepare_commit, (job,), r) && r is Ok ==> {
                &&& r->Ok_0 == job@.committed_sequence
                &&& final(job)@.committed_sequence == job@.committed_sequence + 1
                &&& final(job)@ == (JobModel {
                    committed_sequence: final(job)@.committed_sequence,
                    ..job@
                })
            },
        forall|
            job: &mut DurableJobV1,
            expected: u64,
            payload_bytes: usize,
            appended: &Result<(), StoreFailure>,
            r: Result<(), String>,
        |
            job.wf() && #[trigger] call_ensures(
                settle_commit,
                (job, expected, payload_bytes, appended),
                r,
            ) ==> {
                &&& r is Ok <==> payload_bytes <= JOB_PAYLOAD_BYTE_BUDGET && *appended is Ok
                &&& r is Ok ==> final(job)@ == job@
                &&& r is Err ==> final(job)@ == (JobModel { committed_sequence: expected, ..job@ })
            },
{
}

/// An advance goes on only on the target that its job was made for, within the
/// budget of its journal.
pub proof fn an_advance_keeps_to_its_target(
    job: &DurableJobV1,
    digest: &Result<String, String>,
    source: Option<&str>,
    r: Result<(), String>,
)
    requires
        call_ensures(admit_advance, (job, digest, source), r),
    ensures
        r is Ok <==> {
            &&& job@.committed_sequence < JOB_EVENT_BUDGET
            &&& *digest is Ok
            &&& digest->Ok_0@ == job@.capability_digest
            &&& opt_str(source) == job@.source_bundle_digest
        },
{
}

/// An advance under a key that was not used is carried out. One under a key that
/// was used is answered with its receipt if it is for the same request, and is
/// refused otherwise.
pub proof fn a_used_key_answers_its_own_request(
    job: &DurableJobV1,
    key: &str,
    digest: &str,
    r: Result<Option<StreamDescriptorMigrationReceiptV1>, String>,
)
    requires
        job.wf(),
        call_ensures(replay_advance, (job, key, digest), r),
    ensures
        !job@.advance_operations.contains_key(key@) ==> r is Ok && r->Ok_0 is None,
        job@.advance_operations.contains_key(key@) && job@.advance_operations[key@].0 == digest@
            ==> r is Ok && r->Ok_0 is Some && r->Ok_0->0@ == job@.advance_operations[key@].1,
        job@.advance_operations.contains_key(key@) && job@.advance_operations[key@].0 != digest@
            ==> r is Err,
{
}

} // verus!
