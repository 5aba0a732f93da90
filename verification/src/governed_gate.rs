//! Reading a governed migration: its stored job, the page of what is
//! unresolved, the staged target of an application, and the barrier that only a
//! completed migration opens.

use vstd::prelude::*;
use vstd::string::*;
use vstd::utf8::encode_utf8;

use crate::digest::content_digest;
use crate::governed_job::json_pair;
use crate::governed_job::parse_unresolved_subject_key;
use crate::governed_job::subject_digest;
use crate::governed_job::subject_digest_of;
use crate::governed_job::subject_of_key;
use crate::governed_job::DurableJobV1;
use crate::governed_job::JobModel;
use crate::governed_types::canonical_id;
use crate::governed_types::digest_text;
use crate::governed_types::validate_job_id;
use crate::governed_types::validate_operation_id;
use crate::governed_types::GenerationModel;
use crate::governed_types::PublicationGenerationV1;
use crate::governed_types::StreamDescriptorMigrationTargetV1;
use crate::governed_types::TargetModel;
use crate::governed_types::JOB_EVENT_BUDGET;
use crate::governed_types::MAX_UNRESOLVED_PAGE;
use crate::ordered::OrdMap;
use crate::provenance::local_name;
use crate::provenance::local_type;
use crate::stream::CapabilityModel;
use crate::stream::StreamCapability;
use crate::text::decimal;
use crate::text::decimal_of;
use crate::text::decimal_reads_back;
use crate::text::decimals_are_all_digits;
use crate::text::has_prefix;
use crate::text::opt_as_str;
use crate::text::opt_str;
use crate::text::opt_text;
use crate::text::opt_view;
use crate::text::outcome;
use crate::text::parse_unsigned;
use crate::text::parse_unsigned_of;
use crate::text::same;
use crate::text::same_opt;
use crate::text::strip_prefix;
use crate::text::views;

verus! {

/// The type of the events that a job's journal holds.
pub open spec fn job_event() -> Seq<char> {
    "_TemperGovernedStreamDescriptorMigrationV1"@
}

/// The last event of a job's journal: its type, and the job that it decodes to.
#[derive(Debug, PartialEq, Eq)]
pub struct JobEvent {
    pub event_type: String,
    pub job: Result<DurableJobV1, String>,
}

/// Reads the stored job from its journal, of which `events_read` events were
/// read, up to one more than the budget.
pub fn load_governed_job(events_read: usize, last: Option<JobEvent>) -> (r: Result<
    Option<DurableJobV1>,
    String,
>)
    ensures
        match r {
            Ok(None) => events_read <= JOB_EVENT_BUDGET && last is None,
            Ok(Some(job)) => events_read <= JOB_EVENT_BUDGET && last is Some
                && last->0.event_type@ == job_event() && last->0.job is Ok && job
                == last->0.job->Ok_0,
            Err(e) => if events_read > JOB_EVENT_BUDGET {
                e@ == "stream descriptor migration job exceeded its event budget"@
            } else {
                last is Some && if last->0.event_type@ != job_event() {
                    e@ == "stream descriptor migration journal is invalid"@
                } else {
                    last->0.job is Err && e@ == "stream descriptor migration job is invalid: "@
                        + last->0.job->Err_0@
                }
            },
        },
{
    if events_read > JOB_EVENT_BUDGET {
        return Err("stream descriptor migration job exceeded its event budget".to_owned());
    }
    match last {
        None => Ok(None),
        Some(event) => {
            if !same(event.event_type.as_str(), "_TemperGovernedStreamDescriptorMigrationV1") {
                return Err("stream descriptor migration journal is invalid".to_owned());
            }
            match event.job {
                Ok(job) => Ok(Some(job)),
                Err(e) => {
                    let mut text = "stream descriptor migration job is invalid: ".to_owned();
                    text.append(e.as_str());
                    Err(text)
                },
            }
        },
    }
}

/// The offset that a cursor names.
pub open spec fn cursor_offset(cursor: Seq<char>) -> Option<nat> {
    if has_prefix(cursor, "unresolved:"@) {
        parse_unsigned(cursor.skip("unresolved:"@.len() as int), usize::MAX as nat)
    } else {
        None
    }
}

/// The offset that a cursor names.
pub fn parse_unresolved_cursor(value: &str) -> (r: Result<usize, String>)
    ensures
        match r {
            Ok(n) => cursor_offset(value@) == Some(n as nat),
            Err(e) => cursor_offset(value@) is None && e@ == "invalid unresolved cursor"@,
        },
{
    match strip_prefix(value, "unresolved:") {
        None => Err("invalid unresolved cursor".to_owned()),
        Some(rest) => match parse_unsigned_of(rest.as_str(), usize::MAX as u64) {
            Some(n) => Ok(n as usize),
            None => Err("invalid unresolved cursor".to_owned()),
        },
    }
}

/// One unresolved subject, shown by its digest.
#[derive(Clone, Debug, PartialEq, Eq)]
pub struct UnresolvedStreamDescriptorV1 {
    pub subject_digest: String,
    pub classification: String,
}

impl View for UnresolvedStreamDescriptorV1 {
    type V = (Seq<char>, Seq<char>);

    open spec fn view(&self) -> (Seq<char>, Seq<char>) {
        (self.subject_digest@, self.classification@)
    }
}

/// A page of unresolved subjects and the cursor of the next one.
#[derive(Clone, Debug, PartialEq, Eq)]
pub struct UnresolvedPage {
    pub entries: Vec<UnresolvedStreamDescriptorV1>,
    pub next: Option<String>,
}

/// The unresolved subjects with the keys from `from` up to `to`, or why one of
/// the keys names none.
pub open spec fn unresolved_entries(
    keys: Seq<Seq<char>>,
    reasons: Map<Seq<char>, Seq<char>>,
    from: int,
    to: int,
) -> Result<Seq<(Seq<char>, Seq<char>)>, Seq<char>>
    decreases to - from,
{
    if to <= from {
        Ok(Seq::empty())
    } else {
        match unresolved_entries(keys, reasons, from, to - 1) {
            Err(e) => Err(e),
            Ok(done) => match subject_of_key(keys[to - 1]) {
                Err(e) => Err(e),
                Ok(s) => Ok(done.push((subject_digest(s.0, s.1), reasons[keys[to - 1]]))),
            },
        }
    }
}

proof fn entries_error_stays(
    keys: Seq<Seq<char>>,
    reasons: Map<Seq<char>, Seq<char>>,
    from: int,
    n: int,
    m: int,
)
    requires
        from <= n <= m,
        unresolved_entries(keys, reasons, from, n) is Err,
    ensures
        unresolved_entries(keys, reasons, from, m) == unresolved_entries(keys, reasons, from, n),
    decreases m - n,
{
    if n < m {
        entries_error_stays(keys, reasons, from, n, m - 1);
    }
}

/// Where a page that starts at `offset` ends.
pub open spec fn page_end(offset: int, limit: int, len: int) -> int {
    if offset >= len {
        offset
    } else if offset + limit < len {
        offset + limit
    } else {
        len
    }
}

/// A page of what is unresolved: its entries, and the cursor behind them where
/// more follow.
pub open spec fn unresolved_view(
    keys: Seq<Seq<char>>,
    reasons: Map<Seq<char>, Seq<char>>,
    after: Option<Seq<char>>,
    limit: u32,
) -> Result<(Seq<(Seq<char>, Seq<char>)>, Option<Seq<char>>), Seq<char>> {
    if limit == 0 || limit > MAX_UNRESOLVED_PAGE {
        Err("unresolved page limit is outside the supported budget"@)
    } else if after is Some && cursor_offset(after->0) is None {
        Err("invalid unresolved cursor"@)
    } else {
        let offset = if after is Some {
            cursor_offset(after->0)->0 as int
        } else {
            0
        };
        let end = page_end(offset, limit as int, keys.len() as int);
        match unresolved_entries(keys, reasons, offset, end) {
            Err(e) => Err(e),
            Ok(entries) => Ok(
                (
                    entries,
                    if end < keys.len() {
                        Some("unresolved:"@ + decimal(end as nat))
                    } else {
                        None
                    },
                ),
            ),
        }
    }
}

/// Reads a page of what is unresolved in a job.
pub fn list_unresolved(job: &DurableJobV1, after: Option<&str>, limit: u32) -> (r: Result<
    UnresolvedPage,
    String,
>)
    requires
        job.wf(),
    ensures
        ({
            let expected = unresolved_view(
                job.unresolved.list(),
                job.unresolved@,
                opt_str(after),
                limit,
            );
            match r {
                Ok(page) => expected is Ok && expected->Ok_0.0 == views(page.entries@)
                    && expected->Ok_0.1 == opt_text(page.next),
                Err(e) => expected is Err && expected->Err_0 == e@,
            }
        }),
{
    if limit == 0 || limit > MAX_UNRESOLVED_PAGE {
        return Err("unresolved page limit is outside the supported budget".to_owned());
    }
    let offset: usize = match after {
        None => 0,
        Some(cursor) => match parse_unresolved_cursor(cursor) {
            Ok(n) => n,
            Err(e) => return Err(e),
        },
    };
    let ghost keys = job.unresolved.list();
    let ghost reasons = job.unresolved@;
    let len: usize = job.unresolved.len();
    let end: usize = if offset >= len {
        offset
    } else if (limit as usize) < len - offset {
        offset + limit as usize
    } else {
        len
    };
    let mut entries: Vec<UnresolvedStreamDescriptorV1> = Vec::new();
    let mut i: usize = offset;
    proof {
        assert(views(entries@) =~= Seq::<(Seq<char>, Seq<char>)>::empty());
    }
    while i < end
        invariant
            offset <= i <= end,
            1 <= limit <= MAX_UNRESOLVED_PAGE,
            after is Some ==> cursor_offset(after->0@) == Some(offset as nat),
            after is None ==> offset == 0,
            end == page_end(offset as int, limit as int, len as int),
            len == keys.len(),
            job.wf(),
            keys == job.unresolved.list(),
            reasons == job.unresolved@,
            unresolved_entries(keys, reasons, offset as int, i as int) == Ok::<
                Seq<(Seq<char>, Seq<char>)>,
                Seq<char>,
            >(views(entries@)),
        decreases end - i,
    {
        match parse_unresolved_subject_key(job.unresolved.key_at(i).as_str()) {
            Ok(subject) => {
                let ghost before = views(entries@);
                let entry = UnresolvedStreamDescriptorV1 {
                    subject_digest: subject_digest_of(
                        subject.first.as_str(),
                        subject.second.as_str(),
                    ),
                    classification: job.unresolved.value_at(i).clone(),
                };
                let ghost shown = entry@;
                entries.push(entry);
                proof {
                    assert(views(entries@) =~= before.push(shown));
                }
            },
            Err(e) => {
                proof {
                    entries_error_stays(keys, reasons, offset as int, i + 1, end as int);
                }
                return Err(e);
            },
        }
        i = i + 1;
    }
    let next = if end < len {
        let mut text = "unresolved:".to_owned();
        text.append(decimal_of(end as u64).as_str());
        Some(text)
    } else {
        None
    };
    Ok(UnresolvedPage { entries, next })
}

/// A page of unresolved subjects, as it answers a request.
#[derive(Clone, Debug, PartialEq, Eq)]
pub struct UnresolvedStreamDescriptorPageV1 {
    pub request_id: String,
    pub job_id: String,
    pub entries: Vec<UnresolvedStreamDescriptorV1>,
    pub next: Option<String>,
}

/// A page of what is unresolved in a stored job, or why it cannot be read: the
/// request is checked before the job is looked at.
pub open spec fn unresolved_answer(
    request_id: Seq<char>,
    id: Seq<char>,
    after: Option<Seq<char>>,
    limit: u32,
    job: Result<Option<DurableJobV1>, String>,
) -> Result<(Seq<(Seq<char>, Seq<char>)>, Option<Seq<char>>), Seq<char>> {
    if !canonical_id(request_id) {
        Err("request id"@ + " is not a bounded canonical identifier"@)
    } else if !digest_text(id, "sdm:"@) {
        Err("stream descriptor migration job id is invalid"@)
    } else if limit == 0 || limit > MAX_UNRESOLVED_PAGE {
        Err("unresolved page limit is outside the supported budget"@)
    } else {
        match job {
            Err(e) => Err(e@),
            Ok(None) => Err("stream descriptor migration job was not found"@),
            Ok(Some(job)) => unresolved_view(
                job.unresolved.list(),
                job.unresolved@,
                after,
                limit,
            ),
        }
    }
}

/// Answers a request for a page of what is unresolved in a job.
pub fn list_governed_unresolved_stream_descriptors_v1(
    request_id: String,
    id: String,
    after: Option<&str>,
    limit: u32,
    job: &Result<Option<DurableJobV1>, String>,
) -> (r: Result<UnresolvedStreamDescriptorPageV1, String>)
    requires
        job is Ok && job->Ok_0 is Some ==> job->Ok_0->0.wf(),
    ensures
        ({
            let expected = unresolved_answer(request_id@, id@, opt_str(after), limit, *job);
            match r {
                Ok(page) => {
                    &&& page.request_id == request_id
                    &&& page.job_id == id
                    &&& expected is Ok
                    &&& expected->Ok_0.0 == views(page.entries@)
                    &&& expected->Ok_0.1 == opt_text(page.next)
                },
                Err(e) => expected is Err && expected->Err_0 == e@,
            }
        }),
{
    match validate_operation_id("request id", request_id.as_str()) {
        Ok(_) => {},
        Err(e) => return Err(e),
    }
    match validate_job_id(id.as_str()) {
        Ok(_) => {},
        Err(e) => return Err(e),
    }
    if limit == 0 || limit > MAX_UNRESOLVED_PAGE {
        return Err("unresolved page limit is outside the supported budget".to_owned());
    }
    match job {
        Err(e) => Err(e.clone()),
        Ok(None) => Err("stream descriptor migration job was not found".to_owned()),
        Ok(Some(job)) => match list_unresolved(job, after, limit) {
            Ok(page) => Ok(
                UnresolvedStreamDescriptorPageV1 {
                    request_id,
                    job_id: id,
                    entries: page.entries,
                    next: page.next,
                },
            ),
            Err(e) => Err(e),
        },
    }
}

/// A publication that an installed application's fence allows.
#[derive(Clone, Debug, PartialEq, Eq)]
pub struct UnscopedStreamPublicationBinding {
    pub publication_action: String,
    pub capability_digest: String,
    pub expected_write_version: u64,
}

impl View for UnscopedStreamPublicationBinding {
    type V = (Seq<char>, Seq<char>, u64);

    open spec fn view(&self) -> (Seq<char>, Seq<char>, u64) {
        (self.publication_action@, self.capability_digest@, self.expected_write_version)
    }
}

/// What the activation of a migrated target is fenced by.
#[allow(inconsistent_fields)]
#[derive(Clone, Debug, PartialEq, Eq)]
pub enum StreamPublicationFence {
    TaskScoped {
        source_bundle_digest: String,
        expected_write_version: u64,
        bindings: OrdMap<String, String>,
    },
    InstalledApplication {
        application_id: String,
        semantic_digest: String,
        bindings: OrdMap<String, UnscopedStreamPublicationBinding>,
    },
}

/// What a fence holds.
#[allow(inconsistent_fields)]
pub enum FenceModel {
    TaskScoped {
        source_bundle_digest: Seq<char>,
        expected_write_version: u64,
        bindings: Map<Seq<char>, Seq<char>>,
    },
    InstalledApplication {
        application_id: Seq<char>,
        semantic_digest: Seq<char>,
        bindings: Map<Seq<char>, (Seq<char>, Seq<char>, u64)>,
    },
}

impl View for StreamPublicationFence {
    type V = FenceModel;

    open spec fn view(&self) -> FenceModel {
        match self {
            Self::TaskScoped {
                source_bundle_digest,
                expected_write_version,
                bindings,
            } => FenceModel::TaskScoped {
                source_bundle_digest: source_bundle_digest@,
                expected_write_version: *expected_write_version,
                bindings: bindings@,
            },
            Self::InstalledApplication {
                application_id,
                semantic_digest,
                bindings,
            } => FenceModel::InstalledApplication {
                application_id: application_id@,
                semantic_digest: semantic_digest@,
                bindings: bindings@,
            },
        }
    }
}

/// Whether the receipt that a caller shows is that of the job's completion. For
/// an application the caller may show none.
pub open spec fn receipt_matches(
    target: TargetModel,
    completion: Option<Seq<char>>,
    shown: Option<Seq<char>>,
) -> bool {
    match target {
        TargetModel::TaskBundle { .. } => completion == shown,
        TargetModel::InstalledApplication { .. } => match shown {
            None => completion is Some,
            Some(receipt) => completion == Some(receipt),
        },
    }
}

/// Whether a job is exact and current evidence that nothing of its target is
/// left to migrate.
pub open spec fn gate_open(
    target: TargetModel,
    j: JobModel,
    shown: Option<Seq<char>>,
    capability_digest: Seq<char>,
    generation: GenerationModel,
) -> bool {
    &&& j.capability_digest == capability_digest
    &&& j.descriptor_contract_version == 1
    &&& j.scan_complete
    &&& j.unresolved.dom().len() == 0
    &&& receipt_matches(target, j.completion_receipt_id, shown)
    &&& j.completion_generation == Some(generation)
}

/// Checks that a job is exact and current evidence that nothing of its target
/// is left to migrate.
pub fn is_gate_open(
    target: &StreamDescriptorMigrationTargetV1,
    job: &DurableJobV1,
    receipt_id: Option<&str>,
    capability_digest: &str,
    generation: &PublicationGenerationV1,
) -> (r: bool)
    requires
        job.wf(),
        generation.wf(),
    ensures
        r == gate_open(target@, job@, opt_str(receipt_id), capability_digest@, generation@),
{
    let matches_receipt = match target {
        StreamDescriptorMigrationTargetV1::TaskBundle { .. } => same_opt(
            opt_as_str(&job.completion_receipt_id),
            receipt_id,
        ),
        StreamDescriptorMigrationTargetV1::InstalledApplication { .. } => match receipt_id {
            None => job.completion_receipt_id.is_some(),
            Some(_) => same_opt(opt_as_str(&job.completion_receipt_id), receipt_id),
        },
    };
    let current = match &job.completion_generation {
        Some(g) => g.equals(generation),
        None => false,
    };
    same(job.capability_digest.as_str(), capability_digest) && job.descriptor_contract_version == 1
        && job.scan_complete && job.unresolved.len() == 0 && matches_receipt && current
}

/// The publication of each of the first `n` types.
pub open spec fn task_bindings(active: Seq<CapabilityModel>, n: int) -> Result<
    Map<Seq<char>, Seq<char>>,
    Seq<char>,
>
    decreases n,
{
    if n <= 0 {
        Ok(Map::empty())
    } else {
        match task_bindings(active, n - 1) {
            Err(e) => Err(e),
            Ok(done) => match active[n - 1].migration_provenance {
                None => Err("task stream provenance is absent"@),
                Some(p) => Ok(
                    done.insert(local_name(active[n - 1].subject_type), p.publication_action),
                ),
            },
        }
    }
}

proof fn task_error_stays(active: Seq<CapabilityModel>, n: int, m: int)
    requires
        0 <= n <= m,
        task_bindings(active, n) is Err,
    ensures
        task_bindings(active, m) == task_bindings(active, n),
    decreases m - n,
{
    if n < m {
        task_error_stays(active, n, m - 1);
    }
}

fn task_bindings_of(active: &Vec<StreamCapability>) -> (r: Result<OrdMap<String, String>, String>)
    ensures
        outcome(r) == task_bindings(views(active@), active@.len() as int),
        r is Ok ==> r->Ok_0.wf(),
{
    let ghost all = views(active@);
    let mut map: OrdMap<String, String> = OrdMap::new();
    let mut i: usize = 0;
    while i < active.len()
        invariant
            i <= active.len(),
            all == views(active@),
            map.wf(),
            task_bindings(all, i as int) == Ok::<Map<Seq<char>, Seq<char>>, Seq<char>>(map@),
        decreases active.len() - i,
    {
        proof {
            assert(all[i as int] == active@[i as int]@);
        }
        match &active[i].migration_provenance {
            None => {
                proof {
                    task_error_stays(all, i + 1, all.len() as int);
                }
                return Err("task stream provenance is absent".to_owned());
            },
            Some(p) => {
                map.insert(
                    local_type(active[i].subject_type.as_str()),
                    p.publication_action.clone(),
                );
            },
        }
        i = i + 1;
    }
    Ok(map)
}

/// The publication of each of the first `n` types of an application, with the
/// digest of its capability and the write version that its migration covers.
pub open spec fn application_bindings(
    active: Seq<CapabilityModel>,
    digests: Seq<Result<String, String>>,
    versions: Map<Seq<char>, u64>,
    n: int,
) -> Result<Map<Seq<char>, (Seq<char>, Seq<char>, u64)>, Seq<char>>
    decreases n,
{
    if n <= 0 {
        Ok(Map::empty())
    } else {
        match application_bindings(active, digests, versions, n - 1) {
            Err(e) => Err(e),
            Ok(done) => {
                let name = local_name(active[n - 1].subject_type);
                match active[n - 1].migration_provenance {
                    None => Err("installed application stream provenance is absent"@),
                    Some(p) => if !versions.contains_key(name) {
                        Err("stream descriptor migration generation is invalid"@)
                    } else {
                        match digests[n - 1] {
                            Err(e) => Err(e@),
                            Ok(d) => Ok(
                                done.insert(name, (p.publication_action, d@, versions[name])),
                            ),
                        }
                    },
                }
            },
        }
    }
}

proof fn application_error_stays(
    active: Seq<CapabilityModel>,
    digests: Seq<Result<String, String>>,
    versions: Map<Seq<char>, u64>,
    n: int,
    m: int,
)
    requires
        0 <= n <= m,
        application_bindings(active, digests, versions, n) is Err,
    ensures
        application_bindings(active, digests, versions, m) == application_bindings(
            active,
            digests,
            versions,
            n,
        ),
    decreases m - n,
{
    if n < m {
        application_error_stays(active, digests, versions, n, m - 1);
    }
}

fn application_bindings_of(
    active: &Vec<StreamCapability>,
    digests: &Vec<Result<String, String>>,
    versions: &OrdMap<String, u64>,
) -> (r: Result<OrdMap<String, UnscopedStreamPublicationBinding>, String>)
    requires
        versions.wf(),
        digests.len() == active.len(),
    ensures
        outcome(r) == application_bindings(
            views(active@),
            digests@,
            versions@,
            active@.len() as int,
        ),
        r is Ok ==> r->Ok_0.wf(),
{
    let ghost all = views(active@);
    let mut map: OrdMap<String, UnscopedStreamPublicationBinding> = OrdMap::new();
    let mut i: usize = 0;
    while i < active.len()
        invariant
            i <= active.len(),
            digests.len() == active.len(),
            all == views(active@),
            versions.wf(),
            map.wf(),
            application_bindings(all, digests@, versions@, i as int) == Ok::<
                Map<Seq<char>, (Seq<char>, Seq<char>, u64)>,
                Seq<char>,
            >(map@),
        decreases active.len() - i,
    {
        proof {
            assert(all[i as int] == active@[i as int]@);
        }
        let name = local_type(active[i].subject_type.as_str());
        let provenance = match &active[i].migration_provenance {
            None => {
                proof {
                    application_error_stays(all, digests@, versions@, i + 1, all.len() as int);
                }
                return Err("installed application stream provenance is absent".to_owned());
            },
            Some(p) => p,
        };
        let expected_write_version: u64 = match versions.get(&name) {
            Some(v) => *v,
            None => {
                proof {
                    application_error_stays(all, digests@, versions@, i + 1, all.len() as int);
                }
                return Err("stream descriptor migration generation is invalid".to_owned());
            },
        };
        match &digests[i] {
            Err(e) => {
                proof {
                    application_error_stays(all, digests@, versions@, i + 1, all.len() as int);
                }
                return Err(e.clone());
            },
            Ok(d) => {
                let binding = UnscopedStreamPublicationBinding {
                    publication_action: provenance.publication_action.clone(),
                    capability_digest: d.clone(),
                    expected_write_version,
                };
                map.insert(name, binding);
            },
        }
        i = i + 1;
    }
    Ok(map)
}

/// The fence that the completed migration of a target activates it under: none
/// where nothing was to be migrated.
pub open spec fn fence(
    target: TargetModel,
    active: Seq<CapabilityModel>,
    digests: Seq<Result<String, String>>,
    j: JobModel,
) -> Result<Option<FenceModel>, Seq<char>> {
    match target {
        TargetModel::TaskBundle { .. } => match j.source_bundle_digest {
            None => Ok(None),
            Some(source_bundle_digest) => if j.completion_generation is None
                || j.completion_generation->0.scoped_write_version is None {
                Err("stream descriptor migration generation is invalid"@)
            } else {
                match task_bindings(active, active.len() as int) {
                    Err(e) => Err(e),
                    Ok(bindings) => Ok(
                        Some(
                            FenceModel::TaskScoped {
                                source_bundle_digest,
                                expected_write_version: j.completion_generation->0.scoped_write_version->0,
                                bindings,
                            },
                        ),
                    ),
                }
            },
        },
        TargetModel::InstalledApplication {
            application_id,
            semantic_digest,
        } => if j.completion_generation is None {
            Err("stream descriptor migration generation is invalid"@)
        } else {
            match application_bindings(
                active,
                digests,
                j.completion_generation->0.unscoped_write_versions,
                active.len() as int,
            ) {
                Err(e) => Err(e),
                Ok(bindings) => Ok(
                    Some(
                        FenceModel::InstalledApplication {
                            application_id,
                            semantic_digest,
                            bindings,
                        },
                    ),
                ),
            }
        },
    }
}

/// What the barrier of a target answers: no fence where the target has no active
/// streams, a refusal without exact and current evidence, else the fence.
pub open spec fn gate(
    target: TargetModel,
    active: Seq<CapabilityModel>,
    digests: Seq<Result<String, String>>,
    capability_digest: Seq<char>,
    job: Option<JobModel>,
    shown: Option<Seq<char>>,
    generation: GenerationModel,
) -> Result<Option<FenceModel>, Seq<char>> {
    if active.len() == 0 {
        Ok(None)
    } else {
        match job {
            None => Err("stream descriptor migration completion evidence is absent"@),
            Some(j) => if !gate_open(target, j, shown, capability_digest, generation) {
                Err("matching zero-unresolved stream descriptor migration evidence is required"@)
            } else {
                fence(target, active, digests, j)
            },
        }
    }
}

/// Answers whether a target may be activated. `capability_digest` is the digest
/// of its active capabilities, `digests` those of each of them, and
/// `generation` how far the publications have come.
pub fn require_stream_descriptor_completion_v1(
    target: &StreamDescriptorMigrationTargetV1,
    active: &Vec<StreamCapability>,
    digests: &Vec<Result<String, String>>,
    capability_digest: &str,
    job: &Option<DurableJobV1>,
    receipt_id: Option<&str>,
    generation: &PublicationGenerationV1,
) -> (r: Result<Option<StreamPublicationFence>, String>)
    requires
        digests.len() == active.len(),
        job is Some ==> job->0.wf(),
        generation.wf(),
    ensures
        ({
            let expected = gate(
                target@,
                views(active@),
                digests@,
                capability_digest@,
                opt_view(*job),
                opt_str(receipt_id),
                generation@,
            );
            match r {
                Ok(fence) => expected is Ok && expected->Ok_0 == opt_view(fence),
                Err(e) => expected is Err && expected->Err_0 == e@,
            }
        }),
{
    proof {
        assert(views(active@).len() == active@.len());
    }
    if active.len() == 0 {
        return Ok(None);
    }
    let job = match job {
        None => return Err(
            "stream descriptor migration completion evidence is absent".to_owned(),
        ),
        Some(job) => job,
    };
    if !is_gate_open(target, job, receipt_id, capability_digest, generation) {
        return Err(
            "matching zero-unresolved stream descriptor migration evidence is required".to_owned(),
        );
    }
    match target {
        StreamDescriptorMigrationTargetV1::TaskBundle { .. } => {
            let source_bundle_digest = match &job.source_bundle_digest {
                None => return Ok(None),
                Some(d) => d.clone(),
            };
            let expected_write_version: u64 = match &job.completion_generation {
                Some(g) => match g.scoped_write_version {
                    Some(v) => v,
                    None => return Err(
                        "stream descriptor migration generation is invalid".to_owned(),
                    ),
                },
                None => return Err(
                    "stream descriptor migration generation is invalid".to_owned(),
                ),
            };
            match task_bindings_of(active) {
                Ok(bindings) => Ok(
                    Some(
                        StreamPublicationFence::TaskScoped {
                            source_bundle_digest,
                            expected_write_version,
                            bindings,
                        },
                    ),
                ),
                Err(e) => Err(e),
            }
        },
        StreamDescriptorMigrationTargetV1::InstalledApplication {
            application_id,
            semantic_digest,
        } => {
            let versions = match &job.completion_generation {
                Some(g) => &g.unscoped_write_versions,
                None => return Err(
                    "stream descriptor migration generation is invalid".to_owned(),
                ),
            };
            match application_bindings_of(active, digests, versions) {
                Ok(bindings) => Ok(
                    Some(
                        StreamPublicationFence::InstalledApplication {
                            application_id: application_id.clone(),
                            semantic_digest: semantic_digest.clone(),
                            bindings,
                        },
                    ),
                ),
                Err(e) => Err(e),
            }
        },
    }
}

/// A target with active streams is fenced and activated only on a job that has
/// scanned everything, left nothing unresolved, and covers every publication
/// up to the present generation.
pub proof fn no_activation_without_completion(
    target: TargetModel,
    active: Seq<CapabilityModel>,
    digests: Seq<Result<String, String>>,
    capability_digest: Seq<char>,
    job: Option<JobModel>,
    shown: Option<Seq<char>>,
    generation: GenerationModel,
)
    requires
        active.len() > 0,
        gate(target, active, digests, capability_digest, job, shown, generation) is Ok,
    ensures
        job is Some,
        job->0.scan_complete,
        job->0.unresolved.dom().len() == 0,
        job->0.completion_generation == Some(generation),
        job->0.capability_digest == capability_digest,
        shown is Some ==> job->0.completion_receipt_id == shown,
{
}

/// Checks the scope that a task's migration is asked for.
pub fn validate_task_scope(kind: &str, id: &str) -> (r: Result<(), String>)
    ensures
        match r {
            Ok(_) => kind@ == "task"@ && id@.len() > 0,
            Err(e) => !(kind@ == "task"@ && id@.len() > 0) && e@
                == "stream descriptor migration requires a task scope"@,
        },
{
    if !same(kind, "task") || id.is_empty() {
        return Err("stream descriptor migration requires a task scope".to_owned());
    }
    Ok(())
}

/// The stream target that was staged for an application.
#[derive(Clone, Debug, PartialEq, Eq)]
pub struct StagedInstalledApplicationV1 {
    pub application_id: String,
    pub semantic_digest: String,
    pub capabilities: Vec<StreamCapability>,
}

/// What a staged target holds.
pub struct StagedModel {
    pub application_id: Seq<char>,
    pub semantic_digest: Seq<char>,
    pub capabilities: Seq<CapabilityModel>,
}

impl View for StagedInstalledApplicationV1 {
    type V = StagedModel;

    open spec fn view(&self) -> StagedModel {
        StagedModel {
            application_id: self.application_id@,
            semantic_digest: self.semantic_digest@,
            capabilities: views(self.capabilities@),
        }
    }
}

/// The capabilities of an application's target, from what was staged for it.
pub open spec fn staged_target(
    staged: Option<Result<StagedInstalledApplicationV1, String>>,
    application_id: Seq<char>,
    semantic_digest: Seq<char>,
) -> Result<Seq<CapabilityModel>, Seq<char>> {
    match staged {
        None => Err("installed application stream target was not staged"@),
        Some(Err(e)) => Err("staged application stream target is invalid: "@ + e@),
        Some(Ok(s)) => if s.semantic_digest@ != semantic_digest || s.application_id@
            != application_id {
            Err("installed application stream target differs from staged evidence"@)
        } else {
            Ok(views(s.capabilities@))
        },
    }
}

/// The capabilities of an application's target, from what was staged for it.
pub fn staged_capabilities(
    staged: Option<Result<StagedInstalledApplicationV1, String>>,
    application_id: &str,
    semantic_digest: &str,
) -> (r: Result<Vec<StreamCapability>, String>)
    ensures
        match r {
            Ok(v) => staged_target(staged, application_id@, semantic_digest@) == Ok::<
                Seq<CapabilityModel>,
                Seq<char>,
            >(views(v@)),
            Err(e) => staged_target(staged, application_id@, semantic_digest@) == Err::<
                Seq<CapabilityModel>,
                Seq<char>,
            >(e@),
        },
{
    match staged {
        None => Err("installed application stream target was not staged".to_owned()),
        Some(Err(e)) => {
            let mut text = "staged application stream target is invalid: ".to_owned();
            text.append(e.as_str());
            Err(text)
        },
        Some(Ok(s)) => if !same(s.semantic_digest.as_str(), semantic_digest) || !same(
            s.application_id.as_str(),
            application_id,
        ) {
            Err("installed application stream target differs from staged evidence".to_owned())
        } else {
            Ok(s.capabilities)
        },
    }
}

/// Whether two lists of capabilities are the same.
fn same_capabilities(a: &Vec<StreamCapability>, b: &Vec<StreamCapability>) -> (r: bool)
    ensures
        r == (views(a@) == views(b@)),
{
    proof {
        assert(views(a@).len() == a@.len());
        assert(views(b@).len() == b@.len());
    }
    if a.len() != b.len() {
        return false;
    }
    let mut i: usize = 0;
    while i < a.len()
        invariant
            i <= a.len(),
            a.len() == b.len(),
            forall|k: int| 0 <= k < i ==> (#[trigger] a@[k])@ == b@[k]@,
        decreases a.len() - i,
    {
        if !a[i].equals(&b[i]) {
            proof {
                assert(views(a@)[i as int] != views(b@)[i as int]);
            }
            return false;
        }
        i = i + 1;
    }
    proof {
        assert(views(a@) =~= views(b@));
    }
    true
}

/// What staging a target does to its journal: nothing where the last event
/// stages the same, else one event behind the last one.
pub open spec fn staging(
    prior: Option<(u64, Result<StagedModel, Seq<char>>)>,
    staged: StagedModel,
) -> Result<Option<u64>, Seq<char>> {
    match prior {
        None => Ok(Some(1)),
        Some((sequence, Err(e))) => Err("staged application stream target is invalid: "@ + e),
        Some((sequence, Ok(existing))) => if existing == staged {
            Ok(None)
        } else if sequence == u64::MAX {
            Err("staged application target sequence overflowed"@)
        } else {
            Ok(Some((sequence + 1) as u64))
        },
    }
}

/// What staging a target does to its journal, whose last event is `prior`: the
/// sequence of the event to append, if one is due.
pub fn stage_target(
    prior: &Option<(u64, Result<StagedInstalledApplicationV1, String>)>,
    staged: &StagedInstalledApplicationV1,
) -> (r: Result<Option<u64>, String>)
    ensures
        ({
            let last = match *prior {
                None => None,
                Some((n, e)) => Some((n, outcome(e))),
            };
            match r {
                Ok(n) => staging(last, staged@) == Ok::<Option<u64>, Seq<char>>(n),
                Err(e) => staging(last, staged@) == Err::<Option<u64>, Seq<char>>(e@),
            }
        }),
{
    match prior {
        None => Ok(Some(1)),
        Some((sequence, existing)) => match existing {
            Err(e) => {
                let mut text = "staged application stream target is invalid: ".to_owned();
                text.append(e.as_str());
                Err(text)
            },
            Ok(existing) => {
                if existing.application_id == staged.application_id && existing.semantic_digest
                    == staged.semantic_digest && same_capabilities(
                    &existing.capabilities,
                    &staged.capabilities,
                ) {
                    return Ok(None);
                }
                if *sequence == u64::MAX {
                    return Err("staged application target sequence overflowed".to_owned());
                }
                Ok(Some(*sequence + 1))
            },
        },
    }
}

/// Staging a target twice appends it once.
pub proof fn a_target_is_staged_once(
    prior: Option<(u64, Result<StagedModel, Seq<char>>)>,
    staged: StagedModel,
)
    requires
        staging(prior, staged) is Ok,
        staging(prior, staged)->Ok_0 is Some,
    ensures
        staging(Some((staging(prior, staged)->Ok_0->0, Ok(staged))), staged) == Ok::<
            Option<u64>,
            Seq<char>,
        >(None),
{
}

/// Whether the fence of an application binds a stream to its publication and its
/// capability, or why the digest of the capability cannot be made.
pub open spec fn binds_one(
    bindings: Map<Seq<char>, (Seq<char>, Seq<char>, u64)>,
    c: CapabilityModel,
    digest: Result<String, String>,
) -> Result<bool, Seq<char>> {
    let name = local_name(c.subject_type);
    match (c.migration_provenance, digest) {
        (None, _) => Ok(false),
        (_, Err(e)) => Err(e@),
        (Some(p), Ok(d)) => Ok(
            bindings.contains_key(name) && bindings[name].0 == p.publication_action
                && bindings[name].1 == d@,
        ),
    }
}

/// Whether the fence of an application binds each of the first `n` streams. The
/// first that it does not bind, or whose digest cannot be made, decides.
pub open spec fn binds_all(
    bindings: Map<Seq<char>, (Seq<char>, Seq<char>, u64)>,
    active: Seq<CapabilityModel>,
    digests: Seq<Result<String, String>>,
    n: int,
) -> Result<bool, Seq<char>>
    decreases n,
{
    if n <= 0 {
        Ok(true)
    } else {
        match binds_all(bindings, active, digests, n - 1) {
            Ok(true) => binds_one(bindings, active[n - 1], digests[n - 1]),
            other => other,
        }
    }
}

proof fn the_first_unbound_decides(
    bindings: Map<Seq<char>, (Seq<char>, Seq<char>, u64)>,
    active: Seq<CapabilityModel>,
    digests: Seq<Result<String, String>>,
    n: int,
    m: int,
)
    requires
        0 <= n <= m,
        binds_all(bindings, active, digests, n) != Ok::<bool, Seq<char>>(true),
    ensures
        binds_all(bindings, active, digests, m) == binds_all(bindings, active, digests, n),
    decreases m - n,
{
    if n < m {
        the_first_unbound_decides(bindings, active, digests, n, m - 1);
    }
}

/// Whether the fence in force is that of exactly this application's stream
/// contract, or why that cannot be told.
pub open spec fn contract_in_force(
    fence: Result<Option<FenceModel>, Seq<char>>,
    application_id: Seq<char>,
    semantic_digest: Seq<char>,
    active: Result<Seq<CapabilityModel>, Seq<char>>,
    digests: Seq<Result<String, String>>,
) -> Result<bool, Seq<char>> {
    match fence {
        Err(e) => Err(e),
        Ok(
            Some(
                FenceModel::InstalledApplication {
                    application_id: fenced_application,
                    semantic_digest: fenced_semantic,
                    bindings,
                },
            ),
        ) => if fenced_application != application_id || fenced_semantic != semantic_digest {
            Ok(false)
        } else {
            match active {
                Err(e) => Err(e),
                Ok(active) => if bindings.dom().len() != active.len() {
                    Ok(false)
                } else {
                    binds_all(bindings, active, digests, active.len() as int)
                },
            }
        },
        Ok(_) => Ok(false),
    }
}

/// What a fence that was read holds.
pub open spec fn fence_read(fence: Result<Option<StreamPublicationFence>, String>) -> Result<
    Option<FenceModel>,
    Seq<char>,
> {
    match fence {
        Ok(f) => Ok(opt_view(f)),
        Err(e) => Err(e@),
    }
}

/// What declared capabilities that were read hold.
pub open spec fn capabilities_read(active: Result<Vec<StreamCapability>, String>) -> Result<
    Seq<CapabilityModel>,
    Seq<char>,
> {
    match active {
        Ok(v) => Ok(views(v@)),
        Err(e) => Err(e@),
    }
}

/// Whether the fence in force is that of exactly this application's stream
/// contract. `active` are the active streams that the application declares, or
/// why they cannot be read; `digests` are those of their capabilities.
pub fn installed_application_stream_contract_activated_v1(
    fence: &Result<Option<StreamPublicationFence>, String>,
    application_id: &str,
    semantic_digest: &str,
    active: &Result<Vec<StreamCapability>, String>,
    digests: &Vec<Result<String, String>>,
) -> (r: Result<bool, String>)
    requires
        active is Ok ==> digests.len() == active->Ok_0@.len(),
        fence is Ok && fence->Ok_0 is Some && fence->Ok_0->0 is InstalledApplication
            ==> fence->Ok_0->0->InstalledApplication_bindings.wf(),
    ensures
        ({
            let expected = contract_in_force(
                fence_read(*fence),
                application_id@,
                semantic_digest@,
                capabilities_read(*active),
                digests@,
            );
            match r {
                Ok(held) => expected == Ok::<bool, Seq<char>>(held),
                Err(e) => expected == Err::<bool, Seq<char>>(e@),
            }
        }),
{
    let held = match fence {
        Err(e) => return Err(e.clone()),
        Ok(None) => return Ok(false),
        Ok(Some(held)) => held,
    };
    match held {
        StreamPublicationFence::InstalledApplication {
            application_id: fenced_application,
            semantic_digest: fenced_semantic,
            bindings,
        } => {
            if !same(fenced_application.as_str(), application_id) || !same(
                fenced_semantic.as_str(),
                semantic_digest,
            ) {
                return Ok(false);
            }
            let streams = match active {
                Err(e) => return Err(e.clone()),
                Ok(streams) => streams,
            };
            let ghost all = views(streams@);
            proof {
                assert(all.len() == streams@.len());
            }
            if bindings.len() != streams.len() {
                return Ok(false);
            }
            let mut i: usize = 0;
            while i < streams.len()
                invariant
                    i <= streams.len(),
                    digests.len() == streams.len(),
                    bindings.wf(),
                    all == views(streams@),
                    all.len() == streams@.len(),
                    bindings@.dom().len() == all.len(),
                    fenced_application@ == application_id@,
                    fenced_semantic@ == semantic_digest@,
                    fence_read(*fence) == Ok::<Option<FenceModel>, Seq<char>>(Some(held@)),
                    capabilities_read(*active) == Ok::<Seq<CapabilityModel>, Seq<char>>(all),
                    held@ == (FenceModel::InstalledApplication {
                        application_id: fenced_application@,
                        semantic_digest: fenced_semantic@,
                        bindings: bindings@,
                    }),
                    binds_all(bindings@, all, digests@, i as int) == Ok::<bool, Seq<char>>(true),
                decreases streams.len() - i,
            {
                proof {
                    assert(all[i as int] == streams@[i as int]@);
                    if binds_all(bindings@, all, digests@, i + 1) != Ok::<bool, Seq<char>>(true) {
                        the_first_unbound_decides(
                            bindings@,
                            all,
                            digests@,
                            i + 1,
                            all.len() as int,
                        );
                    }
                }
                let provenance = match &streams[i].migration_provenance {
                    None => return Ok(false),
                    Some(p) => p,
                };
                let digest = match &digests[i] {
                    Err(e) => return Err(e.clone()),
                    Ok(d) => d,
                };
                let bound = match bindings.get(&local_type(streams[i].subject_type.as_str())) {
                    None => false,
                    Some(b) => b.publication_action == provenance.publication_action
                        && b.capability_digest == *digest,
                };
                if !bound {
                    return Ok(false);
                }
                i = i + 1;
            }
            Ok(true)
        },
        _ => Ok(false),
    }
}

/// Whether the target of an application is staged: it is named, and it has
/// active streams.
pub fn admit_stage(application_id: &str, semantic_digest: &str, active: usize) -> (r: Result<
    bool,
    String,
>)
    ensures
        match r {
            Ok(stages) => application_id@.len() > 0 && semantic_digest@.len() > 0 && stages == (
            active > 0),
            Err(e) => (application_id@.len() == 0 || semantic_digest@.len() == 0) && e@
                == "installed application migration target is invalid"@,
        },
{
    if application_id.is_empty() || semantic_digest.is_empty() {
        return Err("installed application migration target is invalid".to_owned());
    }
    Ok(active > 0)
}

/// The types that the fence of an application binds, in order: the journal is
/// asked for the write version of each. A fence of another kind is not one of an
/// application.
pub fn fenced_types(fence: &StreamPublicationFence) -> (r: Result<Vec<String>, String>)
    ensures
        match *fence {
            StreamPublicationFence::InstalledApplication { bindings, .. } => r is Ok
                && crate::ordered::key_views(r->Ok_0@) == bindings.list(),
            StreamPublicationFence::TaskScoped { .. } => r is Err && r->Err_0@
                == "installed application publication fence is invalid"@,
        },
{
    match fence {
        StreamPublicationFence::TaskScoped { .. } => Err(
            "installed application publication fence is invalid".to_owned(),
        ),
        StreamPublicationFence::InstalledApplication { bindings, .. } => {
            let mut out: Vec<String> = Vec::new();
            let mut i: usize = 0;
            while i < bindings.keys.len()
                invariant
                    i <= bindings.keys.len(),
                    out.len() == i,
                    forall|k: int| 0 <= k < i ==> (#[trigger] out@[k])@ == bindings.keys@[k]@,
                decreases bindings.keys.len() - i,
            {
                out.push(bindings.keys[i].clone());
                i = i + 1;
            }
            proof {
                assert(crate::ordered::key_views(out@) =~= bindings.list());
            }
            Ok(out)
        },
    }
}

/// The bindings of a fence at other write versions, in the order of its types.
pub open spec fn refreshed(
    keys: Seq<Seq<char>>,
    bindings: Map<Seq<char>, (Seq<char>, Seq<char>, u64)>,
    versions: Seq<u64>,
    n: int,
) -> Map<Seq<char>, (Seq<char>, Seq<char>, u64)>
    decreases n,
{
    if n <= 0 {
        bindings
    } else {
        refreshed(keys, bindings, versions, n - 1).insert(
            keys[n - 1],
            (bindings[keys[n - 1]].0, bindings[keys[n - 1]].1, versions[n - 1]),
        )
    }
}

/// The bindings of an application's fence at the write versions that the
/// journal has now, in the order of its types.
pub fn refresh_bindings(
    bindings: &OrdMap<String, UnscopedStreamPublicationBinding>,
    versions: &Vec<u64>,
) -> (r: OrdMap<String, UnscopedStreamPublicationBinding>)
    requires
        bindings.wf(),
        versions@.len() == bindings.list().len(),
    ensures
        r.wf(),
        r@ == refreshed(bindings.list(), bindings@, versions@, versions@.len() as int),
        r@.dom() == bindings@.dom(),
{
    let ghost keys = bindings.list();
    let mut out: OrdMap<String, UnscopedStreamPublicationBinding> = OrdMap::new();
    let mut i: usize = 0;
    proof {
        bindings.places();
    }
    while i < bindings.keys.len()
        invariant
            i <= bindings.keys.len(),
            bindings.wf(),
            keys == bindings.list(),
            keys.len() == bindings.keys.len(),
            versions@.len() == keys.len(),
            out.wf(),
            forall|x: Seq<char>| #[trigger]
                out@.contains_key(x) == exists|k: int| 0 <= k < i && #[trigger] keys[k] == x,
            forall|x: Seq<char>| #[trigger]
                out@.contains_key(x) ==> out@[x] == refreshed(keys, bindings@, versions@, i as int)[x],
        decreases bindings.keys.len() - i,
    {
        let old_binding = bindings.value_at(i);
        let key = bindings.key_at(i);
        proof {
            assert(keys[i as int] == key@);
            assert(bindings@[key@] == old_binding@);
        }
        out.insert(
            key.clone(),
            UnscopedStreamPublicationBinding {
                publication_action: old_binding.publication_action.clone(),
                capability_digest: old_binding.capability_digest.clone(),
                expected_write_version: versions[i],
            },
        );
        i = i + 1;
    }
    proof {
        bindings.places();
        refreshed_keeps_keys(keys, bindings@, versions@, keys.len() as int);
        assert forall|x: Seq<char>| #[trigger] out@.contains_key(x) == bindings@.contains_key(x) by {
            if bindings@.contains_key(x) {
                assert(keys.contains(x));
                let k = choose|k: int| 0 <= k < keys.len() && keys[k] == x;
                assert(keys[k] == x);
            }
        }
        assert(out@ =~= refreshed(keys, bindings@, versions@, keys.len() as int));
    }
    out
}

proof fn refreshed_keeps_keys(
    keys: Seq<Seq<char>>,
    bindings: Map<Seq<char>, (Seq<char>, Seq<char>, u64)>,
    versions: Seq<u64>,
    n: int,
)
    requires
        0 <= n <= keys.len(),
        forall|k: int| 0 <= k < keys.len() ==> bindings.contains_key(#[trigger] keys[k]),
    ensures
        refreshed(keys, bindings, versions, n).dom() == bindings.dom(),
    decreases n,
{
    if n > 0 {
        refreshed_keeps_keys(keys, bindings, versions, n - 1);
        assert(refreshed(keys, bindings, versions, n).dom() =~= bindings.dom());
    }
}

/// A page of what is unresolved tells of the subjects behind its cursor, one for
/// each key in order and as many as were asked for, each by its digest and with
/// its own class.
pub proof fn a_page_tells_of_the_subjects_behind_its_cursor(
    keys: Seq<Seq<char>>,
    reasons: Map<Seq<char>, Seq<char>>,
    from: int,
    to: int,
    k: int,
)
    requires
        0 <= from <= to <= keys.len(),
        unresolved_entries(keys, reasons, from, to) is Ok,
    ensures
        ({
            let entries = unresolved_entries(keys, reasons, from, to)->Ok_0;
            &&& entries.len() == to - from
            &&& from <= k < to ==> {
                let s = json_pair(keys[k]);
                &&& s is Ok
                &&& entries[k - from].0 == content_digest(
                    encode_utf8(s->Ok_0.0) + seq![0u8] + encode_utf8(s->Ok_0.1),
                )
                &&& entries[k - from].1 == reasons[keys[k]]
            }
        }),
    decreases to - from,
{
    if from < to {
        a_page_tells_of_the_subjects_behind_its_cursor(keys, reasons, from, to - 1, k);
    }
}

/// The pages of what is unresolved go on where the last one ended: each holds as
/// many subjects as were asked for as long as there are such, and its cursor
/// reads back as the place behind it; the last one has none.
pub proof fn a_page_goes_on_where_the_last_one_ended(
    keys: Seq<Seq<char>>,
    reasons: Map<Seq<char>, Seq<char>>,
    after: Option<Seq<char>>,
    limit: u32,
)
    requires
        unresolved_view(keys, reasons, after, limit) is Ok,
        keys.len() <= usize::MAX,
        after is Some ==> cursor_offset(after->0) is Some && cursor_offset(after->0)->0
            <= keys.len(),
    ensures
        ({
            let page = unresolved_view(keys, reasons, after, limit)->Ok_0;
            let offset = match after {
                Some(c) => cursor_offset(c)->0 as int,
                None => 0,
            };
            let left = keys.len() - offset;
            &&& page.0.len() == if limit < left {
                limit as int
            } else {
                left
            }
            &&& page.1 is Some <==> limit < left
            &&& page.1 is Some ==> cursor_offset(page.1->0) == Some((offset + limit) as nat)
        }),
{
    let offset = match after {
        Some(c) => cursor_offset(c)->0 as int,
        None => 0,
    };
    let end = page_end(offset, limit as int, keys.len() as int);
    a_page_tells_of_the_subjects_behind_its_cursor(keys, reasons, offset, end, offset);
    if end < keys.len() {
        a_cursor_reads_back(end as nat);
    }
}

proof fn a_cursor_reads_back(n: nat)
    requires
        n <= usize::MAX,
    ensures
        cursor_offset("unresolved:"@ + decimal(n)) == Some(n),
{
    let head = "unresolved:"@;
    let cursor = head + decimal(n);
    assert(cursor.take(head.len() as int) =~= head);
    assert(cursor.skip(head.len() as int) =~= decimal(n));
    decimal_reads_back(n);
    decimals_are_all_digits(n);
}

/// The fence of a task binds every active stream to its own publication, and
/// nothing else.
pub proof fn a_task_fence_binds_every_stream(
    streams: Seq<CapabilityModel>,
    n: int,
    k: int,
    name: Seq<char>,
)
    requires
        0 <= n <= streams.len(),
        task_bindings(streams, n) is Ok,
        forall|i: int, j: int|
            0 <= i < j < streams.len() ==> local_name((#[trigger] streams[i]).subject_type)
                != local_name((#[trigger] streams[j]).subject_type),
    ensures
        ({
            let bindings = task_bindings(streams, n)->Ok_0;
            let own = local_name(streams[k].subject_type);
            &&& 0 <= k < n ==> streams[k].migration_provenance is Some && bindings.contains_key(
                own,
            ) && bindings[own] == streams[k].migration_provenance->0.publication_action
            &&& bindings.contains_key(name) ==> exists|i: int|
                0 <= i < n && local_name((#[trigger] streams[i]).subject_type) == name
        }),
    decreases n,
{
    if n > 0 {
        a_task_fence_binds_every_stream(streams, n - 1, k, name);
        let last = local_name(streams[n - 1].subject_type);
        if 0 <= k < n - 1 {
            assert(local_name(streams[k].subject_type) != last);
        }
        if task_bindings(streams, n)->Ok_0.contains_key(name) && name != last {
            let i = choose|i: int|
                0 <= i < n - 1 && local_name((#[trigger] streams[i]).subject_type) == name;
            assert(local_name(streams[i].subject_type) == name);
        }
    }
}

/// The fence of an application binds every active stream to its own publication
/// and capability, at the write version that its migration covered.
pub proof fn an_application_fence_binds_every_stream(
    streams: Seq<CapabilityModel>,
    digests: Seq<Result<String, String>>,
    versions: Map<Seq<char>, u64>,
    n: int,
    k: int,
)
    requires
        0 <= k < n <= streams.len(),
        application_bindings(streams, digests, versions, n) is Ok,
        forall|i: int, j: int|
            0 <= i < j < streams.len() ==> local_name((#[trigger] streams[i]).subject_type)
                != local_name((#[trigger] streams[j]).subject_type),
    ensures
        ({
            let bindings = application_bindings(streams, digests, versions, n)->Ok_0;
            let own = local_name(streams[k].subject_type);
            &&& streams[k].migration_provenance is Some
            &&& digests[k] is Ok
            &&& versions.contains_key(own)
            &&& bindings.contains_key(own)
            &&& bindings[own].0 == streams[k].migration_provenance->0.publication_action
            &&& bindings[own].1 == digests[k]->Ok_0@
            &&& bindings[own].2 == versions[own]
        }),
    decreases n,
{
    if k < n - 1 {
        an_application_fence_binds_every_stream(streams, digests, versions, n - 1, k);
        assert(local_name(streams[k].subject_type) != local_name(streams[n - 1].subject_type));
    }
}

/// A target is activated behind the fence of its own kind: that of a task with an
/// earlier schema at the version that its migration covered, that of an
/// application under its name and digest.
pub proof fn a_target_is_activated_behind_its_own_fence(
    target: TargetModel,
    streams: Seq<CapabilityModel>,
    digests: Seq<Result<String, String>>,
    capability_digest: Seq<char>,
    job: Option<JobModel>,
    shown: Option<Seq<char>>,
    generation: GenerationModel,
)
    requires
        gate(target, streams, digests, capability_digest, job, shown, generation) is Ok,
        streams.len() > 0,
    ensures
        ({
            let fence = gate(
                target,
                streams,
                digests,
                capability_digest,
                job,
                shown,
                generation,
            )->Ok_0;
            match target {
                TargetModel::TaskBundle { .. } => {
                    &&& job->0.completion_receipt_id == shown
                    &&& fence is Some <==> job->0.source_bundle_digest is Some
                    &&& fence is Some ==> fence->0 is TaskScoped
                        && fence->0->TaskScoped_source_bundle_digest
                        == job->0.source_bundle_digest->0 && Some(
                        fence->0->TaskScoped_expected_write_version,
                    ) == generation.scoped_write_version
                },
                TargetModel::InstalledApplication { application_id, semantic_digest } => {
                    &&& job->0.completion_receipt_id is Some
                    &&& shown is Some ==> job->0.completion_receipt_id == shown
                    &&& fence is Some
                    &&& fence->0 is InstalledApplication
                    &&& fence->0->InstalledApplication_application_id == application_id
                    &&& fence->0->InstalledApplication_semantic_digest == semantic_digest
                },
            }
        }),
{
}

/// Evidence that is exact and current is enough: a job of the target's own
/// capabilities that was completed at the present state of publication with
/// nothing unresolved is not refused for want of evidence.
pub proof fn complete_evidence_is_enough(
    target: TargetModel,
    streams: Seq<CapabilityModel>,
    digests: Seq<Result<String, String>>,
    j: JobModel,
    generation: GenerationModel,
)
    requires
        j.descriptor_contract_version == 1,
        j.scan_complete,
        j.unresolved.dom().len() == 0,
        j.completion_receipt_id is Some,
        j.completion_generation == Some(generation),
    ensures
        gate(
            target,
            streams,
            digests,
            j.capability_digest,
            Some(j),
            j.completion_receipt_id,
            generation,
        ) == if streams.len() == 0 {
            Ok(None)
        } else {
            fence(target, streams, digests, j)
        },
{
}

/// The contract of an application is in force exactly where its own fence, of the
/// digest that is asked for, binds as many streams as it declares and each of
/// them to its publication and its capability.
pub proof fn a_contract_in_force_binds_each_stream(
    bindings: Map<Seq<char>, (Seq<char>, Seq<char>, u64)>,
    streams: Seq<CapabilityModel>,
    digests: Seq<Result<String, String>>,
    n: int,
    k: int,
)
    requires
        0 <= k < n <= streams.len(),
        binds_all(bindings, streams, digests, n) == Ok::<bool, Seq<char>>(true),
    ensures
        ({
            let own = local_name(streams[k].subject_type);
            &&& streams[k].migration_provenance is Some
            &&& digests[k] is Ok
            &&& bindings.contains_key(own)
            &&& bindings[own].0 == streams[k].migration_provenance->0.publication_action
            &&& bindings[own].1 == digests[k]->Ok_0@
        }),
    decreases n,
{
    if k < n - 1 {
        a_contract_in_force_binds_each_stream(bindings, streams, digests, n - 1, k);
    }
}

/// Where every stream is bound to its publication and its capability the contract
/// is in force, and the answer is asked of the fence of that very application.
pub proof fn a_bound_contract_is_in_force(
    fenced: FenceModel,
    application_id: Seq<char>,
    semantic_digest: Seq<char>,
    streams: Seq<CapabilityModel>,
    digests: Seq<Result<String, String>>,
)
    requires
        fenced is InstalledApplication,
        forall|k: int|
            0 <= k < streams.len() ==> {
                let own = local_name((#[trigger] streams[k]).subject_type);
                let bindings = fenced->InstalledApplication_bindings;
                &&& streams[k].migration_provenance is Some
                &&& digests[k] is Ok
                &&& bindings.contains_key(own)
                &&& bindings[own].0 == streams[k].migration_provenance->0.publication_action
                &&& bindings[own].1 == digests[k]->Ok_0@
            },
    ensures
        contract_in_force(
            Ok::<Option<FenceModel>, Seq<char>>(Some(fenced)),
            application_id,
            semantic_digest,
            Ok::<Seq<CapabilityModel>, Seq<char>>(streams),
            digests,
        ) == Ok::<bool, Seq<char>>(
            fenced->InstalledApplication_application_id == application_id
                && fenced->InstalledApplication_semantic_digest == semantic_digest
                && fenced->InstalledApplication_bindings.dom().len() == streams.len(),
        ),
{
    each_bound_stream_is_bound(
        fenced->InstalledApplication_bindings,
        streams,
        digests,
        streams.len() as int,
    );
}

proof fn each_bound_stream_is_bound(
    bindings: Map<Seq<char>, (Seq<char>, Seq<char>, u64)>,
    streams: Seq<CapabilityModel>,
    digests: Seq<Result<String, String>>,
    n: int,
)
    requires
        0 <= n <= streams.len(),
        forall|k: int|
            0 <= k < streams.len() ==> {
                let own = local_name((#[trigger] streams[k]).subject_type);
                &&& streams[k].migration_provenance is Some
                &&& digests[k] is Ok
                &&& bindings.contains_key(own)
                &&& bindings[own].0 == streams[k].migration_provenance->0.publication_action
                &&& bindings[own].1 == digests[k]->Ok_0@
            },
    ensures
        binds_all(bindings, streams, digests, n) == Ok::<bool, Seq<char>>(true),
    decreases n,
{
    if n > 0 {
        each_bound_stream_is_bound(bindings, streams, digests, n - 1);
        assert(streams[n - 1].migration_provenance is Some);
    }
}

/// A fence that is read again binds what it bound, at the write versions that its
/// types have now.
pub proof fn a_refreshed_fence_keeps_its_bindings(
    keys: Seq<Seq<char>>,
    bindings: Map<Seq<char>, (Seq<char>, Seq<char>, u64)>,
    versions: Seq<u64>,
    n: int,
    k: int,
)
    requires
        0 <= n <= keys.len(),
        0 <= k < keys.len(),
        forall|i: int, j: int| 0 <= i < j < keys.len() ==> #[trigger] keys[i] != #[trigger] keys[j],
    ensures
        ({
            let after = refreshed(keys, bindings, versions, n);
            &&& k < n ==> after.contains_key(keys[k]) && after[keys[k]].0 == bindings[keys[k]].0
                && after[keys[k]].1 == bindings[keys[k]].1 && after[keys[k]].2 == versions[k]
            &&& k >= n ==> after[keys[k]] == bindings[keys[k]]
        }),
    decreases n,
{
    if n > 0 {
        a_refreshed_fence_keeps_its_bindings(keys, bindings, versions, n - 1, k);
        if k < n - 1 {
            assert(keys[k] != keys[n - 1]);
        } else if k > n - 1 {
            assert(keys[n - 1] != keys[k]);
        }
    }
}

/// A target is staged behind what was staged before, and only where that is
/// something else; what cannot be read is not staged over.
pub proof fn a_target_is_staged_behind_the_last_one(
    sequence: u64,
    existing: StagedModel,
    staged: StagedModel,
    error: Seq<char>,
)
    ensures
        staging(None, staged) == Ok::<Option<u64>, Seq<char>>(Some(1)),
        staging(Some((sequence, Err::<StagedModel, Seq<char>>(error))), staged) is Err,
        existing == staged ==> staging(
            Some((sequence, Ok::<StagedModel, Seq<char>>(existing))),
            staged,
        ) == Ok::<Option<u64>, Seq<char>>(None),
        existing != staged && sequence < u64::MAX ==> staging(
            Some((sequence, Ok::<StagedModel, Seq<char>>(existing))),
            staged,
        ) == Ok::<Option<u64>, Seq<char>>(Some((sequence + 1) as u64)),
{
}

/// The capabilities of an application's target are those that were staged for
/// that very application and digest.
pub proof fn only_the_staged_target_is_taken(
    staged: Option<Result<StagedInstalledApplicationV1, String>>,
    application_id: Seq<char>,
    semantic_digest: Seq<char>,
)
    ensures
        staged_target(staged, application_id, semantic_digest) is Ok <==> staged is Some
            && staged->0 is Ok && staged->0->Ok_0.application_id@ == application_id
            && staged->0->Ok_0.semantic_digest@ == semantic_digest,
        staged_target(staged, application_id, semantic_digest) is Ok ==> staged_target(
            staged,
            application_id,
            semantic_digest,
        )->Ok_0 == views(staged->0->Ok_0.capabilities@),
{
}

/// A target may be activated only behind a job for the same capabilities, under
/// the same contract, that has scanned everything, left nothing unresolved and
/// completed in the generation that is current, with the receipt that is shown.
pub proof fn only_a_completed_job_lets_a_target_pass(
    target: &StreamDescriptorMigrationTargetV1,
    job: &DurableJobV1,
    receipt: Option<&str>,
    capability_digest: &str,
    generation: &PublicationGenerationV1,
    r: bool,
)
    requires
        job.wf(),
        generation.wf(),
        call_ensures(
            is_gate_open,
            (target, job, receipt, capability_digest, generation),
            r,
        ),
    ensures
        r ==> job@.capability_digest == capability_digest@,
        r ==> job@.descriptor_contract_version == 1,
        r ==> job@.scan_complete,
        r ==> job@.unresolved.dom().len() == 0,
        r ==> job@.completion_generation == Some(generation@),
        r && receipt is Some ==> job@.completion_receipt_id == Some(receipt->0@),
        r && target@ is InstalledApplication ==> job@.completion_receipt_id is Some,
        r && target@ is TaskBundle ==> job@.completion_receipt_id == opt_str(receipt),
        job@.capability_digest == capability_digest@ && job@.descriptor_contract_version == 1
            && job@.scan_complete && job@.unresolved.dom().len() == 0 && job@.completion_generation
            == Some(generation@) && receipt is Some && job@.completion_receipt_id == Some(
            receipt->0@,
        ) ==> r,
{
}

/// A migration is of a task that is named.
pub proof fn a_scope_is_a_named_task(kind: &str, id: &str, r: Result<(), String>)
    requires
        call_ensures(validate_task_scope, (kind, id), r),
    ensures
        r is Ok <==> kind@ == "task"@ && id@.len() > 0,
{
}

/// A page is told only for a request, a job and a limit that are valid and a job
/// that there is; a limit of nothing, or of more than is allowed, is refused.
pub proof fn only_a_valid_request_is_told_a_page(
    request_id: String,
    id: String,
    after: Option<&str>,
    limit: u32,
    job: &Result<Option<DurableJobV1>, String>,
    r: Result<UnresolvedStreamDescriptorPageV1, String>,
)
    requires
        job is Ok && job->Ok_0 is Some ==> job->Ok_0->0.wf(),
        call_ensures(
            list_governed_unresolved_stream_descriptors_v1,
            (request_id, id, after, limit, job),
            r,
        ),
        r is Ok,
    ensures
        canonical_id(request_id@),
        digest_text(id@, "sdm:"@),
        1 <= limit <= MAX_UNRESOLVED_PAGE,
        job is Ok && job->Ok_0 is Some,
        after is Some ==> cursor_offset(after->0@) is Some,
        r->Ok_0.request_id@ == request_id@,
        r->Ok_0.job_id@ == id@,
{
}

/// A listing is refused for a limit of nothing or of more than is allowed, and
/// for a cursor that is none; behind the last subject it is empty.
pub proof fn a_listing_is_within_its_limit(
    job: &DurableJobV1,
    after: Option<&str>,
    limit: u32,
    r: Result<UnresolvedPage, String>,
)
    requires
        job.wf(),
        call_ensures(list_unresolved, (job, after, limit), r),
    ensures
        r is Ok ==> 1 <= limit <= MAX_UNRESOLVED_PAGE,
        r is Ok && after is Some ==> cursor_offset(after->0@) is Some,
        r is Ok && after is Some && cursor_offset(after->0@)->0 >= job.unresolved.list().len()
            ==> r->Ok_0.entries@.len() == 0 && r->Ok_0.next is None,
{
    if r is Ok && after is Some && cursor_offset(after->0@)->0 >= job.unresolved.list().len() {
        assert(views(r->Ok_0.entries@).len() == 0);
    }
}

/// A fence stands on a completed generation: without one there is none.
pub proof fn a_fence_stands_on_a_generation(
    target: TargetModel,
    active: Seq<CapabilityModel>,
    digests: Seq<Result<String, String>>,
    j: JobModel,
)
    requires
        fence(target, active, digests, j) is Ok,
        fence(target, active, digests, j)->Ok_0 is Some,
    ensures
        j.completion_generation is Some,
        target is TaskBundle ==> {
            let f = fence(target, active, digests, j)->Ok_0->0;
            &&& f is TaskScoped
            &&& j.source_bundle_digest == Some(f->source_bundle_digest)
            &&& j.completion_generation->0.scoped_write_version == Some(f->expected_write_version)
        },
        target is InstalledApplication ==> {
            let f = fence(target, active, digests, j)->Ok_0->0;
            &&& f is InstalledApplication
            &&& f->application_id == target->application_id
            &&& f->semantic_digest == target->semantic_digest
        },
{
}

} // verus!
