//! Durable state of a governed stream migration, and the bounds and texts that
//! its requests and receipts are held to.

use vstd::prelude::*;
use vstd::string::*;
use vstd::utf8::encode_utf8;

use crate::digest::sha256;
use crate::ordered::OrdMap;
use crate::text::chars_of;
use crate::text::control;
use crate::text::has_prefix;
use crate::text::is_control;
use crate::text::is_lower_hex_digit;
use crate::text::lower_hex_digit;
use crate::text::opt_copy;
use crate::text::opt_text;
use crate::text::strip_prefix;
use crate::text::trim;
use crate::text::trimmed;
use crate::text::views;

verus! {

/// The most events of one job's journal.
pub const JOB_EVENT_BUDGET: usize = 1_024;

/// The most bytes of one stored job.
pub const JOB_PAYLOAD_BYTE_BUDGET: usize = 4_194_304;

pub const MAX_PAGE_SUBJECTS: u32 = 256;

pub const MAX_EVENTS_PER_SUBJECT: u32 = 1_024;

pub const MAX_PAGE_BLOB_BYTES: u64 = 2_147_483_648;

pub const MAX_UNRESOLVED_PAGE: u32 = 256;

/// The most bytes of an identifier that a caller chooses.
pub const OPERATION_ID_BYTE_BUDGET: usize = 256;

/// Whether `value` is an identifier that a caller may choose: not empty, within
/// its byte budget, without white space at its ends and without control
/// characters.
pub open spec fn canonical_id(value: Seq<char>) -> bool {
    &&& value.len() > 0
    &&& encode_utf8(value).len() <= OPERATION_ID_BYTE_BUDGET
    &&& trimmed(value) == value
    &&& forall|i: int| 0 <= i < value.len() ==> !control(#[trigger] value[i])
}

/// Checks an identifier that a caller chose.
pub fn validate_operation_id(label: &str, value: &str) -> (r: Result<(), String>)
    ensures
        match r {
            Ok(_) => canonical_id(value@),
            Err(e) => !canonical_id(value@) && e@ == label@
                + " is not a bounded canonical identifier"@,
        },
{
    let mut ok = !value.is_empty() && value.as_bytes().len() <= OPERATION_ID_BYTE_BUDGET && trim(
        value,
    ) == value.to_owned();
    let v = chars_of(value);
    let mut i: usize = 0;
    while i < v.len()
        invariant
            v@ == value@,
            i <= v.len(),
            ok == (value@.len() > 0 && encode_utf8(value@).len() <= OPERATION_ID_BYTE_BUDGET
                && trimmed(value@) == value@ && forall|k: int|
                0 <= k < i ==> !control(#[trigger] value@[k])),
        decreases v.len() - i,
    {
        if is_control(v[i]) {
            ok = false;
        }
        i = i + 1;
    }
    if ok {
        Ok(())
    } else {
        let mut text = label.to_owned();
        text.append(" is not a bounded canonical identifier");
        Err(text)
    }
}

/// Whether every character of `s` is a lower-case hexadecimal digit.
pub open spec fn all_lower_hex(s: Seq<char>) -> bool {
    forall|i: int| 0 <= i < s.len() ==> lower_hex_digit(#[trigger] s[i])
}

fn is_all_lower_hex(s: &str) -> (r: bool)
    ensures
        r == all_lower_hex(s@),
{
    let v = chars_of(s);
    let mut i: usize = 0;
    while i < v.len()
        invariant
            v@ == s@,
            i <= v.len(),
            forall|k: int| 0 <= k < i ==> lower_hex_digit(#[trigger] s@[k]),
        decreases v.len() - i,
    {
        if !is_lower_hex_digit(v[i]) {
            return false;
        }
        i = i + 1;
    }
    true
}

/// Whether `value` is `prefix` and 64 lower-case hexadecimal digits.
pub open spec fn digest_text(value: Seq<char>, prefix: Seq<char>) -> bool {
    &&& has_prefix(value, prefix)
    &&& value.len() == prefix.len() + 64
    &&& all_lower_hex(value.skip(prefix.len() as int))
}

fn is_digest_text(value: &str, prefix: &str) -> (r: bool)
    ensures
        r == digest_text(value@, prefix@),
{
    match strip_prefix(value, prefix) {
        Some(rest) => {
            let n: usize = rest.as_str().unicode_len();
            n == 64 && is_all_lower_hex(rest.as_str())
        },
        None => false,
    }
}

/// Checks the identifier of a migration job.
pub fn validate_job_id(value: &str) -> (r: Result<(), String>)
    ensures
        match r {
            Ok(_) => digest_text(value@, "sdm:"@),
            Err(e) => !digest_text(value@, "sdm:"@) && e@
                == "stream descriptor migration job id is invalid"@,
        },
{
    if is_digest_text(value, "sdm:") {
        Ok(())
    } else {
        Err("stream descriptor migration job id is invalid".to_owned())
    }
}

/// Whether `value` is the text form of a SHA-256 digest.
pub fn is_canonical_sha256(value: &str) -> (r: bool)
    ensures
        r == digest_text(value@, "sha256:"@),
{
    is_digest_text(value, "sha256:")
}

/// A text of a prefix and a digest is a digest text of that prefix.
pub proof fn digests_are_canonical(prefix: Seq<char>, digest: Seq<char>)
    requires
        digest.len() == 64,
        all_lower_hex(digest),
    ensures
        digest_text(prefix + digest, prefix),
{
    let s = prefix + digest;
    assert(s.subrange(0, prefix.len() as int) =~= prefix);
    assert(s.skip(prefix.len() as int) =~= digest);
}

/// Bounds that the caller sets on each page.
#[derive(Clone, Copy, Debug, PartialEq, Eq, Structural)]
pub struct StreamDescriptorMigrationBudgetsV1 {
    pub max_subjects: u32,
    pub max_events_per_subject: u32,
    pub max_blob_bytes: u64,
}

/// Whether every bound is positive and not above the supported one.
pub open spec fn budgets_supported(b: StreamDescriptorMigrationBudgetsV1) -> bool {
    &&& 1 <= b.max_subjects <= MAX_PAGE_SUBJECTS
    &&& 1 <= b.max_events_per_subject <= MAX_EVENTS_PER_SUBJECT
    &&& 1 <= b.max_blob_bytes <= MAX_PAGE_BLOB_BYTES
}

/// Checks the bounds that the caller sets.
pub fn validate_budgets(budgets: &StreamDescriptorMigrationBudgetsV1) -> (r: Result<(), String>)
    ensures
        match r {
            Ok(_) => budgets_supported(*budgets),
            Err(e) => !budgets_supported(*budgets) && e@
                == "stream descriptor migration budgets are outside supported bounds"@,
        },
{
    if budgets.max_subjects == 0 || budgets.max_subjects > MAX_PAGE_SUBJECTS
        || budgets.max_events_per_subject == 0 || budgets.max_events_per_subject
        > MAX_EVENTS_PER_SUBJECT || budgets.max_blob_bytes == 0 || budgets.max_blob_bytes
        > MAX_PAGE_BLOB_BYTES {
        return Err("stream descriptor migration budgets are outside supported bounds".to_owned());
    }
    Ok(())
}

/// What a migration is for.
#[derive(Clone, Debug, PartialEq, Eq)]
pub enum StreamDescriptorMigrationTargetV1 {
    TaskBundle { scope_kind: String, scope_id: String, bundle_digest: String },
    InstalledApplication { application_id: String, semantic_digest: String },
}

/// What a target holds.
pub enum TargetModel {
    TaskBundle { scope_kind: Seq<char>, scope_id: Seq<char>, bundle_digest: Seq<char> },
    InstalledApplication { application_id: Seq<char>, semantic_digest: Seq<char> },
}

impl View for StreamDescriptorMigrationTargetV1 {
    type V = TargetModel;

    open spec fn view(&self) -> TargetModel {
        match self {
            Self::TaskBundle { scope_kind, scope_id, bundle_digest } => TargetModel::TaskBundle {
                scope_kind: scope_kind@,
                scope_id: scope_id@,
                bundle_digest: bundle_digest@,
            },
            Self::InstalledApplication {
                application_id,
                semantic_digest,
            } => TargetModel::InstalledApplication {
                application_id: application_id@,
                semantic_digest: semantic_digest@,
            },
        }
    }
}

impl StreamDescriptorMigrationTargetV1 {
    pub fn copy(&self) -> (r: Self)
        ensures
            r@ == self@,
    {
        match self {
            Self::TaskBundle { scope_kind, scope_id, bundle_digest } => Self::TaskBundle {
                scope_kind: scope_kind.clone(),
                scope_id: scope_id.clone(),
                bundle_digest: bundle_digest.clone(),
            },
            Self::InstalledApplication {
                application_id,
                semantic_digest,
            } => Self::InstalledApplication {
                application_id: application_id.clone(),
                semantic_digest: semantic_digest.clone(),
            },
        }
    }
}

/// The word for the kind of a target.
pub open spec fn kind_of_target(t: TargetModel) -> Seq<char> {
    match t {
        TargetModel::TaskBundle { .. } => "task_bundle"@,
        TargetModel::InstalledApplication { .. } => "installed_application"@,
    }
}

/// The word for the kind of a target.
pub fn target_kind(target: &StreamDescriptorMigrationTargetV1) -> (r: &'static str)
    ensures
        r@ == kind_of_target(target@),
{
    match target {
        StreamDescriptorMigrationTargetV1::TaskBundle { .. } => "task_bundle",
        StreamDescriptorMigrationTargetV1::InstalledApplication { .. } => "installed_application",
    }
}

/// How far the publications of the migrated types had come.
#[derive(Clone, Debug, PartialEq, Eq)]
pub struct PublicationGenerationV1 {
    pub token: String,
    pub scoped_write_version: Option<u64>,
    pub unscoped_write_versions: OrdMap<String, u64>,
}

/// What a generation holds.
pub struct GenerationModel {
    pub token: Seq<char>,
    pub scoped_write_version: Option<u64>,
    pub unscoped_write_versions: Map<Seq<char>, u64>,
}

impl View for PublicationGenerationV1 {
    type V = GenerationModel;

    open spec fn view(&self) -> GenerationModel {
        GenerationModel {
            token: self.token@,
            scoped_write_version: self.scoped_write_version,
            unscoped_write_versions: self.unscoped_write_versions@,
        }
    }
}

/// Whether two sorted lists of write versions are the same.
fn same_versions(a: &OrdMap<String, u64>, b: &OrdMap<String, u64>) -> (r: bool)
    requires
        a.wf(),
        b.wf(),
    ensures
        r == (a@ == b@),
{
    let n: usize = a.len();
    let m: usize = b.len();
    proof {
        a.places();
        b.places();
    }
    if n != m {
        return false;
    }
    let mut i: usize = 0;
    while i < n
        invariant
            i <= n,
            a.wf(),
            b.wf(),
            n == a.list().len(),
            n == b.list().len(),
            forall|k: int| 0 <= k < i ==> #[trigger] a.list()[k] == b.list()[k],
            forall|k: int| 0 <= k < i ==> #[trigger] a.values@[k] == b.values@[k],
        decreases n - i,
    {
        let same_key = *a.key_at(i) == *b.key_at(i);
        let same_value = a.values[i] == b.values[i];
        if !same_key || !same_value {
            proof {
                a.places();
                b.places();
                if a@ == b@ {
                    assert(a@.dom() == b@.dom());
                    crate::ordered::ascending_is_unique::<String>(a.list(), b.list());
                    assert(a.list()[i as int] == b.list()[i as int]);
                    assert(a@[a.list()[i as int]] == a.values@[i as int]@);
                    assert(b@[b.list()[i as int]] == b.values@[i as int]@);
                }
            }
            return false;
        }
        proof {
            assert(a.list()[i as int] == b.list()[i as int]);
            assert(a.values@[i as int] == b.values@[i as int]);
        }
        i = i + 1;
    }
    proof {
        assert(a.list() =~= b.list());
        a.places();
        b.places();
        assert(a@ =~= b@) by {
            assert forall|x: Seq<char>| #[trigger] a@.contains_key(x) implies a@[x] == b@[x] by {
                let k = a.list().index_of(x);
                assert(a.list()[k] == x);
                assert(a.values@[k] == b.values@[k]);
                assert(b@[b.list()[k]] == b.values@[k]@);
            }
        }
    }
    true
}

/// A copy of a sorted list of write versions.
pub fn copy_versions(a: &OrdMap<String, u64>) -> (r: OrdMap<String, u64>)
    requires
        a.wf(),
    ensures
        r.wf(),
        r@ == a@,
{
    let mut keys: Vec<String> = Vec::new();
    let mut values: Vec<u64> = Vec::new();
    let n: usize = a.keys.len();
    let mut i: usize = 0;
    while i < n
        invariant
            i <= n,
            a.wf(),
            n == a.keys.len(),
            keys.len() == i,
            values.len() == i,
            forall|k: int| 0 <= k < i ==> (#[trigger] keys@[k])@ == a.keys@[k]@,
            forall|k: int| 0 <= k < i ==> #[trigger] values@[k] == a.values@[k],
        decreases n - i,
    {
        keys.push(a.keys[i].clone());
        values.push(a.values[i]);
        i = i + 1;
    }
    let r = OrdMap { keys, values };
    proof {
        assert(r.list() =~= a.list());
        r.places();
        a.places();
        assert(r@ =~= a@) by {
            assert forall|x: Seq<char>| #[trigger] r@.contains_key(x) implies r@[x] == a@[x] by {
                let k = r.list().index_of(x);
                assert(r.list()[k] == x);
                assert(r.values@[k] == a.values@[k]);
            }
        }
    }
    r
}

impl PublicationGenerationV1 {
    pub open spec fn wf(&self) -> bool {
        self.unscoped_write_versions.wf()
    }

    pub fn copy(&self) -> (r: Self)
        requires
            self.wf(),
        ensures
            r.wf(),
            r@ == self@,
    {
        PublicationGenerationV1 {
            token: self.token.clone(),
            scoped_write_version: self.scoped_write_version,
            unscoped_write_versions: copy_versions(&self.unscoped_write_versions),
        }
    }

    pub fn equals(&self, other: &Self) -> (r: bool)
        requires
            self.wf(),
            other.wf(),
        ensures
            r == (self@ == other@),
    {
        let same_scoped = match (self.scoped_write_version, other.scoped_write_version) {
            (Some(a), Some(b)) => a == b,
            (None, None) => true,
            _ => false,
        };
        self.token == other.token && same_scoped && same_versions(
            &self.unscoped_write_versions,
            &other.unscoped_write_versions,
        )
    }
}

/// What became of one subject of a page.
#[derive(Clone, Debug, PartialEq, Eq)]
pub struct StreamDescriptorMigrationPageOutcomeV1 {
    pub subject_digest: String,
    pub classification: String,
}

impl View for StreamDescriptorMigrationPageOutcomeV1 {
    type V = (Seq<char>, Seq<char>);

    open spec fn view(&self) -> (Seq<char>, Seq<char>) {
        (self.subject_digest@, self.classification@)
    }
}

/// A copy of the outcomes of a page.
pub fn copy_outcomes(v: &Vec<StreamDescriptorMigrationPageOutcomeV1>) -> (r: Vec<
    StreamDescriptorMigrationPageOutcomeV1,
>)
    ensures
        views(r@) == views(v@),
{
    let mut out: Vec<StreamDescriptorMigrationPageOutcomeV1> = Vec::new();
    let mut i: usize = 0;
    while i < v.len()
        invariant
            i <= v.len(),
            out.len() == i,
            forall|k: int| 0 <= k < i ==> (#[trigger] out@[k])@ == v@[k]@,
        decreases v.len() - i,
    {
        out.push(
            StreamDescriptorMigrationPageOutcomeV1 {
                subject_digest: v[i].subject_digest.clone(),
                classification: v[i].classification.clone(),
            },
        );
        i = i + 1;
    }
    proof {
        assert(views(out@) =~= views(v@));
    }
    out
}

/// What a caller is told of a job.
#[derive(Clone, Debug, PartialEq, Eq)]
pub struct StreamDescriptorMigrationReceiptV1 {
    pub request_id: String,
    pub job_id: String,
    pub target: StreamDescriptorMigrationTargetV1,
    pub capability_digest: String,
    pub descriptor_contract_version: u16,
    pub status: String,
    pub cursor: Option<String>,
    pub scanned_subjects: u64,
    pub migrated_subjects: u64,
    pub unresolved_subjects: u64,
    pub page_outcomes: Vec<StreamDescriptorMigrationPageOutcomeV1>,
    pub completion_receipt_id: Option<String>,
    pub committed_sequence: u64,
}

/// What a receipt holds.
pub struct ReceiptModel {
    pub request_id: Seq<char>,
    pub job_id: Seq<char>,
    pub target: TargetModel,
    pub capability_digest: Seq<char>,
    pub descriptor_contract_version: u16,
    pub status: Seq<char>,
    pub cursor: Option<Seq<char>>,
    pub scanned_subjects: u64,
    pub migrated_subjects: u64,
    pub unresolved_subjects: nat,
    pub page_outcomes: Seq<(Seq<char>, Seq<char>)>,
    pub completion_receipt_id: Option<Seq<char>>,
    pub committed_sequence: u64,
}

impl View for StreamDescriptorMigrationReceiptV1 {
    type V = ReceiptModel;

    open spec fn view(&self) -> ReceiptModel {
        ReceiptModel {
            request_id: self.request_id@,
            job_id: self.job_id@,
            target: self.target@,
            capability_digest: self.capability_digest@,
            descriptor_contract_version: self.descriptor_contract_version,
            status: self.status@,
            cursor: opt_text(self.cursor),
            scanned_subjects: self.scanned_subjects,
            migrated_subjects: self.migrated_subjects,
            unresolved_subjects: self.unresolved_subjects as nat,
            page_outcomes: views(self.page_outcomes@),
            completion_receipt_id: opt_text(self.completion_receipt_id),
            committed_sequence: self.committed_sequence,
        }
    }
}

impl StreamDescriptorMigrationReceiptV1 {
    pub fn copy(&self) -> (r: Self)
        ensures
            r@ == self@,
    {
        StreamDescriptorMigrationReceiptV1 {
            request_id: self.request_id.clone(),
            job_id: self.job_id.clone(),
            target: self.target.copy(),
            capability_digest: self.capability_digest.clone(),
            descriptor_contract_version: self.descriptor_contract_version,
            status: self.status.clone(),
            cursor: opt_copy(&self.cursor),
            scanned_subjects: self.scanned_subjects,
            migrated_subjects: self.migrated_subjects,
            unresolved_subjects: self.unresolved_subjects,
            page_outcomes: copy_outcomes(&self.page_outcomes),
            completion_receipt_id: opt_copy(&self.completion_receipt_id),
            committed_sequence: self.committed_sequence,
        }
    }
}

/// An advance that was answered before.
#[derive(Clone, Debug, PartialEq, Eq)]
pub struct DurableAdvanceReplayV1 {
    pub request_digest: String,
    pub receipt: StreamDescriptorMigrationReceiptV1,
}

impl View for DurableAdvanceReplayV1 {
    type V = (Seq<char>, ReceiptModel);

    open spec fn view(&self) -> (Seq<char>, ReceiptModel) {
        (self.request_digest@, self.receipt@)
    }
}

/// An identifier is taken exactly if it is not empty, is short enough, has no
/// white space at its ends and no control character in it.
pub proof fn an_identifier_is_bounded_plain_text(label: &str, value: &str, r: Result<(), String>)
    requires
        call_ensures(validate_operation_id, (label, value), r),
    ensures
        r is Ok ==> value@.len() > 0 && encode_utf8(value@).len() <= 256 && trimmed(value@)
            == value@,
        r is Ok ==> forall|i: int| 0 <= i < value@.len() ==> !control(#[trigger] value@[i]),
        r is Err && value@.len() > 0 && encode_utf8(value@).len() <= 256 && trimmed(value@)
            == value@ ==> exists|i: int| 0 <= i < value@.len() && control(#[trigger] value@[i]),
{
}

/// The text of a digest is its prefix and sixty-four lower-case hexadecimal
/// digits, and nothing else is one.
pub proof fn a_digest_has_its_prefix_and_its_digits(value: &str, r: bool, digits: Seq<char>)
    requires
        call_ensures(is_canonical_sha256, (value,), r),
    ensures
        r ==> value@.len() == 71 && value@.take(7) == "sha256:"@ && forall|i: int|
            7 <= i < 71 ==> lower_hex_digit(#[trigger] value@[i]),
        value@ == "sha256:"@ + digits && digits.len() == 64 && (forall|i: int|
            0 <= i < 64 ==> lower_hex_digit(#[trigger] digits[i])) ==> r,
{
    reveal_strlit("sha256:");
    let p = "sha256:"@;
    assert(p.len() == 7);
    let rest = value@.skip(7);
    if r {
        assert(value@.take(7) =~= value@.subrange(0, 7));
        assert forall|i: int| 7 <= i < 71 implies lower_hex_digit(#[trigger] value@[i]) by {
            assert(value@[i] == rest[i - 7]);
        }
    }
    if value@ == p + digits && digits.len() == 64 && (forall|i: int|
        0 <= i < 64 ==> lower_hex_digit(#[trigger] digits[i])) {
        assert(value@.subrange(0, 7) =~= p);
        assert(rest =~= digits);
    }
}

/// Every bound of a page is asked for, and none beyond what is supported.
pub proof fn a_page_is_bounded(b: &StreamDescriptorMigrationBudgetsV1, r: Result<(), String>)
    requires
        call_ensures(validate_budgets, (b,), r),
    ensures
        r is Ok <==> 0 < b.max_subjects <= 256 && 0 < b.max_events_per_subject <= 1_024 && 0
            < b.max_blob_bytes <= 2_147_483_648,
{
}

/// Two generations are the same only if nothing was written between them: the
/// token, the version of the scope and those of every type are the same.
pub proof fn a_generation_changes_with_every_write(
    a: &PublicationGenerationV1,
    b: &PublicationGenerationV1,
    r: bool,
)
    requires
        a.wf(),
        b.wf(),
        call_ensures(PublicationGenerationV1::equals, (a, b), r),
    ensures
        r <==> a.token@ == b.token@ && a.scoped_write_version == b.scoped_write_version
            && a.unscoped_write_versions@ == b.unscoped_write_versions@,
{
}

} // verus!
