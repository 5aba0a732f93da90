//! Writing and reading the content of file entities.

use vstd::prelude::*;
use vstd::string::*;

use crate::digest::content_digest;
use crate::digest::content_digest_of;
use crate::json::bool_value;
use crate::json::member;
use crate::json::text_member;
use crate::json::Json;
use crate::json::JsonModel;
use crate::json::JsonNumber;
use crate::json::NumberModel;
use crate::text::opt_str;
use crate::text::opt_text;
use crate::text::same;

verus! {

/// Why file content was not written.
#[derive(Clone, Debug, PartialEq, Eq)]
pub enum FileStreamContentError {
    /// Failed to load or serialize entity state.
    State(String),
    /// Failed to write the content-addressed blob.
    BlobStore(String),
    /// Failed while preparing the legacy WASM fallback stream.
    StreamRegistry(String),
    /// The WASM blob adapter failed.
    Wasm(String),
    /// The verified File action rejected the content update.
    ActionRejected(String),
    /// The events were not written.
    PersistenceNotApplied(String),
    /// The events were written, and a later step failed.
    PersistenceApplied(String),
    /// Whether the events were written is not known.
    PersistenceUnknown(String),
}

/// What a [`FileStreamContentError`] holds.
pub enum FileErrorModel {
    State(Seq<char>),
    BlobStore(Seq<char>),
    StreamRegistry(Seq<char>),
    Wasm(Seq<char>),
    ActionRejected(Seq<char>),
    PersistenceNotApplied(Seq<char>),
    PersistenceApplied(Seq<char>),
    PersistenceUnknown(Seq<char>),
}

impl View for FileStreamContentError {
    type V = FileErrorModel;

    open spec fn view(&self) -> FileErrorModel {
        match self {
            Self::State(s) => FileErrorModel::State(s@),
            Self::BlobStore(s) => FileErrorModel::BlobStore(s@),
            Self::StreamRegistry(s) => FileErrorModel::StreamRegistry(s@),
            Self::Wasm(s) => FileErrorModel::Wasm(s@),
            Self::ActionRejected(s) => FileErrorModel::ActionRejected(s@),
            Self::PersistenceNotApplied(s) => FileErrorModel::PersistenceNotApplied(s@),
            Self::PersistenceApplied(s) => FileErrorModel::PersistenceApplied(s@),
            Self::PersistenceUnknown(s) => FileErrorModel::PersistenceUnknown(s@),
        }
    }
}

/// The text of an error.
pub open spec fn file_error_text(e: FileErrorModel) -> Seq<char> {
    match e {
        FileErrorModel::State(s) => s,
        FileErrorModel::BlobStore(s) => s,
        FileErrorModel::StreamRegistry(s) => s,
        FileErrorModel::Wasm(s) => s,
        FileErrorModel::ActionRejected(s) => s,
        FileErrorModel::PersistenceNotApplied(s) => s,
        FileErrorModel::PersistenceApplied(s) => s,
        FileErrorModel::PersistenceUnknown(s) => s,
    }
}

impl FileStreamContentError {
    /// The text of the error.
    pub fn message(&self) -> (r: &str)
        ensures
            r@ == file_error_text(self@),
    {
        match self {
            Self::State(s) => s.as_str(),
            Self::BlobStore(s) => s.as_str(),
            Self::StreamRegistry(s) => s.as_str(),
            Self::Wasm(s) => s.as_str(),
            Self::ActionRejected(s) => s.as_str(),
            Self::PersistenceNotApplied(s) => s.as_str(),
            Self::PersistenceApplied(s) => s.as_str(),
            Self::PersistenceUnknown(s) => s.as_str(),
        }
    }
}

/// What a file operation gives.
pub open spec fn file_outcome<T: View>(r: Result<T, FileStreamContentError>) -> Result<
    T::V,
    FileErrorModel,
> {
    match r {
        Ok(v) => Ok(v@),
        Err(e) => Err(e@),
    }
}

/// Why a workspace does not take content: it is known and not active. A file
/// without a workspace, or with one that cannot be found, has none to ask.
pub open spec fn workspace_refusal(workspace_id: Seq<char>, status: Option<Seq<char>>) -> Option<
    Seq<char>,
> {
    if workspace_id.len() > 0 && status is Some && status->0 != "Active"@ {
        Some(
            "workspace '"@ + workspace_id + "' is '"@ + status->0
                + "', not 'Active'; it does not accept new file content"@,
        )
    } else {
        None
    }
}

/// Rejects content for a workspace that is not active. `status` is that of the
/// workspace, where it can be found.
pub fn reject_write_if_workspace_not_active(workspace_id: &str, status: Option<&str>) -> (r: Result<
    (),
    FileStreamContentError,
>)
    ensures
        match r {
            Ok(_) => workspace_refusal(workspace_id@, opt_str(status)) is None,
            Err(e) => workspace_refusal(workspace_id@, opt_str(status)) is Some && e@
                == FileErrorModel::ActionRejected(
                workspace_refusal(workspace_id@, opt_str(status))->0,
            ),
        },
{
    if workspace_id.is_empty() {
        return Ok(());
    }
    match status {
        None => Ok(()),
        Some(status) => {
            if same(status, "Active") {
                return Ok(());
            }
            let mut text = "workspace '".to_owned();
            text.append(workspace_id);
            text.append("' is '");
            text.append(status);
            text.append("', not 'Active'; it does not accept new file content");
            Err(FileStreamContentError::ActionRejected(text))
        },
    }
}

/// The workspace that a file's fields name; none where they name none.
pub open spec fn workspace_of(fields: JsonModel) -> Seq<char> {
    match text_member(fields, "workspace_id"@) {
        Some(id) => id,
        None => Seq::empty(),
    }
}

/// The text of a member, and an empty one where there is none.
pub fn text_or_empty(fields: &Json, name: &str) -> (r: String)
    ensures
        r@ == match text_member(fields@, name@) {
            Some(s) => s,
            None => Seq::empty(),
        },
{
    match fields.get_text(name) {
        Some(s) => s.to_owned(),
        None => String::new(),
    }
}

/// Decides, before any byte is stored, whether a file takes new content: its
/// workspace does, and the file is at the sequence that the caller expects.
pub fn admit_file_content(
    fields: &Json,
    workspace_status: Option<&str>,
    expected_sequence: Option<u64>,
    current_sequence: u64,
) -> (r: Result<(), FileStreamContentError>)
    ensures
        ({
            let refusal = workspace_refusal(workspace_of(fields@), opt_str(workspace_status));
            match r {
                Ok(_) => refusal is None && (expected_sequence is Some ==> expected_sequence->0
                    == current_sequence),
                Err(e) => if refusal is Some {
                    e@ == FileErrorModel::ActionRejected(refusal->0)
                } else {
                    expected_sequence is Some && expected_sequence->0 != current_sequence && e@
                        == FileErrorModel::ActionRejected("SequenceConflict"@)
                },
            }
        }),
{
    let workspace_id = text_or_empty(fields, "workspace_id");
    match reject_write_if_workspace_not_active(workspace_id.as_str(), workspace_status) {
        Ok(_) => {},
        Err(e) => return Err(e),
    }
    match expected_sequence {
        Some(expected) => if expected != current_sequence {
            return Err(FileStreamContentError::ActionRejected("SequenceConflict".to_owned()));
        },
        None => {},
    }
    Ok(())
}

/// The digest of a file's content, and the key of the blob that holds it.
pub fn content_hash_and_native_blob_key(body: &[u8]) -> (r: (String, String))
    ensures
        r.0@ == content_digest(body@),
        r.1@ == "temper-fs/"@ + content_digest(body@),
{
    let content_hash = content_digest_of(body);
    let mut blob_key = "temper-fs/".to_owned();
    blob_key.append(content_hash.as_str());
    (content_hash, blob_key)
}

/// The parameters of the action that records new content.
pub open spec fn stream_updated(
    content_hash: Seq<char>,
    size_bytes: u64,
    mime_type: Seq<char>,
    version_number: u64,
    previous_version_id: Seq<char>,
    created_by: Seq<char>,
) -> Seq<(Seq<char>, JsonModel)> {
    seq![
        ("content_hash"@, JsonModel::Text(content_hash)),
        ("created_by"@, JsonModel::Text(created_by)),
        ("mime_type"@, JsonModel::Text(mime_type)),
        ("previous_version_id"@, JsonModel::Text(previous_version_id)),
        ("size_bytes"@, JsonModel::Number(NumberModel::Unsigned(size_bytes))),
        ("version_number"@, JsonModel::Number(NumberModel::Unsigned(version_number))),
    ]
}

/// The parameters of the action that records new content: the version after the
/// last one that the file counts.
pub fn stream_updated_params(
    content_hash: &str,
    size_bytes: u64,
    mime_type: &str,
    version_count: Option<u64>,
    fields: &Json,
    created_by: Option<&str>,
) -> (r: Json)
    requires
        version_count is Some ==> version_count->0 < u64::MAX,
    ensures
        r@ == JsonModel::Object(
            stream_updated(
                content_hash@,
                size_bytes,
                mime_type@,
                match version_count {
                    Some(n) => (n + 1) as u64,
                    None => 1,
                },
                match text_member(fields@, "last_version_id"@) {
                    Some(s) => s,
                    None => Seq::empty(),
                },
                match created_by {
                    Some(s) => s@,
                    None => Seq::empty(),
                },
            ),
        ),
{
    let version_number: u64 = match version_count {
        Some(n) => n + 1,
        None => 1,
    };
    let author = match created_by {
        Some(s) => s.to_owned(),
        None => String::new(),
    };
    let mut members: Vec<(String, Json)> = Vec::new();
    members.push(("content_hash".to_owned(), Json::Text(content_hash.to_owned())));
    members.push(("created_by".to_owned(), Json::Text(author)));
    members.push(("mime_type".to_owned(), Json::Text(mime_type.to_owned())));
    members.push(
        ("previous_version_id".to_owned(), Json::Text(text_or_empty(fields, "last_version_id"))),
    );
    members.push(("size_bytes".to_owned(), Json::Number(JsonNumber::Unsigned(size_bytes))));
    members.push(
        ("version_number".to_owned(), Json::Number(JsonNumber::Unsigned(version_number))),
    );
    let r = Json::Object(members);
    proof {
        crate::json::model_of_parts(r);
        assert(r@->Object_0 =~= stream_updated(
            content_hash@,
            size_bytes,
            mime_type@,
            version_number,
            match text_member(fields@, "last_version_id"@) {
                Some(s) => s,
                None => Seq::empty(),
            },
            author@,
        ));
    }
    r
}

/// Whether a native write that failed is tried again through the blob adapter:
/// the blob store failed, and the tenant's blob endpoint is not this server's
/// own.
pub fn falls_back_to_adapter(
    error: &FileStreamContentError,
    endpoint_set: bool,
    endpoint_is_local: bool,
) -> (r: bool)
    ensures
        r == (error@ is BlobStore && endpoint_set && !endpoint_is_local),
{
    match error {
        FileStreamContentError::BlobStore(_) => endpoint_set && !endpoint_is_local,
        _ => false,
    }
}

/// What the blob adapter answered.
#[derive(Clone, Debug, PartialEq, Eq)]
pub struct AdapterReply {
    pub success: bool,
    pub error: Option<String>,
    pub callback_action: String,
}

/// What follows the blob adapter's answer to an upload.
#[derive(Clone, Debug, PartialEq, Eq)]
pub enum UploadStep {
    /// The file's state is read again.
    Reload,
    /// The callback action is dispatched.
    Dispatch(String),
}

/// The text of an adapter's failure.
pub open spec fn adapter_failure(error: Option<Seq<char>>) -> Seq<char> {
    match error {
        Some(e) => e,
        None => "blob_adapter returned an unknown error"@,
    }
}

/// What follows the blob adapter's answer to an upload.
pub fn upload_step(reply: AdapterReply) -> (r: Result<UploadStep, FileStreamContentError>)
    ensures
        match r {
            Ok(UploadStep::Reload) => reply.success && reply.callback_action@.len() == 0,
            Ok(UploadStep::Dispatch(a)) => reply.success && reply.callback_action@.len() > 0 && a@
                == reply.callback_action@,
            Err(e) => !reply.success && e@ == FileErrorModel::Wasm(
                adapter_failure(opt_text(reply.error)),
            ),
        },
{
    if !reply.success {
        let text = match reply.error {
            Some(e) => e,
            None => "blob_adapter returned an unknown error".to_owned(),
        };
        return Err(FileStreamContentError::Wasm(text));
    }
    if reply.callback_action.as_str().is_empty() {
        Ok(UploadStep::Reload)
    } else {
        Ok(UploadStep::Dispatch(reply.callback_action))
    }
}

/// What the index of file streams gave for a file.
#[derive(Clone, Debug, PartialEq, Eq)]
pub enum IndexedFileStreamRead {
    Content(Vec<u8>),
    NoContent,
    MissingIndex,
    StaleIndex,
}

/// What a download does with the index's answer.
#[derive(Clone, Debug, PartialEq, Eq)]
pub enum DownloadStep {
    /// Answer with this status and these bytes.
    Respond(u16, Vec<u8>),
    /// Read the file through its actor.
    Materialize,
}

/// What a download does with the index's answer: content and its absence are
/// answered; a missing or stale index is read around.
pub fn download_step(read: IndexedFileStreamRead) -> (r: DownloadStep)
    ensures
        match read {
            IndexedFileStreamRead::Content(bytes) => r == DownloadStep::Respond(200, bytes),
            IndexedFileStreamRead::NoContent => r is Respond && r->Respond_0 == 404
                && r->Respond_1@.len() == 0,
            IndexedFileStreamRead::MissingIndex => r is Materialize,
            IndexedFileStreamRead::StaleIndex => r is Materialize,
        },
{
    match read {
        IndexedFileStreamRead::Content(bytes) => DownloadStep::Respond(200, bytes),
        IndexedFileStreamRead::NoContent => DownloadStep::Respond(404, Vec::new()),
        IndexedFileStreamRead::MissingIndex => DownloadStep::Materialize,
        IndexedFileStreamRead::StaleIndex => DownloadStep::Materialize,
    }
}

/// Whether an entity's state says that the file has content: its flag, else its
/// field, else not.
pub open spec fn says_content(state: JsonModel) -> bool {
    let flag = match member(state, "booleans"@) {
        Some(b) => bool_value(member(b, "has_content"@)),
        None => None,
    };
    let in_fields = match member(state, "fields"@) {
        Some(f) => bool_value(member(f, "has_content"@)),
        None => None,
    };
    match flag {
        Some(b) => b,
        None => match in_fields {
            Some(b) => b,
            None => false,
        },
    }
}

/// Whether an entity's state says that the file has content.
pub fn file_has_content(state: &Json) -> (r: bool)
    ensures
        r == says_content(state@),
{
    let flag = match state.get("booleans") {
        Some(b) => b.get_bool("has_content"),
        None => None,
    };
    match flag {
        Some(b) => b,
        None => match state.get("fields") {
            Some(f) => match f.get_bool("has_content") {
                Some(b) => b,
                None => false,
            },
            None => false,
        },
    }
}

/// A write of content is refused exactly where the file's workspace is known and
/// not active, or where the file has moved on from the sequence that was
/// expected. A file without a workspace that can be found is written.
pub proof fn content_goes_to_an_active_workspace_only(
    fields: &Json,
    status: Option<&str>,
    expected: Option<u64>,
    current: u64,
    r: Result<(), FileStreamContentError>,
)
    requires
        call_ensures(admit_file_content, (fields, status, expected, current), r),
    ensures
        ({
            let workspace = text_member(fields@, "workspace_id"@);
            let closed = workspace is Some && workspace->0.len() > 0 && status is Some
                && status->0@ != "Active"@;
            &&& r is Ok <==> !closed && (expected is Some ==> expected->0 == current)
            &&& r is Err ==> r->Err_0@ is ActionRejected
            &&& !closed && r is Err ==> r->Err_0@ == FileErrorModel::ActionRejected(
                "SequenceConflict"@,
            )
        }),
{
}

/// The action that records content says what was stored: its digest, its length,
/// its type, the version after the last one and the version before it, and who
/// made it.
pub proof fn recorded_content_is_what_was_stored(
    content_hash: &str,
    size_bytes: u64,
    mime_type: &str,
    version_count: Option<u64>,
    fields: &Json,
    created_by: Option<&str>,
    r: Json,
)
    requires
        version_count is Some ==> version_count->0 < u64::MAX,
        call_ensures(
            stream_updated_params,
            (content_hash, size_bytes, mime_type, version_count, fields, created_by),
            r,
        ),
    ensures
        member(r@, "content_hash"@) == Some(JsonModel::Text(content_hash@)),
        member(r@, "size_bytes"@) == Some(JsonModel::Number(NumberModel::Unsigned(size_bytes))),
        member(r@, "mime_type"@) == Some(JsonModel::Text(mime_type@)),
        member(r@, "version_number"@) == Some(
            JsonModel::Number(
                NumberModel::Unsigned(
                    match version_count {
                        Some(n) => (n + 1) as u64,
                        None => 1,
                    },
                ),
            ),
        ),
        member(r@, "previous_version_id"@) == Some(
            match text_member(fields@, "last_version_id"@) {
                Some(id) => JsonModel::Text(id),
                None => JsonModel::Text(Seq::empty()),
            },
        ),
        member(r@, "created_by"@) == Some(
            match created_by {
                Some(by) => JsonModel::Text(by@),
                None => JsonModel::Text(Seq::empty()),
            },
        ),
{
    reveal_strlit("content_hash");
    reveal_strlit("created_by");
    reveal_strlit("mime_type");
    reveal_strlit("previous_version_id");
    reveal_strlit("size_bytes");
    reveal_strlit("version_number");
    let s = r@->Object_0;
    assert("content_hash"@[0] == 'c' && "content_hash"@[1] == 'o');
    assert("created_by"@[0] == 'c' && "created_by"@[1] == 'r');
    assert("mime_type"@[0] == 'm');
    assert("previous_version_id"@[0] == 'p');
    assert("size_bytes"@[0] == 's');
    assert("version_number"@[0] == 'v');
    assert(s.len() == 6);
    a_member_is_found_at_its_place(s, 0);
    a_member_is_found_at_its_place(s, 1);
    a_member_is_found_at_its_place(s, 2);
    a_member_is_found_at_its_place(s, 3);
    a_member_is_found_at_its_place(s, 4);
    a_member_is_found_at_its_place(s, 5);
}

/// The first member of a name is the one that is found.
pub proof fn a_member_is_found_at_its_place(s: Seq<(Seq<char>, JsonModel)>, k: int)
    requires
        0 <= k < s.len(),
        forall|i: int| 0 <= i < k ==> (#[trigger] s[i]).0 != s[k].0,
    ensures
        crate::json::find_member(s, s[k].0) == Some(s[k].1),
    decreases k,
{
    if k > 0 {
        let rest = s.drop_first();
        assert forall|i: int| 0 <= i < rest.len() implies #[trigger] rest[i] == s[i + 1] by {}
        assert(s[0].0 != s[k].0);
        a_member_is_found_at_its_place(rest, k - 1);
    }
}

/// The native store keeps content under its own digest.
pub proof fn content_is_stored_under_its_digest(body: &[u8], r: (String, String))
    requires
        call_ensures(content_hash_and_native_blob_key, (body,), r),
    ensures
        r.0@ == content_digest(body@),
        r.1@ == "temper-fs/"@ + r.0@,
{
}

/// An upload goes to the adapter only where the native store failed and a remote
/// one is set.
pub proof fn only_a_failed_store_falls_back(
    error: &FileStreamContentError,
    endpoint_set: bool,
    endpoint_is_local: bool,
    r: bool,
)
    requires
        call_ensures(falls_back_to_adapter, (error, endpoint_set, endpoint_is_local), r),
    ensures
        r <==> *error is BlobStore && endpoint_set && !endpoint_is_local,
{
}

/// An upload by the adapter ends in the action that it asks for, or in a reload
/// where it asks for none; one that failed ends in its error.
pub proof fn an_upload_ends_as_its_adapter_says(
    reply: AdapterReply,
    r: Result<UploadStep, FileStreamContentError>,
)
    requires
        call_ensures(upload_step, (reply,), r),
    ensures
        r is Err <==> !reply.success,
        !reply.success && reply.error is Some ==> r->Err_0@ == FileErrorModel::Wasm(
            reply.error->0@,
        ),
        reply.success && reply.callback_action@.len() == 0 ==> r->Ok_0 is Reload,
        reply.success && reply.callback_action@.len() > 0 ==> r->Ok_0 is Dispatch
            && r->Ok_0->Dispatch_0@ == reply.callback_action@,
{
}

/// A download answers with the content that the index has, or that there is none;
/// where the index is missing or stale the file itself is read.
pub proof fn a_download_trusts_a_current_index(read: IndexedFileStreamRead, r: DownloadStep)
    requires
        call_ensures(download_step, (read,), r),
    ensures
        read is Content ==> r is Respond && r->Respond_0 == 200 && r->Respond_1
            == read->Content_0,
        read is NoContent ==> r is Respond && r->Respond_0 == 404 && r->Respond_1@.len() == 0,
        read is MissingIndex || read is StaleIndex <==> r is Materialize,
{
}

/// A file has content where its flag says so; its field is asked only where there
/// is no flag.
pub proof fn a_flag_comes_before_a_field(state: &Json, r: bool)
    requires
        call_ensures(file_has_content, (state,), r),
    ensures
        ({
            let flag = match member(state@, "booleans"@) {
                Some(b) => member(b, "has_content"@),
                None => None,
            };
            let field = match member(state@, "fields"@) {
                Some(f) => member(f, "has_content"@),
                None => None,
            };
            &&& flag is Some && flag->0 is Bool ==> r == flag->0->Bool_0
            &&& !(flag is Some && flag->0 is Bool) ==> r == (field is Some && field->0
                == JsonModel::Bool(true))
        }),
{
}

/// A write is refused exactly where it names a workspace that is known not to be
/// active.
pub proof fn only_a_closed_workspace_refuses(
    workspace_id: &str,
    status: Option<&str>,
    r: Result<(), FileStreamContentError>,
)
    requires
        call_ensures(reject_write_if_workspace_not_active, (workspace_id, status), r),
    ensures
        r is Err <==> workspace_id@.len() > 0 && status is Some && status->0@ != "Active"@,
        r is Err ==> r->Err_0@ is ActionRejected,
{
}

} // verus!
