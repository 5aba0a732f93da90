//! The run of a write of file content: no byte is stored before the file's
//! workspace was found to take it, and the events of a new file are written
//! together, after its content.

use vstd::prelude::*;
use vstd::string::*;

use crate::digest::content_digest;
use crate::file_initial_writes::admit_initial_file;
use crate::file_initial_writes::append_error;
use crate::file_initial_writes::apply_synthetic_file_action;
use crate::file_initial_writes::begin_synthetic_file;
use crate::file_initial_writes::counted;
use crate::file_initial_writes::first_descriptor;
use crate::file_initial_writes::has_create_params;
use crate::file_initial_writes::initial_append_error;
use crate::file_initial_writes::initial_descriptor;
use crate::file_initial_writes::initial_refusal;
use crate::file_initial_writes::plan_envelopes;
use crate::file_initial_writes::push_synthetic_event;
use crate::file_initial_writes::synthetic_event;
use crate::file_initial_writes::AppendFailure;
use crate::file_initial_writes::InitialChecks;
use crate::file_initial_writes::PlannedEnvelope;
use crate::file_initial_writes::SyntheticFile;
use crate::file_initial_writes::SyntheticResult;
use crate::file_writes::admit_file_content;
use crate::file_writes::content_hash_and_native_blob_key;
use crate::file_writes::reject_write_if_workspace_not_active;
use crate::file_writes::stream_updated;
use crate::file_writes::stream_updated_params;
use crate::file_writes::text_or_empty;
use crate::file_writes::workspace_of;
use crate::file_writes::workspace_refusal;
use crate::file_writes::FileErrorModel;
use crate::file_writes::FileStreamContentError;
use crate::json::text_member;
use crate::json::Json;
use crate::json::JsonModel;
use crate::query_projection::hidden_names;
use crate::query_projection::project_row;
use crate::query_projection::projected_row;
use crate::query_projection::ProjectionRow;
use crate::stream::EventModel;
use crate::stream::StreamDescriptor;
use crate::text::opt_as_str;
use crate::text::opt_str;
use crate::text::opt_text;
use crate::text::opt_view;
use crate::text::outcome;
use crate::text::views;
use crate::time::Timestamp;

verus! {

/// An error of a step, if it gave one.
pub open spec fn refused<T>(r: Result<T, FileStreamContentError>) -> Option<FileErrorModel> {
    match r {
        Ok(_) => None,
        Err(e) => Some(e@),
    }
}

fn failure_text(head: &str, name: &str, middle: &str, error: &str) -> (r: String)
    ensures
        r@ == head@ + name@ + middle@ + error@,
{
    let mut text = head.to_owned();
    text.append(name);
    text.append(middle);
    text.append(error);
    text
}

fn with_error(head: &str, error: &str) -> (r: String)
    ensures
        r@ == head@ + error@,
{
    let mut text = head.to_owned();
    text.append(error);
    text
}

/// Content that a file was found to take, and the blob that will hold it.
#[derive(Clone, Debug, PartialEq, Eq)]
pub struct NativeWrite {
    pub content_hash: String,
    pub blob_key: String,
}

/// A file as it is stored.
#[derive(Debug, PartialEq, Eq)]
pub struct StoredFile {
    pub fields: Json,
    pub sequence_nr: u64,
    pub version_count: Option<u64>,
}

/// Decides, before any byte is stored, whether a file takes new content.
/// `workspace_status` is that of its workspace, where it can be found.
pub fn admit_native_write(
    file_id: &str,
    file: &Result<StoredFile, String>,
    workspace_status: Option<&str>,
    expected_sequence: Option<u64>,
    body: &[u8],
) -> (r: Result<NativeWrite, FileStreamContentError>)
    ensures
        match *file {
            Err(e) => refused(r) == Some(
                FileErrorModel::State(
                    "failed to load File('"@ + file_id@ + "') state: "@ + e@,
                ),
            ),
            Ok(f) => {
                let refusal = workspace_refusal(
                    workspace_of(f.fields@),
                    opt_str(workspace_status),
                );
                match r {
                    Ok(w) => {
                        &&& refusal is None
                        &&& expected_sequence is Some ==> expected_sequence->0 == f.sequence_nr
                        &&& w.content_hash@ == content_digest(body@)
                        &&& w.blob_key@ == "temper-fs/"@ + content_digest(body@)
                    },
                    Err(e) => if refusal is Some {
                        e@ == FileErrorModel::ActionRejected(refusal->0)
                    } else {
                        expected_sequence is Some && expected_sequence->0 != f.sequence_nr && e@
                            == FileErrorModel::ActionRejected("SequenceConflict"@)
                    },
                }
            },
        },
{
    match file {
        Err(e) => Err(
            FileStreamContentError::State(
                failure_text("failed to load File('", file_id, "') state: ", e.as_str()),
            ),
        ),
        Ok(f) => {
            match admit_file_content(
                &f.fields,
                workspace_status,
                expected_sequence,
                f.sequence_nr,
            ) {
                Ok(_) => {},
                Err(e) => return Err(e),
            }
            let (content_hash, blob_key) = content_hash_and_native_blob_key(body);
            Ok(NativeWrite { content_hash, blob_key })
        },
    }
}

/// The parameters of the action that records content once it is stored, or why
/// it could not be.
pub fn record_native_write(
    write: &NativeWrite,
    file: &StoredFile,
    stored: &Result<(), String>,
    size_bytes: u64,
    mime_type: &str,
    created_by: Option<&str>,
) -> (r: Result<Json, FileStreamContentError>)
    requires
        file.version_count is Some ==> file.version_count->0 < u64::MAX,
    ensures
        match r {
            Ok(params) => {
                &&& *stored is Ok
                &&& params@ == JsonModel::Object(
                    stream_updated(
                        write.content_hash@,
                        size_bytes,
                        mime_type@,
                        match file.version_count {
                            Some(n) => (n + 1) as u64,
                            None => 1,
                        },
                        match text_member(file.fields@, "last_version_id"@) {
                            Some(s) => s,
                            None => Seq::empty(),
                        },
                        match created_by {
                            Some(s) => s@,
                            None => Seq::empty(),
                        },
                    ),
                )
            },
            Err(e) => *stored is Err && e@ == FileErrorModel::BlobStore(
                "failed to persist blob '"@ + write.blob_key@ + "': "@ + stored->Err_0@,
            ),
        },
{
    match stored {
        Err(e) => Err(
            FileStreamContentError::BlobStore(
                failure_text(
                    "failed to persist blob '",
                    write.blob_key.as_str(),
                    "': ",
                    e.as_str(),
                ),
            ),
        ),
        Ok(_) => Ok(
            stream_updated_params(
                write.content_hash.as_str(),
                size_bytes,
                mime_type,
                file.version_count,
                &file.fields,
                created_by,
            ),
        ),
    }
}

/// What the creation of a file with its first content waits for.
#[derive(Clone, Copy, Debug, PartialEq, Eq, Structural)]
pub enum InitialPhase {
    /// What is known of the file and its type is looked up.
    Survey,
    /// The state of the workspace is read.
    CheckWorkspace,
    /// The content is stored.
    StoreContent,
    /// The state machine is run for the create action.
    ApplyCreate,
    /// The state machine is run for the action that records the content.
    ApplyStream,
    /// It is looked up whether the file carries a stream descriptor.
    CheckContract,
    /// The events are written.
    Append,
    /// The query projection is written.
    Project,
    /// The answer is given.
    Return,
}

/// How far along a creation is.
pub open spec fn initial_rank(phase: InitialPhase) -> nat {
    match phase {
        InitialPhase::Survey => 0,
        InitialPhase::CheckWorkspace => 1,
        InitialPhase::StoreContent => 2,
        InitialPhase::ApplyCreate => 3,
        InitialPhase::ApplyStream => 4,
        InitialPhase::CheckContract => 5,
        InitialPhase::Append => 6,
        InitialPhase::Project => 7,
        InitialPhase::Return => 8,
    }
}

/// The creation of a file with its first content.
#[derive(Debug, PartialEq, Eq)]
pub struct InitialFileRun {
    pub tenant: String,
    pub file_id: String,
    pub create_params: Json,
    pub mime_type: String,
    pub created_by: Option<String>,
    pub phase: InitialPhase,
    /// The file was found not to exist, with a journal to write it to.
    pub admitted: bool,
    pub workspace_takes_content: bool,
    pub content_hash: String,
    pub byte_length: u64,
    pub stored: bool,
    pub file: SyntheticFile,
    /// The events are written.
    pub applied: bool,
}

impl InitialFileRun {
    /// A creation is only as far along as what came before allows: bytes are
    /// stored only for a file that does not exist, in a workspace that takes
    /// them; events are written only once the content is stored, and number
    /// from one without a gap until the journal gives the sequence of the last.
    pub open spec fn wf(&self) -> bool {
        let rank = initial_rank(self.phase);
        &&& rank <= 6 ==> counted(self.file)
        &&& rank >= 1 ==> self.admitted
        &&& rank >= 2 ==> self.workspace_takes_content
        &&& rank >= 3 ==> self.stored
        &&& rank <= 2 ==> !self.stored && self.file.events@.len() == 0
        &&& rank >= 7 ==> self.applied
        &&& rank <= 6 ==> !self.applied
        &&& rank == 3 ==> self.file.events@.len() == 1
        &&& rank == 4 ==> 1 <= self.file.events@.len() <= 2
        &&& rank >= 5 ==> 2 <= self.file.events@.len() <= 3
    }

    /// Nothing but its phase and what a step learnt changed in a creation.
    pub open spec fn same_request(&self, other: &Self) -> bool {
        &&& self.tenant == other.tenant
        &&& self.file_id == other.file_id
        &&& self.create_params == other.create_params
        &&& self.mime_type == other.mime_type
        &&& self.created_by == other.created_by
    }

    pub fn begin(
        tenant: String,
        file_id: String,
        create_params: Json,
        mime_type: String,
        created_by: Option<String>,
    ) -> (r: Self)
        ensures
            r.wf(),
            r.phase == InitialPhase::Survey,
            r.tenant == tenant,
            r.file_id == file_id,
            r.create_params == create_params,
            r.mime_type == mime_type,
            r.created_by == created_by,
    {
        InitialFileRun {
            tenant,
            file_id,
            create_params,
            mime_type,
            created_by,
            phase: InitialPhase::Survey,
            admitted: false,
            workspace_takes_content: false,
            content_hash: String::new(),
            byte_length: 0,
            stored: false,
            file: SyntheticFile {
                status: String::new(),
                fields: Json::Null,
                sequence_nr: 0,
                events: Vec::new(),
            },
            applied: false,
        }
    }

    /// What is known of the file and its type was looked up.
    pub fn surveyed(&mut self, checks: &InitialChecks) -> (r: Result<(), FileStreamContentError>)
        requires
            old(self).wf(),
            old(self).phase == InitialPhase::Survey,
        ensures
            final(self).wf(),
            final(self).same_request(old(self)),
            refused(r) == initial_refusal(*checks, old(self).tenant@, old(self).file_id@),
            r is Err ==> *final(self) == *old(self),
            r is Ok ==> *final(self) == (InitialFileRun {
                admitted: true,
                phase: InitialPhase::CheckWorkspace,
                ..*old(self)
            }),
    {
        match admit_initial_file(checks, self.tenant.as_str(), self.file_id.as_str()) {
            Ok(_) => {},
            Err(e) => return Err(e),
        }
        self.admitted = true;
        self.phase = InitialPhase::CheckWorkspace;
        Ok(())
    }

    /// The state of the workspace that the parameters name was read, where it
    /// can be found.
    pub fn workspace_checked(&mut self, status: Option<&str>) -> (r: Result<
        (),
        FileStreamContentError,
    >)
        requires
            old(self).wf(),
            old(self).phase == InitialPhase::CheckWorkspace,
        ensures
            final(self).wf(),
            final(self).same_request(old(self)),
            refused(r) == (match workspace_refusal(
                workspace_of(old(self).create_params@),
                opt_str(status),
            ) {
                Some(e) => Some(FileErrorModel::ActionRejected(e)),
                None => None,
            }),
            r is Err ==> *final(self) == *old(self),
            r is Ok ==> *final(self) == (InitialFileRun {
                workspace_takes_content: true,
                phase: InitialPhase::StoreContent,
                ..*old(self)
            }),
    {
        let workspace_id = text_or_empty(&self.create_params, "workspace_id");
        match reject_write_if_workspace_not_active(workspace_id.as_str(), status) {
            Ok(_) => {},
            Err(e) => return Err(e),
        }
        self.workspace_takes_content = true;
        self.phase = InitialPhase::StoreContent;
        Ok(())
    }

    /// The content was stored, with this digest and length. The file begins in
    /// its initial state, with the fields that a file has there; the create action
    /// runs where it has parameters.
    pub fn content_stored(
        &mut self,
        receipt: Result<(String, u64), String>,
        initial_state: &str,
        fields: Json,
        now: Timestamp,
    ) -> (r: Result<(), FileStreamContentError>)
        requires
            old(self).wf(),
            old(self).phase == InitialPhase::StoreContent,
        ensures
            final(self).wf(),
            final(self).same_request(old(self)),
            refused(r) == (match receipt {
                Err(e) => Some(
                    FileErrorModel::BlobStore("failed to persist attested File stream: "@ + e@),
                ),
                Ok(_) => None,
            }),
            r is Err ==> *final(self) == *old(self),
            r is Ok ==> {
                &&& receipt is Ok
                &&& final(self).content_hash == receipt->Ok_0.0
                &&& final(self).byte_length == receipt->Ok_0.1
                &&& final(self).file.status@ == initial_state@
                &&& final(self).file.fields == fields
                &&& final(self).file.sequence_nr == 1
                &&& views(final(self).file.events@) == seq![
                    EventModel {
                        action: "Created"@,
                        from_status: Seq::empty(),
                        to_status: initial_state@,
                        timestamp: now,
                        params: JsonModel::Object(Seq::empty()),
                        idempotency_key: None,
                    },
                ]
                &&& final(self).phase == if old(self).create_params@ is Object && old(
                    self,
                ).create_params@->Object_0.len() > 0 {
                    InitialPhase::ApplyCreate
                } else {
                    InitialPhase::ApplyStream
                }
            },
    {
        match receipt {
            Err(e) => Err(
                FileStreamContentError::BlobStore(
                    with_error("failed to persist attested File stream: ", e.as_str()),
                ),
            ),
            Ok((content_hash, byte_length)) => {
                let file = begin_synthetic_file(initial_state, fields, now);
                self.file = file;
                self.content_hash = content_hash;
                self.byte_length = byte_length;
                self.stored = true;
                self.phase = if has_create_params(&self.create_params) {
                    InitialPhase::ApplyCreate
                } else {
                    InitialPhase::ApplyStream
                };
                Ok(())
            },
        }
    }

    /// The state machine was run for the create action, and left the file in this
    /// status with these fields.
    pub fn create_applied(&mut self, result: SyntheticResult, status: String, fields: Json) -> (r:
        Result<(), FileStreamContentError>)
        requires
            old(self).wf(),
            old(self).phase == InitialPhase::ApplyCreate,
        ensures
            final(self).wf(),
            final(self).same_request(old(self)),
            refused(r) == (match synthetic_event(result, "Create"@) {
                Err(e) => Some(e),
                Ok(_) => None,
            }),
            r is Err ==> *final(self) == *old(self),
            r is Ok ==> {
                &&& *final(self) == (InitialFileRun {
                    phase: InitialPhase::ApplyStream,
                    file: final(self).file,
                    ..*old(self)
                })
                &&& final(self).file.status == status
                &&& final(self).file.fields == fields
                &&& final(self).file.sequence_nr == old(self).file.sequence_nr + 1
                &&& views(final(self).file.events@) == views(old(self).file.events@).push(
                    synthetic_event(result, "Create"@)->Ok_0,
                )
            },
    {
        match apply_synthetic_file_action(result, "Create") {
            Err(e) => Err(e),
            Ok(event) => {
                push_synthetic_event(&mut self.file, event);
                self.file.status = status;
                self.file.fields = fields;
                self.phase = InitialPhase::ApplyStream;
                Ok(())
            },
        }
    }

    /// The parameters of the action that records the content: the version after
    /// the last one that the file counts.
    pub fn stream_params(&self, version_count: Option<u64>) -> (r: Result<
        Json,
        FileStreamContentError,
    >)
        requires
            version_count is Some ==> version_count->0 < u64::MAX,
        ensures
            match r {
                Ok(params) => {
                    &&& self.byte_length <= i64::MAX
                    &&& params@ == JsonModel::Object(
                        stream_updated(
                            self.content_hash@,
                            self.byte_length,
                            self.mime_type@,
                            match version_count {
                                Some(n) => (n + 1) as u64,
                                None => 1,
                            },
                            match text_member(self.file.fields@, "last_version_id"@) {
                                Some(s) => s,
                                None => Seq::empty(),
                            },
                            match opt_text(self.created_by) {
                                Some(s) => s,
                                None => Seq::empty(),
                            },
                        ),
                    )
                },
                Err(e) => self.byte_length > i64::MAX && e@ == FileErrorModel::State(
                    "File byte length exceeds i64"@,
                ),
            },
    {
        if self.byte_length > i64::MAX as u64 {
            return Err(FileStreamContentError::State("File byte length exceeds i64".to_owned()));
        }
        Ok(
            stream_updated_params(
                self.content_hash.as_str(),
                self.byte_length,
                self.mime_type.as_str(),
                version_count,
                &self.file.fields,
                opt_as_str(&self.created_by),
            ),
        )
    }

    /// The state machine was run for the action that records the content, and left
    /// the file in this status with these fields.
    pub fn stream_applied(&mut self, result: SyntheticResult, status: String, fields: Json) -> (r:
        Result<(), FileStreamContentError>)
        requires
            old(self).wf(),
            old(self).phase == InitialPhase::ApplyStream,
        ensures
            final(self).wf(),
            final(self).same_request(old(self)),
            refused(r) == (match synthetic_event(result, "StreamUpdated"@) {
                Err(e) => Some(e),
                Ok(_) => None,
            }),
            r is Err ==> *final(self) == *old(self),
            r is Ok ==> {
                &&& *final(self) == (InitialFileRun {
                    phase: InitialPhase::CheckContract,
                    file: final(self).file,
                    ..*old(self)
                })
                &&& final(self).file.status == status
                &&& final(self).file.fields == fields
                &&& final(self).file.sequence_nr == old(self).file.sequence_nr + 1
                &&& views(final(self).file.events@) == views(old(self).file.events@).push(
                    synthetic_event(result, "StreamUpdated"@)->Ok_0,
                )
            },
    {
        match apply_synthetic_file_action(result, "StreamUpdated") {
            Err(e) => Err(e),
            Ok(event) => {
                push_synthetic_event(&mut self.file, event);
                self.file.status = status;
                self.file.fields = fields;
                self.phase = InitialPhase::CheckContract;
                Ok(())
            },
        }
    }

    /// It was looked up whether the file carries a stream descriptor. `form` is
    /// what the constructors of the descriptor and its subject say of their
    /// names. Gives the events as they are written, and the descriptor that the
    /// last of them carries.
    pub fn contract_checked(
        &mut self,
        activated: Result<bool, String>,
        form: Result<(), String>,
        storage_object_id: &str,
    ) -> (r: Result<(Vec<PlannedEnvelope>, Option<StreamDescriptor>), FileStreamContentError>)
        requires
            old(self).wf(),
            old(self).phase == InitialPhase::CheckContract,
        ensures
            final(self).wf(),
            final(self).same_request(old(self)),
            refused(r) == (match (activated, form) {
                (Err(e), _) => Some(FileErrorModel::State(e@)),
                (Ok(true), Err(e)) => Some(FileErrorModel::State(e@)),
                _ => None,
            }),
            r is Err ==> *final(self) == *old(self),
            r is Ok ==> {
                &&& activated is Ok
                &&& *final(self) == (InitialFileRun { phase: InitialPhase::Append, ..*old(self) })
                &&& r->Ok_0.0@.len() == old(self).file.events@.len()
                &&& forall|i: int|
                    0 <= i < r->Ok_0.0@.len() ==> (#[trigger] r->Ok_0.0@[i]).sequence_nr == i + 1
                        && r->Ok_0.0@[i].with_descriptor == (activated->Ok_0 && i + 1
                        == r->Ok_0.0@.len())
                &&& opt_view(r->Ok_0.1) == if activated->Ok_0 {
                    Some(
                        first_descriptor(
                            old(self).file_id@,
                            old(self).content_hash@,
                            storage_object_id@,
                            old(self).byte_length,
                            Some(old(self).mime_type@),
                            old(self).file.sequence_nr,
                        ),
                    )
                } else {
                    None
                }
            },
    {
        let has_descriptor = match activated {
            Err(e) => return Err(FileStreamContentError::State(e)),
            Ok(has_descriptor) => has_descriptor,
        };
        let descriptor = if has_descriptor {
            match form {
                Err(e) => return Err(FileStreamContentError::State(e)),
                Ok(_) => {},
            }
            Some(
                initial_descriptor(
                    self.file_id.as_str(),
                    self.content_hash.as_str(),
                    storage_object_id,
                    self.byte_length,
                    Some(self.mime_type.as_str()),
                    self.file.sequence_nr,
                ),
            )
        } else {
            None
        };
        let planned = plan_envelopes(&self.file, has_descriptor);
        self.phase = InitialPhase::Append;
        Ok((planned, descriptor))
    }

    /// The events were written: the journal gives the sequence of the last one.
    pub fn appended(&mut self, outcome: &Result<u64, AppendFailure>) -> (r: Result<
        (),
        FileStreamContentError,
    >)
        requires
            old(self).wf(),
            old(self).phase == InitialPhase::Append,
        ensures
            final(self).wf(),
            final(self).same_request(old(self)),
            refused(r) == (match *outcome {
                Err(failure) => Some(append_error(failure, old(self).file_id@)),
                Ok(_) => None,
            }),
            r is Err ==> *final(self) == *old(self),
            r is Ok ==> {
                &&& outcome is Ok
                &&& *final(self) == (InitialFileRun {
                    applied: true,
                    phase: InitialPhase::Project,
                    file: (SyntheticFile { sequence_nr: outcome->Ok_0, ..old(self).file }),
                    ..*old(self)
                })
            },
    {
        match outcome {
            Err(failure) => Err(initial_append_error(failure, self.file_id.as_str())),
            Ok(sequence_nr) => {
                self.file.sequence_nr = *sequence_nr;
                self.applied = true;
                self.phase = InitialPhase::Project;
                Ok(())
            },
        }
    }

    /// The row of the file in the query projection, with the sequence that the
    /// journal gave. `encoded` is the encoding of the file's state, and
    /// `unindexed` are the names that its specification keeps out of queries.
    pub fn projection_row(
        &self,
        encoded: &Result<Json, String>,
        unindexed: &Option<Vec<String>>,
    ) -> (r: ProjectionRow)
        requires
            self.wf(),
            self.phase == InitialPhase::Project,
        ensures
            r@ == projected_row(
                self.file.status@,
                self.file.fields@,
                outcome(*encoded),
                self.file.sequence_nr,
                hidden_names(*unindexed),
            ),
    {
        project_row(
            self.file.status.as_str(),
            &self.file.fields,
            encoded,
            self.file.sequence_nr,
            unindexed,
        )
    }

    /// The query projection was written, where there is one. A failure does not
    /// undo the events, and says so.
    pub fn projected(&mut self, outcome: Result<(), String>) -> (r: Result<
        (),
        FileStreamContentError,
    >)
        requires
            old(self).wf(),
            old(self).phase == InitialPhase::Project,
        ensures
            final(self).wf(),
            final(self).same_request(old(self)),
            refused(r) == (match outcome {
                Err(e) => Some(
                    FileErrorModel::PersistenceApplied(
                        "query projection write failed during atomic File initial content create: "@
                            + e@,
                    ),
                ),
                Ok(_) => None,
            }),
            r is Err ==> *final(self) == *old(self),
            r is Ok ==> *final(self) == (InitialFileRun {
                phase: InitialPhase::Return,
                ..*old(self)
            }),
    {
        match outcome {
            Err(e) => Err(
                FileStreamContentError::PersistenceApplied(
                    with_error(
                        "query projection write failed during atomic File initial content create: ",
                        e.as_str(),
                    ),
                ),
            ),
            Ok(_) => {
                self.phase = InitialPhase::Return;
                Ok(())
            },
        }
    }
}

/// No byte of a new file is stored unless the file does not exist and its
/// workspace takes content.
pub proof fn bytes_follow_the_workspace(run: InitialFileRun)
    requires
        run.wf(),
        run.phase == InitialPhase::StoreContent || run.stored,
    ensures
        run.admitted,
        run.workspace_takes_content,
{
}

/// The events of a new file are written only once its content is stored: two or
/// three of them, counted from one when they are handed to the journal.
pub proof fn events_follow_the_content(run: InitialFileRun)
    requires
        run.wf(),
        run.phase == InitialPhase::Append || run.applied,
    ensures
        run.stored,
        2 <= run.file.events@.len() <= 3,
        run.phase == InitialPhase::Append ==> run.file.sequence_nr == run.file.events@.len(),
{
}

/// A write of a file's content goes on only where the file could be read, its
/// workspace takes content and it is at the sequence that was expected; and then
/// under the digest of the very bytes that were sent.
pub proof fn a_native_write_is_of_the_bytes_that_were_sent(
    file_id: &str,
    file: &Result<StoredFile, String>,
    status: Option<&str>,
    expected: Option<u64>,
    body: &[u8],
    r: Result<NativeWrite, FileStreamContentError>,
)
    requires
        call_ensures(admit_native_write, (file_id, file, status, expected, body), r),
    ensures
        ({
            let workspace = text_member(file->Ok_0.fields@, "workspace_id"@);
            let closed = workspace is Some && workspace->0.len() > 0 && status is Some
                && status->0@ != "Active"@;
            r is Ok <==> *file is Ok && !closed && (expected is Some ==> expected->0
                == file->Ok_0.sequence_nr)
        }),
        r is Ok ==> r->Ok_0.content_hash@ == content_digest(body@) && r->Ok_0.blob_key@
            == "temper-fs/"@ + content_digest(body@),
        *file is Err ==> r->Err_0@ is State,
{
}

/// Content is recorded only once its bytes are stored, and as what they are.
pub proof fn content_is_recorded_once_it_is_stored(
    write: &NativeWrite,
    file: &StoredFile,
    stored: &Result<(), String>,
    size_bytes: u64,
    mime_type: &str,
    created_by: Option<&str>,
    r: Result<Json, FileStreamContentError>,
)
    requires
        file.version_count is Some ==> file.version_count->0 < u64::MAX,
        call_ensures(
            record_native_write,
            (write, file, stored, size_bytes, mime_type, created_by),
            r,
        ),
    ensures
        r is Ok <==> *stored is Ok,
        r is Err ==> r->Err_0@ is BlobStore,
        r is Ok ==> crate::json::member(r->Ok_0@, "content_hash"@) == Some(
            JsonModel::Text(write.content_hash@),
        ),
{
    if r is Ok {
        let s = r->Ok_0@->Object_0;
        crate::file_writes::a_member_is_found_at_its_place(s, 0);
    }
}

/// A creation gets past each step exactly where the step succeeded: the survey,
/// the workspace, the bytes, the state machine, the journal and the projection. A
/// step that fails leaves the creation as it was.
pub proof fn a_creation_gets_past_passed_steps_only()
    ensures
        forall|run: &mut InitialFileRun, checks: &InitialChecks, r: Result<(), FileStreamContentError>|
            run.wf() && run.phase == InitialPhase::Survey && #[trigger] call_ensures(
                InitialFileRun::surveyed,
                (run, checks),
                r,
            ) ==> {
                &&& r is Ok <==> checks.id_refusal is None && !checks.known && checks.has_journal
                    && checks.has_table && checks.reference_refusal is None
                &&& r is Ok ==> final(run).phase == InitialPhase::CheckWorkspace
                &&& r is Err ==> *final(run) == *run
            },
        forall|run: &mut InitialFileRun, status: Option<&str>, r: Result<(), FileStreamContentError>|
            run.wf() && run.phase == InitialPhase::CheckWorkspace && #[trigger] call_ensures(
                InitialFileRun::workspace_checked,
                (run, status),
                r,
            ) ==> {
                let workspace = text_member(run.create_params@, "workspace_id"@);
                &&& r is Err <==> workspace is Some && workspace->0.len() > 0 && status is Some
                    && status->0@ != "Active"@
                &&& r is Ok ==> final(run).phase == InitialPhase::StoreContent
                &&& r is Err ==> *final(run) == *run
            },
        forall|
            run: &mut InitialFileRun,
            receipt: Result<(String, u64), String>,
            initial_state: &str,
            fields: Json,
            now: Timestamp,
            r: Result<(), FileStreamContentError>,
        |
            run.wf() && run.phase == InitialPhase::StoreContent && #[trigger] call_ensures(
                InitialFileRun::content_stored,
                (run, receipt, initial_state, fields, now),
                r,
            ) ==> {
                &&& r is Ok <==> receipt is Ok
                &&& r is Ok ==> {
                    &&& final(run).content_hash == receipt->Ok_0.0
                    &&& final(run).byte_length == receipt->Ok_0.1
                    &&& final(run).file.status@ == initial_state@
                    &&& final(run).file.fields == fields
                    &&& final(run).file.sequence_nr == 1
                    &&& views(final(run).file.events@).len() == 1
                    &&& views(final(run).file.events@)[0].action == "Created"@
                    &&& views(final(run).file.events@)[0].to_status == initial_state@
                    &&& final(run).phase == InitialPhase::ApplyCreate <==> run.create_params@
                        is Object && run.create_params@->Object_0.len() > 0
                    &&& final(run).phase == InitialPhase::ApplyCreate || final(run).phase
                        == InitialPhase::ApplyStream
                }
                &&& r is Err ==> *final(run) == *run
            },
        forall|
            run: &mut InitialFileRun,
            outcome: &Result<u64, AppendFailure>,
            r: Result<(), FileStreamContentError>,
        |
            run.wf() && run.phase == InitialPhase::Append && #[trigger] call_ensures(
                InitialFileRun::appended,
                (run, outcome),
                r,
            ) ==> {
                &&& r is Ok <==> *outcome is Ok
                &&& r is Ok ==> final(run).file.sequence_nr == outcome->Ok_0 && final(run).phase
                    == InitialPhase::Project && final(run).file.events == run.file.events
                &&& r is Err ==> *final(run) == *run
                &&& *outcome is Err ==> (r->Err_0@ is PersistenceApplied <==> outcome->Err_0
                    is Applied) && (r->Err_0@ is PersistenceUnknown <==> outcome->Err_0
                    is Unknown)
            },
        forall|
            run: &mut InitialFileRun,
            outcome: Result<(), String>,
            r: Result<(), FileStreamContentError>,
        |
            run.wf() && run.phase == InitialPhase::Project && #[trigger] call_ensures(
                InitialFileRun::projected,
                (run, outcome),
                r,
            ) ==> {
                &&& r is Ok <==> outcome is Ok
                &&& r is Err ==> r->Err_0@ is PersistenceApplied && *final(run) == *run
                &&& r is Ok ==> final(run).phase == InitialPhase::Return
            },
{
    assert forall|
        run: &mut InitialFileRun,
        receipt: Result<(String, u64), String>,
        initial_state: &str,
        fields: Json,
        now: Timestamp,
        r: Result<(), FileStreamContentError>,
    |
        run.wf() && run.phase == InitialPhase::StoreContent && #[trigger] call_ensures(
            InitialFileRun::content_stored,
            (run, receipt, initial_state, fields, now),
            r,
        ) && r is Ok implies views(final(run).file.events@)[0].action == "Created"@ by {}
}

/// Each action that runs on a new file adds its own event, the one that the state
/// machine made, and leaves the file with the status and the fields that the
/// machine gave; one that was refused adds nothing.
pub proof fn each_action_adds_its_event()
    ensures
        forall|
            run: &mut InitialFileRun,
            result: SyntheticResult,
            status: String,
            fields: Json,
            r: Result<(), FileStreamContentError>,
        |
            run.wf() && run.phase == InitialPhase::ApplyCreate && #[trigger] call_ensures(
                InitialFileRun::create_applied,
                (run, result, status, fields),
                r,
            ) ==> {
                &&& r is Ok <==> !result.overflow && result.success && result.event is Some
                &&& r is Ok ==> {
                    &&& final(run).phase == InitialPhase::ApplyStream
                    &&& final(run).file.status == status
                    &&& final(run).file.fields == fields
                    &&& views(final(run).file.events@) == views(run.file.events@).push(
                        result.event->0@,
                    )
                    &&& final(run).content_hash == run.content_hash
                    &&& final(run).byte_length == run.byte_length
                }
                &&& r is Err ==> *final(run) == *run
            },
        forall|
            run: &mut InitialFileRun,
            result: SyntheticResult,
            status: String,
            fields: Json,
            r: Result<(), FileStreamContentError>,
        |
            run.wf() && run.phase == InitialPhase::ApplyStream && #[trigger] call_ensures(
                InitialFileRun::stream_applied,
                (run, result, status, fields),
                r,
            ) ==> {
                &&& r is Ok <==> !result.overflow && result.success && result.event is Some
                &&& r is Ok ==> {
                    &&& final(run).phase == InitialPhase::CheckContract
                    &&& final(run).file.status == status
                    &&& final(run).file.fields == fields
                    &&& views(final(run).file.events@) == views(run.file.events@).push(
                        result.event->0@,
                    )
                    &&& final(run).content_hash == run.content_hash
                    &&& final(run).byte_length == run.byte_length
                }
                &&& r is Err ==> *final(run) == *run
            },
{
}

/// The events that are written are those of the file, numbered from one, and the
/// last one carries the descriptor of the content that was stored exactly where
/// the file's type has a contract for it.
pub proof fn a_contracted_file_carries_its_descriptor()
    ensures
        forall|
            run: &mut InitialFileRun,
            activated: Result<bool, String>,
            form: Result<(), String>,
            storage: &str,
            r: Result<(Vec<PlannedEnvelope>, Option<StreamDescriptor>), FileStreamContentError>,
        |
            run.wf() && run.phase == InitialPhase::CheckContract && #[trigger] call_ensures(
                InitialFileRun::contract_checked,
                (run, activated, form, storage),
                r,
            ) ==> {
                &&& r is Err <==> activated is Err || (activated == Ok::<bool, String>(true)
                    && form is Err)
                &&& r is Err ==> *final(run) == *run
                &&& r is Ok ==> {
                    let d = r->Ok_0.1;
                    &&& final(run).phase == InitialPhase::Append
                    &&& r->Ok_0.0@.len() == run.file.events@.len()
                    &&& d is Some <==> activated->Ok_0
                    &&& d is Some ==> {
                        &&& d->0@.subject == ("File"@, run.file_id@)
                        &&& d->0@.content_hash == run.content_hash@
                        &&& d->0@.byte_length == run.byte_length
                        &&& d->0@.storage_object_id == storage@
                        &&& d->0@.content_type == Some(run.mime_type@)
                        &&& d->0@.descriptor_event_sequence == run.file.events@.len()
                        &&& d->0@.mutability == crate::stream::StreamMutability::Mutable
                    }
                }
            },
{
}

} // verus!
