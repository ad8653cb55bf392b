//! Streamed ingest with atomic commit.
//!
//! An upload gathers the chunks of a blob into one atomic pipeline of `APPEND`
//! commands on a temporary key. Nothing is handed out for the backend before the
//! stream has ended; then the pipeline is run and the temporary key is renamed to
//! the key of the digest, so that the blob appears under its key whole or not at
//! all.

use vstd::prelude::*;
use vstd::string::*;
use vstd::utf8::encode_utf8;

use crate::digest::{digest_to_key, is_zero, is_zero_digest, key_chars, DigestInfo};
use crate::error::{Error, ErrorView};
use crate::store::{from_redis_err, redis_error_view, RedisStore, TempNameGenerator};
use crate::trusted::{
    add_argument,
    bytes_contents,
    make_atomic,
    pipeline_atomic,
    pipeline_commands,
    start_command,
};

verus! {

/// What the caller of an upload knows of the size of the blob.
#[derive(Clone, Copy, Debug, PartialEq, Eq)]
pub enum UploadSizeInfo {
    /// The blob has exactly this many bytes.
    ExactSize(usize),
    /// The blob has at most this many bytes.
    MaxSize(usize),
}

/// The characters of the temporary key for a generated name.
pub open spec fn temp_key_chars(temp_name: Seq<char>) -> Seq<char> {
    "temp-"@ + temp_name
}

/// The command that appends `chunk` to what the backend holds under `temp_key`.
pub open spec fn append_command(temp_key: Seq<char>, chunk: Seq<u8>) -> Seq<Seq<u8>> {
    seq![encode_utf8("APPEND"@), encode_utf8(temp_key), chunk]
}

/// The commands that append `chunks`, one after the other, under `temp_key`.
pub open spec fn append_commands(temp_key: Seq<char>, chunks: Seq<Seq<u8>>) -> Seq<Seq<Seq<u8>>> {
    Seq::new(chunks.len(), |i: int| append_command(temp_key, chunks[i]))
}

/// The chunks that a batch of `APPEND` commands appends: the last argument of each.
pub open spec fn appended_chunks(commands: Seq<Seq<Seq<u8>>>) -> Seq<Seq<u8>> {
    commands.map_values(|c: Seq<Seq<u8>>| c[2])
}

/// An upload in progress, mathematically.
pub struct IngestView {
    /// Whether the digest of the upload is the zero digest.
    pub zero_digest: bool,
    /// The temporary key that gathers the chunks.
    pub temp_key: Seq<char>,
    /// The key of the digest.
    pub final_key: Seq<char>,
    /// The chunks received so far.
    pub chunks: Seq<Seq<u8>>,
}

/// What is to be done on the backend to complete an upload, mathematically.
pub struct CommitView {
    /// The commands of the batch, which runs first.
    pub commands: Seq<Seq<Seq<u8>>>,
    /// Whether the batch is applied as one transaction.
    pub atomic: bool,
    /// The key to rename once the batch has run.
    pub temp_key: Seq<char>,
    /// The key to rename it to.
    pub final_key: Seq<char>,
}

/// The rename that completes an upload, mathematically.
pub struct RenameView {
    /// The key to rename: the temporary key of the upload.
    pub from: Seq<char>,
    /// The key to rename it to: the key of the digest.
    pub to: Seq<char>,
}

/// What an upload asks of its caller next, mathematically.
pub enum IngestStepView {
    Receive(IngestView),
    Done,
    Commit(CommitView),
}

/// The decision of an upload in state `s` on a chunk from its stream. The empty
/// chunk marks the end of the stream.
pub open spec fn ingest_step(s: IngestView, chunk: Seq<u8>) -> IngestStepView {
    if chunk.len() > 0 {
        IngestStepView::Receive(IngestView { chunks: s.chunks.push(chunk), ..s })
    } else if s.zero_digest && s.chunks.len() == 0 {
        IngestStepView::Done
    } else {
        IngestStepView::Commit(
            CommitView {
                commands: append_commands(s.temp_key, s.chunks),
                atomic: true,
                temp_key: s.temp_key,
                final_key: s.final_key,
            },
        )
    }
}

/// The decision of an upload on how its batch went: where the batch has run, the
/// rename of its temporary key to the key of its digest; where it has failed, the
/// failure as an internal error, and no rename.
pub open spec fn batch_step(commit: CommitView, outcome: Result<(), redis::RedisError>) -> Result<
    RenameView,
    ErrorView,
> {
    match outcome {
        Ok(_) => Ok(RenameView { from: commit.temp_key, to: commit.final_key }),
        Err(e) => Err(redis_error_view(e)),
    }
}

/// The result of an upload, given how its rename went: success where the key was
/// renamed, and the failure as an internal error where it was not.
pub open spec fn rename_step(outcome: Result<(), redis::RedisError>) -> Result<(), ErrorView> {
    match outcome {
        Ok(_) => Ok(()),
        Err(e) => Err(redis_error_view(e)),
    }
}

/// The state of an upload that has received nothing yet.
pub open spec fn ingest_start(digest: DigestInfo, temp_name: Seq<char>) -> IngestView {
    IngestView {
        zero_digest: is_zero(digest@),
        temp_key: temp_key_chars(temp_name),
        final_key: key_chars(digest@),
        chunks: Seq::empty(),
    }
}

/// The message added to the error of a stream that failed before its end.
pub open spec fn receive_failure_message() -> Seq<char> {
    "Failed to reach chunk in update in redis store"@
}

/// An upload in progress: it waits for the next chunk of its stream.
pub struct Ingest {
    zero_digest: bool,
    temp_key: String,
    final_key: String,
    pipe: redis::Pipeline,
    appended: bool,
}

/// An upload whose stream has ended: its batch is to be run on the backend, and
/// how that went is to be handed back. The rename is not given out before.
pub struct Commit {
    batch: redis::Pipeline,
    temp_key: String,
    final_key: String,
}

/// The last step of an upload: the key `from` is to be renamed to `to`, and how
/// that went is to be handed back.
pub struct Rename {
    pub from: String,
    pub to: String,
}

/// What an upload asks of its caller next.
pub enum IngestStep {
    /// The chunk was taken. Yield to other tasks, then wait for the next chunk of
    /// the stream and hand it to the upload.
    Receive(Ingest),
    /// The stream has ended and there is nothing to store. The upload has
    /// succeeded without a word to the backend.
    Done,
    /// The stream has ended. Run the batch of the commit on the backend and hand
    /// back how it went.
    Commit(Commit),
}

impl View for Commit {
    type V = CommitView;

    closed spec fn view(&self) -> CommitView {
        CommitView {
            commands: pipeline_commands(self.batch),
            atomic: pipeline_atomic(self.batch),
            temp_key: self.temp_key@,
            final_key: self.final_key@,
        }
    }
}

impl View for Rename {
    type V = RenameView;

    open spec fn view(&self) -> RenameView {
        RenameView { from: self.from@, to: self.to@ }
    }
}

impl View for Ingest {
    type V = IngestView;

    closed spec fn view(&self) -> IngestView {
        IngestView {
            zero_digest: self.zero_digest,
            temp_key: self.temp_key@,
            final_key: self.final_key@,
            chunks: appended_chunks(pipeline_commands(self.pipe)),
        }
    }
}

impl View for IngestStep {
    type V = IngestStepView;

    open spec fn view(&self) -> IngestStepView {
        match self {
            IngestStep::Receive(ingest) => IngestStepView::Receive(ingest@),
            IngestStep::Done => IngestStepView::Done,
            IngestStep::Commit(commit) => IngestStepView::Commit(commit@),
        }
    }
}

impl Ingest {
    #[verifier::type_invariant]
    spec fn well_formed(&self) -> bool {
        &&& pipeline_atomic(self.pipe)
        &&& pipeline_commands(self.pipe) == append_commands(self.temp_key@, self@.chunks)
        &&& self.appended == (self@.chunks.len() > 0)
    }

    /// An upload for `digest` that gathers its chunks under the temporary key made
    /// from `temp_name`. It has received nothing yet.
    pub fn begin(digest: &DigestInfo, temp_name: &str) -> (ingest: Ingest)
        ensures
            ingest@ == ingest_start(*digest, temp_name@),
    {
        let mut temp_key = String::from_str("temp-");
        temp_key.append(temp_name);
        let mut pipe = redis::pipe();
        make_atomic(&mut pipe);
        proof {
            let chunks = appended_chunks(pipeline_commands(pipe));
            assert(chunks =~= Seq::empty());
            assert(pipeline_commands(pipe) =~= append_commands(temp_key@, chunks));
        }
        Ingest {
            zero_digest: is_zero_digest(digest),
            temp_key,
            final_key: digest_to_key(digest),
            pipe,
            appended: false,
        }
    }

    /// Takes the next chunk of the stream; the empty chunk marks its end.
    ///
    /// A chunk with data is added to the batch and the upload goes on receiving. At
    /// the end of the stream the upload is done if its digest is the zero digest and
    /// no data came; otherwise it hands out its commit, which starts with the batch
    /// of the appends.
    pub fn on_chunk(self, chunk: &bytes::Bytes) -> (step: IngestStep)
        ensures
            step@ == ingest_step(self@, bytes_contents(*chunk)),
    {
        proof {
            use_type_invariant(&self);
        }
        let ghost before = self@;
        let Ingest { zero_digest, temp_key, final_key, mut pipe, appended } = self;
        if chunk.len() > 0 {
            let ghost commands = pipeline_commands(pipe);
            start_command(&mut pipe, "APPEND");
            let ghost started = pipeline_commands(pipe);
            add_argument(&mut pipe, temp_key.as_str().as_bytes());
            let ghost keyed = pipeline_commands(pipe);
            add_argument(&mut pipe, &*chunk);
            proof {
                let data = bytes_contents(*chunk);
                let chunks = appended_chunks(pipeline_commands(pipe));
                assert(started.drop_last() =~= commands);
                assert(keyed.drop_last() =~= commands);
                assert(keyed.last().push(data) =~= append_command(temp_key@, data));
                assert(pipeline_commands(pipe) =~= commands.push(
                    append_command(temp_key@, data),
                ));
                assert(chunks =~= before.chunks.push(data));
                assert(pipeline_commands(pipe) =~= append_commands(temp_key@, chunks));
            }
            IngestStep::Receive(Ingest { zero_digest, temp_key, final_key, pipe, appended: true })
        } else if zero_digest && !appended {
            IngestStep::Done
        } else {
            IngestStep::Commit(Commit { batch: pipe, temp_key, final_key })
        }
    }

    /// The error of an upload whose stream failed before its end: the error of the
    /// stream, with a note of where it struck. The upload is over, and nothing of
    /// it has reached the backend.
    pub fn on_receive_error(self, error: Error) -> (e: Error)
        ensures
            e@.code == error@.code,
            e@.messages == error@.messages.push(receive_failure_message()),
    {
        error.append(String::from_str("Failed to reach chunk in update in redis store"))
    }
}

impl Commit {
    /// The batch to run on the backend: the appends of the chunks, as one
    /// transaction.
    pub fn batch(&self) -> (batch: &redis::Pipeline)
        ensures
            pipeline_commands(*batch) == self@.commands,
            pipeline_atomic(*batch) == self@.atomic,
    {
        &self.batch
    }

    /// Takes how the batch went. Where it has run, the rename that completes the
    /// upload is given out. Where it has failed, the upload fails with what the
    /// backend reported, and the key of the digest stays as it was.
    pub fn on_batch(self, outcome: Result<(), redis::RedisError>) -> (r: Result<Rename, Error>)
        ensures
            match r {
                Ok(rename) => Ok::<RenameView, ErrorView>(rename@),
                Err(e) => Err(e@),
            } == batch_step(self@, outcome),
    {
        match outcome {
            Ok(_) => Ok(Rename { from: self.temp_key, to: self.final_key }),
            Err(e) => Err(from_redis_err(e)),
        }
    }
}

impl Rename {
    /// Takes how the rename went: the upload has succeeded where the key was
    /// renamed, and fails with what the backend reported where it was not.
    pub fn on_renamed(self, outcome: Result<(), redis::RedisError>) -> (r: Result<(), Error>)
        ensures
            match r {
                Ok(_) => Ok::<(), ErrorView>(()),
                Err(e) => Err(e@),
            } == rename_step(outcome),
    {
        match outcome {
            Ok(_) => Ok(()),
            Err(e) => Err(from_redis_err(e)),
        }
    }
}

impl<T, G: TempNameGenerator> RedisStore<T, G> {
    /// Starts the upload of the blob of `digest`, under a temporary key with a
    /// freshly generated name: one that the store's generator gives. The size hint
    /// is not used.
    ///
    /// The upload is to be fed the chunks of the stream, up to and including the
    /// empty chunk that marks its end.
    pub fn update(&self, digest: DigestInfo, _upload_size: UploadSizeInfo) -> (ingest: Ingest)
        ensures
            exists|temp_name: Seq<char>|
                #![trigger ingest_start(digest, temp_name)]
                self.temp_name_generator_spec().may_give(temp_name) && ingest@ == ingest_start(
                    digest,
                    temp_name,
                ),
    {
        let temp_name = self.next_temp_name();
        let ingest = Ingest::begin(&digest, temp_name.as_str());
        assert(ingest@ == ingest_start(digest, temp_name@));
        ingest
    }
}

} // verus!
