//! Ranged streamed reads.
//!
//! A read asks the backend for its blob window by window, each of at most 64 KiB,
//! and passes every window it gets on to the writer. It ends the stream when the
//! backend has no more data, when a window comes back short, or when the requested
//! length has been delivered. The writer never gets more than was asked for.

use vstd::prelude::*;
use vstd::string::*;

use crate::digest::{digest_to_key, is_zero, is_zero_digest, key_chars, DigestInfo};
use crate::error::{Code, Error, ErrorView};
use crate::store::{RedisStore, TempNameGenerator};
use crate::trusted::bytes_contents;

verus! {

/// The largest window that is asked of the backend at once, in bytes.
pub const CHUNK_SIZE: usize = 65536;

/// The largest position that the backend can be asked for.
pub open spec fn position_limit() -> int {
    isize::MAX as int
}

/// `position`, held back at the largest position that the backend can be asked for.
pub open spec fn clip(position: int) -> int {
    if position > position_limit() {
        position_limit()
    } else {
        position
    }
}

/// Why a stream is ended.
#[derive(Clone, Copy, Debug, PartialEq, Eq, Structural)]
pub enum EofCause {
    /// The digest is the zero digest: its blob is empty, and the backend is not
    /// asked.
    ZeroDigest,
    /// No bytes were asked for, and the backend holds the blob.
    Exists,
    /// The read has delivered what there was to deliver.
    EndOfData,
}

/// A read in progress, mathematically.
pub struct PartReadView {
    /// The key of the blob.
    pub key: Seq<char>,
    /// The position of the next byte to ask for.
    pub start: int,
    /// How many bytes are still to be delivered, where a length was asked for.
    pub remaining: Option<nat>,
}

/// What a read asks of its caller next, mathematically.
pub enum ReadStepView {
    CheckExists(Seq<char>),
    Fetch(PartReadView),
    SendThenFetch(Seq<u8>, PartReadView),
    SendThenEof(Seq<u8>),
    SendEof(EofCause),
}

impl PartReadView {
    /// How many bytes the next window should have if the positions had no limit.
    pub open spec fn wanted(self) -> int {
        match self.remaining {
            Some(r) => if r < CHUNK_SIZE {
                r as int
            } else {
                CHUNK_SIZE as int
            },
            None => CHUNK_SIZE as int,
        }
    }

    /// The position of the last byte of the next window.
    pub open spec fn window_end(self) -> int {
        clip(self.start + self.wanted()) - 1
    }

    /// How many bytes the next window asks for.
    pub open spec fn requested(self) -> int {
        self.window_end() + 1 - self.start
    }

    /// The state after `n` more bytes have been delivered.
    pub open spec fn advance(self, n: nat) -> PartReadView {
        PartReadView {
            key: self.key,
            start: clip(self.start + n),
            remaining: match self.remaining {
                Some(r) => Some((r - n) as nat),
                None => None,
            },
        }
    }

    /// Whether the read may be waiting for a window: its position is one that the
    /// backend can be asked for, and there is something left to deliver.
    pub open spec fn valid(self) -> bool {
        &&& 0 <= self.start <= position_limit()
        &&& self.remaining matches Some(r) ==> r >= 1
    }
}

/// The message of the error for a window that would deliver more than was asked for.
pub open spec fn excess_message() -> Seq<char> {
    "Data received exceeds requested length"@
}

/// The message of the error for an existence check on an absent blob.
pub open spec fn not_found_message(key: Seq<char>) -> Seq<char> {
    "Data not found in Redis store for digest: "@ + key
}

/// The first step of the read of `length` bytes from position `offset` of the blob
/// of `digest`; without a length, of all bytes from there on.
pub open spec fn read_start(digest: DigestInfo, offset: nat, length: Option<nat>) -> ReadStepView {
    if is_zero(digest@) {
        ReadStepView::SendEof(EofCause::ZeroDigest)
    } else if length == Some(0nat) {
        ReadStepView::CheckExists(key_chars(digest@))
    } else {
        ReadStepView::Fetch(
            PartReadView { key: key_chars(digest@), start: clip(offset as int), remaining: length },
        )
    }
}

/// The decision of a read that asked whether its blob exists, on the answer.
pub open spec fn exists_step(key: Seq<char>, exists: bool) -> Result<ReadStepView, ErrorView> {
    if exists {
        Ok(ReadStepView::SendEof(EofCause::Exists))
    } else {
        Err(ErrorView { code: Code::NotFound, messages: seq![not_found_message(key)] })
    }
}

/// The decision of a read in state `s` on the window `chunk` from the backend.
pub open spec fn read_step(s: PartReadView, chunk: Seq<u8>) -> Result<ReadStepView, ErrorView> {
    let n = chunk.len();
    if n == 0 {
        Ok(ReadStepView::SendEof(EofCause::EndOfData))
    } else if s.remaining is Some && n > s.remaining->Some_0 {
        Err(ErrorView { code: Code::Internal, messages: seq![excess_message()] })
    } else if n < s.requested() || s.advance(n).remaining == Some(0nat) {
        Ok(ReadStepView::SendThenEof(chunk))
    } else {
        Ok(ReadStepView::SendThenFetch(chunk, s.advance(n)))
    }
}

/// A read that waits for the answer to whether its blob exists.
pub struct ExistenceCheck {
    key: String,
}

/// A read that waits for its next window from the backend.
pub struct PartRead {
    key: String,
    start: usize,
    remaining: Option<usize>,
}

/// What a read asks of its caller next.
pub enum ReadStep {
    /// Ask the backend whether the key of the check exists, and hand the answer to
    /// the check.
    CheckExists(ExistenceCheck),
    /// Ask the backend for the window of the read, and hand what comes back to the
    /// read.
    Fetch(PartRead),
    /// Pass these bytes on to the writer, then go on as for `Fetch`.
    SendThenFetch(bytes::Bytes, PartRead),
    /// Pass these bytes on to the writer, then end the stream. The read is
    /// complete.
    SendThenEof(bytes::Bytes),
    /// End the stream. The read is complete.
    SendEof(EofCause),
}

impl View for ExistenceCheck {
    type V = Seq<char>;

    closed spec fn view(&self) -> Seq<char> {
        self.key@
    }
}

impl View for PartRead {
    type V = PartReadView;

    closed spec fn view(&self) -> PartReadView {
        PartReadView {
            key: self.key@,
            start: self.start as int,
            remaining: match self.remaining {
                Some(r) => Some(r as nat),
                None => None,
            },
        }
    }
}

impl View for ReadStep {
    type V = ReadStepView;

    open spec fn view(&self) -> ReadStepView {
        match self {
            ReadStep::CheckExists(check) => ReadStepView::CheckExists(check@),
            ReadStep::Fetch(read) => ReadStepView::Fetch(read@),
            ReadStep::SendThenFetch(chunk, read) => ReadStepView::SendThenFetch(
                bytes_contents(*chunk),
                read@,
            ),
            ReadStep::SendThenEof(chunk) => ReadStepView::SendThenEof(bytes_contents(*chunk)),
            ReadStep::SendEof(cause) => ReadStepView::SendEof(*cause),
        }
    }
}

/// The view of a step that may have failed.
pub open spec fn step_view(r: Result<ReadStep, Error>) -> Result<ReadStepView, ErrorView> {
    match r {
        Ok(step) => Ok(step@),
        Err(e) => Err(e@),
    }
}

impl ExistenceCheck {
    /// The key to ask the backend about.
    pub fn key(&self) -> (key: &String)
        ensures
            key@ == self@,
    {
        &self.key
    }

    /// Takes the backend's answer: the stream is ended if the blob exists, and the
    /// read fails with `NotFound` if it does not.
    pub fn on_exists(self, exists: bool) -> (r: Result<ReadStep, Error>)
        ensures
            step_view(r) == exists_step(self@, exists),
    {
        if exists {
            Ok(ReadStep::SendEof(EofCause::Exists))
        } else {
            let mut message = String::from_str("Data not found in Redis store for digest: ");
            message.append(self.key.as_str());
            Err(Error::new(Code::NotFound, message))
        }
    }
}

impl PartRead {
    #[verifier::type_invariant]
    spec fn well_formed(&self) -> bool {
        self@.valid()
    }

    /// The key of the blob.
    pub fn key(&self) -> (key: &String)
        ensures
            key@ == self@.key,
    {
        &self.key
    }

    /// The position of the first byte of the window to ask for. It is never
    /// negative.
    pub fn start(&self) -> (start: isize)
        ensures
            start == self@.start,
            start >= 0,
    {
        proof {
            use_type_invariant(self);
        }
        self.start as isize
    }

    /// The position behind the last byte of the window to ask for.
    fn beyond(&self) -> (beyond: usize)
        ensures
            beyond == self@.window_end() + 1,
            self@.start <= beyond <= position_limit(),
            beyond >= 1,
    {
        proof {
            use_type_invariant(self);
        }
        let limit: usize = isize::MAX as usize;
        let wanted: usize = match self.remaining {
            Some(r) => if r < CHUNK_SIZE {
                r
            } else {
                CHUNK_SIZE
            },
            None => CHUNK_SIZE,
        };
        if wanted > limit - self.start {
            limit
        } else {
            self.start + wanted
        }
    }

    /// The position of the last byte of the window to ask for. It is never
    /// negative, and the window never has more than `CHUNK_SIZE` bytes.
    pub fn end(&self) -> (end: isize)
        ensures
            end == self@.window_end(),
            end >= 0,
            end - self@.start < CHUNK_SIZE,
    {
        (self.beyond() - 1) as isize
    }

    /// Takes the window that the backend returned.
    ///
    /// An empty window ends the stream. A window that would bring the delivered
    /// bytes over the requested length fails the read with an internal error, and
    /// no byte of it is passed on. Any other window is handed back to be passed on
    /// as it is; the stream ends behind it if it is shorter than was asked for or
    /// completes the requested length, and otherwise the read goes on with the next
    /// window.
    pub fn on_chunk(self, chunk: bytes::Bytes) -> (r: Result<ReadStep, Error>)
        ensures
            step_view(r) == read_step(self@, bytes_contents(chunk)),
    {
        proof {
            use_type_invariant(&self);
        }
        let n: usize = chunk.len();
        if n == 0 {
            return Ok(ReadStep::SendEof(EofCause::EndOfData));
        }
        let requested: usize = self.beyond() - self.start;
        let PartRead { key, start, remaining } = self;
        let left: Option<usize> = match remaining {
            Some(r) => {
                if n > r {
                    return Err(
                        Error::new(
                            Code::Internal,
                            String::from_str("Data received exceeds requested length"),
                        ),
                    );
                }
                Some(r - n)
            },
            None => None,
        };
        let limit: usize = isize::MAX as usize;
        let next: usize = if n > limit - start {
            limit
        } else {
            start + n
        };
        let complete: bool = match left {
            Some(l) => l == 0,
            None => false,
        };
        if complete || n < requested {
            Ok(ReadStep::SendThenEof(chunk))
        } else {
            Ok(ReadStep::SendThenFetch(chunk, PartRead { key, start: next, remaining: left }))
        }
    }
}

/// The message added to the error of a writer that did not take the end of the
/// stream.
pub open spec fn send_eof_failure_message(cause: EofCause) -> Seq<char> {
    match cause {
        EofCause::ZeroDigest => "Failed to send zero EOF in redis store get_part_ref"@,
        EofCause::Exists => "Failed to write EOF in redis store get_part_ref"@,
        EofCause::EndOfData => "Failed to write EOF in redis store get_part"@,
    }
}

/// The message added to the error of a writer that did not take a window.
pub open spec fn send_data_failure_message() -> Seq<char> {
    "Failed to write data in Redis store"@
}

/// The error of a read whose writer did not take the end of the stream: the error
/// of the writer, with a note of where it struck.
pub fn on_send_eof_error(cause: EofCause, error: Error) -> (e: Error)
    ensures
        e@.code == error@.code,
        e@.messages == error@.messages.push(send_eof_failure_message(cause)),
{
    let context = match cause {
        EofCause::ZeroDigest => "Failed to send zero EOF in redis store get_part_ref",
        EofCause::Exists => "Failed to write EOF in redis store get_part_ref",
        EofCause::EndOfData => "Failed to write EOF in redis store get_part",
    };
    error.append(String::from_str(context))
}

/// The error of a read whose writer did not take a window: the error of the writer,
/// with a note of where it struck.
pub fn on_send_data_error(error: Error) -> (e: Error)
    ensures
        e@.code == error@.code,
        e@.messages == error@.messages.push(send_data_failure_message()),
{
    error.append(String::from_str("Failed to write data in Redis store"))
}

impl<T, G: TempNameGenerator> RedisStore<T, G> {
    /// Starts the read of `length` bytes from position `offset` of the blob of
    /// `digest`; without a length, of all bytes from there on.
    ///
    /// The zero digest reads as the empty stream, without a word to the backend. A
    /// read of no bytes only checks that the backend holds the blob. Any other read
    /// starts with its first window.
    pub fn get_part_ref(&self, digest: DigestInfo, offset: usize, length: Option<usize>) -> (step:
        ReadStep)
        ensures
            step@ == read_start(
                digest,
                offset as nat,
                match length {
                    Some(l) => Some(l as nat),
                    None => None,
                },
            ),
    {
        if is_zero_digest(&digest) {
            return ReadStep::SendEof(EofCause::ZeroDigest);
        }
        let key = digest_to_key(&digest);
        match length {
            Some(l) => {
                if l == 0 {
                    return ReadStep::CheckExists(ExistenceCheck { key });
                }
            },
            None => {},
        }
        let limit: usize = isize::MAX as usize;
        let start: usize = if offset > limit {
            limit
        } else {
            offset
        };
        ReadStep::Fetch(PartRead { key, start, remaining: length })
    }
}

} // verus!
