//! Laws of the ranged read.

use vstd::prelude::*;
use vstd::utf8::encode_utf8;

use crate::digest::{is_zero, key_bytes, key_chars, DigestInfo};
use crate::error::{Code, ErrorView};
use crate::model::{db_exists, db_value, range_of, Db};
use crate::ranged_read::{
    exists_step,
    not_found_message,
    position_limit,
    read_start,
    read_step,
    PartReadView,
    ReadStepView,
    CHUNK_SIZE,
};

verus! {

/// What a read in state `s` passes on to its writer, or the error it fails with,
/// where the backend holds `blob` under its key and answers each window as asked.
pub open spec fn read_outcome(s: PartReadView, blob: Seq<u8>) -> Result<Seq<u8>, ErrorView>
    decreases position_limit() - s.start,
{
    let chunk = range_of(blob, s.start, s.window_end());
    if !s.valid() {
        Ok(Seq::empty())
    } else {
        match read_step(s, chunk) {
            Err(e) => Err(e),
            Ok(ReadStepView::SendThenFetch(sent, next)) => match read_outcome(next, blob) {
                Ok(rest) => Ok(sent + rest),
                Err(e) => Err(e),
            },
            Ok(ReadStepView::SendThenEof(sent)) => Ok(sent),
            Ok(_) => Ok(Seq::empty()),
        }
    }
}

/// What a read in state `s` passes on to its writer where the backend answers its
/// windows with `replies`, one after the other, whatever they hold.
pub open spec fn sent(s: PartReadView, replies: Seq<Seq<u8>>) -> Seq<u8>
    decreases replies.len(),
{
    if replies.len() == 0 {
        Seq::empty()
    } else {
        match read_step(s, replies.first()) {
            Ok(ReadStepView::SendThenFetch(chunk, next)) => chunk + sent(
                next,
                replies.drop_first(),
            ),
            Ok(ReadStepView::SendThenEof(chunk)) => chunk,
            _ => Seq::empty(),
        }
    }
}

/// A window never asks for more than `CHUNK_SIZE` bytes, and never for a negative
/// position.
pub proof fn law_windows_are_bounded(s: PartReadView)
    requires
        s.valid(),
    ensures
        0 <= s.requested() <= CHUNK_SIZE,
        0 <= s.start,
        0 <= s.window_end(),
{
}

/// A backend that answers a window as asked answers with no more than `CHUNK_SIZE`
/// bytes, so no chunk that such a read passes on is longer than that.
pub proof fn law_faithful_answers_fit_the_window(s: PartReadView, blob: Seq<u8>)
    requires
        s.valid(),
    ensures
        range_of(blob, s.start, s.window_end()).len() <= s.requested() <= CHUNK_SIZE,
{
}

/// Whatever the backend answers, a read of a requested length never passes more
/// than that length on to its writer.
pub proof fn law_delivery_stays_within_length(s: PartReadView, replies: Seq<Seq<u8>>)
    requires
        s.remaining is Some,
    ensures
        sent(s, replies).len() <= s.remaining->Some_0,
    decreases replies.len(),
{
    if replies.len() > 0 {
        match read_step(s, replies.first()) {
            Ok(ReadStepView::SendThenFetch(chunk, next)) => {
                law_delivery_stays_within_length(next, replies.drop_first());
            },
            _ => {},
        }
    }
}

/// Whatever the backend answers, what a read passes on to its writer is what the
/// backend answered, byte for byte and in order, up to the point where the read
/// stopped.
pub proof fn law_delivery_is_what_the_backend_answered(s: PartReadView, replies: Seq<Seq<u8>>)
    ensures
        sent(s, replies).is_prefix_of(answers(replies)),
    decreases replies.len(),
{
    if replies.len() > 0 {
        let rest = replies.drop_first();
        match read_step(s, replies.first()) {
            Ok(ReadStepView::SendThenFetch(chunk, next)) => {
                law_delivery_is_what_the_backend_answered(next, rest);
                let tail = sent(next, rest);
                assert(tail.is_prefix_of(answers(rest)));
                assert((chunk + tail).is_prefix_of(chunk + answers(rest))) by {
                    assert forall|i: int| 0 <= i < (chunk + tail).len() implies (chunk + tail)[i]
                        == (chunk + answers(rest))[i] by {
                        if i >= chunk.len() {
                            assert(tail[i - chunk.len()] == answers(rest)[i - chunk.len()]);
                        }
                    }
                }
            },
            Ok(ReadStepView::SendThenEof(chunk)) => {
                assert(chunk.is_prefix_of(chunk + answers(rest)));
            },
            _ => {},
        }
    }
}

/// The bytes of `replies`, one reply after the other.
pub open spec fn answers(replies: Seq<Seq<u8>>) -> Seq<u8>
    decreases replies.len(),
{
    if replies.len() == 0 {
        Seq::empty()
    } else {
        replies.first() + answers(replies.drop_first())
    }
}

/// What a read that starts with `first` passes on to its writer, or the error it
/// fails with, on the backend `db`.
pub open spec fn read_blob(first: ReadStepView, db: Db) -> Result<Seq<u8>, ErrorView> {
    match first {
        ReadStepView::CheckExists(key) => match exists_step(
            key,
            db_exists(db, encode_utf8(key)),
        ) {
            Ok(_) => Ok(Seq::empty()),
            Err(e) => Err(e),
        },
        ReadStepView::Fetch(s) => read_outcome(s, db_value(db, encode_utf8(s.key))),
        _ => Ok(Seq::empty()),
    }
}

/// The bytes of `blob` from position `offset` on: `length` of them, or fewer where
/// the blob ends before; without a length, all of them.
pub open spec fn requested_range(blob: Seq<u8>, offset: nat, length: Option<nat>) -> Seq<u8> {
    if offset >= blob.len() {
        Seq::empty()
    } else if length is Some && offset + length->Some_0 < blob.len() {
        blob.subrange(offset as int, (offset + length->Some_0) as int)
    } else {
        blob.subrange(offset as int, blob.len() as int)
    }
}

/// From any state in which it may wait for a window, a read on a faithful backend
/// succeeds and delivers what is left of the requested range.
pub proof fn lemma_read_outcome(s: PartReadView, blob: Seq<u8>)
    requires
        s.valid(),
        blob.len() <= position_limit(),
    ensures
        read_outcome(s, blob) == Ok::<Seq<u8>, ErrorView>(
            requested_range(blob, s.start as nat, s.remaining),
        ),
    decreases position_limit() - s.start,
{
    let len = blob.len() as int;
    let chunk = range_of(blob, s.start, s.window_end());
    let n = chunk.len();
    let goal = requested_range(blob, s.start as nat, s.remaining);
    if s.start >= len {
        assert(n == 0);
    } else {
        let wanted = s.wanted();
        assert(1 <= wanted <= CHUNK_SIZE);
        let stop: int = if s.start + wanted < len {
            s.start + wanted
        } else {
            len
        };
        assert(chunk =~= blob.subrange(s.start, stop));
        assert(n == stop - s.start);
        if n < s.requested() {
            assert(stop == len);
            assert(chunk =~= goal);
        } else if s.advance(n).remaining == Some(0nat) {
            assert(chunk =~= goal);
        } else {
            let next = s.advance(n);
            assert(n == s.requested());
            assert(next.start == s.start + n);
            assert(next.valid());
            lemma_read_outcome(next, blob);
            let rest = requested_range(blob, next.start as nat, next.remaining);
            assert(chunk + rest =~= goal);
        }
    }
}

/// A read of a blob delivers exactly the requested range: `length` bytes from
/// `offset` on, or as many as the blob has from there; nothing where `offset` lies
/// behind its end. A read of no bytes of a blob that exists delivers nothing and
/// succeeds.
pub proof fn law_read_delivers_requested_range(
    db: Db,
    digest: DigestInfo,
    offset: nat,
    length: Option<nat>,
)
    requires
        !is_zero(digest@),
        db_value(db, key_bytes(digest@)).len() <= position_limit(),
        length == Some(0nat) ==> db_exists(db, key_bytes(digest@)),
    ensures
        read_blob(read_start(digest, offset, length), db) == Ok::<Seq<u8>, ErrorView>(
            requested_range(db_value(db, key_bytes(digest@)), offset, length),
        ),
{
    let blob = db_value(db, key_bytes(digest@));
    let goal = requested_range(blob, offset, length);
    if length == Some(0nat) {
        assert(goal =~= Seq::<u8>::empty());
    } else {
        let s = read_start(digest, offset, length)->Fetch_0;
        lemma_read_outcome(s, blob);
        if offset > position_limit() {
            assert(goal =~= requested_range(blob, s.start as nat, s.remaining));
        }
    }
}

/// A read of no bytes of a blob that the backend does not hold fails with
/// `NotFound`.
pub proof fn law_read_of_nothing_checks_existence(db: Db, digest: DigestInfo, offset: nat)
    requires
        !is_zero(digest@),
        !db_exists(db, key_bytes(digest@)),
    ensures
        read_blob(read_start(digest, offset, Some(0nat)), db) == Err::<Seq<u8>, ErrorView>(
            ErrorView {
                code: Code::NotFound,
                messages: seq![not_found_message(key_chars(digest@))],
            },
        ),
{
}

/// The zero digest reads as the empty blob, whatever is asked for and whatever the
/// backend holds.
pub proof fn law_zero_digest_reads_empty(
    db: Db,
    digest: DigestInfo,
    offset: nat,
    length: Option<nat>,
)
    requires
        is_zero(digest@),
    ensures
        read_blob(read_start(digest, offset, length), db) == Ok::<Seq<u8>, ErrorView>(
            Seq::empty(),
        ),
{
}

} // verus!
