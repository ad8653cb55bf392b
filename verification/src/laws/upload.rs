//! Laws of the streamed ingest.

use vstd::prelude::*;
use vstd::utf8::encode_utf8;

use crate::digest::{hex_chars, is_zero, key_bytes, key_chars, DigestInfo};
use crate::ingest::{
    append_command,
    append_commands,
    ingest_start,
    ingest_step,
    temp_key_chars,
    CommitView,
    IngestStepView,
    IngestView,
};
use crate::model::{
    concat,
    db_all_succeed,
    db_append,
    db_apply,
    db_apply_all,
    db_rename,
    db_run,
    db_value,
    is_append,
    BackendOp,
    Db,
};

verus! {

/// Whether every chunk of `chunks` holds data.
pub open spec fn all_data(chunks: Seq<Seq<u8>>) -> bool {
    forall|i: int| 0 <= i < chunks.len() ==> (#[trigger] chunks[i]).len() > 0
}

/// What an upload in state `s` asks for after it has been handed `chunks` one by
/// one. Once it has stopped receiving, further chunks change nothing.
pub open spec fn ingest_feed(s: IngestView, chunks: Seq<Seq<u8>>) -> IngestStepView
    decreases chunks.len(),
{
    if chunks.len() == 0 {
        IngestStepView::Receive(s)
    } else {
        match ingest_feed(s, chunks.drop_last()) {
            IngestStepView::Receive(t) => ingest_step(t, chunks.last()),
            stopped => stopped,
        }
    }
}

/// The rounds of work in which the backend takes a batch: one round if the batch is
/// atomic, and otherwise a round for each command, between which others may work.
pub open spec fn batch_rounds(commands: Seq<Seq<Seq<u8>>>, atomic: bool) -> Seq<BackendOp> {
    if atomic {
        seq![BackendOp::Batch(commands)]
    } else {
        Seq::new(commands.len(), |i: int| BackendOp::Batch(seq![commands[i]]))
    }
}

/// The rounds of work on the backend that complete an upload: the batch, then the
/// rename.
pub open spec fn commit_ops(commit: CommitView) -> Seq<BackendOp> {
    batch_rounds(commit.commands, commit.atomic).push(
        BackendOp::Rename(encode_utf8(commit.temp_key), encode_utf8(commit.final_key)),
    )
}

/// The backend after an upload has been completed on it, with no other work in
/// between.
pub open spec fn db_commit(db: Db, commit: CommitView) -> Db {
    db_apply_all(db, commit_ops(commit))
}

/// The stream that carries `chunks` and then ends.
pub open spec fn stream_of(chunks: Seq<Seq<u8>>) -> Seq<Seq<u8>> {
    chunks.push(Seq::empty())
}

/// What the upload of `digest` under the temporary name `temp_name` hands out at
/// the end of a stream that carried `chunks`: one atomic batch that appends the
/// chunks in the order of their arrival, and the rename of its temporary key to
/// the key of the digest.
pub open spec fn upload_commit(
    digest: DigestInfo,
    temp_name: Seq<char>,
    chunks: Seq<Seq<u8>>,
) -> CommitView {
    CommitView {
        commands: append_commands(temp_key_chars(temp_name), chunks),
        atomic: true,
        temp_key: temp_key_chars(temp_name),
        final_key: key_chars(digest@),
    }
}

/// Completing an upload with an atomic batch is running the batch and renaming the
/// temporary key.
pub proof fn lemma_commit_unfolds(db: Db, commit: CommitView)
    requires
        commit.atomic,
    ensures
        commit_ops(commit) == seq![
            BackendOp::Batch(commit.commands),
            BackendOp::Rename(encode_utf8(commit.temp_key), encode_utf8(commit.final_key)),
        ],
        db_commit(db, commit) == db_rename(
            db_run(db, commit.commands),
            encode_utf8(commit.temp_key),
            encode_utf8(commit.final_key),
        ),
{
    let ops = commit_ops(commit);
    assert(ops =~= seq![
        BackendOp::Batch(commit.commands),
        BackendOp::Rename(encode_utf8(commit.temp_key), encode_utf8(commit.final_key)),
    ]);
    assert(ops.drop_last() =~= seq![ops[0]]);
    assert(ops.drop_last().drop_last() =~= Seq::<BackendOp>::empty());
    assert(db_apply_all(db, ops.drop_last().drop_last()) == db);
    assert(db_apply_all(db, ops.drop_last()) == db_apply(db, ops[0]));
}

/// An upload of the zero digest whose stream ends at once is done on the spot: it
/// succeeds, and no command for the backend is ever handed out.
pub proof fn law_zero_digest_upload_is_noop(digest: DigestInfo, temp_name: Seq<char>)
    requires
        is_zero(digest@),
    ensures
        ingest_feed(ingest_start(digest, temp_name), stream_of(Seq::empty()))
            == IngestStepView::Done,
{
    let s = ingest_start(digest, temp_name);
    let chunks = stream_of(Seq::empty());
    assert(chunks.drop_last() =~= Seq::<Seq<u8>>::empty());
    assert(ingest_feed(s, chunks.drop_last()) == IngestStepView::Receive(s));
}

/// While its stream has not ended, an upload only receives: whatever data has come,
/// it has handed out nothing for the backend, so the key of its digest is
/// untouched if the stream is abandoned.
pub proof fn law_unfinished_upload_only_receives(s: IngestView, chunks: Seq<Seq<u8>>)
    requires
        all_data(chunks),
    ensures
        ingest_feed(s, chunks) == IngestStepView::Receive(
            IngestView { chunks: s.chunks + chunks, ..s },
        ),
    decreases chunks.len(),
{
    if chunks.len() == 0 {
        assert(s.chunks + chunks =~= s.chunks);
    } else {
        law_unfinished_upload_only_receives(s, chunks.drop_last());
        assert(chunks.last().len() > 0);
        assert((s.chunks + chunks.drop_last()).push(chunks.last()) =~= s.chunks + chunks);
    }
}

/// At the end of its stream an upload hands out its commit, unless it is the
/// upload of the zero digest and no data came.
pub proof fn law_finished_upload_commits(
    digest: DigestInfo,
    temp_name: Seq<char>,
    chunks: Seq<Seq<u8>>,
)
    requires
        all_data(chunks),
        chunks.len() > 0 || !is_zero(digest@),
    ensures
        ingest_feed(ingest_start(digest, temp_name), stream_of(chunks))
            == IngestStepView::Commit(upload_commit(digest, temp_name, chunks)),
{
    let s = ingest_start(digest, temp_name);
    assert(stream_of(chunks).drop_last() =~= chunks);
    law_unfinished_upload_only_receives(s, chunks);
    assert(s.chunks + chunks =~= chunks);
}

/// A temporary key is never the key of a digest: it starts with a `t`, and the key
/// of a digest with a digit.
pub proof fn lemma_temp_key_is_no_digest_key(temp_name: Seq<char>, digest: DigestInfo)
    ensures
        temp_key_chars(temp_name) != key_chars(digest@),
        encode_utf8(temp_key_chars(temp_name)) != key_bytes(digest@),
{
    reveal_strlit("temp-");
    assert(temp_key_chars(temp_name)[0] == 't');
    assert(digest@.hash.len() == 32);
    assert(key_chars(digest@)[0] == hex_chars(digest@.hash)[0]);
    vstd::utf8::encode_utf8_decode_utf8(temp_key_chars(temp_name));
    vstd::utf8::encode_utf8_decode_utf8(key_chars(digest@));
}

/// A batch of appends under one key adds the bytes of its chunks, in order, to what
/// the key held, and leaves every other key alone.
pub proof fn lemma_run_appends(db: Db, key: Seq<char>, chunks: Seq<Seq<u8>>)
    ensures
        db_run(db, append_commands(key, chunks)) == if chunks.len() == 0 {
            db
        } else {
            db.insert(encode_utf8(key), db_value(db, encode_utf8(key)) + concat(chunks))
        },
    decreases chunks.len(),
{
    let commands = append_commands(key, chunks);
    let k = encode_utf8(key);
    if chunks.len() > 0 {
        let before = chunks.drop_last();
        assert(commands.drop_last() =~= append_commands(key, before));
        lemma_run_appends(db, key, before);
        let mid = db_run(db, commands.drop_last());
        assert(commands.last() == append_command(key, chunks.last()));
        assert(is_append(commands.last()));
        assert(db_run(db, commands) == db_append(mid, k, chunks.last()));
        if before.len() == 0 {
            assert(concat(before) =~= Seq::<u8>::empty());
            assert(db_value(db, k) + chunks.last() =~= db_value(db, k) + concat(chunks));
        } else {
            assert((db_value(db, k) + concat(before)) + chunks.last() =~= db_value(db, k)
                + concat(chunks));
            assert(db_append(mid, k, chunks.last()) =~= db.insert(
                k,
                db_value(db, k) + concat(chunks),
            ));
        }
    }
}

/// Completing an upload on a backend that does not hold its temporary key succeeds
/// in both rounds, puts the bytes of the stream, whole and in order, under the key
/// of the digest, and leaves no temporary key behind.
pub proof fn law_commit_stores_blob(
    db: Db,
    digest: DigestInfo,
    temp_name: Seq<char>,
    chunks: Seq<Seq<u8>>,
)
    requires
        chunks.len() > 0,
        !db.dom().contains(encode_utf8(temp_key_chars(temp_name))),
    ensures
        db_all_succeed(db, commit_ops(upload_commit(digest, temp_name, chunks))),
        ({
            let after = db_commit(db, upload_commit(digest, temp_name, chunks));
            &&& after.dom().contains(key_bytes(digest@))
            &&& after[key_bytes(digest@)] == concat(chunks)
            &&& !after.dom().contains(encode_utf8(temp_key_chars(temp_name)))
        }),
{
    let temp = temp_key_chars(temp_name);
    let ops = commit_ops(upload_commit(digest, temp_name, chunks));
    lemma_commit_unfolds(db, upload_commit(digest, temp_name, chunks));
    assert(ops.drop_last() =~= seq![ops[0]]);
    assert(ops.drop_last().drop_last() =~= Seq::<BackendOp>::empty());
    assert(db_all_succeed(db, ops.drop_last().drop_last()));
    assert(db_all_succeed(db, ops.drop_last()));
    assert(db_apply_all(db, ops.drop_last().drop_last()) == db);
    assert(db_apply_all(db, ops.drop_last()) == db_apply(db, ops[0]));
    lemma_run_appends(db, temp, chunks);
    assert(db_value(db, encode_utf8(temp)) + concat(chunks) =~= concat(chunks));
    lemma_temp_key_is_no_digest_key(temp_name, digest);
}

} // verus!
