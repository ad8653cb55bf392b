//! Laws of uploads that run side by side.
//!
//! The backend takes the rounds of work of all uploads in some order. An upload's
//! own rounds keep their order; how they fall among the rounds of others is not
//! known. The laws here hold for every such order.

use vstd::prelude::*;
use vstd::utf8::encode_utf8;

use crate::digest::{key_bytes, law_key_bytes_determine_digest, DigestInfo};
use crate::ingest::{append_commands, temp_key_chars, CommitView};
use crate::laws::upload::{
    commit_ops,
    law_commit_stores_blob,
    lemma_commit_unfolds,
    lemma_run_appends,
    lemma_temp_key_is_no_digest_key,
    upload_commit,
};
use crate::model::{
    agree_on,
    command_touches,
    concat,
    db_all_succeed,
    db_apply,
    db_apply_all,
    db_run,
    db_value,
    is_append,
    batch_touches,
    is_interleaving,
    op_touches,
    BackendOp,
    Db,
};

verus! {

/// Whether two backends hold the same under every key of `keys`.
pub open spec fn agree_on_all(a: Db, b: Db, keys: Set<Seq<u8>>) -> bool {
    forall|k: Seq<u8>| keys.contains(k) ==> agree_on(a, b, k)
}

/// Whether every round of `ops` reads and writes keys of `keys` only.
pub open spec fn ops_within(ops: Seq<BackendOp>, keys: Set<Seq<u8>>) -> bool {
    forall|i: int, k: Seq<u8>|
        0 <= i < ops.len() && #[trigger] op_touches(ops[i], k) ==> keys.contains(k)
}

/// Whether no round of `ops` reads or writes a key of `keys`.
pub open spec fn ops_outside(ops: Seq<BackendOp>, keys: Set<Seq<u8>>) -> bool {
    forall|i: int, k: Seq<u8>|
        0 <= i < ops.len() && keys.contains(k) ==> !#[trigger] op_touches(ops[i], k)
}

/// A batch leaves alone what is under a key that none of its commands names.
proof fn lemma_run_frame(db: Db, commands: Seq<Seq<Seq<u8>>>, key: Seq<u8>)
    requires
        !batch_touches(commands, key),
    ensures
        agree_on(db_run(db, commands), db, key),
    decreases commands.len(),
{
    if commands.len() > 0 {
        let before = commands.drop_last();
        if batch_touches(before, key) {
            let i = choose|i: int| 0 <= i < before.len() && command_touches(before[i], key);
            assert(before[i] == commands[i]);
            assert(command_touches(commands[i], key));
        }
        lemma_run_frame(db, before, key);
        assert(!command_touches(commands[commands.len() - 1], key));
    }
}

/// A round of work leaves alone what is under a key that it does not touch.
proof fn lemma_apply_frame(db: Db, op: BackendOp, key: Seq<u8>)
    requires
        !op_touches(op, key),
    ensures
        agree_on(db_apply(db, op), db, key),
{
    match op {
        BackendOp::Batch(commands) => {
            lemma_run_frame(db, commands, key);
        },
        BackendOp::Rename(from, to) => {},
    }
}

/// What a batch leaves under the keys it names depends on nothing but what was
/// under those keys.
proof fn lemma_run_local(a: Db, b: Db, commands: Seq<Seq<Seq<u8>>>, keys: Set<Seq<u8>>)
    requires
        agree_on_all(a, b, keys),
        forall|k: Seq<u8>| batch_touches(commands, k) ==> keys.contains(k),
    ensures
        agree_on_all(db_run(a, commands), db_run(b, commands), keys),
    decreases commands.len(),
{
    if commands.len() > 0 {
        let before = commands.drop_last();
        let last = commands.last();
        assert forall|k: Seq<u8>| batch_touches(before, k) implies keys.contains(k) by {
            let i = choose|i: int| 0 <= i < before.len() && command_touches(before[i], k);
            assert(before[i] == commands[i]);
            assert(command_touches(commands[i], k));
            assert(batch_touches(commands, k));
        }
        lemma_run_local(a, b, before, keys);
        if is_append(last) {
            assert(command_touches(commands[commands.len() - 1], last[1]));
            assert(batch_touches(commands, last[1]));
            assert(keys.contains(last[1]));
        }
    }
}

/// What a round of work leaves under the keys it touches depends on nothing but
/// what was under those keys.
proof fn lemma_apply_local(a: Db, b: Db, op: BackendOp, keys: Set<Seq<u8>>)
    requires
        agree_on_all(a, b, keys),
        forall|k: Seq<u8>| op_touches(op, k) ==> keys.contains(k),
    ensures
        agree_on_all(db_apply(a, op), db_apply(b, op), keys),
{
    match op {
        BackendOp::Batch(commands) => {
            lemma_run_local(a, b, commands, keys);
        },
        BackendOp::Rename(from, to) => {
            assert(op_touches(op, from));
            assert(op_touches(op, to));
        },
    }
}

/// Rounds of work that stay within a set of keys are not disturbed by rounds that
/// stay outside it: however the two are interleaved, the keys of the set end up as
/// if the first had run alone.
pub proof fn law_interleaved_rounds_do_not_interfere(
    db: Db,
    schedule: Seq<BackendOp>,
    a: Seq<BackendOp>,
    b: Seq<BackendOp>,
    keys: Set<Seq<u8>>,
)
    requires
        is_interleaving(schedule, a, b),
        ops_within(a, keys),
        ops_outside(b, keys),
    ensures
        agree_on_all(db_apply_all(db, schedule), db_apply_all(db, a), keys),
    decreases schedule.len(),
{
    if schedule.len() > 0 {
        let before = schedule.drop_last();
        let op = schedule.last();
        if a.len() > 0 && op == a.last() && is_interleaving(before, a.drop_last(), b) {
            let rest = a.drop_last();
            assert forall|i: int, k: Seq<u8>|
                0 <= i < rest.len() && #[trigger] op_touches(rest[i], k) implies keys.contains(
                k,
            ) by {
                assert(rest[i] == a[i]);
            }
            law_interleaved_rounds_do_not_interfere(db, before, rest, b, keys);
            assert forall|k: Seq<u8>| op_touches(op, k) implies keys.contains(k) by {
                assert(op_touches(a[a.len() - 1], k));
            }
            lemma_apply_local(db_apply_all(db, before), db_apply_all(db, rest), op, keys);
        } else {
            let rest = b.drop_last();
            assert forall|i: int, k: Seq<u8>|
                0 <= i < rest.len() && keys.contains(k) implies !#[trigger] op_touches(
                rest[i],
                k,
            ) by {
                assert(rest[i] == b[i]);
            }
            law_interleaved_rounds_do_not_interfere(db, before, a, rest, keys);
            assert forall|k: Seq<u8>| keys.contains(k) implies agree_on(
                db_apply_all(db, schedule),
                db_apply_all(db, a),
                k,
            ) by {
                assert(!op_touches(b[b.len() - 1], k));
                lemma_apply_frame(db_apply_all(db, before), op, k);
            }
        }
    }
}

/// An interleaving of two sequences is an interleaving of them in the other order.
pub proof fn lemma_interleaving_symmetric(
    schedule: Seq<BackendOp>,
    a: Seq<BackendOp>,
    b: Seq<BackendOp>,
)
    requires
        is_interleaving(schedule, a, b),
    ensures
        is_interleaving(schedule, b, a),
    decreases schedule.len(),
{
    if schedule.len() > 0 {
        if a.len() > 0 && schedule.last() == a.last() && is_interleaving(
            schedule.drop_last(),
            a.drop_last(),
            b,
        ) {
            lemma_interleaving_symmetric(schedule.drop_last(), a.drop_last(), b);
        } else {
            lemma_interleaving_symmetric(schedule.drop_last(), a, b.drop_last());
        }
    }
}

/// Different names give different temporary keys.
pub proof fn lemma_temp_keys_differ(first: Seq<char>, second: Seq<char>)
    requires
        first != second,
    ensures
        encode_utf8(temp_key_chars(first)) != encode_utf8(temp_key_chars(second)),
{
    let a = temp_key_chars(first);
    let b = temp_key_chars(second);
    let n = "temp-"@.len() as int;
    assert(a.subrange(n, a.len() as int) =~= first);
    assert(b.subrange(n, b.len() as int) =~= second);
    vstd::utf8::encode_utf8_decode_utf8(a);
    vstd::utf8::encode_utf8_decode_utf8(b);
}

/// The rounds that complete an upload touch its temporary key and the key of its
/// digest, and no other.
proof fn lemma_commit_ops_touch(commit: CommitView, chunks: Seq<Seq<u8>>, others: Set<Seq<u8>>)
    requires
        commit.atomic,
        commit.commands == append_commands(commit.temp_key, chunks),
        !others.contains(encode_utf8(commit.temp_key)),
        !others.contains(encode_utf8(commit.final_key)),
    ensures
        ops_within(
            commit_ops(commit),
            set![encode_utf8(commit.temp_key), encode_utf8(commit.final_key)],
        ),
        ops_outside(commit_ops(commit), others),
{
    let commands = commit.commands;
    let ops = commit_ops(commit);
    let temp = encode_utf8(commit.temp_key);
    let dest = encode_utf8(commit.final_key);
    lemma_commit_unfolds(Map::empty(), commit);
    assert forall|k: Seq<u8>| batch_touches(commands, k) implies k == temp by {
        let i = choose|i: int| 0 <= i < commands.len() && command_touches(commands[i], k);
        assert(commands[i][1] == temp);
    }
    assert forall|i: int, k: Seq<u8>| 0 <= i < ops.len() && #[trigger] op_touches(
        ops[i],
        k,
    ) implies k == temp || k == dest by {
        if i == 0 {
            assert(ops[i] == BackendOp::Batch(commands));
        } else {
            assert(ops[i] == BackendOp::Rename(temp, dest));
        }
    }
    assert(set![temp, dest].contains(temp));
    assert(set![temp, dest].contains(dest));
}

/// Two uploads of different blobs that run side by side both complete: however
/// the backend takes their rounds, in the end the key of each digest holds the
/// bytes of its own stream, whole and in order.
pub proof fn law_concurrent_uploads_both_complete(
    db: Db,
    first: DigestInfo,
    first_name: Seq<char>,
    first_chunks: Seq<Seq<u8>>,
    second: DigestInfo,
    second_name: Seq<char>,
    second_chunks: Seq<Seq<u8>>,
    schedule: Seq<BackendOp>,
)
    requires
        first@ != second@,
        first_name != second_name,
        first_chunks.len() > 0,
        second_chunks.len() > 0,
        !db.dom().contains(encode_utf8(temp_key_chars(first_name))),
        !db.dom().contains(encode_utf8(temp_key_chars(second_name))),
        is_interleaving(
            schedule,
            commit_ops(upload_commit(first, first_name, first_chunks)),
            commit_ops(upload_commit(second, second_name, second_chunks)),
        ),
    ensures
        db_all_succeed(db, schedule),
        db_apply_all(db, schedule).dom().contains(key_bytes(first@)),
        db_apply_all(db, schedule)[key_bytes(first@)] == concat(first_chunks),
        db_apply_all(db, schedule).dom().contains(key_bytes(second@)),
        db_apply_all(db, schedule)[key_bytes(second@)] == concat(second_chunks),
{
    let a = upload_commit(first, first_name, first_chunks);
    let b = upload_commit(second, second_name, second_chunks);
    let ta = encode_utf8(a.temp_key);
    let tb = encode_utf8(b.temp_key);
    let fa = key_bytes(first@);
    let fb = key_bytes(second@);
    lemma_temp_key_is_no_digest_key(first_name, first);
    lemma_temp_key_is_no_digest_key(first_name, second);
    lemma_temp_key_is_no_digest_key(second_name, first);
    lemma_temp_key_is_no_digest_key(second_name, second);
    lemma_temp_keys_differ(first_name, second_name);
    if fa == fb {
        law_key_bytes_determine_digest(first, second);
    }
    lemma_both_succeed(db, a, first_chunks, b, second_chunks, schedule);
    law_commit_stores_blob(db, first, first_name, first_chunks);
    law_commit_stores_blob(db, second, second_name, second_chunks);
    let ka = set![ta, fa];
    let kb = set![tb, fb];
    lemma_commit_ops_touch(a, first_chunks, kb);
    lemma_commit_ops_touch(b, second_chunks, ka);
    law_interleaved_rounds_do_not_interfere(db, schedule, commit_ops(a), commit_ops(b), ka);
    lemma_interleaving_symmetric(schedule, commit_ops(a), commit_ops(b));
    law_interleaved_rounds_do_not_interfere(db, schedule, commit_ops(b), commit_ops(a), kb);
    assert(ka.contains(fa));
    assert(kb.contains(fb));
}

/// Two uploads of one digest that run side by side race at their renames: however
/// the backend takes their rounds, in the end the key of the digest holds the
/// bytes of the stream whose rename came last, whole and in order.
pub proof fn law_same_digest_last_rename_wins(
    db: Db,
    digest: DigestInfo,
    first_name: Seq<char>,
    first_chunks: Seq<Seq<u8>>,
    second_name: Seq<char>,
    second_chunks: Seq<Seq<u8>>,
    schedule: Seq<BackendOp>,
)
    requires
        first_name != second_name,
        first_chunks.len() > 0,
        second_chunks.len() > 0,
        !db.dom().contains(encode_utf8(temp_key_chars(first_name))),
        !db.dom().contains(encode_utf8(temp_key_chars(second_name))),
        is_interleaving(
            schedule,
            commit_ops(upload_commit(digest, first_name, first_chunks)),
            commit_ops(upload_commit(digest, second_name, second_chunks)),
        ),
    ensures
        schedule.len() > 0,
        db_all_succeed(db, schedule),
        db_apply_all(db, schedule).dom().contains(key_bytes(digest@)),
        db_apply_all(db, schedule)[key_bytes(digest@)] == if schedule.last()
            == BackendOp::Rename(encode_utf8(temp_key_chars(first_name)), key_bytes(digest@)) {
            concat(first_chunks)
        } else {
            concat(second_chunks)
        },
{
    let a = upload_commit(digest, first_name, first_chunks);
    let b = upload_commit(digest, second_name, second_chunks);
    lemma_temp_key_is_no_digest_key(first_name, digest);
    lemma_temp_key_is_no_digest_key(second_name, digest);
    lemma_temp_keys_differ(first_name, second_name);
    lemma_both_succeed(db, a, first_chunks, b, second_chunks, schedule);
    let before = schedule.drop_last();
    if commit_ops(a).len() > 0 && schedule.last() == commit_ops(a).last() && is_interleaving(
        before,
        commit_ops(a).drop_last(),
        commit_ops(b),
    ) {
        lemma_last_rename(db, a, first_chunks, b, second_chunks, before);
    } else {
        lemma_interleaving_symmetric(before, commit_ops(a), commit_ops(b).drop_last());
        lemma_last_rename(db, b, second_chunks, a, first_chunks, before);
    }
}

/// Behind its own batch, and among any rounds that leave its temporary key alone,
/// an upload finds the bytes of its stream under its temporary key.
proof fn lemma_rename_finds_key(
    db: Db,
    commit: CommitView,
    chunks: Seq<Seq<u8>>,
    others: Seq<BackendOp>,
    before: Seq<BackendOp>,
)
    requires
        commit.commands == append_commands(commit.temp_key, chunks),
        chunks.len() > 0,
        !db.dom().contains(encode_utf8(commit.temp_key)),
        ops_outside(others, set![encode_utf8(commit.temp_key)]),
        is_interleaving(before, seq![BackendOp::Batch(commit.commands)], others),
    ensures
        db_apply_all(db, before).dom().contains(encode_utf8(commit.temp_key)),
        db_apply_all(db, before)[encode_utf8(commit.temp_key)] == concat(chunks),
{
    let temp = encode_utf8(commit.temp_key);
    let keys = set![temp];
    let batch = seq![BackendOp::Batch(commit.commands)];
    assert forall|i: int, k: Seq<u8>|
        0 <= i < batch.len() && #[trigger] op_touches(batch[i], k) implies keys.contains(k) by {
        let j = choose|j: int|
            0 <= j < commit.commands.len() && command_touches(commit.commands[j], k);
        assert(commit.commands[j][1] == temp);
    }
    law_interleaved_rounds_do_not_interfere(db, before, batch, others, keys);
    assert(batch.drop_last() =~= Seq::<BackendOp>::empty());
    assert(db_apply_all(db, batch.drop_last()) == db);
    assert(batch.last() == BackendOp::Batch(commit.commands));
    assert(db_apply_all(db, batch) == db_run(db, commit.commands));
    lemma_run_appends(db, commit.temp_key, chunks);
    assert(db_value(db, temp) + concat(chunks) =~= concat(chunks));
    assert(keys.contains(temp));
    assert(agree_on(db_apply_all(db, before), db_apply_all(db, batch), temp));
}

/// Where the rename of one upload comes behind all rounds of another and behind its
/// own batch, it finds the bytes of its own stream under its temporary key and
/// moves them to the key of its digest.
proof fn lemma_last_rename(
    db: Db,
    last: CommitView,
    last_chunks: Seq<Seq<u8>>,
    other: CommitView,
    other_chunks: Seq<Seq<u8>>,
    before: Seq<BackendOp>,
)
    requires
        last.atomic,
        other.atomic,
        last.commands == append_commands(last.temp_key, last_chunks),
        other.commands == append_commands(other.temp_key, other_chunks),
        last_chunks.len() > 0,
        encode_utf8(last.temp_key) != encode_utf8(other.temp_key),
        encode_utf8(last.temp_key) != encode_utf8(other.final_key),
        !db.dom().contains(encode_utf8(last.temp_key)),
        is_interleaving(before, commit_ops(last).drop_last(), commit_ops(other)),
    ensures
        db_apply(db_apply_all(db, before), commit_ops(last).last()).dom().contains(
            encode_utf8(last.final_key),
        ),
        db_apply(db_apply_all(db, before), commit_ops(last).last())[encode_utf8(last.final_key)]
            == concat(last_chunks),
{
    lemma_commit_unfolds(db, last);
    assert(commit_ops(last).drop_last() =~= seq![BackendOp::Batch(last.commands)]);
    lemma_commit_ops_touch(other, other_chunks, set![encode_utf8(last.temp_key)]);
    lemma_rename_finds_key(db, last, last_chunks, commit_ops(other), before);
}

/// However far two uploads have come with their rounds, and however the backend
/// has taken them, every round has succeeded: each rename has found its key.
proof fn lemma_interleaved_commits_succeed(
    db: Db,
    a: CommitView,
    a_chunks: Seq<Seq<u8>>,
    b: CommitView,
    b_chunks: Seq<Seq<u8>>,
    i: int,
    j: int,
    schedule: Seq<BackendOp>,
)
    requires
        a.atomic,
        b.atomic,
        a.commands == append_commands(a.temp_key, a_chunks),
        b.commands == append_commands(b.temp_key, b_chunks),
        a_chunks.len() > 0,
        b_chunks.len() > 0,
        encode_utf8(a.temp_key) != encode_utf8(b.temp_key),
        encode_utf8(a.temp_key) != encode_utf8(b.final_key),
        encode_utf8(b.temp_key) != encode_utf8(a.final_key),
        !db.dom().contains(encode_utf8(a.temp_key)),
        !db.dom().contains(encode_utf8(b.temp_key)),
        0 <= i <= 2,
        0 <= j <= 2,
        is_interleaving(schedule, commit_ops(a).take(i), commit_ops(b).take(j)),
    ensures
        db_all_succeed(db, schedule),
    decreases schedule.len(),
{
    lemma_commit_unfolds(db, a);
    lemma_commit_unfolds(db, b);
    let pa = commit_ops(a).take(i);
    let pb = commit_ops(b).take(j);
    if schedule.len() > 0 {
        let before = schedule.drop_last();
        if pa.len() > 0 && schedule.last() == pa.last() && is_interleaving(
            before,
            pa.drop_last(),
            pb,
        ) {
            assert(pa.drop_last() =~= commit_ops(a).take(i - 1));
            lemma_interleaved_commits_succeed(db, a, a_chunks, b, b_chunks, i - 1, j, before);
            if i == 2 {
                assert(pa.drop_last() =~= seq![BackendOp::Batch(a.commands)]);
                lemma_commit_ops_touch(b, b_chunks, set![encode_utf8(a.temp_key)]);
                lemma_prefix_outside(commit_ops(b), j, set![encode_utf8(a.temp_key)]);
                lemma_rename_finds_key(db, a, a_chunks, pb, before);
            }
        } else {
            assert(pb.drop_last() =~= commit_ops(b).take(j - 1));
            lemma_interleaved_commits_succeed(db, a, a_chunks, b, b_chunks, i, j - 1, before);
            if j == 2 {
                assert(pb.drop_last() =~= seq![BackendOp::Batch(b.commands)]);
                lemma_commit_ops_touch(a, a_chunks, set![encode_utf8(b.temp_key)]);
                lemma_prefix_outside(commit_ops(a), i, set![encode_utf8(b.temp_key)]);
                lemma_interleaving_symmetric(before, pa, pb.drop_last());
                lemma_rename_finds_key(db, b, b_chunks, pa, before);
            }
        }
    }
}

/// However the backend takes the rounds of two uploads, every round succeeds.
proof fn lemma_both_succeed(
    db: Db,
    a: CommitView,
    a_chunks: Seq<Seq<u8>>,
    b: CommitView,
    b_chunks: Seq<Seq<u8>>,
    schedule: Seq<BackendOp>,
)
    requires
        a.atomic,
        b.atomic,
        a.commands == append_commands(a.temp_key, a_chunks),
        b.commands == append_commands(b.temp_key, b_chunks),
        a_chunks.len() > 0,
        b_chunks.len() > 0,
        encode_utf8(a.temp_key) != encode_utf8(b.temp_key),
        encode_utf8(a.temp_key) != encode_utf8(b.final_key),
        encode_utf8(b.temp_key) != encode_utf8(a.final_key),
        !db.dom().contains(encode_utf8(a.temp_key)),
        !db.dom().contains(encode_utf8(b.temp_key)),
        is_interleaving(schedule, commit_ops(a), commit_ops(b)),
    ensures
        db_all_succeed(db, schedule),
{
    lemma_commit_unfolds(db, a);
    lemma_commit_unfolds(db, b);
    assert(commit_ops(a).take(2) =~= commit_ops(a));
    assert(commit_ops(b).take(2) =~= commit_ops(b));
    lemma_interleaved_commits_succeed(db, a, a_chunks, b, b_chunks, 2, 2, schedule);
}

/// Rounds that stay outside a set of keys do so from the first on.
proof fn lemma_prefix_outside(ops: Seq<BackendOp>, n: int, keys: Set<Seq<u8>>)
    requires
        ops_outside(ops, keys),
        0 <= n <= ops.len(),
    ensures
        ops_outside(ops.take(n), keys),
{
    assert forall|i: int, k: Seq<u8>|
        0 <= i < ops.take(n).len() && keys.contains(k) implies !#[trigger] op_touches(
        ops.take(n)[i],
        k,
    ) by {
        assert(ops.take(n)[i] == ops[i]);
    }
}

} // verus!
