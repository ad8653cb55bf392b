//! A model of the backend, for stating what the store's commands achieve.
//!
//! The backend is a map from keys to byte strings. The functions here say how the
//! commands that the store issues change such a map and what they answer, as the
//! Redis documentation describes `APPEND`, `RENAME`, `GETRANGE`, `STRLEN` and
//! `EXISTS`. The laws of this crate are stated over this model; nothing in the
//! executable code depends on it.

use vstd::prelude::*;
use vstd::utf8::encode_utf8;

verus! {

/// What the backend holds: a byte string under each key that exists.
pub type Db = Map<Seq<u8>, Seq<u8>>;

/// One round of work on the backend, which no other round can split.
pub enum BackendOp {
    /// A batch of commands that is applied as one transaction.
    Batch(Seq<Seq<Seq<u8>>>),
    /// `RENAME` of the first key to the second.
    Rename(Seq<u8>, Seq<u8>),
}

/// Whether `key` exists.
pub open spec fn db_exists(db: Db, key: Seq<u8>) -> bool {
    db.dom().contains(key)
}

/// The string under `key`; a key that does not exist reads as the empty string.
pub open spec fn db_value(db: Db, key: Seq<u8>) -> Seq<u8> {
    if db.dom().contains(key) {
        db[key]
    } else {
        Seq::empty()
    }
}

/// The answer to `STRLEN key`.
pub open spec fn db_strlen(db: Db, key: Seq<u8>) -> nat {
    db_value(db, key).len()
}

/// The bytes of `value` from position `start` to position `end`, both counted from
/// the front and both included, as far as `value` has them.
pub open spec fn range_of(value: Seq<u8>, start: int, end: int) -> Seq<u8>
    recommends
        0 <= start,
        0 <= end,
{
    if start > end || start >= value.len() {
        Seq::empty()
    } else if end + 1 < value.len() {
        value.subrange(start, end + 1)
    } else {
        value.subrange(start, value.len() as int)
    }
}

/// The answer to `GETRANGE key start end`, for positions counted from the front.
pub open spec fn db_getrange(db: Db, key: Seq<u8>, start: int, end: int) -> Seq<u8>
    recommends
        0 <= start,
        0 <= end,
{
    range_of(db_value(db, key), start, end)
}

/// The backend after `APPEND key value`.
pub open spec fn db_append(db: Db, key: Seq<u8>, value: Seq<u8>) -> Db {
    db.insert(key, db_value(db, key) + value)
}

/// The backend after `RENAME from to`. Renaming a key that does not exist fails and
/// changes nothing.
pub open spec fn db_rename(db: Db, from: Seq<u8>, to: Seq<u8>) -> Db {
    if db.dom().contains(from) {
        db.remove(from).insert(to, db[from])
    } else {
        db
    }
}

/// Whether `command` is an `APPEND` with a key and a value.
pub open spec fn is_append(command: Seq<Seq<u8>>) -> bool {
    command.len() == 3 && command[0] == encode_utf8("APPEND"@)
}

/// The backend after one command of a batch. Of the commands that change the
/// backend, the store's batches hold `APPEND` only.
pub open spec fn db_run_command(db: Db, command: Seq<Seq<u8>>) -> Db {
    if is_append(command) {
        db_append(db, command[1], command[2])
    } else {
        db
    }
}

/// The backend after the commands of a batch, in their order.
pub open spec fn db_run(db: Db, commands: Seq<Seq<Seq<u8>>>) -> Db
    decreases commands.len(),
{
    if commands.len() == 0 {
        db
    } else {
        db_run_command(db_run(db, commands.drop_last()), commands.last())
    }
}

/// The backend after one round of work.
pub open spec fn db_apply(db: Db, op: BackendOp) -> Db {
    match op {
        BackendOp::Batch(commands) => db_run(db, commands),
        BackendOp::Rename(from, to) => db_rename(db, from, to),
    }
}

/// The backend after a sequence of rounds.
pub open spec fn db_apply_all(db: Db, ops: Seq<BackendOp>) -> Db
    decreases ops.len(),
{
    if ops.len() == 0 {
        db
    } else {
        db_apply(db_apply_all(db, ops.drop_last()), ops.last())
    }
}

/// Whether every round of `ops`, run one after the other from `db`, succeeds. A batch
/// of appends always does; a rename does where the key to rename exists.
pub open spec fn db_all_succeed(db: Db, ops: Seq<BackendOp>) -> bool
    decreases ops.len(),
{
    ops.len() == 0 || (db_all_succeed(db, ops.drop_last()) && match ops.last() {
        BackendOp::Batch(_) => true,
        BackendOp::Rename(from, _) => db_apply_all(db, ops.drop_last()).dom().contains(from),
    })
}

/// The bytes of `chunks`, one chunk after the other.
pub open spec fn concat(chunks: Seq<Seq<u8>>) -> Seq<u8>
    decreases chunks.len(),
{
    if chunks.len() == 0 {
        Seq::empty()
    } else {
        concat(chunks.drop_last()) + chunks.last()
    }
}

/// Whether two backends hold the same under `key`.
pub open spec fn agree_on(a: Db, b: Db, key: Seq<u8>) -> bool {
    a.dom().contains(key) == b.dom().contains(key) && (a.dom().contains(key) ==> a[key] == b[key])
}

/// Whether a command of a batch reads or writes `key`.
pub open spec fn command_touches(command: Seq<Seq<u8>>, key: Seq<u8>) -> bool {
    is_append(command) && command[1] == key
}

/// Whether a command of the batch `commands` reads or writes `key`.
pub open spec fn batch_touches(commands: Seq<Seq<Seq<u8>>>, key: Seq<u8>) -> bool {
    exists|i: int| 0 <= i < commands.len() && #[trigger] command_touches(commands[i], key)
}

/// Whether a round of work reads or writes `key`.
pub open spec fn op_touches(op: BackendOp, key: Seq<u8>) -> bool {
    match op {
        BackendOp::Batch(commands) => batch_touches(commands, key),
        BackendOp::Rename(from, to) => key == from || key == to,
    }
}

/// Whether `schedule` runs the rounds of `a` and the rounds of `b`, each in its
/// own order, interleaved in any way.
pub open spec fn is_interleaving(
    schedule: Seq<BackendOp>,
    a: Seq<BackendOp>,
    b: Seq<BackendOp>,
) -> bool
    decreases schedule.len(),
{
    if schedule.len() == 0 {
        a.len() == 0 && b.len() == 0
    } else {
        ||| a.len() > 0 && schedule.last() == a.last() && is_interleaving(
            schedule.drop_last(),
            a.drop_last(),
            b,
        )
        ||| b.len() > 0 && schedule.last() == b.last() && is_interleaving(
            schedule.drop_last(),
            a,
            b.drop_last(),
        )
    }
}

} // verus!
