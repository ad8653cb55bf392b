//! Laws of the batched existence check.

use vstd::prelude::*;

use crate::digest::{is_zero, key_bytes, DigestInfo};
use crate::existence::{
    expected_result,
    lemma_strlen_commands_len,
    queried_count,
    strlen_command,
    strlen_commands,
};
use crate::model::{db_strlen, Db};

verus! {

/// Whether `sizes` is what the backend `db` answers to the batch `commands` of
/// `STRLEN` commands: for each command, the length of what is under its key.
pub open spec fn strlen_replies(db: Db, commands: Seq<Seq<Seq<u8>>>, sizes: Seq<usize>) -> bool {
    &&& sizes.len() == commands.len()
    &&& forall|k: int| 0 <= k < sizes.len() ==> #[trigger] sizes[k] == db_strlen(db, commands[k][1])
}

/// The command for a queried digest stands in the query at the place that the
/// count of queried digests before it gives.
pub proof fn lemma_strlen_command_position(digests: Seq<DigestInfo>, i: int)
    requires
        0 <= i < digests.len(),
        !is_zero(digests[i]@),
    ensures
        queried_count(digests.take(i)) < strlen_commands(digests).len(),
        strlen_commands(digests)[queried_count(digests.take(i)) as int] == strlen_command(
            digests[i],
        ),
    decreases digests.len(),
{
    let before = digests.drop_last();
    lemma_strlen_commands_len(before);
    lemma_strlen_commands_len(digests);
    if i == digests.len() - 1 {
        assert(digests.take(i) =~= before);
    } else {
        assert(before.take(i) =~= digests.take(i));
        assert(before[i] == digests[i]);
        lemma_strlen_command_position(before, i);
    }
}

/// Whatever the backend reports, a zero digest is reported present with size 0.
pub proof fn law_zero_digest_is_always_present(
    digests: Seq<DigestInfo>,
    sizes: Seq<usize>,
    i: int,
)
    requires
        0 <= i < digests.len(),
        is_zero(digests[i]@),
    ensures
        expected_result(digests, sizes, i) == Some(0usize),
{
}

/// On a backend that answers the query faithfully, every other digest is reported
/// with the length of what the backend holds under its key, and as absent where
/// that length is zero.
pub proof fn law_existence_check_reports_backend(
    db: Db,
    digests: Seq<DigestInfo>,
    sizes: Seq<usize>,
    i: int,
)
    requires
        strlen_replies(db, strlen_commands(digests), sizes),
        0 <= i < digests.len(),
        !is_zero(digests[i]@),
    ensures
        expected_result(digests, sizes, i) matches Some(size) ==> size > 0 && size == db_strlen(
            db,
            key_bytes(digests[i]@),
        ),
        expected_result(digests, sizes, i) is None <==> db_strlen(db, key_bytes(digests[i]@))
            == 0,
{
    lemma_strlen_command_position(digests, i);
    let k = queried_count(digests.take(i)) as int;
    assert(sizes[k] == db_strlen(db, strlen_commands(digests)[k][1]));
}

} // verus!
