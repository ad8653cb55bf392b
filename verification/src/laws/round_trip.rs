//! What is written is what is read.

use vstd::prelude::*;
use vstd::utf8::encode_utf8;

use crate::digest::{is_zero, key_bytes, DigestInfo};
use crate::error::ErrorView;
use crate::ingest::temp_key_chars;
use crate::laws::read::{law_read_delivers_requested_range, read_blob, requested_range};
use crate::laws::upload::{commit_ops, db_commit, law_commit_stores_blob, upload_commit};
use crate::model::{concat, db_all_succeed, db_value, Db};
use crate::ranged_read::{position_limit, read_start};

verus! {

/// A blob that has been uploaded reads back whole: the upload of a stream with data
/// succeeds on the backend, and after it the read of its digest from the start and
/// without a length delivers exactly the bytes of the stream.
pub proof fn law_upload_then_read_round_trips(
    db: Db,
    digest: DigestInfo,
    temp_name: Seq<char>,
    chunks: Seq<Seq<u8>>,
)
    requires
        !is_zero(digest@),
        chunks.len() > 0,
        concat(chunks).len() <= position_limit(),
        !db.dom().contains(encode_utf8(temp_key_chars(temp_name))),
    ensures
        db_all_succeed(db, commit_ops(upload_commit(digest, temp_name, chunks))),
        read_blob(
            read_start(digest, 0, None),
            db_commit(db, upload_commit(digest, temp_name, chunks)),
        ) == Ok::<Seq<u8>, ErrorView>(concat(chunks)),
{
    law_commit_stores_blob(db, digest, temp_name, chunks);
    let after = db_commit(db, upload_commit(digest, temp_name, chunks));
    let blob = db_value(after, key_bytes(digest@));
    assert(blob == concat(chunks));
    law_read_delivers_requested_range(after, digest, 0, None);
    assert(requested_range(blob, 0, None) =~= blob);
}

} // verus!
