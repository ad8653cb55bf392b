//! The batched existence check: which of a list of blobs the store holds, and how
//! large each is.
//!
//! Zero digests are answered on the spot. The others are asked of the backend in one
//! atomic pipeline of `STRLEN` commands, one for each in the order of the list, and
//! the lengths that come back are laid over the list again.

use vstd::prelude::*;
use vstd::string::*;
use vstd::utf8::encode_utf8;

use crate::digest::{digest_to_key, is_zero, is_zero_digest, key_bytes, DigestInfo};
use crate::error::{Code, Error};
use crate::store::{RedisStore, TempNameGenerator};
use crate::trusted::{add_strlen, make_atomic, pipeline_atomic, pipeline_commands};

verus! {

/// How many of `digests` are asked of the backend: those that are not the zero
/// digest.
pub open spec fn queried_count(digests: Seq<DigestInfo>) -> nat
    decreases digests.len(),
{
    if digests.len() == 0 {
        0
    } else {
        queried_count(digests.drop_last()) + if is_zero(digests.last()@) {
            0nat
        } else {
            1nat
        }
    }
}

/// The command that asks for the length of the blob of `digest`.
pub open spec fn strlen_command(digest: DigestInfo) -> Seq<Seq<u8>> {
    seq![encode_utf8("STRLEN"@), key_bytes(digest@)]
}

/// The commands of the query for `digests`: one `STRLEN` for each digest that is not
/// the zero digest, in the order of the list.
pub open spec fn strlen_commands(digests: Seq<DigestInfo>) -> Seq<Seq<Seq<u8>>>
    decreases digests.len(),
{
    if digests.len() == 0 {
        Seq::empty()
    } else if is_zero(digests.last()@) {
        strlen_commands(digests.drop_last())
    } else {
        strlen_commands(digests.drop_last()).push(strlen_command(digests.last()))
    }
}

/// What a reported length says of a blob: zero stands for an absent blob.
pub open spec fn size_to_result(size: usize) -> Option<usize> {
    if size == 0 {
        None
    } else {
        Some(size)
    }
}

/// The answer for the digest at position `i`, given the lengths that the backend
/// reported for the queried digests.
pub open spec fn expected_result(digests: Seq<DigestInfo>, sizes: Seq<usize>, i: int) -> Option<
    usize,
> {
    if is_zero(digests[i]@) {
        Some(0usize)
    } else {
        size_to_result(sizes[queried_count(digests.take(i)) as int])
    }
}

/// The message of the error for a reply that has not one length for each queried
/// digest.
pub open spec fn mismatch_message() -> Seq<char> {
    "Mismatch in digest sizes and results length"@
}

/// One more digest adds its own share to the count.
pub proof fn lemma_queried_count_step(digests: Seq<DigestInfo>, i: int)
    requires
        0 <= i < digests.len(),
    ensures
        queried_count(digests.take(i + 1)) == queried_count(digests.take(i)) + if is_zero(
            digests[i]@,
        ) {
            0nat
        } else {
            1nat
        },
{
    assert(digests.take(i + 1).drop_last() =~= digests.take(i));
    assert(digests.take(i + 1).last() == digests[i]);
}

/// One more digest adds its own command, if it is queried.
pub proof fn lemma_strlen_commands_step(digests: Seq<DigestInfo>, i: int)
    requires
        0 <= i < digests.len(),
    ensures
        strlen_commands(digests.take(i + 1)) == if is_zero(digests[i]@) {
            strlen_commands(digests.take(i))
        } else {
            strlen_commands(digests.take(i)).push(strlen_command(digests[i]))
        },
{
    assert(digests.take(i + 1).drop_last() =~= digests.take(i));
    assert(digests.take(i + 1).last() == digests[i]);
}

/// A prefix of the list has no more queried digests than the list.
pub proof fn lemma_queried_count_monotonic(digests: Seq<DigestInfo>, i: int)
    requires
        0 <= i <= digests.len(),
    ensures
        queried_count(digests.take(i)) <= queried_count(digests),
        queried_count(digests) <= digests.len(),
    decreases digests.len() - i,
{
    if i == digests.len() {
        assert(digests.take(i) =~= digests);
        lemma_queried_count_bounded(digests);
    } else {
        lemma_queried_count_step(digests, i);
        lemma_queried_count_monotonic(digests, i + 1);
    }
}

/// There are no more queried digests than digests.
pub proof fn lemma_queried_count_bounded(digests: Seq<DigestInfo>)
    ensures
        queried_count(digests) <= digests.len(),
    decreases digests.len(),
{
    if digests.len() > 0 {
        lemma_queried_count_bounded(digests.drop_last());
    }
}

/// The query has one command for each queried digest.
pub proof fn lemma_strlen_commands_len(digests: Seq<DigestInfo>)
    ensures
        strlen_commands(digests).len() == queried_count(digests),
    decreases digests.len(),
{
    if digests.len() > 0 {
        lemma_strlen_commands_len(digests.drop_last());
    }
}

impl<T, G: TempNameGenerator> RedisStore<T, G> {
    /// Answers the zero digests among `digests` and builds the query for the rest.
    ///
    /// Each position that holds the zero digest gets `Some(0)` in `results`; the
    /// other positions are left as they are. The pipeline that is returned is to be
    /// run on the backend, and the lengths it yields are to be handed to
    /// `has_with_results`. Where every digest is the zero digest there is nothing to
    /// ask, and no pipeline is returned.
    pub fn has_with_results_query(
        &self,
        digests: &[DigestInfo],
        results: &mut [Option<usize>],
    ) -> (query: Option<redis::Pipeline>)
        requires
            old(results)@.len() == digests@.len(),
        ensures
            final(results)@.len() == digests@.len(),
            forall|i: int|
                0 <= i < digests@.len() ==> final(results)@[i] == if is_zero(digests@[i]@) {
                    Some(0usize)
                } else {
                    old(results)@[i]
                },
            query is None <==> queried_count(digests@) == 0,
            query is Some ==> pipeline_atomic(query->Some_0) && pipeline_commands(query->Some_0)
                == strlen_commands(digests@),
    {
        let mut pipe = redis::pipe();
        make_atomic(&mut pipe);
        let mut queried: usize = 0;
        let mut i: usize = 0;
        while i < digests.len()
            invariant
                i <= digests@.len(),
                results@.len() == digests@.len(),
                forall|j: int|
                    0 <= j < i ==> results@[j] == if is_zero(digests@[j]@) {
                        Some(0usize)
                    } else {
                        old(results)@[j]
                    },
                forall|j: int| i <= j < digests@.len() ==> results@[j] == old(results)@[j],
                queried == queried_count(digests@.take(i as int)),
                pipeline_atomic(pipe),
                pipeline_commands(pipe) == strlen_commands(digests@.take(i as int)),
            decreases digests@.len() - i,
        {
            proof {
                lemma_queried_count_step(digests@, i as int);
                lemma_strlen_commands_step(digests@, i as int);
                lemma_queried_count_monotonic(digests@, i + 1);
            }
            if is_zero_digest(&digests[i]) {
                results[i] = Some(0);
            } else {
                let key = digest_to_key(&digests[i]);
                add_strlen(&mut pipe, key.as_str());
                queried += 1;
            }
            i += 1;
        }
        assert(digests@.take(i as int) =~= digests@);
        if queried == 0 {
            None
        } else {
            Some(pipe)
        }
    }

    /// Lays the lengths that the backend reported over `digests`.
    ///
    /// `digest_sizes` is the reply to the query of `has_with_results_query`, or
    /// empty where there was no query. Each position that holds the zero digest gets
    /// `Some(0)`, whatever the backend said. If the reply has one length for each
    /// queried digest, every other position gets the size of its blob, or `None`
    /// where the backend reported length zero. If it has not, the other positions
    /// are left as they are and the error is an internal one.
    pub fn has_with_results(
        &self,
        digests: &[DigestInfo],
        digest_sizes: &[usize],
        results: &mut [Option<usize>],
    ) -> (r: Result<(), Error>)
        requires
            old(results)@.len() == digests@.len(),
        ensures
            final(results)@.len() == digests@.len(),
            forall|i: int|
                0 <= i < digests@.len() && is_zero(digests@[i]@) ==> final(results)@[i] == Some(
                    0usize,
                ),
            r is Ok <==> digest_sizes@.len() == queried_count(digests@),
            r is Ok ==> forall|i: int|
                0 <= i < digests@.len() ==> final(results)@[i] == expected_result(
                    digests@,
                    digest_sizes@,
                    i,
                ),
            r is Err ==> r->Err_0@.code == Code::Internal && r->Err_0@.messages
                == seq![mismatch_message()],
            r is Err ==> forall|i: int|
                0 <= i < digests@.len() && !is_zero(digests@[i]@) ==> final(results)@[i] == old(
                    results,
                )@[i],
    {
        let mut queried: usize = 0;
        let mut i: usize = 0;
        while i < digests.len()
            invariant
                i <= digests@.len(),
                results@.len() == digests@.len(),
                forall|j: int|
                    0 <= j < i ==> results@[j] == if is_zero(digests@[j]@) {
                        Some(0usize)
                    } else {
                        old(results)@[j]
                    },
                forall|j: int| i <= j < digests@.len() ==> results@[j] == old(results)@[j],
                queried == queried_count(digests@.take(i as int)),
            decreases digests@.len() - i,
        {
            proof {
                lemma_queried_count_step(digests@, i as int);
                lemma_queried_count_monotonic(digests@, i + 1);
            }
            if is_zero_digest(&digests[i]) {
                results[i] = Some(0);
            } else {
                queried += 1;
            }
            i += 1;
        }
        assert(digests@.take(i as int) =~= digests@);
        if digest_sizes.len() != queried {
            return Err(
                Error::new(
                    Code::Internal,
                    String::from_str("Mismatch in digest sizes and results length"),
                ),
            );
        }
        let mut next: usize = 0;
        let mut i: usize = 0;
        while i < digests.len()
            invariant
                i <= digests@.len(),
                results@.len() == digests@.len(),
                digest_sizes@.len() == queried_count(digests@),
                forall|j: int|
                    0 <= j < i ==> results@[j] == expected_result(digests@, digest_sizes@, j),
                forall|j: int|
                    i <= j < digests@.len() && is_zero(digests@[j]@) ==> results@[j] == Some(
                        0usize,
                    ),
                next == queried_count(digests@.take(i as int)),
            decreases digests@.len() - i,
        {
            proof {
                lemma_queried_count_step(digests@, i as int);
                lemma_queried_count_monotonic(digests@, i + 1);
            }
            if !is_zero_digest(&digests[i]) {
                let size: usize = digest_sizes[next];
                next += 1;
                results[i] = if size == 0 {
                    None
                } else {
                    Some(size)
                };
            }
            i += 1;
        }
        Ok(())
    }
}

} // verus!
