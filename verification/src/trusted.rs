//! The boundary to the crates this library builds on: `redis`, `bytes` and `uuid`.
//!
//! Nothing in this file is proved. Each item states what the named function of the
//! other crate does, and the rest of the library is verified against these
//! statements.

use vstd::prelude::*;
use vstd::utf8::encode_utf8;

verus! {

/// `redis::Pipeline`: a batch of commands that is sent to the server in one go.
#[verifier::external_type_specification]
#[verifier::external_body]
pub struct ExPipeline(redis::Pipeline);

/// `redis::RedisError`: what a failed command or connection reports.
#[verifier::external_type_specification]
#[verifier::external_body]
pub struct ExRedisError(redis::RedisError);

/// `redis::Client`: a parsed connection address, not yet connected.
#[verifier::external_type_specification]
#[verifier::external_body]
pub struct ExClient(redis::Client);

/// `bytes::Bytes`: an immutable, cheaply shared run of bytes.
#[verifier::external_type_specification]
#[verifier::external_body]
pub struct ExBytes(bytes::Bytes);

/// The commands that a pipeline holds, in the order in which they were added. A
/// command is the sequence of its arguments, its name first; an argument is a
/// byte string.
pub uninterp spec fn pipeline_commands(pipe: redis::Pipeline) -> Seq<Seq<Seq<u8>>>;

/// Whether a pipeline is in atomic mode, in which the server applies its commands
/// as one transaction.
pub uninterp spec fn pipeline_atomic(pipe: redis::Pipeline) -> bool;

/// The bytes that a `bytes::Bytes` holds.
pub uninterp spec fn bytes_contents(bytes: bytes::Bytes) -> Seq<u8>;

/// `redis::pipe` returns a pipeline without commands that is not atomic.
pub assume_specification[ redis::pipe ]() -> (pipe: redis::Pipeline)
    ensures
        pipeline_commands(pipe) == Seq::<Seq<Seq<u8>>>::empty(),
        !pipeline_atomic(pipe),
;

/// `redis::Pipeline::atomic` switches atomic mode on and leaves the commands alone.
#[verifier::external_body]
pub(crate) fn make_atomic(pipe: &mut redis::Pipeline)
    ensures
        pipeline_atomic(*final(pipe)),
        pipeline_commands(*final(pipe)) == pipeline_commands(*old(pipe)),
{
    pipe.atomic();
}

/// `redis::Pipeline::strlen` adds the command `STRLEN key` behind the others.
#[verifier::external_body]
pub(crate) fn add_strlen(pipe: &mut redis::Pipeline, key: &str)
    ensures
        pipeline_commands(*final(pipe)) == pipeline_commands(*old(pipe)).push(
            seq![encode_utf8("STRLEN"@), encode_utf8(key@)],
        ),
        pipeline_atomic(*final(pipe)) == pipeline_atomic(*old(pipe)),
{
    pipe.strlen(key);
}

/// `redis::Pipeline::cmd` starts a new command behind the others; so far it has its
/// name and no other argument.
#[verifier::external_body]
pub(crate) fn start_command(pipe: &mut redis::Pipeline, name: &str)
    ensures
        pipeline_commands(*final(pipe)) == pipeline_commands(*old(pipe)).push(
            seq![encode_utf8(name@)],
        ),
        pipeline_atomic(*final(pipe)) == pipeline_atomic(*old(pipe)),
{
    pipe.cmd(name);
}

/// `redis::Pipeline::arg`, called with a byte slice, adds the slice as one argument
/// to the command that was started last. On a pipeline without commands it panics.
#[verifier::external_body]
pub(crate) fn add_argument(pipe: &mut redis::Pipeline, argument: &[u8])
    requires
        pipeline_commands(*old(pipe)).len() > 0,
    ensures
        pipeline_commands(*final(pipe)) == pipeline_commands(*old(pipe)).drop_last().push(
            pipeline_commands(*old(pipe)).last().push(argument@),
        ),
        pipeline_atomic(*final(pipe)) == pipeline_atomic(*old(pipe)),
{
    pipe.arg(argument);
}

/// `bytes::Bytes::new` returns a `Bytes` that holds no byte.
pub assume_specification[ bytes::Bytes::new ]() -> (bytes: bytes::Bytes)
    ensures
        bytes_contents(bytes) == Seq::<u8>::empty(),
;

/// `bytes::Bytes::len` is the number of bytes held.
pub assume_specification[ bytes::Bytes::len ](bytes: &bytes::Bytes) -> (len: usize)
    ensures
        len == bytes_contents(*bytes).len(),
;

/// Dereferencing a `bytes::Bytes` gives the bytes held, as a slice.
pub assume_specification<'a>[ <bytes::Bytes as core::ops::Deref>::deref ](
    bytes: &'a bytes::Bytes,
) -> (slice: &'a [u8])
    ensures
        slice@ == bytes_contents(*bytes),
;

/// Whether `redis::Client::open` accepts `address` as the address of a server. It
/// goes by the text of the address alone.
pub uninterp spec fn address_opens(address: Seq<char>) -> bool;

/// The text that a `redis::RedisError` displays: what the error says of itself.
pub uninterp spec fn redis_error_display(error: redis::RedisError) -> Seq<char>;

/// `redis::Client::open` parses a connection address and opens no connection. It
/// gives a client for the addresses it accepts and an error for the others; which
/// client and which error is not claimed.
#[verifier::external_body]
pub(crate) fn open_client(address: &str) -> (client: Result<redis::Client, redis::RedisError>)
    ensures
        client is Ok <==> address_opens(address@),
{
    redis::Client::open(address)
}

/// Formatting a `redis::RedisError` with `{}` gives the text that it displays.
#[verifier::external_body]
pub(crate) fn redis_error_text(error: &redis::RedisError) -> (text: String)
    ensures
        text@ == redis_error_display(*error),
{
    format!("{error}")
}

/// Whether `c` is a hexadecimal digit in lower case.
pub open spec fn is_lower_hex_digit(c: char) -> bool {
    ('0' <= c && c <= '9') || ('a' <= c && c <= 'f')
}

/// Whether `text` has the hyphenated form in which a UUID displays: 36 characters,
/// of which the four at the places 8, 13, 18 and 23 are hyphens and the others are
/// hexadecimal digits in lower case.
pub open spec fn is_uuid_text(text: Seq<char>) -> bool {
    &&& text.len() == 36
    &&& forall|i: int|
        0 <= i < 36 ==> if i == 8 || i == 13 || i == 18 || i == 23 {
            text[i] == '-'
        } else {
            is_lower_hex_digit(text[i])
        }
}

/// `uuid::Uuid::new_v4`, rendered as text by `to_string`: a random identifier in the
/// hyphenated form. Which digits it has is not claimed, nor that two calls give
/// different texts. It panics where the system has no random bytes to give.
#[verifier::external_body]
pub(crate) fn random_uuid_text() -> (text: String)
    ensures
        is_uuid_text(text@),
{
    uuid::Uuid::new_v4().to_string()
}

} // verus!
