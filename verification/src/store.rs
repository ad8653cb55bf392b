//! The store itself: a connection handle and a source of temporary names.

use vstd::prelude::*;
use vstd::string::*;

use crate::digest::DigestInfo;
use crate::error::{Code, Error, ErrorView};
use crate::trusted::{
    address_opens,
    is_uuid_text,
    open_client,
    random_uuid_text,
    redis_error_display,
    redis_error_text,
};

verus! {

/// Where the backend is to be found.
#[derive(Clone, Debug, PartialEq, Eq)]
pub struct RedisStoreConfig {
    /// The addresses of the backend. Exactly one is supported.
    pub addresses: Vec<String>,
}

/// A source of names for temporary keys. Each call should give a name that no
/// other upload in flight is using.
pub trait TempNameGenerator {
    /// Whether `name` is a name that this source may give. A source that does not
    /// say which names it gives may give any.
    open spec fn may_give(&self, name: Seq<char>) -> bool {
        true
    }

    /// The next name: one of those that this source may give.
    fn temp_name(&self) -> (name: String)
        ensures
            self.may_give(name@),
    ;
}

/// Names temporary keys by random UUIDs.
#[derive(Clone, Copy, Debug, Default)]
pub struct UuidTempNames;

impl TempNameGenerator for UuidTempNames {
    /// The names are the texts in the hyphenated form of a UUID.
    open spec fn may_give(&self, name: Seq<char>) -> bool {
        is_uuid_text(name)
    }

    /// A random UUID in its hyphenated form.
    fn temp_name(&self) -> (name: String)
        ensures
            is_uuid_text(name@),
    {
        random_uuid_text()
    }
}

/// A content-addressable store over a connection of type `T` to the backend.
///
/// The store never uses the connection itself: it plans each operation, and the
/// caller carries the commands over the connection.
pub struct RedisStore<T, G: TempNameGenerator = UuidTempNames> {
    conn: T,
    temp_name_generator: G,
}

/// The message of the error for a configuration that does not name one address.
pub open spec fn address_count_message() -> Seq<char> {
    "Only one address is supported for Redis store"@
}

/// The error that a failed backend call becomes, given the text that the backend's
/// error displays: an internal error that quotes the text.
pub fn redis_error_from_text(text: &str) -> (e: Error)
    ensures
        e@.code == Code::Internal,
        e@.messages == seq!["Redis Error: "@ + text@],
{
    let mut message = String::from_str("Redis Error: ");
    message.append(text);
    Error::new(Code::Internal, message)
}

/// The error that a failed backend call becomes, mathematically: an internal error
/// whose one message is `Redis Error: ` and then the text that the backend's error
/// displays.
pub open spec fn redis_error_view(error: redis::RedisError) -> ErrorView {
    ErrorView { code: Code::Internal, messages: seq!["Redis Error: "@ + redis_error_display(error)] }
}

/// The error that a failed backend call becomes: an internal one that keeps what
/// the backend reported, behind `Redis Error: `.
pub fn from_redis_err(call_res: redis::RedisError) -> (e: Error)
    ensures
        e@ == redis_error_view(call_res),
{
    let text = redis_error_text(&call_res);
    redis_error_from_text(text.as_str())
}

/// What opening a client comes to, given how parsing its address went: the client,
/// or the parser's complaint as an internal error.
pub fn client_from_open(opened: Result<redis::Client, redis::RedisError>) -> (r: Result<
    redis::Client,
    Error,
>)
    ensures
        match opened {
            Ok(client) => r == Ok::<redis::Client, Error>(client),
            Err(e) => r is Err && r->Err_0@ == redis_error_view(e),
        },
{
    match opened {
        Ok(client) => Ok(client),
        Err(e) => Err(from_redis_err(e)),
    }
}

/// The error for a configuration that does not name exactly one address.
fn address_count_error() -> (e: Error)
    ensures
        e@.code == Code::InvalidArgument,
        e@.messages == seq![address_count_message()],
{
    Error::new(
        Code::InvalidArgument,
        String::from_str("Only one address is supported for Redis store"),
    )
}

/// The client to connect with for `config`.
///
/// A configuration that does not hold exactly one address is refused as an invalid
/// argument. Otherwise the one address is parsed: the result is the client where
/// the parser accepts the address, and an internal error that keeps the parser's
/// complaint where it does not.
pub fn client_for(config: &RedisStoreConfig) -> (r: Result<redis::Client, Error>)
    ensures
        config.addresses@.len() != 1 ==> r is Err && r->Err_0@.code == Code::InvalidArgument
            && r->Err_0@.messages == seq![address_count_message()],
        config.addresses@.len() == 1 ==> (r is Ok <==> address_opens(config.addresses@[0]@)),
        config.addresses@.len() == 1 && r is Err ==> exists|refusal: redis::RedisError|
            r->Err_0@ == #[trigger] redis_error_view(refusal),
{
    if config.addresses.len() != 1 {
        return Err(address_count_error());
    }
    client_from_open(open_client(config.addresses[0].as_str()))
}

impl<T> RedisStore<T, UuidTempNames> {
    /// A store for `config`, given how connecting with the client for `config` went.
    /// It names its temporary keys by random UUIDs.
    ///
    /// A configuration that does not hold exactly one address is refused as an
    /// invalid argument. Otherwise a connection that failed gives an internal error
    /// that keeps what the backend reported, and a connection that was made gives
    /// the store over it.
    pub fn new(config: &RedisStoreConfig, connected: Result<T, redis::RedisError>) -> (r: Result<
        RedisStore<T, UuidTempNames>,
        Error,
    >)
        ensures
            config.addresses@.len() != 1 ==> r is Err && r->Err_0@.code == Code::InvalidArgument
                && r->Err_0@.messages == seq![address_count_message()],
            config.addresses@.len() == 1 ==> match connected {
                Ok(conn) => r is Ok && r->Ok_0.conn_spec() == conn,
                Err(e) => r is Err && r->Err_0@ == redis_error_view(e),
            },
    {
        if config.addresses.len() != 1 {
            return Err(address_count_error());
        }
        match connected {
            Ok(conn) => Ok(RedisStore { conn, temp_name_generator: UuidTempNames }),
            Err(e) => Err(from_redis_err(e)),
        }
    }
}

impl<T, G: TempNameGenerator> RedisStore<T, G> {
    /// The connection that the store was made with.
    pub closed spec fn conn_spec(&self) -> T {
        self.conn
    }

    /// The source of temporary names that the store was made with.
    pub closed spec fn temp_name_generator_spec(&self) -> G {
        self.temp_name_generator
    }

    /// A store over `conn` that takes the names of its temporary keys from
    /// `temp_name_generator`.
    pub fn new_with_conn_and_name_generator(conn: T, temp_name_generator: G) -> (r: Result<
        RedisStore<T, G>,
        Error,
    >)
        ensures
            r is Ok,
            r->Ok_0.conn_spec() == conn,
            r->Ok_0.temp_name_generator_spec() == temp_name_generator,
    {
        Ok(RedisStore { conn, temp_name_generator })
    }

    /// The connection to carry the store's commands over.
    pub fn conn(&self) -> (conn: &T)
        ensures
            *conn == self.conn_spec(),
    {
        &self.conn
    }

    /// The store that holds the blob of `digest`: this store, whatever the digest. A
    /// store that wraps others answers with the one it passes the digest on to.
    pub fn inner_store(&self, digest: Option<DigestInfo>) -> (inner: &Self)
        ensures
            inner == self,
    {
        self
    }

    /// The name under which the store reports itself to health checks.
    pub fn get_name(&self) -> (name: &'static str)
        ensures
            name@ == "RedisStore"@,
    {
        "RedisStore"
    }

    /// A name for a temporary key: the next that the store's generator gives.
    pub(crate) fn next_temp_name(&self) -> (name: String)
        ensures
            self.temp_name_generator_spec().may_give(name@),
    {
        self.temp_name_generator.temp_name()
    }
}

} // verus!
