use redis_store::error::{Code, Error};
use redis_store::store::{
    client_for, from_redis_err, redis_error_from_text, RedisStore, RedisStoreConfig,
    UuidTempNames,
};

fn config_with(addresses: &[&str]) -> RedisStoreConfig {
    RedisStoreConfig { addresses: addresses.iter().map(|a| a.to_string()).collect() }
}

#[test]
fn new_error_has_one_message() {
    let e = Error::new(Code::NotFound, "gone".to_string());
    assert_eq!(e.code, Code::NotFound);
    assert_eq!(e.messages, vec!["gone".to_string()]);
}

#[test]
fn append_keeps_the_kind_and_adds_context_behind() {
    let e = Error::new(Code::Internal, "cause".to_string())
        .append("while reading".to_string())
        .append("while serving".to_string());
    assert_eq!(e.code, Code::Internal);
    assert_eq!(
        e.messages,
        vec!["cause".to_string(), "while reading".to_string(), "while serving".to_string()]
    );
}

#[test]
fn message_string_joins_the_messages_cause_first() {
    let e = Error::new(Code::Internal, "cause".to_string());
    assert_eq!(e.message_string(), "cause");
    let e = e.append("while reading".to_string());
    assert_eq!(e.message_string(), "cause : while reading");
    let e = e.append("while serving".to_string());
    assert_eq!(e.message_string(), "cause : while reading : while serving");
}

#[test]
fn message_string_of_no_messages_is_empty() {
    let e = Error { code: Code::NotFound, messages: vec![] };
    assert_eq!(e.message_string(), "");
}

#[test]
fn redis_error_text_becomes_an_internal_error() {
    let e = redis_error_from_text("connection refused");
    assert_eq!(e.code, Code::Internal);
    assert_eq!(e.messages, vec!["Redis Error: connection refused".to_string()]);
}

#[test]
fn redis_error_becomes_an_internal_error_that_quotes_it() {
    let cause = redis::RedisError::from((redis::ErrorKind::ResponseError, "bad reply"));
    let shown = format!("{cause}");
    assert!(!shown.is_empty());
    let e = from_redis_err(cause);
    assert_eq!(e.code, Code::Internal);
    assert_eq!(e.messages, vec![format!("Redis Error: {shown}")]);
}

#[test]
fn redis_error_with_detail_is_quoted_whole() {
    let cause = redis::RedisError::from((
        redis::ErrorKind::TypeError,
        "wrong type",
        "expected a string".to_string(),
    ));
    let e = from_redis_err(cause);
    assert_eq!(e.code, Code::Internal);
    assert_eq!(e.messages.len(), 1);
    assert!(e.messages[0].starts_with("Redis Error: "));
    assert!(e.messages[0].contains("wrong type"));
    assert!(e.messages[0].contains("expected a string"));
}

#[test]
fn client_needs_exactly_one_address() {
    for config in [config_with(&[]), config_with(&["redis://a/", "redis://b/"])] {
        match client_for(&config) {
            Ok(_) => panic!("a configuration without exactly one address was accepted"),
            Err(e) => {
                assert_eq!(e.code, Code::InvalidArgument);
                assert_eq!(
                    e.messages,
                    vec!["Only one address is supported for Redis store".to_string()]
                );
            }
        }
    }
}

#[test]
fn client_parses_the_one_address() {
    let config = config_with(&["redis://127.0.0.1:6379/"]);
    let client = match client_for(&config) {
        Ok(client) => client,
        Err(e) => panic!("address refused: {:?}", e),
    };
    assert_eq!(
        client.get_connection_info().addr.to_string(),
        "127.0.0.1:6379".to_string()
    );
}

#[test]
fn client_reports_an_address_it_cannot_parse_as_internal() {
    let config = config_with(&["this is no address"]);
    match client_for(&config) {
        Ok(_) => panic!("nonsense was accepted as an address"),
        Err(e) => {
            assert_eq!(e.code, Code::Internal);
            assert_eq!(e.messages.len(), 1);
            assert!(e.messages[0].starts_with("Redis Error: "));
            assert!(e.messages[0].len() > "Redis Error: ".len());
        }
    }
}

#[test]
fn new_needs_exactly_one_address() {
    match RedisStore::<u8, UuidTempNames>::new(&config_with(&["redis://127.0.0.1/"]), Ok(5u8)) {
        Ok(store) => assert_eq!(*store.conn(), 5u8),
        Err(e) => panic!("refused: {:?}", e),
    }
    for config in [config_with(&[]), config_with(&["redis://a/", "redis://b/", "redis://c/"])] {
        match RedisStore::<u8, UuidTempNames>::new(&config, Ok(5u8)) {
            Ok(_) => panic!("a configuration without exactly one address was accepted"),
            Err(e) => {
                assert_eq!(e.code, Code::InvalidArgument);
                assert_eq!(
                    e.messages,
                    vec!["Only one address is supported for Redis store".to_string()]
                );
            }
        }
    }
}

#[test]
fn new_passes_a_failed_connection_on_as_internal() {
    let cause = || redis::RedisError::from((redis::ErrorKind::IoError, "connection refused"));
    let shown = format!("{}", cause());
    match RedisStore::<u8, UuidTempNames>::new(&config_with(&["redis://127.0.0.1/"]), Err(cause()))
    {
        Ok(_) => panic!("a store was made without a connection"),
        Err(e) => {
            assert_eq!(e.code, Code::Internal);
            assert_eq!(e.messages, vec![format!("Redis Error: {shown}")]);
        }
    }
}

#[test]
fn new_checks_the_addresses_before_the_connection() {
    let cause = redis::RedisError::from((redis::ErrorKind::IoError, "connection refused"));
    match RedisStore::<u8, UuidTempNames>::new(&config_with(&[]), Err(cause)) {
        Ok(_) => panic!("a store was made without an address"),
        Err(e) => assert_eq!(e.code, Code::InvalidArgument),
    }
}

#[test]
fn client_error_keeps_the_text_of_the_parser() {
    let address = "this is no address";
    let shown = match redis::Client::open(address) {
        Ok(_) => panic!("nonsense was accepted as an address"),
        Err(e) => format!("{e}"),
    };
    match client_for(&config_with(&[address])) {
        Ok(_) => panic!("nonsense was accepted as an address"),
        Err(e) => assert_eq!(e.messages, vec![format!("Redis Error: {shown}")]),
    }
}
