use bytes::Bytes;
use redis_store::error::Code;
use redis_store::stream::{check_send, on_received};

#[test]
fn chunk_with_data_may_be_sent() {
    assert!(check_send(&Bytes::from_static(b"x")).is_ok());
    assert!(check_send(&Bytes::from(vec![0u8; 70000])).is_ok());
}

#[test]
fn chunk_without_data_may_not_be_sent_as_data() {
    match check_send(&Bytes::new()) {
        Ok(()) => panic!("the mark of the end was accepted as data"),
        Err(e) => {
            assert_eq!(e.code, Code::InvalidArgument);
            assert_eq!(
                e.messages,
                vec!["Cannot send EOF in send(). Instead use send_eof()".to_string()]
            );
        }
    }
}

#[test]
fn received_chunk_is_handed_on_as_it_is() {
    for end_sent in [false, true] {
        match on_received(Some(Bytes::from_static(b"data")), end_sent) {
            Ok(chunk) => assert_eq!(chunk, Bytes::from_static(b"data")),
            Err(e) => panic!("a chunk was lost: {:?}", e),
        }
    }
}

#[test]
fn closed_stream_with_its_end_marked_gives_the_empty_chunk() {
    match on_received(None, true) {
        Ok(chunk) => assert!(chunk.is_empty()),
        Err(e) => panic!("the end of the stream was taken for a failure: {:?}", e),
    }
}

#[test]
fn closed_stream_without_its_end_marked_is_an_error() {
    match on_received(None, false) {
        Ok(_) => panic!("an abandoned stream was taken for a complete one"),
        Err(e) => {
            assert_eq!(e.code, Code::Internal);
            assert_eq!(e.messages, vec!["Writer was dropped before EOF was sent".to_string()]);
        }
    }
}
