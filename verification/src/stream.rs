//! The two ends of a blob stream.
//!
//! A stream carries the chunks of one blob in order. Every chunk on it holds data;
//! the chunk without data is the mark of the end of the stream, and only the writer
//! that ends its stream on purpose sets it. A reader that finds the stream closed
//! without that mark knows that the writer gave up.

use vstd::prelude::*;
use vstd::string::*;

use crate::error::{Code, Error, ErrorView};
use crate::trusted::bytes_contents;

verus! {

/// The message of the error for a chunk without data that is sent as data.
pub open spec fn empty_chunk_message() -> Seq<char> {
    "Cannot send EOF in send(). Instead use send_eof()"@
}

/// The message of the error for a stream that closed without the mark of its end.
pub open spec fn abandoned_message() -> Seq<char> {
    "Writer was dropped before EOF was sent"@
}

/// What the reader of a stream receives, mathematically: the bytes of the next
/// chunk, none at the end of the stream, or an error where the writer gave up.
pub open spec fn received(chunk: Option<Seq<u8>>, end_sent: bool) -> Result<Seq<u8>, ErrorView> {
    match chunk {
        Some(data) => Ok(data),
        None => if end_sent {
            Ok(Seq::empty())
        } else {
            Err(ErrorView { code: Code::Internal, messages: seq![abandoned_message()] })
        },
    }
}

/// Whether `chunk` may be sent as data: it may if it holds data. The chunk without
/// data is refused as an invalid argument, since it would end the stream by
/// accident.
pub fn check_send(chunk: &bytes::Bytes) -> (r: Result<(), Error>)
    ensures
        r is Ok <==> bytes_contents(*chunk).len() > 0,
        r is Err ==> r->Err_0@ == (ErrorView {
            code: Code::InvalidArgument,
            messages: seq![empty_chunk_message()],
        }),
{
    if chunk.len() == 0 {
        Err(
            Error::new(
                Code::InvalidArgument,
                String::from_str("Cannot send EOF in send(). Instead use send_eof()"),
            ),
        )
    } else {
        Ok(())
    }
}

/// What the reader of a stream receives: `chunk` where the stream gave one; where
/// the stream is closed, the chunk without data if the writer had set the mark of
/// the end, and an internal error if it had not.
pub fn on_received(chunk: Option<bytes::Bytes>, end_sent: bool) -> (r: Result<bytes::Bytes, Error>)
    ensures
        match r {
            Ok(data) => Ok::<Seq<u8>, ErrorView>(bytes_contents(data)),
            Err(e) => Err(e@),
        } == received(
            match chunk {
                Some(data) => Some(bytes_contents(data)),
                None => None,
            },
            end_sent,
        ),
        chunk is Some ==> r == Ok::<bytes::Bytes, Error>(chunk->Some_0),
{
    match chunk {
        Some(data) => Ok(data),
        None => {
            if end_sent {
                Ok(bytes::Bytes::new())
            } else {
                Err(
                    Error::new(
                        Code::Internal,
                        String::from_str("Writer was dropped before EOF was sent"),
                    ),
                )
            }
        },
    }
}

} // verus!
