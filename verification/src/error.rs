//! Errors as values: a coarse kind and a chain of human-readable context.

use vstd::prelude::*;
use vstd::string::*;

verus! {

/// The coarse kind of an [`Error`].
#[derive(Clone, Copy, Debug, PartialEq, Eq, Structural)]
pub enum Code {
    /// A caller handed over something the store cannot work with.
    InvalidArgument,
    /// The requested blob is not in the store.
    NotFound,
    /// The backend failed, or a defensive invariant was violated.
    Internal,
}

/// An error: its kind, and the messages gathered while it travelled up,
/// the cause first.
#[derive(Clone, Debug, PartialEq, Eq)]
pub struct Error {
    pub code: Code,
    pub messages: Vec<String>,
}

/// What an [`Error`] is, mathematically.
pub struct ErrorView {
    pub code: Code,
    pub messages: Seq<Seq<char>>,
}

impl View for Error {
    type V = ErrorView;

    open spec fn view(&self) -> ErrorView {
        ErrorView { code: self.code, messages: self.messages.deep_view() }
    }
}

/// The messages of an error as one text: the cause first, each further message behind
/// ` : `.
pub open spec fn joined(messages: Seq<Seq<char>>) -> Seq<char>
    decreases messages.len(),
{
    if messages.len() == 0 {
        Seq::empty()
    } else if messages.len() == 1 {
        messages[0]
    } else {
        joined(messages.drop_last()) + " : "@ + messages.last()
    }
}

impl Error {
    /// An error of kind `code` whose only message is `message`.
    pub fn new(code: Code, message: String) -> (e: Error)
        ensures
            e@.code == code,
            e@.messages == seq![message@],
    {
        let mut messages: Vec<String> = Vec::new();
        messages.push(message);
        let e = Error { code, messages };
        assert(e@.messages =~= seq![message@]);
        e
    }

    /// The same error with `context` added behind the messages it already has.
    pub fn append(self, context: String) -> (e: Error)
        ensures
            e@.code == self@.code,
            e@.messages == self@.messages.push(context@),
    {
        let Error { code, mut messages } = self;
        messages.push(context);
        let e = Error { code, messages };
        assert(e@.messages =~= self@.messages.push(context@));
        e
    }

    /// The messages of the error as one text.
    pub fn message_string(&self) -> (text: String)
        ensures
            text@ == joined(self@.messages),
    {
        let mut text = String::new();
        let mut i: usize = 0;
        while i < self.messages.len()
            invariant
                i <= self.messages@.len(),
                text@ == joined(self@.messages.take(i as int)),
            decreases self.messages@.len() - i,
        {
            proof {
                let next = self@.messages.take(i + 1);
                assert(next.drop_last() =~= self@.messages.take(i as int));
                assert(next.last() == self.messages@[i as int]@);
                if i == 0 {
                    assert(self@.messages.take(0).len() == 0);
                }
            }
            if i > 0 {
                text.append(" : ");
            }
            text.append(self.messages[i].as_str());
            i += 1;
            assert(text@ =~= joined(self@.messages.take(i as int)));
        }
        assert(self@.messages.take(i as int) =~= self@.messages);
        text
    }
}

} // verus!
