//! Answers of the management interface.
use vstd::prelude::*;

verus! {

/// The text `ok`.
pub open spec fn ok_text() -> Seq<char> {
    seq!['o', 'k']
}

/// An answer: whether the request succeeded, a code, the data and a message.
pub struct Resp<T> {
    /// Whether the request succeeded.
    pub is_success: bool,
    /// 0 on success, otherwise the error's code.
    pub code: u8,
    /// The data of a successful answer.
    pub data: Option<T>,
    /// `ok`, or what went wrong.
    pub message: String,
}

/// What an error answer carries: a message and a code.
pub enum ErrorArgs {
    /// Message and code.
    Arg(String, u8),
}

impl From<String> for ErrorArgs {
    /// A message with code 1.
    fn from(message: String) -> (r: Self) {
        Self::Arg(message, 1)
    }
}

impl vstd::std_specs::convert::FromSpecImpl<String> for ErrorArgs {
    open spec fn obeys_from_spec() -> bool {
        true
    }

    open spec fn from_spec(v: String) -> Self {
        ErrorArgs::Arg(v, 1)
    }
}

impl From<(String, u8)> for ErrorArgs {
    /// A message with its code.
    fn from(args: (String, u8)) -> (r: Self) {
        let (message, code) = args;
        Self::Arg(message, code)
    }
}

impl vstd::std_specs::convert::FromSpecImpl<(String, u8)> for ErrorArgs {
    open spec fn obeys_from_spec() -> bool {
        true
    }

    open spec fn from_spec(v: (String, u8)) -> Self {
        ErrorArgs::Arg(v.0, v.1)
    }
}

/// The `ok` message.
fn ok_message() -> (r: String)
    ensures
        r@ == ok_text(),
{
    proof {
        reveal_strlit("ok");
    }
    let r = String::from_str("ok");
    assert(r@ =~= ok_text());
    r
}

impl<T> Default for Resp<T> {
    /// A successful answer without data.
    fn default() -> (r: Self)
        ensures
            r.is_success,
            r.code == 0,
            r.data is None,
            r.message@ == ok_text(),
    {
        Self { is_success: true, code: 0, data: None, message: ok_message() }
    }
}

impl<T> Resp<T> {
    /// A successful answer carrying `data`.
    pub fn success(data: T) -> (r: Self)
        ensures
            r.is_success,
            r.code == 0,
            r.data == Some(data),
            r.message@ == ok_text(),
    {
        Self { is_success: true, code: 0, data: Some(data), message: ok_message() }
    }

    /// A failed answer with the message and code of `args`.
    pub fn error(args: ErrorArgs) -> (r: Self)
        ensures
            !r.is_success,
            r.data is None,
            match args {
                ErrorArgs::Arg(message, code) => r.message == message && r.code == code,
            },
    {
        let (message, code) = match args {
            ErrorArgs::Arg(message, code) => (message, code),
        };
        Self { is_success: false, code, data: None, message }
    }
}

} // verus!
