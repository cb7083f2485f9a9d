use vstd::prelude::*;

use crate::text::{decimal, push_str, substring, byte_index_of, sub_spec, u16_to_string};

verus! {

/// Status code given to an error built from a message alone.
pub const DEFAULT_ERROR_STATUS_CODE: u16 = 500;

/// While set, errors with status code 0 are answered with their full message.
pub const DEBUG_MODE: bool = true;

/// An error that is answered with an HTTP status code and a message.
#[derive(Debug)]
pub struct HttpError {
    code: u16,
    message: String,
}

impl HttpError {
    pub closed spec fn spec_code(&self) -> u16 {
        self.code
    }

    pub closed spec fn spec_message(&self) -> Seq<char> {
        self.message@
    }

    /// The error has status code `c` and message `m`.
    pub open spec fn is(&self, c: u16, m: Seq<char>) -> bool {
        self.spec_code() == c && self.spec_message() == m
    }

    pub fn new(c: u16, m: &str) -> (r: Self)
        ensures
            r.is(c, m@),
    {
        HttpError { code: c, message: m.to_owned() }
    }

    /// Builds an error from a status code and an owned message.
    pub fn with_message(c: u16, m: String) -> (r: Self)
        ensures
            r.is(c, m@),
    {
        HttpError { code: c, message: m }
    }

    pub fn code(&self) -> (r: u16)
        ensures
            r == self.spec_code(),
    {
        self.code
    }

    pub fn message(&self) -> (r: &str)
        ensures
            r@ == self.spec_message(),
    {
        self.message.as_str()
    }

    /// Turns an error into a 202 answer: the request went through.
    pub fn _202(&self, new_code: &str) -> (r: Self)
        ensures
            r.is(
                202,
                "We encountered an error, but your request went through. Error "@ + new_code@ + ":"@
                    + self.spec_message(),
            ),
    {
        let mut m = String::from_str("We encountered an error, but your request went through. Error ");
        push_str(&mut m, new_code);
        push_str(&mut m, ":");
        push_str(&mut m, self.message.as_str());
        HttpError { code: 202, message: m }
    }

    /// The status code and body of the answer to this error.
    pub fn respond(&self) -> (r: (u16, String))
        ensures
            r.0 == respond_code(self.spec_code()),
            r.1@ == respond_body(self.spec_code(), self.spec_message(), DEBUG_MODE),
    {
        if self.code == 0 && !DEBUG_MODE {
            let colon = crate::text::find_byte_index(self.message.as_str(), ':');
            match colon {
                Some(i) => (500, substring(self.message.as_str(), 0, i)),
                None => {
                    if self.message.as_str().len() < 14 {
                        (500, self.message.clone())
                    } else {
                        (500, String::from_str("Error 0"))
                    }
                }
            }
        } else if self.code == 0 {
            (500, self.message.clone())
        } else {
            (self.code, self.message.clone())
        }
    }
}

/// What `format!("{:?}", s)` gives for a string: the string between double
/// quotes, with its special characters escaped.
pub uninterp spec fn debug_quoted(s: Seq<char>) -> Seq<char>;

/// Calls `<str as Debug>::fmt` through `format!("{:?}", s)`; its result is
/// named `debug_quoted`.
#[verifier::external_body]
fn debug_str(s: &str) -> (r: String)
    ensures
        r@ == debug_quoted(s@),
{
    format!("{:?}", s)
}

/// How an error is written by its `Debug` form.
pub open spec fn debug_text_spec(code: u16, message: Seq<char>) -> Seq<char> {
    "HttpError { code: "@ + decimal(code as nat) + ", message: "@ + debug_quoted(message) + " }"@
}

impl HttpError {
    /// The error as its `Debug` form writes it.
    pub fn debug_text(&self) -> (r: String)
        ensures
            r@ == debug_text_spec(self.spec_code(), self.spec_message()),
    {
        let mut r = String::from_str("HttpError { code: ");
        let c = u16_to_string(self.code);
        push_str(&mut r, c.as_str());
        push_str(&mut r, ", message: ");
        let m = debug_str(self.message.as_str());
        push_str(&mut r, m.as_str());
        push_str(&mut r, " }");
        r
    }
}

/// The status code with which an error with code `code` is answered.
pub open spec fn respond_code(code: u16) -> u16 {
    if code == 0 { 500 } else { code }
}

/// The body with which an error is answered: in debug mode, or for a
/// non-zero code, its message; otherwise its message up to the first colon,
/// the whole message when it is shorter than 14 bytes, or "Error 0".
pub open spec fn respond_body(code: u16, message: Seq<char>, debug: bool) -> Seq<char> {
    if code == 0 && !debug {
        match byte_index_of(message, ':') {
            Some(i) => sub_spec(message, 0, i),
            None => if vstd::utf8::encode_utf8(message).len() < 14 { message } else { "Error 0"@ },
        }
    } else {
        message
    }
}

}
