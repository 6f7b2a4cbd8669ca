//! Request headers whose values were checked by the HTTP stack.

use crate::error::Failure;
use reqwest::header::{HeaderValue, InvalidHeaderValue};
use vstd::prelude::*;

verus! {

#[verifier::external_type_specification]
#[verifier::external_body]
pub struct ExHeaderValue(HeaderValue);

#[verifier::external_type_specification]
#[verifier::external_body]
pub struct ExInvalidHeaderValue(InvalidHeaderValue);

/// The header fields that this library sets.
#[derive(Debug, Clone, Copy, PartialEq, Eq, Hash, Structural)]
pub enum Field {
    Accept,
    Authorization,
    UserAgent,
}

impl Field {
    /// The name of the field as it is written in a request.
    pub open spec fn spec_name(self) -> Seq<char> {
        match self {
            Field::Accept => "Accept"@,
            Field::Authorization => "Authorization"@,
            Field::UserAgent => "User-Agent"@,
        }
    }

    /// The name of the field as it is written in a request.
    pub fn name(&self) -> (s: &'static str)
        ensures
            s@ == self.spec_name(),
    {
        match self {
            Field::Accept => "Accept",
            Field::Authorization => "Authorization",
            Field::UserAgent => "User-Agent",
        }
    }
}

/// A character that a header value may hold: a tab, or anything from the
/// space upwards but the delete character.
pub open spec fn header_char(c: char) -> bool {
    c == '\t' || (c >= ' ' && c != '\u{7f}')
}

/// A text that is accepted as a header value.
pub open spec fn valid_header_value(text: Seq<char>) -> bool {
    forall|i: int| 0 <= i < text.len() ==> header_char(#[trigger] text[i])
}

/// Calls `reqwest::header::HeaderValue::from_str`, which accepts a text
/// if and only if each of its bytes is a tab or is at least 32 and not 127.
/// The bytes of a character beyond ASCII are all above 127, so the text is
/// accepted exactly when each of its characters is a tab, or at least the
/// space and not the delete character.
#[verifier::external_body]
fn parse_header_value(text: &str) -> (r: Result<HeaderValue, InvalidHeaderValue>)
    ensures
        r is Ok <==> valid_header_value(text@),
{
    HeaderValue::from_str(text)
}

/// A header of a request: a field and a value that the HTTP stack accepts.
#[derive(Debug, PartialEq, Eq)]
pub struct Header {
    field: Field,
    text: String,
}

impl View for Header {
    type V = (Field, Seq<char>);

    closed spec fn view(&self) -> (Field, Seq<char>) {
        (self.field, self.text@)
    }
}

impl Clone for Header {
    fn clone(&self) -> (r: Header)
        ensures
            r@ == self@,
    {
        proof {
            use_type_invariant(self);
        }
        Header { field: self.field, text: self.text.clone() }
    }
}

impl Header {
    #[verifier::type_invariant]
    spec fn accepted(self) -> bool {
        valid_header_value(self.text@)
    }

    /// A header for `field` with the value `text`, if the text is a valid
    /// header value.
    pub fn new(field: Field, text: String) -> (r: Result<Header, Failure>)
        ensures
            valid_header_value(text@) ==> r is Ok && r->Ok_0@ == (field, text@),
            !valid_header_value(text@) ==> r == Err::<Header, Failure>(Failure::InvalidHeaderValue),
    {
        match parse_header_value(text.as_str()) {
            Ok(_) => Ok(Header { field, text }),
            Err(_) => Err(Failure::InvalidHeaderValue),
        }
    }

    /// A header for `field` with a value that is known to be valid.
    pub(crate) fn of_valid(field: Field, text: String) -> (h: Header)
        requires
            valid_header_value(text@),
        ensures
            h@ == (field, text@),
    {
        match Self::new(field, text) {
            Ok(h) => h,
            Err(_) => unreached(),
        }
    }

    /// The field of the header.
    pub fn field(&self) -> (f: Field)
        ensures
            f == self@.0,
    {
        self.field
    }

    /// The value of the header, which is a valid header value.
    pub fn value(&self) -> (s: &str)
        ensures
            s@ == self@.1,
            valid_header_value(s@),
    {
        proof {
            use_type_invariant(self);
        }
        self.text.as_str()
    }
}

} // verus!
