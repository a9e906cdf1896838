//! The error that the script compiler reports.

use vstd::prelude::*;
use vstd::string::*;

verus! {

/// A reported failure: a message, to which each caller on the way up
/// may add its own context in front.
#[derive(Debug, Clone)]
pub struct ParseError {
    err: String,
}

pub type ParseResult<T> = Result<T, ParseError>;

impl View for ParseError {
    type V = Seq<char>;

    closed spec fn view(&self) -> Seq<char> {
        self.err@
    }
}

/// What a result is in contracts: the view of its value, or the message of
/// its error.
pub open spec fn outcome<T: View>(r: Result<T, ParseError>) -> Result<T::V, Seq<char>> {
    match r {
        Ok(v) => Ok(v@),
        Err(e) => Err(e@),
    }
}

/// The views of the items of `v`.
pub open spec fn views<T: View>(v: Seq<T>) -> Seq<T::V> {
    Seq::new(v.len(), |i: int| v[i]@)
}

/// The message of `cause` with `context` and a colon in front.
pub open spec fn annotated(context: Seq<char>, cause: Seq<char>) -> Seq<char> {
    context + seq![':', ' '] + cause
}

impl ParseError {
    /// An error with the message `s`.
    pub fn report(s: &str) -> (e: ParseError)
        ensures
            e@ == s@,
    {
        ParseError { err: s.to_owned() }
    }

    /// An error with the message `s`, taken over as it is.
    pub fn report_string(s: String) -> (e: ParseError)
        ensures
            e@ == s@,
    {
        ParseError { err: s }
    }

    /// An error whose message is `prefix` followed by `content`.
    pub fn report_with(prefix: &str, content: &str) -> (e: ParseError)
        ensures
            e@ == prefix@ + content@,
    {
        let mut err = prefix.to_owned();
        err.append(content);
        ParseError { err }
    }

    /// A new error whose message is `s`, a colon, a space and this error's message.
    pub fn annotate(&self, s: &str) -> (e: ParseError)
        ensures
            e@ == annotated(s@, self@),
    {
        let mut err = s.to_owned();
        err.append(": ");
        proof {
            reveal_strlit(": ");
            assert(": "@ =~= seq![':', ' ']);
        }
        err.append(self.err.as_str());
        ParseError { err }
    }

    /// The message.
    pub fn message(&self) -> (s: String)
        ensures
            s@ == self@,
    {
        self.err.clone()
    }
}

impl From<String> for ParseError {
    /// An error with the message `item`, taken over as it is.
    fn from(item: String) -> (e: ParseError)
        ensures
            e@ == item@,
    {
        ParseError { err: item }
    }
}

impl vstd::std_specs::convert::FromSpecImpl<String> for ParseError {
    open spec fn obeys_from_spec() -> bool {
        true
    }

    closed spec fn from_spec(item: String) -> ParseError {
        ParseError { err: item }
    }
}

impl From<&str> for ParseError {
    /// An error with the message `item`.
    fn from(item: &str) -> (e: ParseError)
        ensures
            e@ == item@,
    {
        ParseError::report(item)
    }
}

/// No specification function can make the error of a string slice: what
/// `from` gives is stated by its own contract.
impl vstd::std_specs::convert::FromSpecImpl<&str> for ParseError {
    open spec fn obeys_from_spec() -> bool {
        false
    }

    open spec fn from_spec(item: &str) -> ParseError {
        arbitrary()
    }
}

} // verus!
