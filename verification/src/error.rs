//! The bar's error type.
use vstd::prelude::*;
use crate::text::{has_prefix, push_str};

verus! {

/// `std::io::Error`, carried through unchanged.
#[verifier::external_type_specification]
#[verifier::external_body]
pub struct ExIoError(std::io::Error);

/// `tokio::task::JoinError`, carried through unchanged.
#[verifier::external_type_specification]
#[verifier::external_body]
pub struct ExJoinError(tokio::task::JoinError);

/// `reqwest::Error`, carried through unchanged.
#[verifier::external_type_specification]
#[verifier::external_body]
pub struct ExReqwestError(reqwest::Error);

/// `chrono::ParseError`, carried through unchanged.
#[verifier::external_type_specification]
#[verifier::external_body]
pub struct ExChronoParseError(chrono::ParseError);

/// Why an item or the bar failed.
pub enum BarError {
    /// A failure described by the bar itself.
    Local(String),
    Io(std::io::Error),
    Tokio(tokio::task::JoinError),
    Reqwest(reqwest::Error),
    ChronoParse(chrono::ParseError),
}

/// The `Debug` text of an I/O error (`format!("{err:?}")`). Nothing is
/// claimed of the text.
#[verifier::external_body]
fn io_debug_text(err: &std::io::Error) -> String {
    format!("{err:?}")
}

/// The `Display` text of a task error (`format!("{err}")`). Nothing is
/// claimed of the text.
#[verifier::external_body]
fn join_display_text(err: &tokio::task::JoinError) -> String {
    format!("{err}")
}

/// The `Display` text of an HTTP error (`format!("{err}")`). Nothing is
/// claimed of the text.
#[verifier::external_body]
fn reqwest_display_text(err: &reqwest::Error) -> String {
    format!("{err}")
}

/// The `Debug` text of a time parsing error (`format!("{err:?}")`).
/// Nothing is claimed of the text.
#[verifier::external_body]
fn chrono_debug_text(err: &chrono::ParseError) -> String {
    format!("{err:?}")
}

/// The heading of the text of an error of each kind other than `Local`.
pub open spec fn heading(e: BarError) -> Seq<char> {
    match e {
        BarError::Local(_) => Seq::empty(),
        BarError::Io(_) => "Io Error\n"@,
        BarError::Tokio(_) => "Tokio Error\n"@,
        BarError::Reqwest(_) => "Reqwest Error\n"@,
        BarError::ChronoParse(_) => "Chrono Parse Error\n"@,
    }
}

fn with_heading(h: &str, body: String) -> (r: String)
    ensures
        r@ == h@ + body@,
{
    let mut r = h.to_owned();
    push_str(&mut r, body.as_str());
    r
}

impl BarError {
    /// The text shown for the error: the message itself for local errors,
    /// a heading and the text of the underlying error for the others.
    pub fn message(&self) -> (r: String)
        ensures
            self matches BarError::Local(m) ==> r@ == m@,
            !(self is Local) ==> has_prefix(r@, heading(*self)),
    {
        let r = match self {
            BarError::Local(m) => m.clone(),
            BarError::Io(e) => with_heading("Io Error\n", io_debug_text(e)),
            BarError::Tokio(e) => with_heading("Tokio Error\n", join_display_text(e)),
            BarError::Reqwest(e) => with_heading("Reqwest Error\n", reqwest_display_text(e)),
            BarError::ChronoParse(e) => with_heading("Chrono Parse Error\n", chrono_debug_text(e)),
        };
        proof {
            if !(self is Local) {
                assert(r@.subrange(0, heading(*self).len() as int) =~= heading(*self));
            }
        }
        r
    }
}

impl From<std::io::Error> for BarError {
    fn from(err: std::io::Error) -> (r: BarError) {
        BarError::Io(err)
    }
}

impl vstd::std_specs::convert::FromSpecImpl<std::io::Error> for BarError {
    open spec fn obeys_from_spec() -> bool {
        true
    }

    open spec fn from_spec(v: std::io::Error) -> BarError {
        BarError::Io(v)
    }
}

impl From<tokio::task::JoinError> for BarError {
    fn from(err: tokio::task::JoinError) -> (r: BarError) {
        BarError::Tokio(err)
    }
}

impl vstd::std_specs::convert::FromSpecImpl<tokio::task::JoinError> for BarError {
    open spec fn obeys_from_spec() -> bool {
        true
    }

    open spec fn from_spec(v: tokio::task::JoinError) -> BarError {
        BarError::Tokio(v)
    }
}

impl From<reqwest::Error> for BarError {
    fn from(err: reqwest::Error) -> (r: BarError) {
        BarError::Reqwest(err)
    }
}

impl vstd::std_specs::convert::FromSpecImpl<reqwest::Error> for BarError {
    open spec fn obeys_from_spec() -> bool {
        true
    }

    open spec fn from_spec(v: reqwest::Error) -> BarError {
        BarError::Reqwest(v)
    }
}

impl From<chrono::ParseError> for BarError {
    fn from(err: chrono::ParseError) -> (r: BarError) {
        BarError::ChronoParse(err)
    }
}

impl vstd::std_specs::convert::FromSpecImpl<chrono::ParseError> for BarError {
    open spec fn obeys_from_spec() -> bool {
        true
    }

    open spec fn from_spec(v: chrono::ParseError) -> BarError {
        BarError::ChronoParse(v)
    }
}

} // verus!
