//! Error type shared by the converters and the command line.

use vstd::prelude::*;
use crate::text::{chars_of, push_str, push_vec, string_of};

verus! {

broadcast use vstd::string::group_string_axioms;

/// `std::io::Error`, carried opaquely.
#[verifier::external_type_specification]
#[verifier::external_body]
pub struct ExIoError(std::io::Error);

#[derive(Debug)]
pub enum Error {
    Io(std::io::Error),
    InvalidInput(String),
    ParseError(String),
    InvalidSubcommand(String),
    MissingArgument(String),
}

/// `Display` of an I/O error (its text depends on the operating system).
#[verifier::external_body]
fn io_error_text(e: &std::io::Error) -> String {
    format!("{}", e)
}

/// The message text of an error (what `Display` shows).
pub open spec fn spec_message_body(e: Error) -> Seq<char> {
    match e {
        Error::Io(_) => Seq::empty(),
        Error::InvalidInput(m) => "Invalid input: "@ + m@,
        Error::ParseError(m) => "Parse error: "@ + m@,
        Error::InvalidSubcommand(c) => "Invalid subcommand: '"@ + c@
            + "'. Use 'to-html' or 'to-md'"@,
        Error::MissingArgument(a) => "Missing argument: "@ + a@,
    }
}

impl Error {
    /// The error's message: `I/O error: …`, `Invalid input: …`,
    /// `Parse error: …`, `Invalid subcommand: '…'. Use 'to-html' or
    /// 'to-md'`, `Missing argument: …`.
    pub fn message(&self) -> (r: String)
        ensures
            !(*self is Io) ==> r@ == spec_message_body(*self),
            *self is Io ==> r@.len() >= 11 && r@.take(11) == "I/O error: "@,
    {
        let mut out: Vec<char> = Vec::new();
        match self {
            Error::Io(e) => {
                push_str(&mut out, "I/O error: ");
                let t = io_error_text(e);
                push_str(&mut out, t.as_str());
            },
            Error::InvalidInput(m) => {
                push_str(&mut out, "Invalid input: ");
                push_str(&mut out, m.as_str());
            },
            Error::ParseError(m) => {
                push_str(&mut out, "Parse error: ");
                push_str(&mut out, m.as_str());
            },
            Error::InvalidSubcommand(c) => {
                push_str(&mut out, "Invalid subcommand: '");
                push_str(&mut out, c.as_str());
                push_str(&mut out, "'. Use 'to-html' or 'to-md'");
            },
            Error::MissingArgument(a) => {
                push_str(&mut out, "Missing argument: ");
                push_str(&mut out, a.as_str());
            },
        }
        proof {
            reveal_strlit("I/O error: ");
            if self is Io {
                assert(out@.take(11) =~= "I/O error: "@);
            }
        }
        string_of(&out)
    }
}

} // verus!
