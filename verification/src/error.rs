//! The errors the library reports.
use vstd::prelude::*;
use crate::text::{debug_quoted, debug_text, decimal, push_str, usize_to_string};

verus! {

/// What went wrong, with the values that say where.
#[derive(Debug, Clone, PartialEq, Eq)]
pub enum LogriaError {
    /// A pattern did not compile: the regex crate's message, then the pattern.
    InvalidRegex(String, String),
    /// A regex was asked of a parser that splits.
    WrongParserType,
    /// The example of a regex parser did not match its pattern.
    InvalidExampleRegex(String),
    /// The example gave this many parts for this many aggregation methods.
    InvalidExampleSplit(usize, usize),
    /// A file could not be read: its path, then why.
    CannotRead(String, String),
    /// A file could not be written: its path, then why.
    CannotWrite(String, String),
    /// A file could not be removed: its path, then why.
    CannotRemove(String, String),
    /// A date or time format did not parse.
    CannotParseDate(String),
    /// A command was not understood.
    InvalidCommand(String),
    /// A message did not fit the parser.
    CannotParseMessage(String),
    /// The parser is not set up the way the operation needs.
    InvalidParserState(String),
}

/// A `LogriaError` with its texts taken by value.
pub enum ErrorView {
    InvalidRegex(Seq<char>, Seq<char>),
    WrongParserType,
    InvalidExampleRegex(Seq<char>),
    InvalidExampleSplit(usize, usize),
    CannotRead(Seq<char>, Seq<char>),
    CannotWrite(Seq<char>, Seq<char>),
    CannotRemove(Seq<char>, Seq<char>),
    CannotParseDate(Seq<char>),
    InvalidCommand(Seq<char>),
    CannotParseMessage(Seq<char>),
    InvalidParserState(Seq<char>),
}

impl View for LogriaError {
    type V = ErrorView;

    open spec fn view(&self) -> ErrorView {
        match self {
            LogriaError::InvalidRegex(a, b) => ErrorView::InvalidRegex(a@, b@),
            LogriaError::WrongParserType => ErrorView::WrongParserType,
            LogriaError::InvalidExampleRegex(a) => ErrorView::InvalidExampleRegex(a@),
            LogriaError::InvalidExampleSplit(a, b) => ErrorView::InvalidExampleSplit(*a, *b),
            LogriaError::CannotRead(a, b) => ErrorView::CannotRead(a@, b@),
            LogriaError::CannotWrite(a, b) => ErrorView::CannotWrite(a@, b@),
            LogriaError::CannotRemove(a, b) => ErrorView::CannotRemove(a@, b@),
            LogriaError::CannotParseDate(a) => ErrorView::CannotParseDate(a@),
            LogriaError::InvalidCommand(a) => ErrorView::InvalidCommand(a@),
            LogriaError::CannotParseMessage(a) => ErrorView::CannotParseMessage(a@),
            LogriaError::InvalidParserState(a) => ErrorView::InvalidParserState(a@),
        }
    }
}

/// How an error reads.
pub open spec fn error_message(e: ErrorView) -> Seq<char> {
    match e {
        ErrorView::InvalidRegex(why, msg) => why + ": "@ + msg,
        ErrorView::WrongParserType => "Cannot construct regex for a Split type parser"@,
        ErrorView::InvalidExampleRegex(msg) => "Invalid example: /"@ + msg + "/ has no captures"@,
        ErrorView::InvalidExampleSplit(n, count) => "Invalid example: "@ + decimal(n as nat) + " matches for "@ + decimal(
            count as nat,
        ) + " methods"@,
        ErrorView::CannotRead(path, why) => "Couldn't open "@ + debug_text(path) + ": "@ + why,
        ErrorView::CannotWrite(path, why) => "Couldn't write "@ + debug_text(path) + ": "@ + why,
        ErrorView::CannotRemove(path, why) => "Couldn't remove "@ + debug_text(path) + ": "@ + why,
        ErrorView::CannotParseDate(msg) => "Invalid format description: "@ + msg,
        ErrorView::InvalidCommand(msg) => "Invalid poll command: "@ + msg,
        ErrorView::CannotParseMessage(msg) => "Unable to parse message: "@ + msg,
        ErrorView::InvalidParserState(msg) => "Invalid parser state: "@ + msg,
    }
}

impl LogriaError {
    /// How the error reads (see `error_message`).
    pub fn describe(&self) -> (r: String)
        ensures
            r@ == error_message(self@),
    {
        let mut s = String::new();
        match self {
            LogriaError::InvalidRegex(why, msg) => {
                push_str(&mut s, why.as_str());
                push_str(&mut s, ": ");
                push_str(&mut s, msg.as_str());
            },
            LogriaError::WrongParserType => {
                push_str(&mut s, "Cannot construct regex for a Split type parser");
            },
            LogriaError::InvalidExampleRegex(msg) => {
                push_str(&mut s, "Invalid example: /");
                push_str(&mut s, msg.as_str());
                push_str(&mut s, "/ has no captures");
            },
            LogriaError::InvalidExampleSplit(n, count) => {
                push_str(&mut s, "Invalid example: ");
                push_str(&mut s, usize_to_string(*n).as_str());
                push_str(&mut s, " matches for ");
                push_str(&mut s, usize_to_string(*count).as_str());
                push_str(&mut s, " methods");
            },
            LogriaError::CannotRead(path, why) => {
                push_str(&mut s, "Couldn't open ");
                push_str(&mut s, debug_quoted(path.as_str()).as_str());
                push_str(&mut s, ": ");
                push_str(&mut s, why.as_str());
            },
            LogriaError::CannotWrite(path, why) => {
                push_str(&mut s, "Couldn't write ");
                push_str(&mut s, debug_quoted(path.as_str()).as_str());
                push_str(&mut s, ": ");
                push_str(&mut s, why.as_str());
            },
            LogriaError::CannotRemove(path, why) => {
                push_str(&mut s, "Couldn't remove ");
                push_str(&mut s, debug_quoted(path.as_str()).as_str());
                push_str(&mut s, ": ");
                push_str(&mut s, why.as_str());
            },
            LogriaError::CannotParseDate(msg) => {
                push_str(&mut s, "Invalid format description: ");
                push_str(&mut s, msg.as_str());
            },
            LogriaError::InvalidCommand(msg) => {
                push_str(&mut s, "Invalid poll command: ");
                push_str(&mut s, msg.as_str());
            },
            LogriaError::CannotParseMessage(msg) => {
                push_str(&mut s, "Unable to parse message: ");
                push_str(&mut s, msg.as_str());
            },
            LogriaError::InvalidParserState(msg) => {
                push_str(&mut s, "Invalid parser state: ");
                push_str(&mut s, msg.as_str());
            },
        }
        s
    }
}

} // verus!
