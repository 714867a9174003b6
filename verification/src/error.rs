//! The ways in which a hint or a number can be refused, and what each says.

use crate::digits::{digits_of, push_digits, ParseFailure};
use crate::format::Format;
use vstd::prelude::*;
use vstd::string::*;

verus! {

/// Why a hint or a number was refused.
#[derive(Clone, Debug, PartialEq, Eq)]
pub enum Error {
    /// The hint names no base: the hint as it was given.
    InvalidHint(String),
    /// What follows an abbreviation of `base` in a hint is no number of eight
    /// bits: that text in lower case, and why.
    InvalidBase(String, ParseFailure),
    /// The base that a hint asks for lies outside 2 to 36.
    BaseOutOfRange(u8),
    /// The text is no number of the base: the text, the base, and why.
    InvalidNumber(String, Format, ParseFailure),
    /// Numbers are not written in this base.
    UnsupportedFormat(Format),
}

/// An `Error` with its texts as sequences of characters.
pub enum ErrorView {
    InvalidHint(Seq<char>),
    InvalidBase(Seq<char>, ParseFailure),
    BaseOutOfRange(u8),
    InvalidNumber(Seq<char>, Format, ParseFailure),
    UnsupportedFormat(Format),
}

impl View for Error {
    type V = ErrorView;

    open spec fn view(&self) -> ErrorView {
        match self {
            Error::InvalidHint(hint) => ErrorView::InvalidHint(hint@),
            Error::InvalidBase(text, cause) => ErrorView::InvalidBase(text@, *cause),
            Error::BaseOutOfRange(base) => ErrorView::BaseOutOfRange(*base),
            Error::InvalidNumber(text, format, cause) => ErrorView::InvalidNumber(
                text@,
                *format,
                *cause,
            ),
            Error::UnsupportedFormat(format) => ErrorView::UnsupportedFormat(*format),
        }
    }
}

/// A result with the error, if any, taken by its view.
pub open spec fn outcome<T>(r: Result<T, Error>) -> Result<T, ErrorView> {
    match r {
        Ok(value) => Ok(value),
        Err(e) => Err(e@),
    }
}

impl ErrorView {
    /// The message that tells a user what was refused and why.
    pub open spec fn message(self) -> Seq<char> {
        match self {
            ErrorView::InvalidHint(hint) => "Invalid base hint: "@ + hint,
            ErrorView::InvalidBase(text, cause) => "Base hint '"@ + text
                + "' could not be parsed as uint8: "@ + cause.spec_description(),
            ErrorView::BaseOutOfRange(base) => "Base "@ + digits_of(base as nat, 10)
                + " is not in [2, 36]"@,
            ErrorView::InvalidNumber(text, format, cause) => "Number '"@ + text
                + "' could not be parsed as "@ + format.spec_name() + ": "@
                + cause.spec_description(),
            ErrorView::UnsupportedFormat(_) => "Custom base render is not supported"@,
        }
    }

    /// Why the text that the error carries is no number, where the error is
    /// about such a text.
    pub open spec fn cause(self) -> Option<ParseFailure> {
        match self {
            ErrorView::InvalidBase(_, cause) => Some(cause),
            ErrorView::InvalidNumber(_, _, cause) => Some(cause),
            _ => None,
        }
    }
}

impl Error {
    /// Why the text that the error carries is no number, where the error is
    /// about such a text.
    pub fn cause(&self) -> (cause: Option<ParseFailure>)
        ensures
            cause == self@.cause(),
    {
        match self {
            Error::InvalidBase(_, cause) => Some(*cause),
            Error::InvalidNumber(_, _, cause) => Some(*cause),
            _ => None,
        }
    }

    /// The message that tells a user what was refused and why.
    pub fn message(&self) -> (text: String)
        ensures
            text@ == self@.message(),
    {
        match self {
            Error::InvalidHint(hint) => {
                let mut text = String::from_str("Invalid base hint: ");
                text.append(hint.as_str());
                text
            },
            Error::InvalidBase(base, cause) => {
                let mut text = String::from_str("Base hint '");
                text.append(base.as_str());
                text.append("' could not be parsed as uint8: ");
                text.append(cause.description());
                text
            },
            Error::BaseOutOfRange(base) => {
                let mut text = String::from_str("Base ");
                push_digits(&mut text, *base as u64, 10);
                text.append(" is not in [2, 36]");
                text
            },
            Error::InvalidNumber(number, format, cause) => {
                let mut text = String::from_str("Number '");
                text.append(number.as_str());
                text.append("' could not be parsed as ");
                text.append(format.name().as_str());
                text.append(": ");
                text.append(cause.description());
                text
            },
            Error::UnsupportedFormat(_) => String::from_str("Custom base render is not supported"),
        }
    }
}

} // verus!
