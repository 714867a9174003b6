//! Hints: the short texts by which a user names a base.
//!
//! A hint in lower case is tried as the beginning of a name, then as a mark,
//! then as a base by number; the first of the three that knows it decides.

use crate::digits::{is_digit, lemma_leading_digits_are_digits, parse_u8, spec_parse_u8};
use crate::error::{outcome, Error, ErrorView};
use crate::format::Format;
use crate::text::{lowercase, same_text, starts_with, strip_prefix};
use vstd::prelude::*;
use vstd::string::*;

verus! {

/// The base whose name in lower case begins with the hint, if the hint is not
/// empty. The names are tried in the order binary, octal, decimal,
/// hexadecimal.
pub open spec fn spec_match_word(hint: Seq<char>) -> Option<Format> {
    if hint.len() == 0 {
        None
    } else if hint.is_prefix_of("binary"@) {
        Some(Format::Binary)
    } else if hint.is_prefix_of("octal"@) {
        Some(Format::Octal)
    } else if hint.is_prefix_of("decimal"@) {
        Some(Format::Decimal)
    } else if hint.is_prefix_of("hexadecimal"@) {
        Some(Format::Hex)
    } else {
        None
    }
}

/// The base that the hint abbreviates by name.
pub fn match_word(hint: &str) -> (found: Option<Format>)
    ensures
        found == spec_match_word(hint@),
{
    if hint.is_empty() {
        None
    } else if starts_with("binary", hint) {
        Some(Format::Binary)
    } else if starts_with("octal", hint) {
        Some(Format::Octal)
    } else if starts_with("decimal", hint) {
        Some(Format::Decimal)
    } else if starts_with("hexadecimal", hint) {
        Some(Format::Hex)
    } else {
        None
    }
}

/// The base for which the hint is the mark that numbers carry in front, with
/// or without its zero where that is no other mark.
pub open spec fn spec_match_alias(hint: Seq<char>) -> Option<Format> {
    if hint == "0b"@ {
        Some(Format::Binary)
    } else if hint == "0o"@ {
        Some(Format::Octal)
    } else if hint == "0d"@ || hint == "0"@ {
        Some(Format::Decimal)
    } else if hint == "0x"@ || hint == "x"@ {
        Some(Format::Hex)
    } else {
        None
    }
}

/// The base that the hint marks: `0b`, `0o`, `0d` or `0`, `0x` or `x`.
pub fn match_alias(hint: &str) -> (found: Option<Format>)
    ensures
        found == spec_match_alias(hint@),
{
    if same_text(hint, "0b") {
        Some(Format::Binary)
    } else if same_text(hint, "0o") {
        Some(Format::Octal)
    } else if same_text(hint, "0d") || same_text(hint, "0") {
        Some(Format::Decimal)
    } else if same_text(hint, "0x") || same_text(hint, "x") {
        Some(Format::Hex)
    } else {
        None
    }
}

/// What follows the longest of `base`, `bas`, `ba` and `b` with which the
/// hint begins, if it begins with any.
pub open spec fn spec_strip_base(hint: Seq<char>) -> Option<Seq<char>> {
    if "base"@.is_prefix_of(hint) {
        Some(hint.skip("base"@.len() as int))
    } else if "bas"@.is_prefix_of(hint) {
        Some(hint.skip("bas"@.len() as int))
    } else if "ba"@.is_prefix_of(hint) {
        Some(hint.skip("ba"@.len() as int))
    } else if "b"@.is_prefix_of(hint) {
        Some(hint.skip("b"@.len() as int))
    } else {
        None
    }
}

/// What follows the longest abbreviation of `base` at the start of the hint.
pub fn strip_base<'a>(hint: &'a str) -> (rest: Option<&'a str>)
    ensures
        match rest {
            Some(r) => spec_strip_base(hint@) == Some(r@),
            None => spec_strip_base(hint@) is None,
        },
{
    match strip_prefix(hint, "base") {
        Some(rest) => Some(rest),
        None => match strip_prefix(hint, "bas") {
            Some(rest) => Some(rest),
            None => match strip_prefix(hint, "ba") {
                Some(rest) => Some(rest),
                None => strip_prefix(hint, "b"),
            },
        },
    }
}

impl Format {
    /// The base with the number `base`, or the refusal of a number outside 2
    /// to 36.
    pub open spec fn spec_custom(base: u8) -> Result<Format, ErrorView> {
        if 2 <= base <= 36 {
            Ok(Format::Custom(base))
        } else {
            Err(ErrorView::BaseOutOfRange(base))
        }
    }

    /// The base with the number `base`, if that lies from 2 to 36.
    pub fn custom(base: u8) -> (r: Result<Format, Error>)
        ensures
            outcome(r) == Format::spec_custom(base),
    {
        if 2 <= base && base <= 36 {
            Ok(Format::Custom(base))
        } else {
            Err(Error::BaseOutOfRange(base))
        }
    }
}

/// The base that the hint gives by number.
///
/// A hint that begins with `base`, or with that word cut short, must go on
/// with a decimal number of eight bits; what follows is refused where it is
/// none. Any other hint gives a base only where it is such a number itself.
pub open spec fn spec_match_custom(hint: Seq<char>) -> Option<Result<Format, ErrorView>> {
    match spec_strip_base(hint) {
        Some(rest) => Some(
            match spec_parse_u8(rest) {
                Ok(base) => Format::spec_custom(base),
                Err(cause) => Err(ErrorView::InvalidBase(rest, cause)),
            },
        ),
        None => match spec_parse_u8(hint) {
            Ok(base) => Some(Format::spec_custom(base)),
            Err(_) => None,
        },
    }
}

/// The base that the hint gives by number, as `base17`, `b17` or `17`.
pub fn match_custom(hint: &str) -> (found: Option<Result<Format, Error>>)
    ensures
        match found {
            Some(r) => spec_match_custom(hint@) == Some(outcome(r)),
            None => spec_match_custom(hint@) is None,
        },
{
    match strip_base(hint) {
        Some(rest) => match parse_u8(rest) {
            Ok(base) => Some(Format::custom(base)),
            Err(cause) => Some(Err(Error::InvalidBase(String::from_str(rest), cause))),
        },
        None => match parse_u8(hint) {
            Ok(base) => Some(Format::custom(base)),
            Err(_) => None,
        },
    }
}

/// The base that a hint in lower case stands for: by name, else by mark, else
/// by number. `given` is the hint as it was written, which the refusal of a
/// hint that stands for nothing carries.
pub open spec fn spec_resolve(hint: Seq<char>, given: Seq<char>) -> Result<Format, ErrorView> {
    match spec_match_word(hint) {
        Some(format) => Ok(format),
        None => match spec_match_alias(hint) {
            Some(format) => Ok(format),
            None => match spec_match_custom(hint) {
                Some(r) => r,
                None => Err(ErrorView::InvalidHint(given)),
            },
        },
    }
}

/// The base that a hint stands for, whatever the case of its letters: the
/// base that its lower-case form stands for.
pub open spec fn spec_from_str(hint: Seq<char>) -> Result<Format, ErrorView> {
    spec_resolve(lowercase(hint), hint)
}

impl Format {
    /// The base that a hint in lower case stands for.
    pub fn resolve(hint: &str, given: &str) -> (r: Result<Format, Error>)
        ensures
            outcome(r) == spec_resolve(hint@, given@),
            r matches Ok(format) ==> format.wf(),
    {
        match match_word(hint) {
            Some(format) => Ok(format),
            None => match match_alias(hint) {
                Some(format) => Ok(format),
                None => match match_custom(hint) {
                    Some(r) => r,
                    None => Err(Error::InvalidHint(String::from_str(given))),
                },
            },
        }
    }

    /// The base that a hint stands for, whatever the case of its letters.
    pub fn from_str(s: &str) -> (r: Result<Format, Error>)
        ensures
            outcome(r) == spec_from_str(s@),
            r matches Ok(format) ==> format.wf(),
    {
        let hint = s.to_lowercase();
        Format::resolve(hint.as_str(), s)
    }

    /// The name of a common base in lower case, of which a hint may be the
    /// beginning.
    pub open spec fn spec_word(self) -> Seq<char>
        recommends
            self.is_canonical(),
    {
        match self {
            Format::Binary => "binary"@,
            Format::Octal => "octal"@,
            Format::Decimal => "decimal"@,
            _ => "hexadecimal"@,
        }
    }
}

/// Every hint that is not empty and with which the name of a common base
/// begins, the whole name too, stands for that base.
pub proof fn lemma_word_prefix_resolves(format: Format, hint: Seq<char>, given: Seq<char>)
    requires
        format.is_canonical(),
        hint.len() > 0,
        hint.is_prefix_of(format.spec_word()),
    ensures
        spec_match_word(hint) == Some(format),
        spec_resolve(hint, given) == Ok::<Format, ErrorView>(format),
{
    reveal_strlit("binary");
    reveal_strlit("octal");
    reveal_strlit("decimal");
    reveal_strlit("hexadecimal");
    // The four names begin with four letters, and the hint with one of them.
    assert(hint[0] == format.spec_word().subrange(0, hint.len() as int)[0]);
}

/// The same of a hint in any case: where its lower-case form is not empty
/// and begins the name of a common base, the hint stands for that base.
pub proof fn lemma_word_prefix_from_str(format: Format, hint: Seq<char>)
    requires
        format.is_canonical(),
        lowercase(hint).len() > 0,
        lowercase(hint).is_prefix_of(format.spec_word()),
    ensures
        spec_from_str(hint) == Ok::<Format, ErrorView>(format),
{
    lemma_word_prefix_resolves(format, lowercase(hint), hint);
}

/// Whether `head` is the word `base` or that word cut short, down to nothing.
pub open spec fn is_base_abbreviation(head: Seq<char>) -> bool {
    head.is_prefix_of("base"@)
}

/// Whichever abbreviation of `base` is taken off the start of a hint, down to
/// none at all: where what follows is a number of eight bits, the hint gives
/// the base with that number, or the refusal of that number.
pub proof fn lemma_number_behind_base_is_taken(hint: Seq<char>, head: Seq<char>)
    requires
        is_base_abbreviation(head),
        head.is_prefix_of(hint),
        spec_parse_u8(hint.skip(head.len() as int)) is Ok,
    ensures
        spec_match_custom(hint) == Some(
            Format::spec_custom(spec_parse_u8(hint.skip(head.len() as int))->Ok_0),
        ),
{
    reveal_strlit("base");
    reveal_strlit("bas");
    reveal_strlit("ba");
    reveal_strlit("b");
    let rest = hint.skip(head.len() as int);
    let k = head.len() as int;
    // What follows begins with a sign or a digit, so with no letter of `base`.
    assert(rest.len() > 0 && (rest[0] == '+' || is_digit(rest[0], 10))) by {
        if rest.len() > 0 && rest[0] != '+' {
            lemma_leading_digits_are_digits(rest, 10);
        }
    }
    // So the abbreviations that are longer than `head` do not begin the hint.
    if k < 4 && "base"@.is_prefix_of(hint) {
        assert(hint.subrange(0, 4)[k] == "base"@[k]);
    }
    if k < 3 && "bas"@.is_prefix_of(hint) {
        assert(hint.subrange(0, 3)[k] == "bas"@[k]);
    }
    if k < 2 && "ba"@.is_prefix_of(hint) {
        assert(hint.subrange(0, 2)[k] == "ba"@[k]);
    }
    if k < 1 && "b"@.is_prefix_of(hint) {
        assert(hint.subrange(0, 1)[k] == "b"@[k]);
    }
    // `head` itself is one of the five, and begins it.
    assert(head =~= "base"@.subrange(0, k));
    assert("base"@.subrange(0, 4) =~= "base"@);
    assert("base"@.subrange(0, 3) =~= "bas"@);
    assert("base"@.subrange(0, 2) =~= "ba"@);
    assert("base"@.subrange(0, 1) =~= "b"@);
    assert(hint.skip(0) =~= hint);
}

/// A base that a hint stands for is well formed.
pub proof fn lemma_resolved_is_wf(hint: Seq<char>, given: Seq<char>)
    ensures
        spec_resolve(hint, given) matches Ok(format) ==> format.wf(),
{
}

} // verus!
