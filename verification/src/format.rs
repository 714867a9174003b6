//! The bases in which numbers are read and written.

use crate::digits::{
    digits_of, format_bits, format_decimal, lemma_digits_of, lemma_parse_digits_of,
    lemma_parse_digits_of_above, lemma_parse_negated_digits_of, parse_i64, push_digits,
    signed_decimal, spec_parse_i64, twos_complement, ParseFailure,
};
use crate::error::{outcome, Error, ErrorView};
use crate::number::Number;
use crate::record::{RecordView, ResultRecord};
use vstd::prelude::*;
use vstd::string::*;

verus! {

/// A base of positional notation: one of the four common ones, or any other
/// from 2 to 36 by its number.
#[derive(Copy, Clone, Debug, PartialEq, Eq, Structural)]
pub enum Format {
    /// Base 2.
    Binary,
    /// Base 8.
    Octal,
    /// Base 10.
    Decimal,
    /// Base 16.
    Hex,
    /// The base with this number. It is another base than the common one
    /// with the same number.
    Custom(u8),
}

impl Format {
    /// A base is well formed when its number lies from 2 to 36.
    pub open spec fn wf(self) -> bool {
        2 <= self.spec_radix() <= 36
    }

    /// Whether this is one of the four common bases.
    pub open spec fn is_canonical(self) -> bool {
        !(self is Custom)
    }

    /// The number of the base.
    pub open spec fn spec_radix(self) -> int {
        match self {
            Format::Binary => 2,
            Format::Octal => 8,
            Format::Decimal => 10,
            Format::Hex => 16,
            Format::Custom(base) => base as int,
        }
    }

    /// The number of the base.
    pub fn radix(self) -> (radix: u32)
        ensures
            radix == self.spec_radix(),
    {
        match self {
            Format::Binary => 2,
            Format::Octal => 8,
            Format::Decimal => 10,
            Format::Hex => 16,
            Format::Custom(base) => base as u32,
        }
    }

    /// The name under which the base is shown.
    pub open spec fn spec_name(self) -> Seq<char> {
        match self {
            Format::Binary => "Binary"@,
            Format::Octal => "Octal"@,
            Format::Decimal => "Decimal"@,
            Format::Hex => "Hexadecimal"@,
            Format::Custom(base) => "Base"@ + digits_of(base as nat, 10),
        }
    }

    /// The name under which the base is shown: `Binary`, `Octal`, `Decimal`,
    /// `Hexadecimal`, or `Base` and the number of the base.
    pub fn name(self) -> (name: String)
        ensures
            name@ == self.spec_name(),
    {
        match self {
            Format::Binary => String::from_str("Binary"),
            Format::Octal => String::from_str("Octal"),
            Format::Decimal => String::from_str("Decimal"),
            Format::Hex => String::from_str("Hexadecimal"),
            Format::Custom(base) => {
                let mut name = String::from_str("Base");
                push_digits(&mut name, base as u64, 10);
                name
            },
        }
    }

    /// Where the picture of the base is kept.
    pub open spec fn spec_icon(self) -> Seq<char> {
        match self {
            Format::Binary => "icons/Binary.png"@,
            Format::Octal => "icons/Octal.png"@,
            Format::Decimal => "icons/Decimal.png"@,
            Format::Hex => "icons/Hexadecimal.png"@,
            Format::Custom(_) => "icons/Custom.png"@,
        }
    }

    /// Where the picture of the base is kept; the bases that go by a number
    /// share one.
    pub fn icon(self) -> (icon: &'static str)
        ensures
            icon@ == self.spec_icon(),
    {
        match self {
            Format::Binary => "icons/Binary.png",
            Format::Octal => "icons/Octal.png",
            Format::Decimal => "icons/Decimal.png",
            Format::Hex => "icons/Hexadecimal.png",
            Format::Custom(_) => "icons/Custom.png",
        }
    }

    /// What a text denotes in this base.
    pub open spec fn spec_parse(self, text: Seq<char>) -> Result<Number, ErrorView> {
        match spec_parse_i64(text, self.spec_radix()) {
            Ok(value) => Ok(Number { value, format: self }),
            Err(cause) => Err(ErrorView::InvalidNumber(text, self, cause)),
        }
    }

    /// Reads `value` as a number in this base: an optional sign, then digits
    /// of the base and nothing else, within 64 bits.
    pub fn parse(self, value: &str) -> (r: Result<Number, Error>)
        requires
            self.wf(),
        ensures
            outcome(r) == self.spec_parse(value@),
    {
        match parse_i64(value, self.radix()) {
            Ok(number) => Ok(Number { value: number, format: self }),
            Err(cause) => Err(Error::InvalidNumber(String::from_str(value), self, cause)),
        }
    }

    /// How a number is written in a common base.
    ///
    /// In decimal it is the digits of the number, behind `-` where it is
    /// negative. In binary, octal and hexadecimal it is the digits of its 64
    /// bits taken as an unsigned number, letters in lower case.
    pub open spec fn spec_written(self, value: i64) -> Seq<char>
        recommends
            self.is_canonical(),
    {
        match self {
            Format::Decimal => signed_decimal(value as int),
            _ => digits_of(twos_complement(value as int), self.spec_radix() as nat),
        }
    }

    /// How a number is written in this base, or the refusal of a base that
    /// goes by a number: nothing is written in those.
    pub open spec fn spec_format(self, value: i64) -> Result<Seq<char>, ErrorView> {
        if self.is_canonical() {
            Ok(self.spec_written(value))
        } else {
            Err(ErrorView::UnsupportedFormat(self))
        }
    }

    /// Writes `value` in this base.
    pub fn format(self, value: i64) -> (r: Result<String, Error>)
        ensures
            match r {
                Ok(text) => self.spec_format(value) == Ok::<Seq<char>, ErrorView>(text@),
                Err(e) => self.spec_format(value) == Err::<Seq<char>, ErrorView>(e@),
            },
    {
        match self {
            Format::Binary => Ok(format_bits(value, 2)),
            Format::Octal => Ok(format_bits(value, 8)),
            Format::Decimal => Ok(format_decimal(value)),
            Format::Hex => Ok(format_bits(value, 16)),
            Format::Custom(_) => Err(Error::UnsupportedFormat(self)),
        }
    }

    /// The row that shows `value` in this base, or the refusal of a base in
    /// which nothing is written.
    pub open spec fn spec_item(self, value: i64) -> Result<RecordView, ErrorView> {
        if self.is_canonical() {
            Ok(RecordView::conversion(self, self.spec_written(value)))
        } else {
            Err(ErrorView::UnsupportedFormat(self))
        }
    }

    /// The row that shows `value` in this base: the number as title and as
    /// the text to copy, the name of the base beneath it, and its picture.
    pub fn item(self, value: i64) -> (r: Result<ResultRecord, Error>)
        ensures
            match r {
                Ok(record) => self.spec_item(value) == Ok::<RecordView, ErrorView>(record@),
                Err(e) => self.spec_item(value) == Err::<RecordView, ErrorView>(e@),
            },
    {
        match self.format(value) {
            Ok(text) => Ok(
                ResultRecord {
                    title: text.clone(),
                    subtitle: Some(self.name()),
                    arg: Some(text),
                    icon: Some(String::from_str(self.icon())),
                    valid: true,
                },
            ),
            Err(e) => Err(e),
        }
    }
}

/// Bases that differ go by names that differ.
pub proof fn lemma_name_tells_format(a: Format, b: Format)
    ensures
        a != b ==> a.spec_name() != b.spec_name(),
{
    reveal_strlit("Binary");
    reveal_strlit("Octal");
    reveal_strlit("Decimal");
    reveal_strlit("Hexadecimal");
    reveal_strlit("Base");
    if a.spec_name() == b.spec_name() {
        let name = a.spec_name();
        let head = "Base"@;
        match (a, b) {
            (Format::Custom(n), Format::Custom(m)) => {
                let left = digits_of(n as nat, 10);
                let right = digits_of(m as nat, 10);
                assert((head + left).skip(4) =~= left);
                assert((head + right).skip(4) =~= right);
                lemma_digits_of(n as nat, 10);
                lemma_digits_of(m as nat, 10);
            },
            (Format::Custom(_), _) => {
                assert(name[1] == head[1]);
            },
            (_, Format::Custom(_)) => {
                assert(name[1] == head[1]);
            },
            _ => {
                assert(name[0] == b.spec_name()[0]);
            },
        }
    }
}

/// A number of a common base that was written in that base reads back as
/// itself: in decimal every number, in binary, octal and hexadecimal every
/// number that is not negative.
pub proof fn lemma_format_then_parse(format: Format, value: i64)
    requires
        format.is_canonical(),
        format == Format::Decimal || value >= 0,
    ensures
        format.spec_format(value) matches Ok(text) && format.spec_parse(text) == Ok::<
            Number,
            ErrorView,
        >(Number { value, format }),
{
    let radix = format.spec_radix() as nat;
    if value < 0 {
        lemma_parse_negated_digits_of((-value) as nat, radix, i64::MIN as int, i64::MAX as int);
    } else {
        lemma_parse_digits_of(value as nat, radix, i64::MIN as int, i64::MAX as int);
    }
}

/// The bits of a negative number, written in binary, octal or hexadecimal,
/// denote a number too large for 64 bits with a sign, and do not read back.
pub proof fn lemma_negative_bits_do_not_parse(format: Format, value: i64)
    requires
        format.is_canonical(),
        format != Format::Decimal,
        value < 0,
    ensures
        format.spec_parse(format.spec_written(value)) == Err::<Number, ErrorView>(
            ErrorView::InvalidNumber(
                format.spec_written(value),
                format,
                ParseFailure::PosOverflow,
            ),
        ),
{
    lemma_parse_digits_of_above(
        twos_complement(value as int),
        format.spec_radix() as nat,
        i64::MIN as int,
        i64::MAX as int,
    );
}

} // verus!
