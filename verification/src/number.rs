//! A number together with the base in which it was read, and its rows in the
//! other bases.

use crate::error::{outcome, Error, ErrorView};
use crate::format::{lemma_name_tells_format, Format};
use crate::hint::spec_from_str;
use crate::record::{views, RecordView, ResultRecord};
use crate::text::{strip_prefix, word_of};
use vstd::pervasive::unreached;
use vstd::prelude::*;

verus! {

/// A number and the base in which it was read.
#[derive(Copy, Clone, Debug, PartialEq, Eq, Structural)]
pub struct Number {
    /// The number.
    pub value: i64,
    /// The base in which it was read.
    pub format: Format,
}

impl Number {
    /// What a text without a hint denotes.
    ///
    /// A text that begins with `0b`, `0o`, `0d` or `0x` is read behind that
    /// mark in binary, octal, decimal or hexadecimal. Any other text is read
    /// in decimal, and where it is no decimal number, in hexadecimal; where it
    /// is neither, the refusal is that of the hexadecimal reading.
    pub open spec fn spec_detect(text: Seq<char>) -> Result<Number, ErrorView> {
        if "0b"@.is_prefix_of(text) {
            Format::Binary.spec_parse(text.skip("0b"@.len() as int))
        } else if "0o"@.is_prefix_of(text) {
            Format::Octal.spec_parse(text.skip("0o"@.len() as int))
        } else if "0d"@.is_prefix_of(text) {
            Format::Decimal.spec_parse(text.skip("0d"@.len() as int))
        } else if "0x"@.is_prefix_of(text) {
            Format::Hex.spec_parse(text.skip("0x"@.len() as int))
        } else {
            match Format::Decimal.spec_parse(text) {
                Ok(number) => Ok(number),
                Err(_) => Format::Hex.spec_parse(text),
            }
        }
    }

    /// Reads `value` in the base that its mark in front tells, or without a
    /// mark in decimal and failing that in hexadecimal.
    pub fn detect(value: &str) -> (r: Result<Number, Error>)
        ensures
            outcome(r) == Number::spec_detect(value@),
            r matches Ok(number) ==> number.format.is_canonical(),
    {
        match strip_prefix(value, "0b") {
            Some(rest) => Format::Binary.parse(rest),
            None => match strip_prefix(value, "0o") {
                Some(rest) => Format::Octal.parse(rest),
                None => match strip_prefix(value, "0d") {
                    Some(rest) => Format::Decimal.parse(rest),
                    None => match strip_prefix(value, "0x") {
                        Some(rest) => Format::Hex.parse(rest),
                        None => match Format::Decimal.parse(value) {
                            Ok(number) => Ok(number),
                            Err(_) => Format::Hex.parse(value),
                        },
                    },
                },
            },
        }
    }

    /// What a text denotes under a hint, or without one.
    pub open spec fn spec_parse(text: Seq<char>, hint: Option<Seq<char>>) -> Result<
        Number,
        ErrorView,
    > {
        match hint {
            Some(h) => match spec_from_str(h) {
                Ok(format) => format.spec_parse(text),
                Err(e) => Err(e),
            },
            None => Number::spec_detect(text),
        }
    }

    /// Reads `value` in the base that the hint stands for; without a hint, as
    /// `detect` does.
    pub fn parse(value: &str, hint: Option<&str>) -> (r: Result<Number, Error>)
        ensures
            outcome(r) == Number::spec_parse(value@, word_of(hint)),
            r matches Ok(number) ==> number.format.wf(),
    {
        match hint {
            Some(h) => match Format::from_str(h) {
                Ok(format) => format.parse(value),
                Err(e) => Err(e),
            },
            None => Number::detect(value),
        }
    }

    /// The row of the number in a common base, unless that is the base in
    /// which the number was read.
    pub open spec fn spec_row(self, target: Format) -> Seq<RecordView>
        recommends
            target.is_canonical(),
    {
        if target == self.format {
            Seq::empty()
        } else {
            seq![RecordView::conversion(target, target.spec_written(self.value))]
        }
    }

    /// The rows of the number in binary, octal, decimal and hexadecimal, in
    /// that order and without the base in which it was read.
    pub open spec fn spec_convert(self) -> Seq<RecordView> {
        self.spec_row(Format::Binary) + self.spec_row(Format::Octal) + self.spec_row(
            Format::Decimal,
        ) + self.spec_row(Format::Hex)
    }

    /// Appends to `rows` the row of the number in `target`, unless that is
    /// the base in which the number was read.
    fn push_row(self, rows: &mut Vec<ResultRecord>, target: Format)
        requires
            target.is_canonical(),
        ensures
            views(final(rows)@) == views(old(rows)@) + self.spec_row(target),
    {
        if target != self.format {
            match target.item(self.value) {
                Ok(record) => rows.push(record),
                Err(_) => unreached(),
            }
        }
    }

    /// The rows of the number in the four common bases, in the order binary,
    /// octal, decimal, hexadecimal, without the base in which it was read. No
    /// row is named after that base.
    pub fn convert(self) -> (rows: Vec<ResultRecord>)
        ensures
            views(rows@) == self.spec_convert(),
            forall|i: int|
                0 <= i < rows@.len() ==> (#[trigger] rows@[i])@.subtitle != Some(
                    self.format.spec_name(),
                ),
    {
        let mut rows: Vec<ResultRecord> = Vec::new();
        self.push_row(&mut rows, Format::Binary);
        self.push_row(&mut rows, Format::Octal);
        self.push_row(&mut rows, Format::Decimal);
        self.push_row(&mut rows, Format::Hex);
        proof {
            lemma_convert_omits_source(self);
            assert forall|i: int| 0 <= i < rows@.len() implies (#[trigger] rows@[i])@.subtitle
                != Some(self.format.spec_name()) by {
                assert(views(rows@)[i] == rows@[i]@);
            }
        }
        rows
    }
}

/// No row of a conversion is named after the base in which the number was
/// read, and every row can be chosen. There are three rows for a number of a
/// common base and four for any other.
pub proof fn lemma_convert_omits_source(number: Number)
    ensures
        forall|i: int|
            0 <= i < number.spec_convert().len() ==> {
                &&& (#[trigger] number.spec_convert()[i]).subtitle != Some(
                    number.format.spec_name(),
                )
                &&& number.spec_convert()[i].valid
            },
        number.spec_convert().len() == if number.format.is_canonical() {
            3int
        } else {
            4int
        },
{
    lemma_name_tells_format(Format::Binary, number.format);
    lemma_name_tells_format(Format::Octal, number.format);
    lemma_name_tells_format(Format::Decimal, number.format);
    lemma_name_tells_format(Format::Hex, number.format);
}

} // verus!
