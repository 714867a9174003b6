//! What the engine hands back: one row per answer.

use crate::error::ErrorView;
use crate::format::Format;
use vstd::prelude::*;

verus! {

/// One row of the answer: a number in one base, or the message of a refusal.
#[derive(Clone, Debug, PartialEq, Eq)]
pub struct ResultRecord {
    /// The text on display.
    pub title: String,
    /// The name of the base in which the title is written.
    pub subtitle: Option<String>,
    /// The text that is copied when the row is chosen.
    pub arg: Option<String>,
    /// Where the picture of the base is kept.
    pub icon: Option<String>,
    /// Whether the row can be chosen.
    pub valid: bool,
}

/// A `ResultRecord` with its texts as sequences of characters.
pub struct RecordView {
    pub title: Seq<char>,
    pub subtitle: Option<Seq<char>>,
    pub arg: Option<Seq<char>>,
    pub icon: Option<Seq<char>>,
    pub valid: bool,
}

/// The characters of a text that may be absent.
pub open spec fn text_of(text: Option<String>) -> Option<Seq<char>> {
    match text {
        Some(t) => Some(t@),
        None => None,
    }
}

impl View for ResultRecord {
    type V = RecordView;

    open spec fn view(&self) -> RecordView {
        RecordView {
            title: self.title@,
            subtitle: text_of(self.subtitle),
            arg: text_of(self.arg),
            icon: text_of(self.icon),
            valid: self.valid,
        }
    }
}

/// The views of some records, in their order.
pub open spec fn views(records: Seq<ResultRecord>) -> Seq<RecordView> {
    Seq::new(records.len(), |i: int| records[i]@)
}

impl RecordView {
    /// The row that shows `text`, a number written in `format`.
    pub open spec fn conversion(format: Format, text: Seq<char>) -> RecordView {
        RecordView {
            title: text,
            subtitle: Some(format.spec_name()),
            arg: Some(text),
            icon: Some(format.spec_icon()),
            valid: true,
        }
    }

    /// The row that tells the user something and cannot be chosen.
    pub open spec fn notice(text: Seq<char>) -> RecordView {
        RecordView { title: text, subtitle: None, arg: None, icon: None, valid: false }
    }

    /// The row that reports a refusal: a notice of its message.
    pub open spec fn refusal(error: ErrorView) -> RecordView {
        RecordView::notice(error.message())
    }
}

impl ResultRecord {
    /// The row that tells the user something and cannot be chosen.
    pub fn notice(text: String) -> (record: ResultRecord)
        ensures
            record@ == RecordView::notice(text@),
    {
        ResultRecord { title: text, subtitle: None, arg: None, icon: None, valid: false }
    }
}

} // verus!
