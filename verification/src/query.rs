//! From a line of input to the rows that answer it.

use crate::number::Number;
use crate::record::{views, RecordView, ResultRecord};
use crate::text::{chars_of, word_of};
use vstd::prelude::*;
use vstd::string::*;

verus! {

/// Whether `c` is white space: a character with the Unicode property
/// `White_Space`.
pub open spec fn spec_is_space(c: char) -> bool {
    let code = c as int;
    ||| 0x09 <= code <= 0x0d
    ||| code == 0x20
    ||| code == 0x85
    ||| code == 0xa0
    ||| code == 0x1680
    ||| 0x2000 <= code <= 0x200a
    ||| code == 0x2028
    ||| code == 0x2029
    ||| code == 0x202f
    ||| code == 0x205f
    ||| code == 0x3000
}

/// Whether `c` is white space.
#[verifier::when_used_as_spec(spec_is_space)]
pub fn is_space(c: char) -> (b: bool)
    ensures
        b == spec_is_space(c),
{
    let code: u32 = c as u32;
    (0x09 <= code && code <= 0x0d) || code == 0x20 || code == 0x85 || code == 0xa0 || code
        == 0x1680 || (0x2000 <= code && code <= 0x200a) || code == 0x2028 || code == 0x2029
        || code == 0x202f || code == 0x205f || code == 0x3000
}

/// The first index from `from` on at which `s` holds no white space, or its
/// length.
pub open spec fn spaces_end(s: Seq<char>, from: int) -> int
    decreases s.len() - from,
{
    if 0 <= from < s.len() && is_space(s[from]) {
        spaces_end(s, from + 1)
    } else {
        from
    }
}

/// The first index from `from` on at which `s` holds white space, or its
/// length.
pub open spec fn word_end(s: Seq<char>, from: int) -> int
    decreases s.len() - from,
{
    if 0 <= from < s.len() && !is_space(s[from]) {
        word_end(s, from + 1)
    } else {
        from
    }
}

/// The first two words of a line, where a word is a longest run of
/// characters that are no white space: the number and the hint. A line
/// without a word holds no number; what follows the second word is left
/// aside.
pub open spec fn spec_split(line: Seq<char>) -> Option<(Seq<char>, Option<Seq<char>>)> {
    let number_start = spaces_end(line, 0);
    let number_end = word_end(line, number_start);
    let hint_start = spaces_end(line, number_end);
    let hint_end = word_end(line, hint_start);
    if number_start >= line.len() {
        None
    } else if hint_start >= line.len() {
        Some((line.subrange(number_start, number_end), None))
    } else {
        Some(
            (
                line.subrange(number_start, number_end),
                Some(line.subrange(hint_start, hint_end)),
            ),
        )
    }
}

/// White space ends where it began or later, within the text, at a
/// character that is none; all before it is white space.
pub proof fn lemma_spaces_end(s: Seq<char>, from: int)
    requires
        0 <= from <= s.len(),
    ensures
        from <= spaces_end(s, from) <= s.len(),
        forall|i: int| from <= i < spaces_end(s, from) ==> is_space(#[trigger] s[i]),
        spaces_end(s, from) < s.len() ==> !is_space(s[spaces_end(s, from)]),
    decreases s.len() - from,
{
    if from < s.len() && is_space(s[from]) {
        lemma_spaces_end(s, from + 1);
    }
}

/// A word ends where it began or later, within the text, at white space;
/// nothing before it is white space.
pub proof fn lemma_word_end(s: Seq<char>, from: int)
    requires
        0 <= from <= s.len(),
    ensures
        from <= word_end(s, from) <= s.len(),
        forall|i: int| from <= i < word_end(s, from) ==> !is_space(#[trigger] s[i]),
        word_end(s, from) < s.len() ==> is_space(s[word_end(s, from)]),
    decreases s.len() - from,
{
    if from < s.len() && !is_space(s[from]) {
        lemma_word_end(s, from + 1);
    }
}

/// Whether a text is a word: not empty and free of white space.
pub open spec fn is_word(s: Seq<char>) -> bool {
    &&& s.len() > 0
    &&& forall|i: int| 0 <= i < s.len() ==> !is_space(#[trigger] s[i])
}

/// The number and the hint that a line splits into are words.
pub proof fn lemma_split_gives_words(line: Seq<char>)
    ensures
        match spec_split(line) {
            Some((number, Some(hint))) => is_word(number) && is_word(hint),
            Some((number, None)) => is_word(number),
            None => true,
        },
{
    let number_start = spaces_end(line, 0);
    let number_end = word_end(line, number_start);
    let hint_start = spaces_end(line, number_end);
    lemma_spaces_end(line, 0);
    lemma_word_end(line, number_start);
    lemma_spaces_end(line, number_end);
    lemma_word_end(line, hint_start);
}

fn skip_spaces(chars: &[char], from: usize) -> (end: usize)
    requires
        from <= chars@.len(),
    ensures
        end == spaces_end(chars@, from as int),
        from <= end <= chars@.len(),
{
    let mut i: usize = from;
    while i < chars.len() && is_space(chars[i])
        invariant
            from <= i <= chars@.len(),
            spaces_end(chars@, i as int) == spaces_end(chars@, from as int),
        decreases chars.len() - i,
    {
        i += 1;
    }
    i
}

fn skip_word(chars: &[char], from: usize) -> (end: usize)
    requires
        from <= chars@.len(),
    ensures
        end == word_end(chars@, from as int),
        from <= end <= chars@.len(),
{
    let mut i: usize = from;
    while i < chars.len() && !is_space(chars[i])
        invariant
            from <= i <= chars@.len(),
            word_end(chars@, i as int) == word_end(chars@, from as int),
        decreases chars.len() - i,
    {
        i += 1;
    }
    i
}

/// Splits a line at white space into the number and, where a second word
/// follows, the hint.
pub fn split_query<'a>(line: &'a str) -> (parts: Option<(&'a str, Option<&'a str>)>)
    ensures
        match parts {
            Some((number, hint)) => spec_split(line@) == Some((number@, word_of(hint))),
            None => spec_split(line@) is None,
        },
{
    let chars = chars_of(line);
    let number_start = skip_spaces(chars.as_slice(), 0);
    let number_end = skip_word(chars.as_slice(), number_start);
    let hint_start = skip_spaces(chars.as_slice(), number_end);
    let hint_end = skip_word(chars.as_slice(), hint_start);
    if number_start >= chars.len() {
        None
    } else {
        let number = line.substring_char(number_start, number_end);
        if hint_start >= chars.len() {
            Some((number, None))
        } else {
            Some((number, Some(line.substring_char(hint_start, hint_end))))
        }
    }
}

/// The rows that answer a number and a hint: its conversions, or the one row
/// of the refusal.
pub open spec fn spec_respond(number: Seq<char>, hint: Option<Seq<char>>) -> Seq<RecordView> {
    match Number::spec_parse(number, hint) {
        Ok(parsed) => parsed.spec_convert(),
        Err(e) => seq![RecordView::refusal(e)],
    }
}

/// Answers a number and an optional hint: the rows of the number in the
/// other common bases, or one row that cannot be chosen and tells why the
/// input was refused.
pub fn respond(number: &str, hint: Option<&str>) -> (rows: Vec<ResultRecord>)
    ensures
        views(rows@) == spec_respond(number@, word_of(hint)),
{
    match Number::parse(number, hint) {
        Ok(parsed) => parsed.convert(),
        Err(e) => {
            let mut rows: Vec<ResultRecord> = Vec::new();
            rows.push(ResultRecord::notice(e.message()));
            rows
        },
    }
}

/// The rows that answer a line, if the line holds a number.
pub open spec fn spec_answer(line: Seq<char>) -> Option<Seq<RecordView>> {
    match spec_split(line) {
        Some((number, hint)) => Some(spec_respond(number, hint)),
        None => None,
    }
}

/// Answers a line that holds a number and perhaps a hint behind it. A line
/// of white space alone has no answer.
pub fn answer(line: &str) -> (rows: Option<Vec<ResultRecord>>)
    ensures
        match rows {
            Some(r) => spec_answer(line@) == Some(views(r@)),
            None => spec_answer(line@) is None,
        },
{
    match split_query(line) {
        Some((number, hint)) => Some(respond(number, hint)),
        None => None,
    }
}

/// What a user is told who gave no line at all.
pub open spec fn spec_usage() -> Seq<char> {
    "Provide a number with an optional base"@
}

/// The rows that answer a line that may be missing: for no line the one row
/// that asks for a number, for a line its answer, if it has one.
pub open spec fn spec_run(query: Option<Seq<char>>) -> Option<Seq<RecordView>> {
    match query {
        Some(line) => spec_answer(line),
        None => Some(seq![RecordView::notice(spec_usage())]),
    }
}

/// Answers the line that a user gave, or asks for a number where none was
/// given. A line of white space alone has no answer.
pub fn run(query: Option<&str>) -> (rows: Option<Vec<ResultRecord>>)
    ensures
        match rows {
            Some(r) => spec_run(word_of(query)) == Some(views(r@)),
            None => spec_run(word_of(query)) is None,
        },
{
    match query {
        Some(line) => answer(line),
        None => {
            let mut rows: Vec<ResultRecord> = Vec::new();
            let usage = String::from_str("Provide a number with an optional base");
            rows.push(ResultRecord::notice(usage));
            Some(rows)
        },
    }
}

} // verus!
