use base_convert::error::Error;
use base_convert::query::{is_space, split_query};
use base_convert::{answer, respond, run, Format, ParseFailure, ResultRecord};

#[test]
fn is_space_agrees_with_the_standard_library() {
    let mut code: u32 = 0;
    while code <= 0x10ffff {
        if let Some(c) = char::from_u32(code) {
            assert_eq!(is_space(c), c.is_whitespace(), "U+{code:04X}");
        }
        code += 1;
    }
}

#[test]
fn split_query_agrees_with_the_standard_library() {
    let lines = [
        "", " ", "   ", "\t\n", "255", " 255", "255 ", "  255  ", "255 hex", "255  hex",
        " 255 hex ", "255\thex", "255\nhex", "255 hex more", "255 hex more and more",
        "0xFF", "ff h", "\u{3000}ff\u{2003}h\u{a0}", "ff\u{200b}h", "a b c d", "é à", "x",
        "\u{85}1\u{1680}2\u{2028}3", "1\u{202f}2\u{205f}3", "1\u{180e}2 3",
    ];
    for line in lines {
        let mut words = line.split_whitespace();
        let expected = words.next().map(|number| (number, words.next()));
        assert_eq!(split_query(line), expected, "line {line:?}");
    }
}

#[test]
fn the_parts_of_a_line_are_words() {
    let lines = ["255 hex", "  255\t hex  octal", "\u{3000}ff\u{2003}h\u{a0}", "a", " a  b "];
    for line in lines {
        let (number, hint) = split_query(line).unwrap();
        assert!(!number.is_empty());
        assert!(!number.chars().any(is_space));
        if let Some(hint) = hint {
            assert!(!hint.is_empty());
            assert!(!hint.chars().any(is_space));
        }
    }
}

#[test]
fn split_query_values() {
    assert_eq!(split_query("255"), Some(("255", None)));
    assert_eq!(split_query("255 hex"), Some(("255", Some("hex"))));
    assert_eq!(split_query("  255\t hex  octal"), Some(("255", Some("hex"))));
    assert_eq!(split_query(""), None);
    assert_eq!(split_query(" \t "), None);
}

#[test]
fn answer_reads_the_number_and_the_hint() {
    assert_eq!(answer("0xFF"), Some(respond("0xFF", None)));
    assert_eq!(answer("777 octal"), Some(respond("777", Some("octal"))));
    assert_eq!(answer("  777   OCT  "), Some(respond("777", Some("OCT"))));
    assert_eq!(answer("777 octal hex"), Some(respond("777", Some("octal"))));
    let rows = answer("777 octal").unwrap();
    assert_eq!(rows.len(), 3);
    assert_eq!(rows[0].title, "111111111");
    assert_eq!(rows[1].title, "511");
    assert_eq!(rows[2].title, "1ff");
}

#[test]
fn answer_reports_a_refusal_in_one_row() {
    let rows = answer("12 zzz").unwrap();
    assert_eq!(rows.len(), 1);
    assert_eq!(rows[0].title, "Invalid base hint: zzz");
    assert_eq!(rows[0].subtitle, None);
    assert_eq!(rows[0].arg, None);
    assert_eq!(rows[0].icon, None);
    assert!(!rows[0].valid);
}

#[test]
fn a_line_without_a_word_has_no_answer() {
    assert_eq!(answer(""), None);
    assert_eq!(answer("   "), None);
    assert_eq!(answer("\u{3000}\n"), None);
}

#[test]
fn cause_is_the_failure_that_an_error_carries() {
    assert_eq!(
        Error::InvalidBase("x".to_string(), ParseFailure::InvalidDigit).cause(),
        Some(ParseFailure::InvalidDigit)
    );
    assert_eq!(
        Error::InvalidNumber(String::new(), Format::Hex, ParseFailure::Empty).cause(),
        Some(ParseFailure::Empty)
    );
    assert_eq!(Error::InvalidHint("x".to_string()).cause(), None);
    assert_eq!(Error::BaseOutOfRange(1).cause(), None);
    assert_eq!(Error::UnsupportedFormat(Format::Custom(3)).cause(), None);
}

#[test]
fn without_a_line_the_user_is_asked_for_a_number() {
    assert_eq!(
        run(None),
        Some(vec![ResultRecord {
            title: "Provide a number with an optional base".to_string(),
            subtitle: None,
            arg: None,
            icon: None,
            valid: false,
        }])
    );
}

#[test]
fn run_answers_a_line() {
    assert_eq!(run(Some("0xFF")), answer("0xFF"));
    assert_eq!(run(Some("777 octal")), Some(respond("777", Some("octal"))));
    assert_eq!(run(Some("12 zzz")), answer("12 zzz"));
    assert_eq!(run(Some("")), None);
    assert_eq!(run(Some("  ")), None);
}

#[test]
fn a_notice_cannot_be_chosen() {
    assert_eq!(
        ResultRecord::notice("look".to_string()),
        ResultRecord {
            title: "look".to_string(),
            subtitle: None,
            arg: None,
            icon: None,
            valid: false,
        }
    );
}
