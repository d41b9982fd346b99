use std::collections::HashSet;

use actions_github::util::{
    contains, decimal, frame_key_value, old_command_message, parse_number, Delimiters,
    prepare_key_value_message, LineEnding,
};

fn is_uuid_text(id: &str) -> bool {
    id.len() == 36
        && id.chars().enumerate().all(|(i, c)| {
            if i == 8 || i == 13 || i == 18 || i == 23 {
                c == '-'
            } else {
                c.is_ascii_digit() || ('a'..='f').contains(&c)
            }
        })
}

#[test]
fn legacy_command_keeps_name_and_value() {
    assert_eq!(
        old_command_message("set-output", "Release Name", "Value 1"),
        "::set-output name=Release Name::Value 1"
    );
    assert_eq!(old_command_message("set-output", "", ""), "::set-output name=::");
}

#[test]
fn record_for_output_hi_has_same_delimiter_twice() {
    let record = prepare_key_value_message("output", "hi", LineEnding::Lf, &mut Delimiters::new()).unwrap();
    let (head, rest) = record.split_once('\n').unwrap();
    let (value, tail) = rest.split_once('\n').unwrap();
    assert_eq!(value, "hi");
    let delimiter = head.strip_prefix("output<<").unwrap();
    assert_eq!(delimiter, tail);
    let id = delimiter.strip_prefix("ghadelimiter_").unwrap();
    assert!(is_uuid_text(id));
    assert_eq!(&id[14..15], "4");
    assert!(["8", "9", "a", "b"].contains(&&id[19..20]));
}

#[test]
fn record_uses_crlf_on_windows_hosts() {
    let record = prepare_key_value_message("output", "hi", LineEnding::CrLf, &mut Delimiters::new()).unwrap();
    let parts: Vec<&str> = record.split("\r\n").collect();
    assert_eq!(parts.len(), 3);
    assert_eq!(parts[0], format!("output<<{}", parts[2]));
    assert_eq!(parts[1], "hi");
}

#[test]
fn record_with_fixed_delimiter() {
    let r = frame_key_value("out", "a\nb", "ghadelimiter_x", LineEnding::Lf);
    assert_eq!(r.unwrap(), "out<<ghadelimiter_x\na\nb\nghadelimiter_x");
    let r = frame_key_value("", "", "D", LineEnding::Lf);
    assert_eq!(r.unwrap(), "<<D\n\nD");
}

#[test]
fn value_holding_the_delimiter_fails() {
    let d = "ghadelimiter_0123";
    let r = frame_key_value("output", "before ghadelimiter_0123 after", d, LineEnding::Lf);
    assert_eq!(
        r.unwrap_err(),
        "Unexpected input: value should not contain the delimiter \"ghadelimiter_0123\""
    );
}

#[test]
fn name_holding_the_delimiter_fails() {
    let d = "ghadelimiter_0123";
    let r = frame_key_value("ghadelimiter_0123", "ghadelimiter_0123", d, LineEnding::Lf);
    assert_eq!(
        r.unwrap_err(),
        "Unexpected input: name should not contain the delimiter \"ghadelimiter_0123\""
    );
}

#[test]
fn delimiters_do_not_repeat() {
    let mut seen = HashSet::new();
    let mut delimiters = Delimiters::new();
    for _ in 0..10000 {
        let d = delimiters.draw();
        assert!(d.starts_with("ghadelimiter_"));
        assert!(is_uuid_text(&d["ghadelimiter_".len()..]));
        assert!(seen.insert(d));
    }
}

#[test]
fn line_endings() {
    assert_eq!(LineEnding::Lf.as_str(), "\n");
    assert_eq!(LineEnding::CrLf.as_str(), "\r\n");
    assert_eq!(LineEnding::native(true), LineEnding::CrLf);
    assert_eq!(LineEnding::native(false), LineEnding::Lf);
    assert_eq!(LineEnding::CrLf.terminate("x"), "x\r\n");
}

#[test]
fn substring_search() {
    assert!(contains("abcabd", "abd"));
    assert!(contains("abc", ""));
    assert!(contains("", ""));
    assert!(!contains("ab", "abc"));
    assert!(!contains("abcab", "abd"));
}

#[test]
fn decimal_text() {
    assert_eq!(decimal(0), "0");
    assert_eq!(decimal(7), "7");
    assert_eq!(decimal(10), "10");
    assert_eq!(decimal(65535), "65535");
    assert_eq!(decimal(u64::MAX), "18446744073709551615");
}

#[test]
fn numbers_are_read_in_decimal() {
    assert_eq!(parse_number("0", 255), Some(0));
    assert_eq!(parse_number("255", 255), Some(255));
    assert_eq!(parse_number("256", 255), None);
    assert_eq!(parse_number("", 255), None);
    assert_eq!(parse_number("1a", 255), None);
    assert_eq!(parse_number("-1", 255), None);
    assert_eq!(
        parse_number("340282366920938463463374607431768211455", u128::MAX),
        Some(u128::MAX)
    );
    assert_eq!(parse_number("340282366920938463463374607431768211456", u128::MAX), None);
}

#[test]
fn record_holds_delimiter_exactly_twice() {
    let mut delimiters = Delimiters::new();
    let record =
        prepare_key_value_message("key", "line one\nline two", LineEnding::Lf, &mut delimiters)
            .unwrap();
    let delimiter = record.rsplit('\n').next().unwrap().to_string();
    assert!(delimiter.starts_with("ghadelimiter_"));
    assert!(record.starts_with(&format!("key<<{}\n", delimiter)));
    assert_eq!(record.matches(delimiter.as_str()).count(), 2);
    assert_eq!(record, format!("key<<{0}\nline one\nline two\n{0}", delimiter));
}
