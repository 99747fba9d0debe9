use patpo::rule_data::{ContentType, RuleData, RuleType};
use patpo::rules::{GenerateError, IntRanges, PlainText, RegExpr, Rule, RuleError};
use patpo::worker_thread::OpReport;
use rand::Rng;

fn is_success(r: &OpReport) -> bool {
    matches!(r, OpReport::Success)
}

fn failure_text(r: OpReport) -> String {
    match r {
        OpReport::Success => panic!("expected a failure"),
        OpReport::Failure { error_message } => error_message,
    }
}

#[test]
fn int_gen_proptest() {
    let mut rng = rand::thread_rng();

    let len: usize = rng.gen_range(1..100);
    let mut parts = Vec::with_capacity(len);

    for _i in 0..len {
        let start: i64 = rng.gen();
        let end: i64 = rng.gen_range(start..=i64::MAX);

        parts.push(format!("{start}..{end}"));
    }

    let ranges = IntRanges::parse(&parts.join(",")).unwrap();

    for _i in 0..1000 {
        let n = ranges.generate();
        assert!(is_success(&ranges.validate(&n)));
    }
}

#[test]
fn int_generate_stays_in_small_ranges() {
    let ranges = IntRanges::parse("-3..-1, 10").unwrap();
    for _i in 0..200 {
        let n = ranges.generate();
        let v: i64 = String::from_utf8(n.clone()).unwrap().parse().unwrap();
        assert!((-3..=-1).contains(&v) || v == 10, "{v}");
        assert!(is_success(&ranges.validate(&n)));
    }
}

#[test]
fn int_generate_single_value_writes_its_digits() {
    let ranges = IntRanges::parse("-42").unwrap();
    assert_eq!(ranges.generate(), b"-42".to_vec());
}

#[test]
fn int_generate_full_range() {
    let ranges = IntRanges::parse("-9223372036854775808..9223372036854775807").unwrap();
    for _i in 0..100 {
        let n = ranges.generate();
        assert!(is_success(&ranges.validate(&n)));
    }
}

#[test]
fn int_validate() {
    let ranges = IntRanges::parse("1..5, 10").unwrap();
    assert!(is_success(&ranges.validate(&b"3".to_vec())));
    assert!(is_success(&ranges.validate(&b"10".to_vec())));
    assert!(is_success(&ranges.validate(&b"+5".to_vec())));
    assert_eq!(
        failure_text(ranges.validate(&b"7".to_vec())),
        "Expected an integer within the ranges:\n1..5, 10"
    );
    let not_number = failure_text(ranges.validate(&b"three".to_vec()));
    assert!(not_number.starts_with("Expected an integer (it does not convert: "));
    assert!(!is_success(&ranges.validate(&b" 3".to_vec())));
    assert!(!is_success(&ranges.validate(&vec![b'3', 0xff])));
}

#[test]
fn int_error_variants() {
    assert!(matches!(IntRanges::parse(""), Err(RuleError::EmptyRanges)));
    match IntRanges::parse("1, 2\n 3 , 4x ") {
        Err(RuleError::BadNumber { line, offset, reason: _ }) => {
            assert_eq!(line, " 3 , 4x ");
            assert_eq!(offset, 5);
        }
        other => panic!("{other:?}"),
    }
    match IntRanges::parse("5..1") {
        Err(RuleError::InvertedRange { start, end }) => {
            assert_eq!((start, end), (5, 1));
        }
        other => panic!("{other:?}"),
    }
}

#[test]
fn int_error_message_has_caret() {
    let e = IntRanges::parse("1, abc").unwrap_err();
    let m = e.message();
    assert!(m.ends_with("\n1, abc\n   ^"), "{m}");
    assert_eq!(
        IntRanges::parse("").unwrap_err().message(),
        "Integer ranges: the text field is empty"
    );
    assert_eq!(
        IntRanges::parse("9..-9").unwrap_err().message(),
        "Integer ranges: the start of a range lies above its end (9..-9)"
    );
}

#[test]
fn plain_text_validation() {
    let rule = PlainText::parse("abc");
    assert!(is_success(&rule.validate(&b"abc".to_vec())));
    assert!(!is_success(&rule.validate(&b"abcd".to_vec())));
}

#[test]
fn plain_text_trims_line_terminators() {
    let rule = PlainText::parse("pong\r\n\n");
    assert_eq!(rule.text(), "pong");
    assert_eq!(rule.generate(), b"pong".to_vec());
    let kept = PlainText::parse("  a b  ");
    assert_eq!(kept.text(), "  a b  ");
}

#[test]
fn plain_text_failure_message_escapes() {
    let rule = PlainText::parse("say \"hi\"\tnow");
    assert_eq!(
        failure_text(rule.validate(&b"no".to_vec())),
        "Expected output: \"say \\\"hi\\\"\\tnow\""
    );
}

#[test]
fn plain_text_non_ascii() {
    let rule = PlainText::parse("привет");
    assert_eq!(rule.generate(), "привет".as_bytes().to_vec());
    assert!(is_success(&rule.validate(&"привет".as_bytes().to_vec())));
}

fn check_regex(input: &str) {
    let regex = RegExpr::parse(input).unwrap();

    for _i in 0..50 {
        let generated = regex.generate().unwrap();

        match regex.validate(&generated) {
            OpReport::Success => {}
            OpReport::Failure { error_message } => {
                panic!("{error_message} : {}", String::from_utf8_lossy(&generated))
            }
        }
    }
}

fn check_regex_invalid(input: &str) {
    let regex = RegExpr::parse(input).unwrap();

    assert!(regex.generate().is_err());
}

#[test]
fn simple_regex() {
    check_regex(r"\w+");
}

#[test]
fn slightly_complex_regex() {
    check_regex(r"[0-9]{0,15} \s*\S*888[\w\(\)]?")
}

#[test]
fn regex_without_anchors() {
    check_regex(r"\W+I!?(\\\d)* @/\[\p{Greek}  ");
}

#[test]
fn regex_long() {
    check_regex(
        r"(2020(-03)+)-+:34:([A-Z0-9]+(\.[a-z0-9]+)+) +~!@#\$%\^&*()=+_`\-\|\/'\[\]\{\}]|[?.,]*\w q#([A-Za-z]+( [A-Za-z]+)+) '[^']*'\.",
    );
}

#[test]
fn regex_complex() {
    check_regex_invalid(r".*[(0-9A-Xa-mz)&&[^MNO]]{10,20} ;\b(\P{Greek}|\d)+");
}

#[test]
fn regex_corpus_generates_matches() {
    for p in [
        "abc",
        "[a-c]",
        "x{3}",
        "(ab|cd){2,4}",
        "a{2,}",
        "((a)(b(c)))*",
        "[^a-z]",
        r"\d+\.\d{2}",
        "(?-u:[\\x80-\\xff])",
        "(?i)hello",
        "",
        "é+|ж?",
    ] {
        check_regex(p);
    }
}

#[test]
fn regex_matches_whole_line_only() {
    let regex = RegExpr::parse("ab").unwrap();
    assert!(is_success(&regex.validate(&b"ab".to_vec())));
    assert!(!is_success(&regex.validate(&b"xab".to_vec())));
    assert!(!is_success(&regex.validate(&b"abx".to_vec())));
    assert_eq!(
        failure_text(regex.validate(&b"b".to_vec())),
        "Expected the output to match the regular expression\nab"
    );
}

#[test]
fn regex_ignores_white_space_and_comments() {
    let regex = RegExpr::parse("a b # trailing comment").unwrap();
    assert!(is_success(&regex.validate(&b"ab".to_vec())));
    assert_eq!(regex.generate().unwrap(), b"ab".to_vec());
}

#[test]
fn regex_error_variants() {
    assert!(matches!(RegExpr::parse("("), Err(RuleError::Regex { .. })));
    let e = RegExpr::parse("a{3,1}").unwrap_err();
    assert!(!e.message().is_empty());
    match RegExpr::parse("^a$").unwrap().generate() {
        Err(GenerateError::UnsupportedLook(c)) => assert!(c == '^' || c == '$' || c == 'A' || c == 'z'),
        Ok(_) => panic!("a look-around was accepted"),
    }
    assert!(GenerateError::UnsupportedLook('b').message().ends_with('b'));
}

#[test]
fn rule_data_to_rule() {
    let mut data = RuleData::default();
    data.text = "1..3".to_string();
    data.content_type = ContentType::IntRanges;
    data.rule_type = RuleType::Output;
    match data.to_rule() {
        Ok(Rule::IntRanges(r)) => assert_eq!(r.ranges(), &vec![(1, 3)]),
        other => panic!("{other:?}"),
    }
    data.content_type = ContentType::PlainText;
    assert!(matches!(data.to_rule(), Ok(Rule::PlainText(_))));
    data.content_type = ContentType::Regex;
    data.text = "[".to_string();
    assert!(matches!(data.to_rule(), Err(RuleError::Regex { .. })));
    assert_eq!(RuleType::Input.label(), "input");
    assert_eq!(RuleType::Output.label(), "output");
}

#[test]
fn int_validate_text_and_regex_verdict() {
    let ranges = IntRanges::parse("-5..5").unwrap();
    assert!(is_success(&ranges.validate_text("-0")));
    assert!(!is_success(&ranges.validate_text("6")));
    assert!(!is_success(&ranges.validate_text("")));
    let regex = RegExpr::parse("a+").unwrap();
    assert!(is_success(&regex.verdict(true)));
    assert_eq!(
        failure_text(regex.verdict(false)),
        "Expected the output to match the regular expression\na+"
    );
    assert_eq!(regex.text(), "a+");
}

#[test]
fn regex_flags_inside_pattern_do_not_change_anchoring() {
    let regex = RegExpr::parse("(?-x)a b").unwrap();
    assert!(is_success(&regex.validate(&b"a b".to_vec())));
    assert!(!is_success(&regex.validate(&b"ab".to_vec())));
    assert_eq!(regex.generate().unwrap(), b"a b".to_vec());
    let commented = RegExpr::parse("x  # comment").unwrap();
    assert!(is_success(&commented.validate(&b"x".to_vec())));
    let alternation = RegExpr::parse("a|ab").unwrap();
    assert!(is_success(&alternation.validate(&b"ab".to_vec())));
}

#[test]
fn regex_errors_keep_the_parser_words() {
    match RegExpr::parse("(") {
        Err(RuleError::Regex { message }) => assert!(message.contains("unclosed group"), "{message}"),
        other => panic!("{other:?}"),
    }
    match RegExpr::parse("a{2,1}") {
        Err(RuleError::Regex { message }) => assert!(!message.is_empty()),
        other => panic!("{other:?}"),
    }
}

#[test]
fn int_not_integer_message_has_parser_words() {
    let ranges = IntRanges::parse("1..5").unwrap();
    assert_eq!(
        failure_text(ranges.validate(&b"12a".to_vec())),
        "Expected an integer (it does not convert: invalid digit found in string)"
    );
    match IntRanges::parse("1, 2x") {
        Err(RuleError::BadNumber { reason, .. }) => assert_eq!(reason, "invalid digit found in string"),
        other => panic!("{other:?}"),
    }
}

#[test]
fn example_range_bounds_are_inclusive() {
    let ranges = IntRanges::parse("-123..-0").unwrap();
    assert!(is_success(&ranges.validate(&b"0".to_vec())));
    assert!(is_success(&ranges.validate(&b"-123".to_vec())));
    assert!(!is_success(&ranges.validate(&b"-124".to_vec())));
    assert!(!is_success(&ranges.validate(&b"1".to_vec())));
}

#[test]
fn plain_text_keeps_a_lone_carriage_return() {
    assert_eq!(PlainText::parse("abc\r").text(), "abc\r");
    assert_eq!(PlainText::parse("abc\r\n").text(), "abc");
    assert_eq!(PlainText::parse("abc\n").text(), "abc");
    assert_eq!(PlainText::parse("abc\r\r\n").text(), "abc\r");
    assert!(is_success(&PlainText::parse("abc\n").validate(&b"abc".to_vec())));
}

#[test]
fn last_line_keeps_its_carriage_return() {
    match IntRanges::parse("1\r\nx\r") {
        Err(RuleError::BadNumber { line, .. }) => assert_eq!(line, "x\r"),
        other => panic!("{other:?}"),
    }
    match IntRanges::parse("x\r\n") {
        Err(RuleError::BadNumber { line, .. }) => assert_eq!(line, "x"),
        other => panic!("{other:?}"),
    }
}
