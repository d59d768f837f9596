use logcat::parse;
use logcat::parse::threadtime::{DecodeError, Stage, ThreadTimeParser};
use logcat::Level;

#[test]
fn threadtime() {
    let data = "--------- beginning of main
12-31 22:59:41.271     1   197 I init    : Uptime: 00002.612275 LocalTime: 01-01 03:59:41.276
";

    let lines: Vec<_> = data.lines().collect();

    {
        let first_msg = parse::threadtime(lines[0]);
        assert!(first_msg.is_err());
    }

    let second_msg = parse::threadtime(lines[1]);
    assert!(second_msg.is_ok());

    let second_msg = second_msg.unwrap();
    assert_eq!(second_msg.level(), Level::Info);
    assert_eq!(second_msg.tag(), "init");
    assert!(second_msg.content().starts_with("Uptime:"));

    let date = second_msg.date().unwrap();
    assert!(date.year() > 2000);
    assert_eq!(date.month(), 12);
    assert_eq!(date.day(), 31);

    let time = second_msg.time().unwrap();
    assert_eq!(time.hour(), 22);
    assert_eq!(time.minute(), 59);
    assert_eq!(time.second(), 41);

    assert_eq!(second_msg.process_id().unwrap(), 1);
    assert_eq!(second_msg.thread_id().unwrap(), 197);
}

#[test]
fn threadtime_levels() {
    let cases = [
        ("12-31 0:0:0.0 1 1 V tag: content", Level::Verbose),
        ("12-31 0:0:0.0 1 1 D tag: content", Level::Debug),
        ("12-31 0:0:0.0 1 1 I tag: content", Level::Info),
        ("12-31 0:0:0.0 1 1 W tag: content", Level::Warning),
        ("12-31 0:0:0.0 1 1 E tag: content", Level::Error),
        ("12-31 0:0:0.0 1 1 F tag: content", Level::Fatal),
    ];

    for case in &cases {
        let msg = parse::threadtime(case.0).unwrap();
        assert_eq!(msg.level(), case.1)
    }
}

#[test]
fn threadtime_tags() {
    let cases = [
        ("12-31 0:0:0.0 1 1 V tag: content", "tag"),
        ("12-31 0:0:0.0 1 1 D  tag : content", "tag"),
        ("12-31 0:0:0.0 1 1 I      tag     : content", "tag"),
        (
            "12-31 0:0:0.0 1 1 W longer_snake_tag: content",
            "longer_snake_tag",
        ),
    ];

    for case in &cases {
        let msg = parse::threadtime(case.0).unwrap();
        assert_eq!(msg.tag(), case.1)
    }
}

#[test]
fn threadtime_content() {
    let cases = [
        ("12-31 0:0:0.0 1 1 V tag: content", "content"),
        ("12-31 0:0:0.0 1 1 D  tag :  content", " content"),
        ("12-31 0:0:0.0 1 1 I      tag     : content", "content"),
        (
            "12-31 0:0:0.0 1 1 I      tag     :    content   ",
            "   content   ",
        ),
        (
            "12-31 0:0:0.0 1 1 I tag: multi-word content.",
            "multi-word content.",
        ),
    ];

    for case in &cases {
        let msg = parse::threadtime(case.0).unwrap();
        assert_eq!(msg.content(), case.1)
    }
}

#[test]
fn threadtime_ok() {
    let cases = ["12-31 0:0:0.0 1 1 I tag:", "12-31 0:0:0.0 1 1 I :"];

    for case in &cases {
        println!("{}", case);
        assert!(parse::threadtime(case).is_ok());
    }
}

#[test]
fn threadtime_malformed() {
    let cases = [
        "12- 0:0:0.0 1 1 I tag: content",
        "-31 0:0:0.0 1 1 I tag: content",
        "12-31 :0:0.0 1 1 I tag: content",
        "12-31 0::0.0 1 1 I tag: content",
        "12-31 0:0:.0 1 1 I tag: content",
        "12-31 0:0:. 1 1 I tag: content",
        "12-31 0:0:0.0  1 I tag: content",
        "12-31 0:0:0.0   I tag: content",
        "12-31 0:0:0.0 1 1  tag: content",
        "12-31 0:0:0.0 1 1  I: content",
        "12-31 0:0:0.0 1 1  I content",
    ];

    for case in &cases {
        println!("{}", case);
        assert!(parse::threadtime(case).is_err());
    }
}

#[test]
fn threadtime_all_fields() {
    let mut parser = ThreadTimeParser::with_year(2024);
    let msg = parser
        .parse_line("12-31 0:0:0.0 1 1 V tag: content")
        .unwrap();

    assert_eq!(msg.level(), Level::Verbose);
    assert_eq!(msg.tag(), "tag");
    assert_eq!(msg.content(), "content");
    assert_eq!(msg.process_id(), Some(1));
    assert_eq!(msg.thread_id(), Some(1));

    let dt = msg.date_time().unwrap();
    assert_eq!(dt.date().year(), 2024);
    assert_eq!(dt.date().month(), 12);
    assert_eq!(dt.date().day(), 31);
    assert_eq!(dt.time().hour(), 0);
    assert_eq!(dt.time().minute(), 0);
    assert_eq!(dt.time().second(), 0);
    assert_eq!(dt.time().millisecond(), 0);
}

#[test]
fn threadtime_empty_content() {
    let msg = parse::threadtime("12-31 0:0:0.0 1 1 I tag:").unwrap();
    assert_eq!(msg.tag(), "tag");
    assert_eq!(msg.content(), "");

    let msg = parse::threadtime("12-31 0:0:0.0 1 1 I :").unwrap();
    assert_eq!(msg.tag(), "");
    assert_eq!(msg.content(), "");
}

#[test]
fn threadtime_one_character_skip() {
    // Exactly one character after the colon is consumed, whatever it
    // is: content that follows the colon with no space loses its first
    // character.
    let msg = parse::threadtime("12-31 0:0:0.0 1 1 I tag:content").unwrap();
    assert_eq!(msg.content(), "ontent");
}

#[test]
fn threadtime_whitespace_widths_do_not_matter() {
    let narrow = parse::threadtime("12-31 0:0:0.0 1 1 I tag: content").unwrap();
    let wide = parse::threadtime("12-31  0:0:0.0   1  1  I  tag : content").unwrap();
    let tabbed = parse::threadtime("12-31\t0:0:0.0\t1\t1\tI\ttag: content").unwrap();

    for msg in [&wide, &tabbed] {
        assert_eq!(msg.level(), narrow.level());
        assert_eq!(msg.tag(), narrow.tag());
        assert_eq!(msg.content(), narrow.content());
        assert_eq!(msg.process_id(), narrow.process_id());
        assert_eq!(msg.thread_id(), narrow.thread_id());
        assert_eq!(
            msg.date_time().unwrap().date().month(),
            narrow.date_time().unwrap().date().month()
        );
        assert_eq!(
            msg.date_time().unwrap().date().day(),
            narrow.date_time().unwrap().date().day()
        );
    }
}

#[test]
fn threadtime_banner_always_fails() {
    let cases = [
        "--------- beginning of main",
        "-",
        "-31 0:0:0.0 1 1 I tag: content",
        "-anything at all",
    ];
    for case in &cases {
        assert!(matches!(
            parse::threadtime(case),
            Err(DecodeError::RejectedBanner)
        ));
    }
}

#[test]
fn threadtime_error_variants() {
    let mut parser = ThreadTimeParser::with_year(2023);

    assert!(matches!(
        parser.parse_line("12-31"),
        Err(DecodeError::MissingBoundary(Stage::Date))
    ));
    assert!(matches!(
        parser.parse_line("1231 0:0:0.0 1 1 I tag: content"),
        Err(DecodeError::MalformedDate(t)) if t == "1231"
    ));
    assert!(matches!(
        parser.parse_line("12-xx 0:0:0.0 1 1 I tag: content"),
        Err(DecodeError::MalformedDate(t)) if t == "12-xx"
    ));
    assert!(matches!(
        parser.parse_line("12-31 0:0:0.0"),
        Err(DecodeError::MissingBoundary(Stage::Time))
    ));
    assert!(matches!(
        parser.parse_line("12-31 0:0:0 1 1 I tag: content"),
        Err(DecodeError::MalformedTime(t)) if t == "0:0:0"
    ));
    assert!(matches!(
        parser.parse_line("12-31 0:0:0.0 x 1 I tag: content"),
        Err(DecodeError::MalformedProcessId(t)) if t == "x"
    ));
    assert!(matches!(
        parser.parse_line("12-31 0:0:0.0 1"),
        Err(DecodeError::MissingBoundary(Stage::ProcessId))
    ));
    assert!(matches!(
        parser.parse_line("12-31 0:0:0.0 1 y I tag: content"),
        Err(DecodeError::MalformedThreadId(t)) if t == "y"
    ));
    assert!(matches!(
        parser.parse_line("12-31 0:0:0.0 1 1"),
        Err(DecodeError::MissingBoundary(Stage::ThreadId))
    ));
    assert!(matches!(
        parser.parse_line("12-31 0:0:0.0 1 1 X tag: content"),
        Err(DecodeError::UnknownLevelCode(t)) if t == "X"
    ));
    assert!(matches!(
        parser.parse_line("12-31 0:0:0.0 1 1 I"),
        Err(DecodeError::MissingBoundary(Stage::Level))
    ));
    assert!(matches!(
        parser.parse_line("12-31 0:0:0.0 1 1 I tag content"),
        Err(DecodeError::MissingTagDelimiter)
    ));
    assert!(matches!(
        parser.parse_line("02-30 0:0:0.0 1 1 I tag: content"),
        Err(DecodeError::InvalidTimestamp)
    ));
    assert!(matches!(
        parser.parse_line("13-01 0:0:0.0 1 1 I tag: content"),
        Err(DecodeError::InvalidTimestamp)
    ));
    assert!(matches!(
        parser.parse_line("12-31 24:0:0.0 1 1 I tag: content"),
        Err(DecodeError::InvalidTimestamp)
    ));
    assert!(matches!(
        parser.parse_line("12-31 0:0:0.2000 1 1 I tag: content"),
        Err(DecodeError::InvalidTimestamp)
    ));
    assert!(parser
        .parse_line("12-31 0:0:0.1999 1 1 I tag: content")
        .is_ok());
}

#[test]
fn threadtime_leap_day_depends_on_year() {
    let mut leap = ThreadTimeParser::with_year(2024);
    assert!(leap.parse_line("02-29 1:2:3.4 1 1 I tag: content").is_ok());

    let mut common = ThreadTimeParser::with_year(2023);
    assert!(matches!(
        common.parse_line("02-29 1:2:3.4 1 1 I tag: content"),
        Err(DecodeError::InvalidTimestamp)
    ));
}

#[test]
fn threadtime_signed_ids() {
    let msg = parse::threadtime("12-31 0:0:0.0 +5 -7 I tag: content").unwrap();
    assert_eq!(msg.process_id(), Some(5));
    assert_eq!(msg.thread_id(), Some(-7));

    let msg = parse::threadtime("12-31 0:0:0.0 2147483647 -2147483648 I tag: content").unwrap();
    assert_eq!(msg.process_id(), Some(i32::MAX));
    assert_eq!(msg.thread_id(), Some(i32::MIN));

    assert!(matches!(
        parse::threadtime("12-31 0:0:0.0 2147483648 1 I tag: content"),
        Err(DecodeError::MalformedProcessId(t)) if t == "2147483648"
    ));
}

#[test]
fn threadtime_time_extra_groups_ignored() {
    // Splitting on `:` and `.` alike, only the first four groups count.
    let msg = parse::threadtime("12-31 1.2.3.4.5 1 1 I tag: content").unwrap();
    let dt = msg.date_time().unwrap();
    assert_eq!(dt.time().hour(), 1);
    assert_eq!(dt.time().minute(), 2);
    assert_eq!(dt.time().second(), 3);
    assert_eq!(dt.time().millisecond(), 4);
}

#[test]
fn threadtime_tag_trailing_trim_only() {
    // Scenario: a tag written "   tag   " before the colon parses as
    // "tag"; the content is the post-colon text less one character.
    let msg = parse::threadtime("12-31 0:0:0.0 1 1 I    tag   : payload").unwrap();
    assert_eq!(msg.tag(), "tag");
    assert_eq!(msg.content(), "payload");

    let msg = parse::threadtime("12-31 0:0:0.0 1 1 I a b : payload").unwrap();
    assert_eq!(msg.tag(), "a b");
    assert_eq!(msg.content(), "payload");
}
