use rustace::duration::{parse_duration_at, parse_duration_secs};
use rustace::markup::{parse_button_rows, split_body_buttons, ButtonKind};
use rustace::text::{html_escape, parse_i64, parse_u16, preview, split_lines, split_words, trim_string};

#[test]
fn duration_seven_days() {
    assert_eq!(parse_duration_at(Some("7d"), 1_000), Some(1_000 + 7 * 86_400));
}

#[test]
fn duration_hours_and_minutes() {
    assert_eq!(parse_duration_at(Some("2h"), 50), Some(50 + 7_200));
    assert_eq!(parse_duration_at(Some("30m"), 0), Some(1_800));
    assert_eq!(parse_duration_at(Some("0d"), 9), Some(9));
}

#[test]
fn duration_rejects_bad_tokens() {
    assert_eq!(parse_duration_at(Some("abc"), 0), None);
    assert_eq!(parse_duration_at(Some(""), 0), None);
    assert_eq!(parse_duration_at(Some("d"), 0), None);
    assert_eq!(parse_duration_at(Some("5x"), 0), None);
    assert_eq!(parse_duration_at(Some("-5d"), 0), None);
    assert_eq!(parse_duration_at(None, 0), None);
}

#[test]
fn duration_too_large_for_i64() {
    assert_eq!(parse_duration_at(Some("9223372036854775807d"), 0), None);
    assert_eq!(parse_duration_at(Some("9223372036854775807m"), -1), None);
}

#[test]
fn duration_from_clock() {
    let now = || {
        std::time::SystemTime::now()
            .duration_since(std::time::UNIX_EPOCH)
            .unwrap()
            .as_secs() as i64
    };
    let before = now();
    let r = parse_duration_secs(Some("7d")).unwrap();
    let after = now();
    assert!(before + 604_800 <= r && r <= after + 604_800);
    assert!(parse_duration_secs(Some("0d")).is_some());
    assert_eq!(parse_duration_secs(Some("abc")), None);
    assert_eq!(parse_duration_secs(Some("")), None);
    assert_eq!(parse_duration_secs(None), None);
}

#[test]
fn markup_round_trip() {
    let (body, rows) = split_body_buttons("Hello\n[A | a] [B | https://x]\n");
    assert_eq!(body, "Hello");
    assert_eq!(rows.len(), 1);
    assert_eq!(rows[0].len(), 2);
    assert_eq!(rows[0][0].label, "A");
    assert_eq!(rows[0][0].target, "a");
    assert_eq!(rows[0][0].kind, ButtonKind::Callback);
    assert_eq!(rows[0][1].label, "B");
    assert_eq!(rows[0][1].target, "https://x");
    assert_eq!(rows[0][1].kind, ButtonKind::Link);
}

#[test]
fn markup_skips_malformed_groups() {
    let (body, rows) = split_body_buttons("Title\n[|x] [a|] [ok | go] [bad]\n[ | ]");
    assert_eq!(body, "Title");
    assert_eq!(rows.len(), 1);
    assert_eq!(rows[0].len(), 1);
    assert_eq!(rows[0][0].label, "ok");
    assert_eq!(rows[0][0].target, "go");
}

#[test]
fn markup_rows_and_body_lines() {
    let raw = "  First line\r\n[X | tg://resolve?domain=a]\nsecond [line]\n[Y|y][Z|http://z]\n\n";
    let (body, rows) = split_body_buttons(raw);
    assert_eq!(body, "First line\nsecond [line]");
    assert_eq!(rows.len(), 2);
    assert_eq!(rows[0][0].kind, ButtonKind::Link);
    assert_eq!(rows[1].len(), 2);
    assert_eq!(rows[1][0].target, "y");
    assert_eq!(rows[1][1].kind, ButtonKind::Link);
}

#[test]
fn markup_prose_with_brackets_is_markup() {
    let (body, rows) = split_body_buttons("a [b] | c\nbody");
    assert_eq!(body, "body");
    assert!(rows.is_empty());
}

#[test]
fn markup_unclosed_bracket_stops_row() {
    let lines = vec!["[a|b] [c|d".to_string(), "no markup".to_string()];
    let rows = parse_button_rows(&lines);
    assert_eq!(rows.len(), 1);
    assert_eq!(rows[0].len(), 1);
    assert_eq!(rows[0][0].label, "a");
}

#[test]
fn escape_html() {
    assert_eq!(html_escape("a<b>&c"), "a&lt;b&gt;&amp;c");
    assert_eq!(html_escape(""), "");
    assert_eq!(html_escape("plain \u{1F980}"), "plain \u{1F980}");
}

#[test]
fn words_and_lines() {
    assert_eq!(split_words("  /ban\t7d \u{3000}x "), vec!["/ban", "7d", "x"]);
    assert!(split_words("   ").is_empty());
    assert_eq!(split_lines("a\r\nb\n\nc\n"), vec!["a", "b", "", "c"]);
    assert!(split_lines("").is_empty());
    assert_eq!(trim_string("\n  hi there \t"), "hi there");
}

#[test]
fn integers() {
    assert_eq!(parse_i64("123456789"), Some(123_456_789));
    assert_eq!(parse_i64("+5"), Some(5));
    assert_eq!(parse_i64("-9223372036854775808"), Some(i64::MIN));
    assert_eq!(parse_i64("9223372036854775808"), None);
    assert_eq!(parse_i64("12a"), None);
    assert_eq!(parse_i64("-"), None);
    assert_eq!(parse_i64(""), None);
    assert_eq!(parse_u16("8080"), Some(8080));
    assert_eq!(parse_u16("65536"), None);
    assert_eq!(parse_u16("-1"), None);
}

#[test]
fn previews() {
    let long = "x".repeat(40);
    assert_eq!(preview(&long), format!("{}\u{2026}", "x".repeat(35)));
    assert_eq!(preview("short"), "short");
    assert_eq!(preview(&"x".repeat(35)), "x".repeat(35));
    let emoji = "\u{1F600}".repeat(10);
    assert_eq!(emoji.len(), 40);
    assert_eq!(preview(&emoji), format!("{}\u{2026}", "\u{1F600}".repeat(8)));
    let mixed = format!("{}\u{e9}\u{e9}", "a".repeat(34));
    assert_eq!(preview(&mixed), format!("{}\u{2026}", "a".repeat(34)));
}
