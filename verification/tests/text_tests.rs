use mailpane::command::{command_line, filter, is_search_keyword, listing_command, Verb};
use mailpane::data::{Flag, Msg, ReviewFlags};
use mailpane::reply::{decode_body, member_text};
use mailpane::text::{blank, parse_reference, push_decimal, same_text, tokenize};

fn strings(items: &[&str]) -> Vec<String> {
    items.iter().map(|s| s.to_string()).collect()
}

fn msg(id: usize, flags: Vec<Flag>) -> Msg {
    Msg {
        id,
        flags,
        subject: "Hello".to_string(),
        sender: "ann@example.org".to_string(),
        date: "2022-01-02".to_string(),
    }
}

#[test]
fn tokenize_splits_on_blanks() {
    assert_eq!(tokenize("search foo"), strings(&["search", "foo"]));
    assert_eq!(tokenize("  read   42 "), strings(&["read", "42"]));
    assert_eq!(tokenize("a\tb\nc\rd\x0ce"), strings(&["a", "b", "c", "d", "e"]));
    assert_eq!(tokenize("single"), strings(&["single"]));
}

#[test]
fn tokenize_of_nothing_is_nothing() {
    assert_eq!(tokenize(""), strings(&[]));
    assert_eq!(tokenize("   "), strings(&[]));
}

#[test]
fn tokenize_keeps_other_characters() {
    assert_eq!(tokenize("sujet été"), strings(&["sujet", "été"]));
}

#[test]
fn blank_characters() {
    assert!(blank(' '));
    assert!(blank('\t'));
    assert!(blank('\n'));
    assert!(!blank('a'));
    assert!(!blank('\u{a0}'));
}

#[test]
fn decimal_numerals() {
    for (n, text) in [(0usize, "0"), (7, "7"), (10, "10"), (42, "42"), (1000, "1000"), (90817, "90817")] {
        let mut s = String::new();
        push_decimal(&mut s, n);
        assert_eq!(s, text);
    }
    let mut s = String::from("read ");
    push_decimal(&mut s, usize::MAX);
    assert_eq!(s, format!("read {}", usize::MAX));
}

#[test]
fn references_count_from_one() {
    assert_eq!(parse_reference("1", 2), Some(0));
    assert_eq!(parse_reference("2", 2), Some(1));
    assert_eq!(parse_reference("02", 2), Some(1));
}

#[test]
fn references_out_of_range_are_refused() {
    assert_eq!(parse_reference("0", 2), None);
    assert_eq!(parse_reference("3", 2), None);
    assert_eq!(parse_reference("1", 0), None);
    assert_eq!(parse_reference("99999999999999999999999999999999999999999999", 2), None);
}

#[test]
fn references_that_are_no_numerals_are_refused() {
    assert_eq!(parse_reference("", 2), None);
    assert_eq!(parse_reference("x", 2), None);
    assert_eq!(parse_reference("1x", 2), None);
    assert_eq!(parse_reference("-1", 2), None);
    assert_eq!(parse_reference("+1", 2), None);
    assert_eq!(parse_reference("1 ", 2), None);
}

#[test]
fn verbs_ignore_case() {
    assert_eq!(Verb::of("search"), Verb::Search);
    assert_eq!(Verb::of("SeArCh"), Verb::Search);
    assert_eq!(Verb::of("READ"), Verb::Read);
    assert_eq!(Verb::of("read"), Verb::Read);
    assert_eq!(Verb::of("Follow"), Verb::Follow);
    assert_eq!(Verb::of("list"), Verb::Other);
    assert_eq!(Verb::of(""), Verb::Other);
}

#[test]
fn named_verbs_are_upper_case_only() {
    assert_eq!(Verb::named("SEARCH"), Verb::Search);
    assert_eq!(Verb::named("READ"), Verb::Read);
    assert_eq!(Verb::named("FOLLOW"), Verb::Follow);
    assert_eq!(Verb::named("search"), Verb::Other);
}

#[test]
fn same_text_compares_whole_texts() {
    assert!(same_text("abc", "abc"));
    assert!(!same_text("abc", "abd"));
    assert!(!same_text("abc", "ab"));
}

#[test]
fn search_keywords() {
    for word in [
        "all", "answered", "before", "body", "deleted", "from", "header", "new", "not", "or",
        "recent", "seen", "subject", "text", "to",
    ] {
        assert!(is_search_keyword(word));
    }
    assert!(!is_search_keyword("foo"));
    assert!(!is_search_keyword("FROM"));
    assert!(!is_search_keyword(""));
}

#[test]
fn command_line_of_a_plain_search() {
    assert_eq!(
        command_line(&strings(&["search", "foo"])),
        "himalaya --output json search subject foo -s 0"
    );
    assert_eq!(
        command_line(&strings(&["SEARCH", "foo", "bar"])),
        "himalaya --output json search subject foo bar -s 0"
    );
}

#[test]
fn command_line_of_a_keyword_search() {
    assert_eq!(
        command_line(&strings(&["search", "from", "bob"])),
        "himalaya --output json from bob -s 0"
    );
    assert_eq!(
        command_line(&strings(&["search", "FROM", "bob"])),
        "himalaya --output json FROM bob -s 0"
    );
}

#[test]
fn command_line_of_a_read() {
    assert_eq!(command_line(&strings(&["read", "42"])), "himalaya --output json read 42 ");
    assert_eq!(command_line(&strings(&["Read", "7"])), "himalaya --output json read 7 ");
}

#[test]
fn command_line_edge_cases() {
    assert_eq!(command_line(&strings(&[])), "himalaya --output json ");
    assert_eq!(command_line(&strings(&["search"])), "himalaya --output json ");
    assert_eq!(command_line(&strings(&["list", "x"])), "himalaya --output json x ");
}

#[test]
fn listing_command_asks_for_every_page() {
    assert_eq!(listing_command(), "himalaya --output json list -s 0");
}

#[test]
fn filter_copies_the_listing() {
    let data = vec![msg(1, vec![]), msg(2, vec![Flag::Seen])];
    assert_eq!(filter(&data), data);
    let empty: Vec<Msg> = Vec::new();
    assert_eq!(filter(&empty), empty);
}

#[test]
fn flags_string_marks() {
    assert_eq!(msg(1, vec![]).flags_string(), "✷  ");
    assert_eq!(msg(1, vec![Flag::Seen]).flags_string(), "   ");
    assert_eq!(msg(1, vec![Flag::Seen, Flag::Answered]).flags_string(), " ↵ ");
    assert_eq!(msg(1, vec![Flag::Flagged]).flags_string(), "✷ ⚑");
    assert_eq!(
        msg(1, vec![Flag::Flagged, Flag::Answered, Flag::Seen]).flags_string(),
        " ↵⚑"
    );
    assert_eq!(
        msg(1, vec![Flag::Deleted, Flag::Custom("Seen".to_string())]).flags_string(),
        "✷  "
    );
}

#[test]
fn flag_glyphs() {
    assert_eq!(Flag::Seen.glyph(), " ");
    assert_eq!(Flag::Recent.glyph(), " ");
    assert_eq!(Flag::MayCreate.glyph(), " ");
    assert_eq!(Flag::Answered.glyph(), "↵");
    assert_eq!(Flag::Flagged.glyph(), "⚑");
    assert_eq!(Flag::Deleted.glyph(), "🗑");
    assert_eq!(Flag::Draft.glyph(), "✉");
    assert_eq!(Flag::Custom("work".to_string()).glyph(), "work");
}

#[test]
fn row_cells() {
    assert_eq!(
        msg(42, vec![Flag::Seen, Flag::Flagged]).row(),
        strings(&["42", "  ⚑", "Hello", "ann@example.org", "2022-01-02"])
    );
}

#[test]
fn review_flags_start_off() {
    let flags = ReviewFlags::default();
    assert!(!flags.show_stats);
    assert!(!flags.show_links);
    assert!(flags.links.is_empty());
}

#[test]
fn decode_body_takes_the_response_member() {
    assert_eq!(
        decode_body("{\"response\": \"Dear all,\\nsee you\"}"),
        Some("Dear all,\nsee you".to_string())
    );
    assert_eq!(decode_body("{\"other\": 1, \"response\": \"\"}"), Some(String::new()));
}

#[test]
fn decode_body_refuses_what_does_not_decode() {
    assert_eq!(decode_body("not json"), None);
    assert_eq!(decode_body(""), None);
    assert_eq!(decode_body("{\"response\": 5}"), None);
    assert_eq!(decode_body("{\"body\": \"x\"}"), None);
    assert_eq!(decode_body("[\"response\"]"), None);
    assert_eq!(decode_body("\"response\""), None);
}

#[test]
fn decode_body_takes_the_last_of_repeated_members() {
    assert_eq!(
        decode_body("{\"response\": \"first\", \"response\": \"second\"}"),
        Some("second".to_string())
    );
}

#[test]
fn member_text_finds_the_named_member() {
    let members = vec![
        ("id".to_string(), None),
        ("response".to_string(), Some("body".to_string())),
        ("note".to_string(), Some("other".to_string())),
    ];
    assert_eq!(member_text(&members, "response"), Some("body".to_string()));
    assert_eq!(member_text(&members, "note"), Some("other".to_string()));
    assert_eq!(member_text(&members, "id"), None);
    assert_eq!(member_text(&members, "missing"), None);
    assert_eq!(member_text(&Vec::new(), "response"), None);
}
