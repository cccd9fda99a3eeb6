use mailpane::links::{bounds_in_order, scan_content, scan_line, scan_lines, segment_line, Segment};

fn plain(text: &str) -> Segment {
    Segment { text: text.to_string(), link: None }
}

fn link(text: &str, n: usize) -> Segment {
    Segment { text: text.to_string(), link: Some(n) }
}

fn rejoin(segments: &[Segment]) -> String {
    segments.iter().map(|s| s.text.as_str()).collect()
}

#[test]
fn line_without_links_stays_whole() {
    let mut links = Vec::new();
    let segments = scan_line("nothing to see here", &mut links);
    assert_eq!(segments, vec![plain("nothing to see here")]);
    assert!(links.is_empty());
}

#[test]
fn empty_line_is_one_empty_segment() {
    let mut links = Vec::new();
    assert_eq!(scan_line("", &mut links), vec![plain("")]);
    assert!(links.is_empty());
}

#[test]
fn line_with_one_link() {
    let mut links = Vec::new();
    let segments = scan_line("see http://example.org/a for more", &mut links);
    assert_eq!(
        segments,
        vec![plain("see "), link("http://example.org/a", 1), plain(" for more")]
    );
    assert_eq!(links, vec!["http://example.org/a".to_string()]);
}

#[test]
fn line_with_several_links() {
    let mut links = vec!["http://earlier.example".to_string()];
    let line = "http://a.example, then https://b.example/x?y=1 and mail ann@example.org.";
    let segments = scan_line(line, &mut links);
    assert_eq!(
        segments,
        vec![
            plain(""),
            link("http://a.example", 2),
            plain(", then "),
            link("https://b.example/x?y=1", 3),
            plain(" and mail "),
            link("ann@example.org", 4),
            plain("."),
        ]
    );
    assert_eq!(
        links,
        vec![
            "http://earlier.example".to_string(),
            "http://a.example".to_string(),
            "https://b.example/x?y=1".to_string(),
            "ann@example.org".to_string(),
        ]
    );
}

#[test]
fn segments_rejoin_to_the_line() {
    for line in [
        "",
        "plain",
        "http://a.example",
        "x http://a.example y http://b.example z",
        "héllo → https://example.org/ünï ← fin ✉",
        "two  spaces\tand http://t.example\ttabs",
    ] {
        let mut links = Vec::new();
        let segments = scan_line(line, &mut links);
        assert_eq!(rejoin(&segments), line);
        let found: Vec<String> = segments
            .iter()
            .filter(|s| s.link.is_some())
            .map(|s| s.text.clone())
            .collect();
        assert_eq!(found, links);
    }
}

#[test]
fn segment_line_cuts_at_the_given_ranges() {
    let mut links = Vec::new();
    let segments = segment_line("abcdef", &vec![(1, 2), (2, 4)], &mut links);
    assert_eq!(
        segments,
        vec![plain("a"), link("b", 1), plain(""), link("cd", 2), plain("ef")]
    );
    assert_eq!(links, vec!["b".to_string(), "cd".to_string()]);
    assert_eq!(rejoin(&segments), "abcdef");
}

#[test]
fn segment_line_without_ranges() {
    let mut links = vec!["kept".to_string()];
    assert_eq!(segment_line("abc", &vec![], &mut links), vec![plain("abc")]);
    assert_eq!(links, vec!["kept".to_string()]);
}

#[test]
fn ranges_must_be_in_order_and_inside() {
    assert!(bounds_in_order("abcdef", &vec![]));
    assert!(bounds_in_order("abcdef", &vec![(0, 6)]));
    assert!(bounds_in_order("abcdef", &vec![(1, 2), (2, 4)]));
    assert!(bounds_in_order("abcdef", &vec![(3, 3)]));
    assert!(!bounds_in_order("abcdef", &vec![(2, 1)]));
    assert!(!bounds_in_order("abcdef", &vec![(1, 3), (2, 4)]));
    assert!(!bounds_in_order("abcdef", &vec![(4, 7)]));
}

#[test]
fn ranges_must_not_cut_a_character() {
    assert!(bounds_in_order("aé", &vec![(1, 3)]));
    assert!(!bounds_in_order("aé", &vec![(1, 2)]));
    assert!(!bounds_in_order("aé", &vec![(2, 3)]));
}

#[test]
fn scan_content_numbers_links_across_lines() {
    let mut links = vec!["stale".to_string()];
    let lines = scan_content(
        "first http://a.example\r\nsecond\n\nthird http://b.example and http://c.example\n",
        &mut links,
    );
    assert_eq!(
        lines,
        vec![
            vec![plain("first "), link("http://a.example", 1), plain("")],
            vec![plain("second")],
            vec![plain("")],
            vec![
                plain("third "),
                link("http://b.example", 2),
                plain(" and "),
                link("http://c.example", 3),
                plain(""),
            ],
        ]
    );
    assert_eq!(
        links,
        vec![
            "http://a.example".to_string(),
            "http://b.example".to_string(),
            "http://c.example".to_string(),
        ]
    );
}

#[test]
fn scan_content_of_nothing() {
    let mut links = vec!["stale".to_string()];
    assert_eq!(scan_content("", &mut links), Vec::<Vec<Segment>>::new());
    assert!(links.is_empty());
}

#[test]
fn scan_lines_takes_the_lines_as_given() {
    let mut links = Vec::new();
    let lines = scan_lines(
        &vec!["to http://a.example".to_string(), "and back".to_string()],
        &mut links,
    );
    assert_eq!(
        lines,
        vec![
            vec![plain("to "), link("http://a.example", 1), plain("")],
            vec![plain("and back")],
        ]
    );
    assert_eq!(links, vec!["http://a.example".to_string()]);
}

#[test]
fn shown_adds_the_number_while_links_show() {
    assert_eq!(link("http://a.example", 12).shown(true), "http://a.example [12]");
    assert_eq!(link("http://a.example", 12).shown(false), "http://a.example");
    assert_eq!(plain("text").shown(true), "text");
    assert_eq!(plain("text").shown(false), "text");
}

fn texts_of(lines: Vec<Vec<Segment>>) -> Vec<String> {
    lines.iter().map(|line| rejoin(line)).collect()
}

#[test]
fn lines_end_with_a_line_feed() {
    let mut links = Vec::new();
    assert_eq!(texts_of(scan_content("a\nb", &mut links)), vec!["a", "b"]);
    assert_eq!(texts_of(scan_content("a\nb\n", &mut links)), vec!["a", "b"]);
    assert_eq!(texts_of(scan_content("a\n\nb\n\n", &mut links)), vec!["a", "", "b", ""]);
    assert_eq!(texts_of(scan_content("\n", &mut links)), vec![""]);
    assert_eq!(texts_of(scan_content("no end", &mut links)), vec!["no end"]);
}

#[test]
fn carriage_return_before_a_line_feed_is_left_out() {
    let mut links = Vec::new();
    assert_eq!(texts_of(scan_content("a\r\nb\r\n", &mut links)), vec!["a", "b"]);
    assert_eq!(texts_of(scan_content("a\r\r\nb", &mut links)), vec!["a\r", "b"]);
    assert_eq!(texts_of(scan_content("a\rb\n", &mut links)), vec!["a\rb"]);
    assert_eq!(texts_of(scan_content("a\nb\r", &mut links)), vec!["a", "b\r"]);
    assert_eq!(texts_of(scan_content("\r\n", &mut links)), vec![""]);
    assert_eq!(texts_of(scan_content("\r", &mut links)), vec!["\r"]);
}
