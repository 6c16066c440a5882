use note_digest::heading::scan_heading;
use note_digest::lines::lines_of;
use note_digest::pattern::Patterns;
use note_digest::section::Section;

fn section_titled(full_title: &str) -> Section {
    Section::new(1, "".to_string(), 10, "test title".to_string(), full_title.to_string(), 2)
}

#[test]
fn test_short_title() {
    let patterns = Patterns::new().unwrap();
    let my_section = section_titled("test title");
    assert_eq!(my_section.short_title(&patterns), "test title");
    let mut my_section = section_titled("(2024/07/13 04:38) test title");
    assert_eq!(my_section.short_title(&patterns), "test title");
    my_section = section_titled("(2024/07/13 04:38) *TODO* test title");
    assert_eq!(my_section.short_title(&patterns), "test title");
    my_section = section_titled("*TODO* test title");
    assert_eq!(my_section.short_title(&patterns), "test title");
}

#[test]
fn heading_depth_boundary() {
    let patterns = Patterns::new().unwrap();
    let six = scan_heading(&patterns, "###### deep  ").unwrap();
    assert_eq!(six.depth, 6);
    assert_eq!(six.title, "deep");
    assert!(scan_heading(&patterns, "####### too deep").is_none());
    assert!(scan_heading(&patterns, "#no blank").is_none());
    assert!(scan_heading(&patterns, " # indented").is_none());
}

#[test]
fn lines_follow_line_feeds() {
    assert_eq!(lines_of("a\r\nb\n\nc\r"), vec!["a", "b", "", "c\r"]);
    assert_eq!(lines_of(""), Vec::<String>::new());
    assert_eq!(lines_of("\n"), vec![""]);
}

#[test]
fn status_and_stamps() {
    let patterns = Patterns::new().unwrap();
    let mut s = section_titled("t");
    s.add_content("# t *TODO* (2024/07/13 04:38)");
    s.add_content("body *WIP* (2023/01/02 03:04) and (2025/12/31 23:59)");
    s.parse_status(&patterns);
    assert!(s.todo && s.wip && !s.wait && !s.done && !s.dont);
    assert_eq!(
        s.timestamps,
        vec!["(2023/01/02 03:04)", "(2024/07/13 04:38)", "(2025/12/31 23:59)"]
    );
    let mut plain = section_titled("t");
    plain.add_content("# t");
    plain.parse_status(&patterns);
    assert!(!plain.todo && !plain.wip);
    assert_eq!(plain.timestamps, vec!["(2000/01/01 00:00)"]);
}
