use note_digest::calendar::compact_timestamp;
use note_digest::digest::{digest, Document};
use note_digest::error::DigestError;
use note_digest::pattern::Patterns;
use note_digest::report::{
    markdown_section_summary, report_items, summary_line_of, title_of, Category, ReportItem,
};
use note_digest::section::Section;

fn digest_of(path: &str, text: &str) -> Vec<Section> {
    let patterns = Patterns::new().unwrap();
    digest(&patterns, &vec![Document { path: path.to_string(), text: text.to_string() }])
}

#[test]
fn compact_form_of_a_timestamp() {
    assert_eq!(compact_timestamp("(2024/07/13 04:38)"), Ok("240713_0438".to_string()));
    assert_eq!(compact_timestamp("(2000/01/01 00:00)"), Ok("000101_0000".to_string()));
}

#[test]
fn a_timestamp_off_the_calendar_fails() {
    assert_eq!(compact_timestamp("(2024/13/40 99:99)"), Err(DigestError::Timestamp));
    assert_eq!(compact_timestamp("(2023/02/29 10:00)"), Err(DigestError::Timestamp));
    assert_eq!(compact_timestamp("2024/07/13 04:38"), Err(DigestError::Timestamp));
}

#[test]
fn summary_line_layout() {
    assert_eq!(
        summary_line_of("notes.md", 3, "240713_0438", "A / B"),
        "  notes.md:L3: 240713_0438 A / B"
    );
    assert_eq!(
        summary_line_of("notes.md", 1234, "240713_0438", "A"),
        "  notes.md:L1234: 240713_0438 A"
    );
    assert_eq!(summary_line_of("a.md", 12345, "x", ""), "  a.md:L12345: x ");
    assert_eq!(summary_line_of("", 0, "", "t"), "  :L0:  t");
    assert_eq!(summary_line_of("n", 10, "s", "t"), "  n:L10: s t");
    assert_eq!(
        summary_line_of("n", usize::MAX, "s", "t"),
        format!("  n:L{}: s t", usize::MAX)
    );
}

#[test]
fn summary_line_of_a_section() {
    let patterns = Patterns::new().unwrap();
    let text = "# Plan\n## *TODO* write (2024/07/13 04:38) soon\nlater (2024/08/01 10:00)\n";
    let sections = digest_of("some/dir/notes.md", text);
    assert_eq!(sections[0].title, "*TODO* write (2024/07/13 04:38) soon");
    assert_eq!(
        sections[0].summary_line(&patterns),
        Ok("  notes.md:L2: 240713_0438 Plan / write soon".to_string())
    );
    assert_eq!(
        sections[0].summary_line_with(&patterns, "n"),
        Ok("  n:L2: 240713_0438 Plan / write soon".to_string())
    );
    assert_eq!(
        sections[1].summary_line(&patterns),
        Ok("  notes.md:L1: 000101_0000 Plan".to_string())
    );
}

#[test]
fn summary_line_failures() {
    let patterns = Patterns::new().unwrap();
    let off_calendar = digest_of("notes.md", "# *WAIT* (2024/13/40 99:99)\n");
    assert_eq!(off_calendar[0].summary_line(&patterns), Err(DigestError::Timestamp));
    let nameless = digest_of("..", "# *WAIT* (2024/01/01 10:00)\n");
    assert_eq!(nameless[0].summary_line(&patterns), Err(DigestError::SourceName));
    assert_eq!(
        markdown_section_summary(&off_calendar, &patterns, false),
        Err(DigestError::Timestamp)
    );
    assert_eq!(
        markdown_section_summary(&nameless, &patterns, false),
        Err(DigestError::SourceName)
    );
}

const NOTES: &str = "# *WAIT* reply (2024/01/01 10:00)\n\
# *TODO* buy (2024/03/01 10:00)\n\
# *DONE* call (2024/02/01 10:00)\n\
# *WIP* *TODO* draft (2024/04/01 10:00)\n\
# *DONT* skip (2024/05/01 10:00)\n\
# plain\n";

#[test]
fn report_lists_open_categories() {
    let patterns = Patterns::new().unwrap();
    let sections = digest_of("notes.md", NOTES);
    assert_eq!(
        markdown_section_summary(&sections, &patterns, false).unwrap(),
        vec![
            "WAIT items:",
            "  notes.md:L1: 240101_1000 reply ",
            "",
            "WIP items:",
            "  notes.md:L4: 240401_1000 draft ",
            "",
            "TODO items:",
            "  notes.md:L4: 240401_1000 draft ",
            "  notes.md:L2: 240301_1000 buy ",
        ]
    );
}

#[test]
fn report_lists_closed_categories_on_demand() {
    let patterns = Patterns::new().unwrap();
    let sections = digest_of("notes.md", NOTES);
    let lines = markdown_section_summary(&sections, &patterns, true).unwrap();
    assert_eq!(
        lines[9..],
        [
            "",
            "DONT items:",
            "  notes.md:L5: 240501_1000 skip ",
            "",
            "DONE items:",
            "  notes.md:L3: 240201_1000 call ",
        ]
    );
}

#[test]
fn report_plan_of_an_empty_digest() {
    assert_eq!(
        report_items(&vec![], false),
        vec![
            ReportItem::Title(Category::Wait),
            ReportItem::Blank,
            ReportItem::Title(Category::Wip),
            ReportItem::Blank,
            ReportItem::Title(Category::Todo),
        ]
    );
    assert_eq!(report_items(&vec![], true).len(), 9);
    assert_eq!(title_of(Category::Dont), "DONT items:");
}

#[test]
fn report_entries_point_into_the_digest() {
    let sections = digest_of("notes.md", NOTES);
    let items = report_items(&sections, true);
    assert_eq!(items[1], ReportItem::Entry(4));
    assert_eq!(items[4], ReportItem::Entry(1));
    assert_eq!(items[7], ReportItem::Entry(1));
    assert_eq!(items[8], ReportItem::Entry(2));
    assert!(sections[1].in_category(Category::Wip) && sections[1].in_category(Category::Todo));
    assert!(!sections[1].in_category(Category::Done));
}

#[test]
fn report_on_an_empty_digest() {
    let patterns = Patterns::new().unwrap();
    assert_eq!(
        markdown_section_summary(&vec![], &patterns, false),
        Ok(vec![
            "WAIT items:".to_string(),
            "".to_string(),
            "WIP items:".to_string(),
            "".to_string(),
            "TODO items:".to_string(),
        ])
    );
    assert_eq!(
        markdown_section_summary(&vec![], &patterns, true).unwrap(),
        vec![
            "WAIT items:",
            "",
            "WIP items:",
            "",
            "TODO items:",
            "",
            "DONT items:",
            "",
            "DONE items:",
        ]
    );
}

#[test]
fn report_without_a_listed_section_does_not_fail() {
    let patterns = Patterns::new().unwrap();
    let unlisted = digest_of("..", "# plain (2024/13/40 99:99)\n# *DONE* (2024/13/40 99:99)\n");
    assert_eq!(markdown_section_summary(&unlisted, &patterns, false).unwrap().len(), 5);
    assert_eq!(
        markdown_section_summary(&unlisted, &patterns, true),
        Err(DigestError::SourceName)
    );
}

#[test]
fn summary_line_shows_the_last_component_of_the_path() {
    let patterns = Patterns::new().unwrap();
    let sections = digest_of("some/dir/plan.markdown", "# *TODO* go (2024/01/02 03:04)\n");
    assert_eq!(
        sections[0].summary_line(&patterns),
        Ok("  plan.markdown:L1: 240102_0304 go ".to_string())
    );
}
