use note_digest::keyword::find_sections_with_keyword;
use note_digest::pattern::Patterns;

#[test]
fn keyword_below_headings() {
    let patterns = Patterns::new().unwrap();
    let text = "milk before\n# Shop\nmilk\n## Milk run\nbread\n# Home\n\n# Last\nsome milk";
    let found = find_sections_with_keyword(&patterns, text, "milk");
    assert_eq!(
        found,
        vec![
            ("Shop".to_string(), true),
            ("Milk run".to_string(), false),
            ("Home".to_string(), false),
            ("Last".to_string(), true),
        ]
    );
}

#[test]
fn keyword_across_lines_and_empty_keyword() {
    let patterns = Patterns::new().unwrap();
    let found = find_sections_with_keyword(&patterns, "# A\nx\ny\n# B", "x\ny");
    assert_eq!(found, vec![("A".to_string(), true), ("B".to_string(), false)]);
    let found = find_sections_with_keyword(&patterns, "# A\n# B\nz", "");
    assert_eq!(found, vec![("A".to_string(), true), ("B".to_string(), true)]);
    assert!(find_sections_with_keyword(&patterns, "no heading", "no").is_empty());
}
