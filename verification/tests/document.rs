use note_digest::document::{parse_markdown_file, take_line};
use note_digest::heading::Heading;
use note_digest::pattern::Patterns;
use note_digest::section::Section;

fn breadcrumbs(markdown: &str) -> Vec<String> {
    let patterns = Patterns::new().unwrap();
    parse_markdown_file(&patterns, "notes.md", markdown)
        .into_iter()
        .map(|s| s.full_title)
        .collect()
}

#[test]
fn breadcrumb_drops_closed_branch() {
    assert_eq!(
        breadcrumbs("# A\n## B\n### C\n## D\n"),
        vec!["A", "A / B", "A / B / C", "A / D"]
    );
}

#[test]
fn breadcrumb_of_a_child() {
    assert_eq!(breadcrumbs("# A\n## B"), vec!["A", "A / B"]);
}

#[test]
fn one_section_per_heading_line() {
    let patterns = Patterns::new().unwrap();
    let text = "preface\nmore\n# One\nbody\n####### seven\n## Two\n\n# Three";
    let sections = parse_markdown_file(&patterns, "notes.md", text);
    assert_eq!(sections.len(), 3);
    assert_eq!(sections[0].content, "# One\nbody\n####### seven\n");
    assert_eq!(sections[1].content, "## Two\n\n");
    assert_eq!(sections[2].content, "# Three\n");
    assert_eq!(
        sections.iter().map(|s| (s.id, s.lineno, s.level)).collect::<Vec<_>>(),
        vec![(1, 3, 1), (2, 6, 2), (3, 8, 1)]
    );
    assert!(parse_markdown_file(&patterns, "notes.md", "no heading\nat all\n").is_empty());
    assert!(parse_markdown_file(&patterns, "notes.md", "").is_empty());
}

fn heading(depth: usize, title: &str) -> Option<Heading> {
    Some(Heading { depth, title: title.to_string() })
}

fn line_of(depth: usize, title: &str) -> String {
    format!("{} {}", "#".repeat(depth), title)
}

/// Feeds the headings through `take_line`, and gives the breadcrumbs and
/// the stack that is left.
fn walk(headings: &[(usize, &str)]) -> (Vec<String>, Vec<usize>) {
    let mut sections: Vec<Section> = Vec::new();
    let mut stack: Vec<usize> = Vec::new();
    for (at, (depth, title)) in headings.iter().enumerate() {
        let line = line_of(*depth, title);
        take_line(&mut sections, &mut stack, 0, "n.md", &line, at + 1, heading(*depth, title));
    }
    (sections.into_iter().map(|s| s.full_title).collect(), stack)
}

#[test]
fn take_line_opens_and_extends() {
    let mut sections: Vec<Section> = Vec::new();
    let mut stack: Vec<usize> = Vec::new();
    take_line(&mut sections, &mut stack, 0, "n.md", "before", 1, None);
    assert!(sections.is_empty() && stack.is_empty());
    take_line(&mut sections, &mut stack, 0, "n.md", "# A", 2, heading(1, "A"));
    take_line(&mut sections, &mut stack, 0, "n.md", "body", 3, None);
    take_line(&mut sections, &mut stack, 0, "n.md", "## B", 4, heading(2, "B"));
    assert_eq!(stack, vec![0]);
    assert_eq!(sections.len(), 2);
    assert_eq!(sections[0].content, "# A\nbody\n");
    assert_eq!(sections[1].content, "## B\n");
    assert_eq!(
        (sections[1].id, sections[1].lineno, sections[1].level, sections[1].file.as_str()),
        (2, 4, 2, "n.md")
    );
    assert_eq!(sections[1].title, "B");
    assert_eq!(sections[1].full_title, "A / B");
    assert!(sections[1].timestamps.is_empty() && !sections[1].todo);
}

#[test]
fn take_line_numbers_on_from_earlier_documents() {
    let mut sections = vec![Section::new(1, "old.md".into(), 1, "X".into(), "X".into(), 1)];
    let mut stack: Vec<usize> = Vec::new();
    take_line(&mut sections, &mut stack, 1, "n.md", "text", 1, None);
    assert_eq!(sections[0].content, "");
    take_line(&mut sections, &mut stack, 1, "n.md", "## A", 2, heading(2, "A"));
    take_line(&mut sections, &mut stack, 1, "n.md", "### B", 3, heading(3, "B"));
    assert_eq!(sections[1].id, 2);
    assert_eq!(sections[1].full_title, "A");
    assert_eq!(sections[2].id, 3);
    assert_eq!(sections[2].full_title, "A / B");
    assert_eq!(stack, vec![0]);
}

#[test]
fn stack_follows_the_depths() {
    let (crumbs, stack) = walk(&[(1, "A"), (2, "B"), (3, "C"), (2, "D")]);
    assert_eq!(crumbs, vec!["A", "A / B", "A / B / C", "A / D"]);
    assert_eq!(stack, vec![0]);
    let (crumbs, stack) = walk(&[(1, "A"), (3, "C"), (4, "E"), (3, "F"), (1, "G"), (1, "H")]);
    assert_eq!(crumbs, vec!["A", "A / C", "A / C / E", "A / C / F", "G", "H"]);
    assert!(stack.is_empty());
    let (crumbs, stack) = walk(&[(3, "X"), (3, "Y"), (4, "Z"), (6, "W"), (5, "V")]);
    assert_eq!(crumbs, vec!["X", "Y", "Y / Z", "Y / Z / W", "Y / Z / V"]);
    assert_eq!(stack, vec![1, 2]);
}
