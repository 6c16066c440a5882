use note_digest::digest::{digest, sort_by_recency, Document};
use note_digest::document::parse_markdown_file;
use note_digest::pattern::Patterns;
use note_digest::section::Section;

fn document(path: &str, text: &str) -> Document {
    Document { path: path.to_string(), text: text.to_string() }
}

fn stamped(id: usize, stamps: &[&str]) -> Section {
    let mut s = Section::new(id, "f.md".to_string(), id, "t".to_string(), "t".to_string(), 1);
    s.timestamps = stamps.iter().map(|t| t.to_string()).collect();
    s
}

#[test]
fn sorts_by_most_recent_timestamp() {
    let patterns = Patterns::new().unwrap();
    let text = "# first (2024/01/01 00:00)\n# second (2024/06/01 00:00)\n# third\n";
    let sections = digest(&patterns, &vec![document("notes.md", text)]);
    let latest: Vec<&str> = sections.iter().map(|s| s.timestamps.last().unwrap().as_str()).collect();
    assert_eq!(latest, vec!["(2024/06/01 00:00)", "(2024/01/01 00:00)", "(2000/01/01 00:00)"]);
    let titles: Vec<&str> = sections.iter().map(|s| s.title.as_str()).collect();
    assert_eq!(titles, vec!["second (2024/06/01 00:00)", "first (2024/01/01 00:00)", "third"]);
}

#[test]
fn the_last_timestamp_decides() {
    let mut sections = vec![
        stamped(1, &["(2020/01/01 00:00)", "(2021/01/01 00:00)"]),
        stamped(2, &["(2019/01/01 00:00)", "(2023/01/01 00:00)"]),
        stamped(3, &["(2022/01/01 00:00)"]),
    ];
    sort_by_recency(&mut sections);
    assert_eq!(sections.iter().map(|s| s.id).collect::<Vec<_>>(), vec![2, 3, 1]);
}

#[test]
fn equal_timestamps_keep_their_sections() {
    let mut sections = vec![
        stamped(1, &["(2020/01/01 00:00)"]),
        stamped(2, &["(2021/01/01 00:00)"]),
        stamped(3, &["(2020/01/01 00:00)"]),
        stamped(4, &["(2021/01/01 00:00)"]),
    ];
    sort_by_recency(&mut sections);
    let mut ids: Vec<usize> = sections.iter().map(|s| s.id).collect();
    assert_eq!(sections[0].timestamps[0], "(2021/01/01 00:00)");
    assert_eq!(sections[1].timestamps[0], "(2021/01/01 00:00)");
    assert_eq!(sections[2].timestamps[0], "(2020/01/01 00:00)");
    assert_eq!(sections[3].timestamps[0], "(2020/01/01 00:00)");
    ids.sort();
    assert_eq!(ids, vec![1, 2, 3, 4]);
}

#[test]
fn documents_interleave() {
    let patterns = Patterns::new().unwrap();
    let one = "# a1 (2024/01/10 08:00)\ntext\n## a2 (2024/03/10 08:00)\n";
    let two = "intro\n# b1 (2024/02/10 08:00)\n# b2 (2024/04/10 08:00)\n# b3\n";
    let sections = digest(
        &patterns,
        &vec![document("work/one.md", one), document("home/two.md", two)],
    );
    let seen: Vec<(&str, usize, &str, usize)> = sections
        .iter()
        .map(|s| (s.file.as_str(), s.lineno, s.full_title.as_str(), s.id))
        .collect();
    assert_eq!(
        seen,
        vec![
            ("home/two.md", 3, "b2 (2024/04/10 08:00)", 4),
            ("work/one.md", 3, "a1 (2024/01/10 08:00) / a2 (2024/03/10 08:00)", 2),
            ("home/two.md", 2, "b1 (2024/02/10 08:00)", 3),
            ("work/one.md", 1, "a1 (2024/01/10 08:00)", 1),
            ("home/two.md", 4, "b3", 5),
        ]
    );
}

#[test]
fn a_digest_of_nothing_is_empty() {
    let patterns = Patterns::new().unwrap();
    assert!(digest(&patterns, &vec![]).is_empty());
    assert!(digest(&patterns, &vec![document("empty.md", "")]).is_empty());
}

#[test]
fn one_document_is_numbered_from_one() {
    let patterns = Patterns::new().unwrap();
    let sections = parse_markdown_file(&patterns, "n.md", "# a\n# b\n");
    assert_eq!(sections.iter().map(|s| s.id).collect::<Vec<_>>(), vec![1, 2]);
}
