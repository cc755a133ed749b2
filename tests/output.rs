use mpr::output::{format_tag, tag_line, StreamRole, TagColor};

#[test]
fn tag_format() {
    assert_eq!(format_tag("projects/a", "Git"), "[projects/a][Git] ");
    assert_eq!(format_tag("", ""), "[][] ");
}

#[test]
fn role_colors() {
    assert_eq!(StreamRole::Stdout.color(), TagColor::Green);
    assert_eq!(StreamRole::Stderr.color(), TagColor::Red);
}

#[test]
fn tagged_lines_keep_text_and_source() {
    let lines = ["Already up to date.\n", "second\n", ""];
    for (role, color) in [(StreamRole::Stdout, TagColor::Green), (StreamRole::Stderr, TagColor::Red)] {
        let tagged: Vec<_> = lines
            .iter()
            .map(|l| tag_line("B", "Cargo", role, l.to_string()))
            .collect();
        assert_eq!(tagged.len(), lines.len());
        for (t, l) in tagged.iter().zip(lines.iter()) {
            assert_eq!(t.text, *l);
            assert_eq!(t.tag, "[B][Cargo] ");
            assert_eq!(t.role, role);
            assert_eq!(t.color, color);
        }
    }
}
