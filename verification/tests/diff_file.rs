use cargo_reedme::diff_file::{make_diff, Color, DiffLine, Mismatch};

fn lines(m: &Mismatch) -> Vec<String> {
    m.lines
        .iter()
        .map(|l| match l {
            DiffLine::Context(s) => format!(" {s}"),
            DiffLine::Expected(s) => format!("+{s}"),
            DiffLine::Resulting(s) => format!("-{s}"),
        })
        .collect()
}

#[test]
fn identical_texts_have_no_difference() {
    assert!(make_diff("a\nb\nc", "a\nb\nc", 3).unwrap().is_empty());
}

#[test]
fn one_changed_line_with_context() {
    let d = make_diff("a\nb\nc\nd\ne", "a\nb\nX\nd\ne", 1).unwrap();
    assert_eq!(d.len(), 1);
    assert_eq!(d[0].line_number, 2);
    assert_eq!(d[0].line_number_orig, 2);
    assert_eq!(lines(&d[0]), vec![" b", "-c", "+X", " d"]);
}

#[test]
fn distant_changes_make_two_sections() {
    let d = make_diff("1\n2\n3\n4\n5\n6\n7\n8", "X\n2\n3\n4\n5\n6\n7\nY", 1).unwrap();
    assert_eq!(d.len(), 2);
    assert_eq!(lines(&d[0]), vec!["-1", "+X", " 2"]);
    assert_eq!(lines(&d[1]), vec![" 7", "-8", "+Y"]);
    assert_eq!(d[1].line_number, 7);
}

#[test]
fn no_context() {
    let d = make_diff("a\nb", "a\nc", 0).unwrap();
    assert_eq!(d.len(), 1);
    assert_eq!(lines(&d[0]), vec!["-b", "+c"]);
}

#[test]
fn colors() {
    assert!(Color::Always.use_colored_tty());
    assert!(Color::Auto.use_colored_tty());
    assert!(!Color::Never.use_colored_tty());
    let m = Mismatch::new(3, 4);
    assert_eq!(m.line_number, 3);
    assert_eq!(m.line_number_orig, 4);
    assert!(m.lines.is_empty());
}

/// Without context, every section holds changed lines only, and each holds one.
#[test]
fn no_context_sections_hold_only_changes() {
    let d = make_diff("1\n2\n3\n4", "X\n2\n3\nY", 0).unwrap();
    assert_eq!(d.len(), 2);
    for m in &d {
        assert!(!m.lines.is_empty());
        assert!(m.lines.iter().all(|l| !matches!(l, DiffLine::Context(_))));
    }
}
