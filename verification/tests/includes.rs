use murrelet::includes::{include_directives, leftpad, replace_all, splice_includes};

#[test]
fn leftpad_indents_every_line() {
    assert_eq!(leftpad("a\nb", 2), "  a\n  b");
    assert_eq!(leftpad("a\nb\n", 2), "  a\n  b\n  ");
    assert_eq!(leftpad("", 3), "   ");
    assert_eq!(leftpad("x\ny", 0), "x\ny");
}

#[test]
fn replace_all_matches_std() {
    for (s, n, r) in [("aaaa", "aa", "b"), ("abcabc", "bc", "X"), ("none", "zz", "y"), ("aaa", "aa", "")] {
        assert_eq!(replace_all(s, n, r), s.replace(n, r), "{} {} {}", s, n, r);
    }
}

#[test]
fn directives_are_found_at_line_starts() {
    let text = "a: 1\n  [[foo]]\n[[bar]] trailing\n[notone]\n y [[z]]\n[[]]\n\t[[tab]]\n";
    let d = include_directives(text);
    let got: Vec<(usize, String)> = d.into_iter().map(|x| (x.indent, x.name)).collect();
    assert_eq!(got, vec![(2, "foo".to_string()), (0, "bar".to_string())]);
}

#[test]
fn directive_names_may_span_lines() {
    let d = include_directives("[[a\nb]]\n[[c]]");
    let got: Vec<String> = d.into_iter().map(|x| x.name).collect();
    assert_eq!(got, vec!["a\nb".to_string(), "c".to_string()]);
}

#[test]
fn splice_inserts_indented_files() {
    let text = "root:\n  [[part]]\nother: [[missing]]\n[[missing]]\n";
    let dirs = include_directives(text);
    assert_eq!(dirs.len(), 2);
    let contents = vec![Some("x: 1\ny: 2".to_string()), None];
    let out = splice_includes(text, &dirs, &contents);
    assert_eq!(out, "root:\n  x: 1\n  y: 2\nother: [[missing]]\n[[missing]]\n");
}

#[test]
fn splice_replaces_every_copy_of_a_directive() {
    let text = "[[p]]\nk: [[p]]\n";
    let dirs = include_directives(text);
    assert_eq!(dirs.len(), 1);
    let out = splice_includes(text, &dirs, &vec![Some("v".to_string())]);
    assert_eq!(out, "v\nk: v\n");
}

#[test]
fn no_files_found_keeps_text() {
    let text = "[[a]]\n  [[b]]\n";
    let dirs = include_directives(text);
    let out = splice_includes(text, &dirs, &vec![None, None]);
    assert_eq!(out, text);
}

#[test]
fn empty_needle_matches_at_every_boundary() {
    assert_eq!(replace_all("abc", "", "X"), "abc".replace("", "X"));
    assert_eq!(replace_all("", "", "X"), "X");
}
