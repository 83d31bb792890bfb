use murrelet::nested::{edits_from_pairs, getter_parts, nest_default, LivecodeError, NestEditable, NestedMod};
use murrelet::template::{fill_fmt, fill_holes, fill_rendered, TemplateFault};
use murrelet::text::{join_with, split_on};

fn raw_message(r: Result<String, LivecodeError>) -> String {
    match r {
        Err(LivecodeError::Raw(m)) => m,
        other => panic!("expected a Raw error, got {:?}", other),
    }
}

#[test]
fn control_string_fmt_constant_fill() {
    assert_eq!(fill_fmt("s{}", &[3]).unwrap(), "s3");
}

#[test]
fn control_string_fmt_two_fills() {
    assert_eq!(fill_fmt("{}_{}", &[1, 2]).unwrap(), "1_2");
}

#[test]
fn control_string_fmt_escaped_braces() {
    assert_eq!(fill_fmt("{{s{}}}", &[0]).unwrap(), "{s0}");
}

#[test]
fn fill_writes_negative_numbers() {
    assert_eq!(fill_fmt("x{}y", &[-42]).unwrap(), "x-42y");
    assert_eq!(fill_fmt("{}", &[i64::MIN]).unwrap(), "-9223372036854775808");
}

#[test]
fn plain_text_is_unchanged() {
    assert_eq!(fill_fmt("hello", &[]).unwrap(), "hello");
    assert_eq!(fill_fmt("hello", &[5, 6]).unwrap(), "hello");
}

#[test]
fn extra_fills_are_ignored() {
    assert_eq!(fill_fmt("{}", &[7, 8, 9]).unwrap(), "7");
}

#[test]
fn too_few_fills_is_an_error() {
    let m = raw_message(fill_fmt("a{}{}", &[1]));
    assert_eq!(m, "MurreletString fmt \"a{}{}\" has more placeholders than fills (1)");
}

#[test]
fn named_placeholder_is_an_error() {
    let m = raw_message(fill_fmt("a{x}", &[1]));
    assert_eq!(m, "MurreletString fmt \"a{x}\" only supports empty {} placeholders");
}

#[test]
fn unmatched_close_is_an_error() {
    let m = raw_message(fill_fmt("a}b", &[]));
    assert_eq!(m, "MurreletString fmt \"a}b\" has an unmatched }");
}

#[test]
fn fault_message_quotes_like_debug() {
    let m = raw_message(fill_fmt("q\"{", &[]));
    assert_eq!(m, format!("MurreletString fmt {:?} only supports empty {{}} placeholders", "q\"{"));
}

#[test]
fn rendered_fills_use_the_label() {
    let fills = vec!["1.5".to_string()];
    assert_eq!(fill_rendered("v={}", &fills, "fmt_f").unwrap(), "v=1.5");
    let m = raw_message(fill_rendered("{}{}", &fills, "fmt_f"));
    assert_eq!(m, "MurreletString fmt_f \"{}{}\" has more placeholders than fills (1)");
}

#[test]
fn fill_holes_reports_faults() {
    let fills: Vec<String> = vec![];
    assert!(matches!(fill_holes("{}", &fills), Err(TemplateFault::TooFewFills)));
    assert!(matches!(fill_holes("{a}", &fills), Err(TemplateFault::BadPlaceholder)));
    assert!(matches!(fill_holes("}", &fills), Err(TemplateFault::UnmatchedClose)));
    assert_eq!(fill_holes("{{}}", &fills).unwrap(), "{}");
}

#[test]
fn single_hole_is_replaced_by_its_fill() {
    let fills = vec!["mid".to_string()];
    assert_eq!(fill_holes("pre{}post", &fills).unwrap(), "premidpost");
}

#[test]
fn split_then_join_gives_back_the_text() {
    for s in ["a.b.c", "", ".", "a..b", "drawing.stroke.width"] {
        let parts = split_on(s, '.');
        assert_eq!(join_with(&parts, '.'), s);
    }
    assert_eq!(split_on("a..b", '.'), vec!["a", "", "b"]);
    assert_eq!(split_on("", '.'), vec![""]);
}

#[test]
fn getter_parts_split_at_dots() {
    assert_eq!(getter_parts("drawing.stroke.width"), vec!["drawing", "stroke", "width"]);
}

#[test]
fn nest_default_without_path_gives_the_value() {
    assert_eq!(nest_default(&[], "hello".to_string()).unwrap(), "hello");
}

#[test]
fn nest_default_with_path_is_an_error() {
    let getter = vec!["a".to_string(), "b".to_string()];
    match nest_default(&getter, "x".to_string()) {
        Err(LivecodeError::NestGetExtra(m)) => assert_eq!(m, "a.b"),
        other => panic!("unexpected {:?}", other),
    }
}

#[test]
fn nested_mod_reads_edits_by_path() {
    let pairs = vec![
        ("drawing.width".to_string(), "3".to_string()),
        ("drawing".to_string(), "whole".to_string()),
        ("drawing.width".to_string(), "4".to_string()),
    ];
    let edits = edits_from_pairs(&pairs);
    let root = NestedMod::from_dict(&edits);
    assert_eq!(root.get_curr(), None);
    assert_eq!(root.get_subfield("drawing"), Some("whole".to_string()));
    let drawing = root.next_loc("drawing");
    assert_eq!(drawing.get_curr(), Some("whole".to_string()));
    assert_eq!(drawing.get_subfield("width"), Some("4".to_string()));
    assert_eq!(drawing.get_subfield("height"), None);
    let width = drawing.next_loc("width");
    assert_eq!(width.get_curr(), Some("4".to_string()));
}

#[test]
fn bool_edits_apply_only_when_exact() {
    let pairs = vec![
        ("on".to_string(), "true".to_string()),
        ("off".to_string(), "false".to_string()),
        ("odd".to_string(), "yes".to_string()),
    ];
    let edits = edits_from_pairs(&pairs);
    let root = NestedMod::from_dict(&edits);
    assert_eq!(false.nest_update(&root.next_loc("on")), true);
    assert_eq!(true.nest_update(&root.next_loc("off")), false);
    assert_eq!(true.nest_update(&root.next_loc("odd")), true);
    assert_eq!(false.nest_update(&root.next_loc("missing")), false);
}

#[test]
fn string_edits_replace_the_value() {
    let pairs = vec![("name".to_string(), "bird".to_string())];
    let edits = edits_from_pairs(&pairs);
    let root = NestedMod::from_dict(&edits);
    assert_eq!("cat".to_string().nest_update(&root.next_loc("name")), "bird");
    assert_eq!("cat".to_string().nest_update(&root.next_loc("other")), "cat");
}

#[test]
fn nest_get_gives_debug_text() {
    assert_eq!(true.nest_get(&[]).unwrap(), "true");
    assert_eq!("a\"b".to_string().nest_get(&[]).unwrap(), "\"a\\\"b\"");
    assert!(matches!(false.nest_get(&["x".to_string()]), Err(LivecodeError::NestGetExtra(_))));
}

#[test]
fn edit_then_get_reads_the_edit_back() {
    let pairs = vec![
        ("a.on".to_string(), "false".to_string()),
        ("a.name".to_string(), "owl".to_string()),
    ];
    let edits = edits_from_pairs(&pairs);
    let here = NestedMod::from_dict(&edits).next_loc("a");
    let switched = true.nest_update(&here.next_loc("on"));
    assert_eq!(switched.nest_get(&[]).unwrap(), "false");
    let named = "cat".to_string().nest_update(&here.next_loc("name"));
    assert_eq!(named.nest_get(&[]).unwrap(), "\"owl\"");
    let kept = "cat".to_string().nest_update(&here.next_loc("missing"));
    assert_eq!(kept.nest_get(&[]).unwrap(), "\"cat\"");
}

#[test]
fn rendered_and_integer_fills_share_the_text() {
    let rendered = vec!["2.5".to_string(), "0.1".to_string()];
    assert_eq!(fill_rendered("v={}, w={{{}}}", &rendered, "fmt_f").unwrap(), "v=2.5, w={0.1}");
    assert_eq!(fill_fmt("v={}, w={{{}}}", &[2, 0]).unwrap(), "v=2, w={0}");
    let one = vec!["2.5".to_string()];
    assert!(fill_rendered("{}{}", &one, "fmt_f").is_err());
    assert!(fill_fmt("{}{}", &[2]).is_err());
}
