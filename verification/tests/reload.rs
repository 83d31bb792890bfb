use murrelet::nested::LivecodeError;
use murrelet::overrides::{apply_overrides, apply_yaml_override, node_to_value, text_with_overrides, ConfigNode};
use serde_yaml::Value;

fn doc() -> ConfigNode {
    ConfigNode::Value(serde_yaml::from_str("drawing:\n  filename: old.png\n  stroke_weight: 1.0\n").unwrap())
}

fn at<'a>(v: &'a Value, path: &str) -> &'a Value {
    let mut cur = v;
    for k in path.split('.') {
        cur = &cur[k];
    }
    cur
}

fn apply(spec: &str) -> (Result<(), LivecodeError>, Value) {
    let mut n = doc();
    let r = apply_yaml_override(&mut n, spec);
    (r, node_to_value(&n))
}

#[test]
fn sets_nested_string() {
    let (r, v) = apply("drawing.filename=bird_001.png");
    r.unwrap();
    assert_eq!(at(&v, "drawing.filename").as_str(), Some("bird_001.png"));
}

#[test]
fn coerces_number() {
    let (r, v) = apply("drawing.stroke_weight=4.5");
    r.unwrap();
    assert_eq!(at(&v, "drawing.stroke_weight").as_f64(), Some(4.5));
}

#[test]
fn creates_missing_intermediates() {
    let (r, v) = apply("app.svg.size=2400");
    r.unwrap();
    assert_eq!(at(&v, "app.svg.size").as_u64(), Some(2400));
}

#[test]
fn bad_spec_errors() {
    let mut v = doc();
    assert!(apply_yaml_override(&mut v, "no_equals_sign").is_err());
}

#[test]
fn missing_equals_message_quotes_the_spec() {
    let (r, _) = apply("no_equals_sign");
    match r {
        Err(LivecodeError::Raw(m)) => assert_eq!(m, "--set expects PATH=VALUE, got 'no_equals_sign'"),
        other => panic!("unexpected {:?}", other),
    }
}

#[test]
fn empty_path_is_refused() {
    let (r, v) = apply("=3");
    match r {
        Err(LivecodeError::Raw(m)) => assert_eq!(m, "--set has an empty path: '=3'"),
        other => panic!("unexpected {:?}", other),
    }
    assert_eq!(at(&v, "drawing.filename").as_str(), Some("old.png"));
}

#[test]
fn override_keeps_sibling_keys() {
    let (r, v) = apply("drawing.filename=new.png");
    r.unwrap();
    assert_eq!(at(&v, "drawing.stroke_weight").as_f64(), Some(1.0));
    assert_eq!(at(&v, "drawing.filename").as_str(), Some("new.png"));
}

#[test]
fn value_after_first_equals_keeps_later_equals() {
    let (r, v) = apply("drawing.filename=a=b");
    r.unwrap();
    assert_eq!(at(&v, "drawing.filename").as_str(), Some("a=b"));
}

#[test]
fn boolean_values_are_read_as_yaml() {
    let (r, v) = apply("drawing.visible=true");
    r.unwrap();
    assert_eq!(at(&v, "drawing.visible").as_bool(), Some(true));
}

#[test]
fn scalar_in_the_way_becomes_a_mapping() {
    let (r, v) = apply("drawing.filename.deep=1");
    r.unwrap();
    assert_eq!(at(&v, "drawing.filename.deep").as_u64(), Some(1));
}

#[test]
fn second_override_reads_back() {
    let mut n = doc();
    apply_yaml_override(&mut n, "app.svg.size=10").unwrap();
    apply_yaml_override(&mut n, "app.svg.size=20").unwrap();
    let v = node_to_value(&n);
    assert_eq!(at(&v, "app.svg.size").as_u64(), Some(20));
}

#[test]
fn override_goes_into_a_value_it_wrote() {
    let mut n = doc();
    apply_yaml_override(&mut n, "app={svg: {size: 1}, name: x}").unwrap();
    apply_yaml_override(&mut n, "app.svg.size=2").unwrap();
    let v = node_to_value(&n);
    assert_eq!(at(&v, "app.svg.size").as_u64(), Some(2));
    assert_eq!(at(&v, "app.name").as_str(), Some("x"));
}

#[test]
fn overrides_apply_in_order() {
    let mut n = doc();
    let specs = vec!["drawing.filename=a.png".to_string(), "drawing.filename=b.png".to_string()];
    apply_overrides(&mut n, &specs).unwrap();
    let v = node_to_value(&n);
    assert_eq!(at(&v, "drawing.filename").as_str(), Some("b.png"));
    let bad = vec!["drawing.filename=c.png".to_string(), "oops".to_string(), "drawing.filename=d.png".to_string()];
    match apply_overrides(&mut n, &bad) {
        Err(LivecodeError::Raw(m)) => assert_eq!(m, "--set expects PATH=VALUE, got 'oops'"),
        other => panic!("unexpected {:?}", other),
    }
    assert_eq!(at(&node_to_value(&n), "drawing.filename").as_str(), Some("c.png"));
}

#[test]
fn config_text_with_overrides() {
    let text = "drawing:\n  filename: old.png\n  stroke_weight: 1.0\n";
    assert_eq!(text_with_overrides(text, &vec![]).unwrap(), text);
    let out = text_with_overrides(text, &vec!["drawing.filename=new.png".to_string()]).unwrap();
    let v: Value = serde_yaml::from_str(&out).unwrap();
    assert_eq!(at(&v, "drawing.filename").as_str(), Some("new.png"));
    assert_eq!(at(&v, "drawing.stroke_weight").as_f64(), Some(1.0));
    match text_with_overrides("a: [", &vec!["a=1".to_string()]) {
        Err(LivecodeError::Raw(m)) => assert!(m.starts_with("config yaml parse before override: ")),
        other => panic!("unexpected {:?}", other),
    }
    match text_with_overrides(text, &vec!["=1".to_string()]) {
        Err(LivecodeError::Raw(m)) => assert_eq!(m, "--set has an empty path: '=1'"),
        other => panic!("unexpected {:?}", other),
    }
}

#[test]
fn tagged_mapping_is_edited_inside_its_tag() {
    let mut n = ConfigNode::Value(serde_yaml::from_str("shape: !circle\n  r: 1\n").unwrap());
    apply_yaml_override(&mut n, "shape.r=3").unwrap();
    let v = node_to_value(&n);
    match &v["shape"] {
        Value::Tagged(t) => {
            assert_eq!(t.tag, "circle");
            assert_eq!(t.value["r"].as_u64(), Some(3));
        }
        other => panic!("unexpected {:?}", other),
    }
}
