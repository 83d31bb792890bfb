use murrelet::osc::{osc_address, osc_variable_name, smooth_name};
use murrelet::expr::{ExprNode, GetLivecodeIdentifiers};
use murrelet::perform::{
    capture_folder_name, capture_frame_name, missing_osc_names, reload_allowed, should_capture_frame, should_redraw,
    should_reload, should_reset_bg, should_send_feedback, ConfigVersions,
};

#[test]
fn capture_names_pad_the_frame() {
    for (run, frame, prefix) in [(7u64, 42u64, ""), (7, 42, "svg"), (1, 123456, ""), (0, 0, "p"), (u64::MAX, u64::MAX, "x")] {
        let raw = format!("{}_capture_{:05}", run, frame);
        let expected = if prefix.is_empty() { raw } else { format!("{}_{}", prefix, raw) };
        assert_eq!(capture_frame_name(run, frame, prefix), expected);
    }
    assert_eq!(capture_folder_name(1234), "1234");
}

#[test]
fn reload_and_redraw_rates() {
    assert!(should_reload(10, 5, false));
    assert!(!should_reload(11, 5, false));
    assert!(!should_reload(10, 0, false));
    assert!(should_reload(11, 0, true));
    assert!(should_redraw(9, 3, false));
    assert!(!should_redraw(10, 3, false));
    assert!(should_redraw(10, 3, true));
}

#[test]
fn capture_and_background_rules() {
    assert!(!should_capture_frame(true, 0, false, false));
    assert!(should_capture_frame(true, 1, false, false));
    assert!(should_capture_frame(false, 0, true, false));
    assert!(should_capture_frame(false, 0, false, true));
    assert!(!should_reset_bg(false));
    assert!(should_reset_bg(true));
    assert!(reload_allowed(true, false, false));
    assert!(!reload_allowed(true, true, false));
    assert!(reload_allowed(true, true, true));
    assert!(!reload_allowed(false, false, true));
    assert!(should_send_feedback(40));
    assert!(!should_send_feedback(41));
}

#[test]
fn config_versions_queue_during_a_blend() {
    let mut v = ConfigVersions { current: 1, prev: 0, queued: None };
    v.take_reloaded(2, true);
    assert_eq!((v.current, v.prev, v.queued), (1, 0, Some(2)));
    v.take_reloaded(3, false);
    assert_eq!((v.current, v.prev, v.queued), (3, 1, Some(2)));
    v.take_update(4);
    assert_eq!((v.current, v.prev, v.queued), (4, 3, None));
}

#[test]
fn used_names_are_distinct() {
    let v = ConfigVersions {
        current: vec![ExprNode::from_src("a + b".to_string()).unwrap()],
        prev: vec![ExprNode::from_src("b + oo_x".to_string()).unwrap()],
        queued: Some(vec![ExprNode::from_src("c".to_string()).unwrap()]),
    };
    let mut names = v.used_variable_names();
    names.sort();
    assert_eq!(names, vec!["a", "b", "c", "oo_x"]);
    assert_eq!(v.current.variable_identifiers().len(), 2);
}

#[test]
fn missing_osc_defaults() {
    let used = vec!["oo_a".to_string(), "b".to_string(), "oo_c".to_string(), "oo_d".to_string()];
    let world = vec!["oo_c".to_string(), "t".to_string()];
    assert_eq!(missing_osc_names(&used, &world), vec!["oo_a".to_string(), "oo_d".to_string()]);
}

#[test]
fn osc_addresses_name_variables() {
    assert_eq!(osc_variable_name("/livecode/knob1"), Some("oo_knob1".to_string()));
    assert_eq!(osc_variable_name("/livecode/"), Some("oo_".to_string()));
    assert_eq!(osc_variable_name("/other/knob1"), None);
    assert_eq!(osc_variable_name("/livecod"), None);
    assert_eq!(osc_address("x"), "/livecode/x");
    assert_eq!(osc_variable_name(&osc_address("x")), Some("oo_x".to_string()));
    assert_eq!(smooth_name("oo_a"), "oo_a_smooth");
}
