use murrelet::timing::{cb_update_info, LiveCodeConfigInfo, LiveCodeTiming, LiveCodeUtil, ERROR_RELOAD_DELAY_MICROS, RELOAD_DELAY_MICROS};

#[test]
fn frames_count_from_the_last_reset() {
    let mut t = LiveCodeTiming::new(100);
    t.set_frame(10);
    assert_eq!(t.frame(), 10);
    t.reset_time(200);
    assert_eq!(t.start_frame, 10);
    assert_eq!(t.start, 200);
    assert_eq!(t.true_start(), 100);
    t.set_frame(25);
    assert_eq!(t.frame(), 15);
}

#[test]
fn render_times_shift() {
    let mut t = LiveCodeTiming::new(5);
    t.set_last_render_time(9);
    t.set_last_render_time(12);
    assert_eq!((t.prev_render_time, t.last_render_time), (9, 12));
}

#[test]
fn config_updates_record_the_frame() {
    let mut t = LiveCodeTiming::new(0);
    t.set_frame(40);
    t.config_updated(77);
    assert_eq!(t.last_config_update, 77);
    assert_eq!(t.last_config_update_frame, 40);
    t.set_frame(46);
    assert_eq!(t.frames_since_config_update(), 6);
}

#[test]
fn config_info_checks_after_its_time() {
    let mut i = LiveCodeConfigInfo::new(1000);
    assert!(i.updated());
    assert!(!i.should_check(1000 + RELOAD_DELAY_MICROS));
    assert!(i.should_check(1001 + RELOAD_DELAY_MICROS));
    i.reset();
    assert!(!i.updated());
    i.update(true, 5);
    assert_eq!(i.config_next_check, 5);
}

#[test]
fn reload_cycle() {
    let mut u = LiveCodeUtil::new(0);
    assert!(u.updated());
    // too early to look
    assert!(!u.should_reload(10, 50, 50));
    assert!(u.updated());
    let later = RELOAD_DELAY_MICROS + 5;
    // time to look, but nothing changed since the check was set
    assert!(!u.should_reload(later, 3, 4));
    assert!(!u.updated());
    // the config changed
    assert!(u.should_reload(later, RELOAD_DELAY_MICROS + 1, 0));
    u.update_with_frame(30);
    u.update_info_reloaded(later);
    assert!(u.updated());
    assert_eq!(u.info.config_next_check, later + RELOAD_DELAY_MICROS);
    assert_eq!(u.timing.last_config_update_frame, 30);
    assert!(!u.should_check_config(later));
    u.update_info_error(later + 1);
    assert!(!u.updated());
    assert_eq!(u.info.config_next_check, later + 1 + ERROR_RELOAD_DELAY_MICROS);
    assert_eq!(u.timing.last_config_update, later);
}

#[test]
fn reload_outcomes_are_recorded() {
    let mut u = LiveCodeUtil::new(0);
    let ok: Result<u32, String> = cb_update_info(&mut u, Ok(7), 2_000_000);
    assert_eq!(ok, Ok(7));
    assert!(u.updated());
    assert_eq!(u.info.config_next_check, 3_000_000);
    let bad: Result<u32, String> = cb_update_info(&mut u, Err("bad yaml".to_string()), 4_000_000);
    assert_eq!(bad, Err("bad yaml".to_string()));
    assert!(!u.updated());
    assert_eq!(u.info.config_next_check, 4_500_000);
}
