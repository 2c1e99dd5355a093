use taskbar_ip::overlay::{
    is_windows_11_or_higher, is_windows_7_or_lower, keep_in_topmost_band, label_text,
    overlay_width, plan_refresh, recheck_restores, should_enforce_topmost,
    taskbar_is_above_overlay, window_placement_policy, z_order_tick, LayoutState, ZOrderRequest,
};

#[test]
fn label_and_width() {
    assert_eq!(label_text("10.0.0.1"), "Broj Racunara: 10.0.0.1");
    assert_eq!(overlay_width(120), 132);
}

#[test]
fn windows_versions() {
    assert!(is_windows_7_or_lower(Some((6, 1, 7601))));
    assert!(is_windows_7_or_lower(Some((5, 1, 2600))));
    assert!(!is_windows_7_or_lower(Some((6, 2, 9200))));
    assert!(!is_windows_7_or_lower(None));
    assert!(is_windows_11_or_higher(Some((10, 0, 22000))));
    assert!(!is_windows_11_or_higher(Some((10, 0, 19045))));
    assert!(!is_windows_11_or_higher(None));
    assert!(should_enforce_topmost(Some((6, 1, 7601))));
    assert!(!should_enforce_topmost(Some((10, 0, 19045))));
    assert!(!should_enforce_topmost(Some((6, 3, 9600))));
}

#[test]
fn placement_policies() {
    let p = window_placement_policy(Some((10, 0, 22631)));
    assert!(p.topmost_unowned && p.event_hooks);
    assert_eq!(p.z_order_poll_ms, Some(100));
    let p = window_placement_policy(Some((6, 1, 7601)));
    assert!(p.topmost_unowned && !p.event_hooks);
    assert_eq!(p.z_order_poll_ms, Some(500));
    let p = window_placement_policy(Some((10, 0, 19045)));
    assert!(!p.topmost_unowned && !p.event_hooks);
    assert_eq!(p.z_order_poll_ms, None);
}

#[test]
fn covered_poll_runs() {
    for (win11, every) in [(true, 1usize), (false, 2usize)] {
        let mut misses = 0;
        for n in 1..=6usize {
            let t = z_order_tick(misses, true, win11);
            assert_eq!(t.restore, n % every == 0);
            misses = t.misses;
        }
    }
}

#[test]
fn z_order_debounce() {
    // Windows 11 restores on the first covered poll.
    let t = z_order_tick(0, true, true);
    assert!(t.restore);
    assert_eq!(t.misses, 0);
    // Windows 7 needs two consecutive covered polls.
    let t = z_order_tick(0, true, false);
    assert!(!t.restore);
    assert_eq!(t.misses, 1);
    let t2 = z_order_tick(t.misses, true, false);
    assert!(t2.restore);
    assert_eq!(t2.misses, 0);
    let t3 = z_order_tick(1, false, false);
    assert!(!t3.restore);
    assert_eq!(t3.misses, 0);
    assert!(recheck_restores(true, true));
    assert!(!recheck_restores(false, true));
    assert!(keep_in_topmost_band(true, 0x0001));
    assert!(!keep_in_topmost_band(true, 0x0004));
    assert!(!keep_in_topmost_band(false, 0));
}

#[test]
fn z_order_walk() {
    assert!(taskbar_is_above_overlay(&[5, 7, 9], 9, 7));
    assert!(!taskbar_is_above_overlay(&[5, 9, 7], 9, 7));
    assert!(!taskbar_is_above_overlay(&[5, 6], 9, 7));
    let mut long = vec![1usize; 1024];
    long.push(7);
    assert!(!taskbar_is_above_overlay(&long, 9, 7));
    long[1023] = 7;
    assert!(taskbar_is_above_overlay(&long, 9, 7));
}

#[test]
fn refresh_only_changes_what_differs() {
    let mut st = LayoutState::new();
    let p = plan_refresh(&st, 10, 20, 100, "Broj Racunara: 10.0.0.1", true);
    assert!(matches!(p.move_window, Some(ZOrderRequest::Topmost)));
    assert!(p.resize_label && p.set_text);
    let p = plan_refresh(&st, 10, 20, 100, "x", false);
    assert!(matches!(p.move_window, Some(ZOrderRequest::Top)));
    st.record_move(10, 20, 100);
    st.record_text("Broj Racunara: 10.0.0.1".to_string());
    let p = plan_refresh(&st, 10, 20, 100, "Broj Racunara: 10.0.0.1", true);
    assert!(p.move_window.is_none() && !p.resize_label && !p.set_text);
    let p = plan_refresh(&st, 11, 20, 100, "Broj Racunara: 10.0.0.2", true);
    assert!(matches!(p.move_window, Some(ZOrderRequest::KeepCurrent)));
    assert!(!p.resize_label && p.set_text);
    let p = plan_refresh(&st, 10, 20, 90, "Broj Racunara: 10.0.0.1", true);
    assert!(p.resize_label && !p.set_text);
    st.reset();
    let p = plan_refresh(&st, 10, 20, 100, "Broj Racunara: 10.0.0.1", true);
    assert!(matches!(p.move_window, Some(ZOrderRequest::Topmost)) && p.set_text);
}
