use taskbar_ip::layout::{find_tray_pos, RebarBand, ScreenRect, TaskbarScan, WindowInfo};

fn rect(left: i32, top: i32, right: i32, bottom: i32) -> ScreenRect {
    ScreenRect { left, top, right, bottom }
}

fn window(class: &str, r: ScreenRect) -> WindowInfo {
    WindowInfo { visible: true, class_name: class.to_string(), rect: Some(r) }
}

fn scan(taskbar: Option<ScreenRect>) -> TaskbarScan {
    TaskbarScan {
        work_area: rect(0, 0, 1920, 1040),
        taskbar,
        tray: None,
        rebar_bands: vec![],
        children: vec![],
        top_level: vec![],
        windows_11: false,
    }
}

#[test]
fn no_taskbar_uses_work_area_corner() {
    assert_eq!(find_tray_pos(&scan(None), 200), (1720, 1010));
}

#[test]
fn left_of_tray_on_horizontal_taskbar() {
    let mut s = scan(Some(rect(0, 1040, 1920, 1080)));
    s.tray = Some(rect(1700, 1040, 1920, 1080));
    // y = 1040 + (40 - 30) / 2 = 1045; x = 1700 - 6 - 200.
    assert_eq!(find_tray_pos(&s, 200), (1494, 1045));
}

#[test]
fn deskbands_and_language_bar_reserve_space() {
    let mut s = scan(Some(rect(0, 1040, 1920, 1080)));
    s.tray = Some(rect(1700, 1040, 1920, 1080));
    s.rebar_bands = vec![
        RebarBand { rect: rect(60, 1040, 1500, 1080), style: 0, child_class: "MSTaskSwWClass".to_string() },
        RebarBand { rect: rect(1600, 1040, 1650, 1080), style: 0, child_class: "ToolbarWindow32".to_string() },
        RebarBand { rect: rect(1550, 1040, 1600, 1080), style: 8, child_class: "Hidden".to_string() },
    ];
    assert_eq!(find_tray_pos(&s, 100), (1494, 1045));
    s.top_level = vec![window("CiceroUIWndFrame", rect(1580, 1042, 1598, 1078))];
    assert_eq!(find_tray_pos(&s, 100), (1474, 1045));
    // On Windows 11 the ReBar is ignored.
    s.windows_11 = true;
    s.top_level = vec![];
    assert_eq!(find_tray_pos(&s, 100), (1594, 1045));
}

#[test]
fn taskbar_children() {
    let mut s = scan(Some(rect(0, 1040, 1920, 1080)));
    s.children = vec![
        window("Start", rect(0, 1040, 300, 1080)),
        // left of the Start area: ignored
        window("TrayButton", rect(200, 1040, 240, 1080)),
        window("MyDeskBandHost", rect(1600, 1040, 1650, 1080)),
        window("TaskbarIPC", rect(1000, 1040, 1100, 1080)),
        WindowInfo { visible: false, class_name: "TrayNotifyWnd".to_string(), rect: Some(rect(900, 1040, 950, 1080)) },
    ];
    assert_eq!(find_tray_pos(&s, 100), (1494, 1045));
}

#[test]
fn vertical_taskbar() {
    let mut s = scan(Some(rect(1860, 0, 1920, 1080)));
    s.tray = Some(rect(1860, 900, 1920, 1080));
    s.children = vec![window("TrayClockWClass", rect(1860, 850, 1920, 900))];
    // x = 1860 + (60 - 100) / 2 = 1840 (toward zero); y = 850 - 6 - 30.
    assert_eq!(find_tray_pos(&s, 100), (1840, 814));
    assert_eq!(find_tray_pos(&s, 101), (1840, 814));
}

#[test]
fn wider_overlay_grows_left() {
    let mut s = scan(Some(rect(0, 1040, 1920, 1080)));
    s.tray = Some(rect(1700, 1040, 1920, 1080));
    for (w1, w2) in [(100, 150), (0, 400), (37, 38)] {
        let (x1, y1) = find_tray_pos(&s, w1);
        let (x2, y2) = find_tray_pos(&s, w2);
        assert_eq!(x1 + w1, x2 + w2);
        assert_eq!(y1, y2);
    }
    let (x1, _) = find_tray_pos(&scan(None), 10);
    let (x2, _) = find_tray_pos(&scan(None), 90);
    assert_eq!(x1 + 10, x2 + 90);
}

#[test]
fn toolbar_children_do_not_move_the_boundary() {
    let mut s = scan(Some(rect(0, 1040, 1920, 1080)));
    s.children = vec![window("ToolbarWindow32", rect(400, 1040, 1800, 1080))];
    assert_eq!(find_tray_pos(&s, 100), (1814, 1045));
    s.children = vec![window("TrayClockWClass", rect(1800, 1040, 1900, 1080))];
    assert_eq!(find_tray_pos(&s, 100), (1694, 1045));
}
