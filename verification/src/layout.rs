//! Where the overlay goes: left of the notification area and of every
//! right-docked taskbar element, vertically centred on a horizontal taskbar.

use vstd::prelude::*;
use crate::text::{chars_eq, chars_of, contains, contains_seq};

verus! {

/// Height of the overlay window.
pub const WINDOW_H: i32 = 30;

/// Horizontal padding on each side of the label text.
pub const PADDING_X: i32 = 6;

/// Gap between the overlay and the first occupied element on its right.
pub const TRAY_GAP: i32 = 6;

/// Bound on the magnitude of screen coordinates (the 2^27 GDI coordinate
/// space).
pub const COORD_LIMIT: i32 = 134217728;

/// `RBBS_HIDDEN`: a hidden ReBar band.
pub const RBBS_HIDDEN: u32 = 8;

/// A window rectangle in screen coordinates.
#[derive(Clone, Copy)]
pub struct ScreenRect {
    pub left: i32,
    pub top: i32,
    pub right: i32,
    pub bottom: i32,
}

/// A coordinate within the screen coordinate space.
pub open spec fn coord_ok(v: i32) -> bool {
    -COORD_LIMIT <= v <= COORD_LIMIT
}

impl ScreenRect {
    /// All four coordinates are within the screen coordinate space.
    pub open spec fn in_range(self) -> bool {
        coord_ok(self.left) && coord_ok(self.top) && coord_ok(self.right) && coord_ok(self.bottom)
    }

    /// The rectangle has no area.
    pub open spec fn is_empty(self) -> bool {
        self.right <= self.left || self.bottom <= self.top
    }
}

/// `x / 2` rounded toward zero, as Rust's `i32` division does.
pub open spec fn half_toward_zero(x: int) -> int {
    if x >= 0 {
        x / 2
    } else {
        -((-x) / 2)
    }
}

fn half(x: i32) -> (r: i32)
    requires
        -4 * COORD_LIMIT <= x <= 4 * COORD_LIMIT,
    ensures
        r == half_toward_zero(x as int),
{
    if x >= 0 {
        x / 2
    } else {
        -((-x) / 2)
    }
}

/// One window seen while scanning: a taskbar child or a top-level window.
pub struct WindowInfo {
    pub visible: bool,
    /// The window class; empty when it could not be read.
    pub class_name: String,
    /// `GetWindowRect`, when it succeeded.
    pub rect: Option<ScreenRect>,
}

/// One band of the legacy taskbar ReBar whose rectangle could be read.
pub struct RebarBand {
    /// The band rectangle, mapped to screen coordinates.
    pub rect: ScreenRect,
    /// `fStyle` of the band.
    pub style: u32,
    /// Class of the band's child window; empty when it has none.
    pub child_class: String,
}

/// Everything the placement reads of the desktop.
pub struct TaskbarScan {
    /// The work area (zero when it could not be read).
    pub work_area: ScreenRect,
    /// The `Shell_TrayWnd` rectangle, when the taskbar exists.
    pub taskbar: Option<ScreenRect>,
    /// The `TrayNotifyWnd` rectangle, when it exists and is visible.
    pub tray: Option<ScreenRect>,
    /// Bands of the visible `ReBarWindow32`, in band order.
    pub rebar_bands: Vec<RebarBand>,
    /// Children of the taskbar, in enumeration order.
    pub children: Vec<WindowInfo>,
    /// Top-level windows, in enumeration order.
    pub top_level: Vec<WindowInfo>,
    /// Running on Windows 11, whose XAML taskbar has no meaningful ReBar.
    pub windows_11: bool,
}

/// The running state of the space detection: how far the left-side controls
/// reach, and where the first occupied element on the right begins (the top
/// of the first one below, on a vertical taskbar).
#[derive(Clone, Copy)]
pub struct DetectState {
    pub start_right: i32,
    pub right_boundary: i32,
}

/// Both coordinates are within the screen coordinate space.
pub open spec fn state_ok(st: DetectState) -> bool {
    coord_ok(st.start_right) && coord_ok(st.right_boundary)
}

/// A taskbar that is at least as wide as it is tall.
pub open spec fn is_horizontal(tb: ScreenRect) -> bool {
    tb.right - tb.left >= tb.bottom - tb.top
}

/// Start of the detection: nothing on the left, the taskbar's end on the
/// right.
pub open spec fn initial_state(tb: ScreenRect) -> DetectState {
    DetectState {
        start_right: tb.left,
        right_boundary: if is_horizontal(tb) {
            tb.right
        } else {
            tb.bottom
        },
    }
}

/// The notification area bounds the free space.
pub open spec fn tray_step(st: DetectState, tb: ScreenRect, tray: Option<ScreenRect>) -> DetectState {
    match tray {
        None => st,
        Some(t) => if is_horizontal(tb) {
            if t.left < st.right_boundary && t.left > tb.left {
                DetectState { right_boundary: t.left, ..st }
            } else {
                st
            }
        } else {
            if t.top < st.right_boundary && t.top > tb.top {
                DetectState { right_boundary: t.top, ..st }
            } else {
                st
            }
        },
    }
}

/// The child class of the task-button band or list.
pub open spec fn is_task_list_class(c: Seq<char>) -> bool {
    c == "MSTaskSwWClass"@ || c == "MSTaskListWClass"@
}

/// A visible, non-empty ReBar band other than the task buttons is a
/// right-docked deskband or toolbar (Language Bar, Help button, ...).
pub open spec fn band_step(st: DetectState, tb: ScreenRect, band: RebarBand) -> DetectState {
    let rc = band.rect;
    if (band.style & RBBS_HIDDEN) != 0 || rc.is_empty() || is_task_list_class(band.child_class@) {
        st
    } else if is_horizontal(tb) {
        if rc.left < st.right_boundary && rc.left > tb.left + 80 {
            DetectState { right_boundary: rc.left, ..st }
        } else {
            st
        }
    } else {
        if rc.top < st.right_boundary && rc.top > tb.top + 60 {
            DetectState { right_boundary: rc.top, ..st }
        } else {
            st
        }
    }
}

/// Left-side controls: the Start button and the search box.
pub open spec fn is_left_control(c: Seq<char>, rc: ScreenRect, tb: ScreenRect) -> bool {
    (c == "Button"@ && rc.left < tb.left + 80) || c == "Start"@ || c == "TrayDummySearchControl"@
}

/// Tray-adjacent classes on a horizontal taskbar.
pub open spec fn is_right_element(c: Seq<char>) -> bool {
    c == "TrayNotifyWnd"@ || c == "TrayClockWClass"@ || c == "TrayShowDesktopButtonWClass"@ || c
        == "CiceroUIWndFrame"@ || c == "TrayButton"@ || c == "InputIndicatorFlyout"@
        || contains_seq(c, "DeskBand"@) || contains_seq(c, "Deskband"@)
}

/// Tray-adjacent classes on a vertical taskbar.
pub open spec fn is_bottom_element(c: Seq<char>) -> bool {
    c == "TrayNotifyWnd"@ || c == "TrayClockWClass"@ || c == "CiceroUIWndFrame"@ || contains_seq(
        c,
        "DeskBand"@,
    ) || contains_seq(c, "Deskband"@)
}

/// One taskbar child during enumeration.
pub open spec fn child_step(st: DetectState, tb: ScreenRect, w: WindowInfo) -> DetectState {
    let c = w.class_name@;
    if !w.visible || c == "TaskbarIPC"@ {
        st
    } else {
        match w.rect {
            None => st,
            Some(rc) => if rc.is_empty() {
                st
            } else if is_horizontal(tb) {
                if rc.bottom <= tb.top || rc.top >= tb.bottom {
                    st
                } else if is_left_control(c, rc, tb) {
                    if rc.right > st.start_right {
                        DetectState { start_right: rc.right, ..st }
                    } else {
                        st
                    }
                } else if is_task_list_class(c) {
                    st
                } else if is_right_element(c) && rc.left < st.right_boundary && rc.left
                    > st.start_right {
                    DetectState { right_boundary: rc.left, ..st }
                } else {
                    st
                }
            } else {
                if rc.right <= tb.left || rc.left >= tb.right {
                    st
                } else if is_bottom_element(c) && rc.top < st.right_boundary {
                    DetectState { right_boundary: rc.top, ..st }
                } else {
                    st
                }
            },
        }
    }
}

/// One top-level window during enumeration: only a docked language bar
/// lying on a horizontal taskbar reserves space.
pub open spec fn top_level_step(st: DetectState, tb: ScreenRect, w: WindowInfo) -> DetectState {
    let c = w.class_name@;
    if !w.visible || c == "TaskbarIPC"@ || c == "Shell_TrayWnd"@ || c == "Shell_SecondaryTrayWnd"@ {
        st
    } else {
        match w.rect {
            None => st,
            Some(rc) => if rc.is_empty() || !is_horizontal(tb) {
                st
            } else if rc.top >= tb.top - 10 && rc.bottom <= tb.bottom + 10 && rc.left >= tb.left
                && rc.right <= tb.right + 10 && (c == "CiceroUIWndFrame"@ || c
                == "TF_FloatingLangBar_WndTitle"@) && rc.left < st.right_boundary && rc.left
                > st.start_right {
                DetectState { right_boundary: rc.left, ..st }
            } else {
                st
            },
        }
    }
}

/// The detection state after the given bands, in order.
pub open spec fn bands_fold(st: DetectState, tb: ScreenRect, bands: Seq<RebarBand>) -> DetectState
    decreases bands.len(),
{
    if bands.len() == 0 {
        st
    } else {
        band_step(bands_fold(st, tb, bands.drop_last()), tb, bands.last())
    }
}

/// The detection state after the given taskbar children, in order.
pub open spec fn children_fold(st: DetectState, tb: ScreenRect, ws: Seq<WindowInfo>) -> DetectState
    decreases ws.len(),
{
    if ws.len() == 0 {
        st
    } else {
        child_step(children_fold(st, tb, ws.drop_last()), tb, ws.last())
    }
}

/// The detection state after the given top-level windows, in order.
pub open spec fn top_level_fold(st: DetectState, tb: ScreenRect, ws: Seq<WindowInfo>) -> DetectState
    decreases ws.len(),
{
    if ws.len() == 0 {
        st
    } else {
        top_level_step(top_level_fold(st, tb, ws.drop_last()), tb, ws.last())
    }
}

/// The final detection state: the tray, then (before Windows 11) the ReBar
/// bands, then the taskbar children, then the top-level windows.
pub open spec fn detected_state(scan: TaskbarScan, tb: ScreenRect) -> DetectState {
    let s1 = tray_step(initial_state(tb), tb, scan.tray);
    let s2 = if scan.windows_11 {
        s1
    } else {
        bands_fold(s1, tb, scan.rebar_bands@)
    };
    let s3 = children_fold(s2, tb, scan.children@);
    top_level_fold(s3, tb, scan.top_level@)
}

/// The overlay's top-left corner for an overlay `window_w` wide.
pub open spec fn spec_tray_pos(scan: TaskbarScan, window_w: i32) -> (int, int) {
    match scan.taskbar {
        None => (scan.work_area.right - window_w, scan.work_area.bottom - WINDOW_H),
        Some(tb) => {
            let st = detected_state(scan, tb);
            if is_horizontal(tb) {
                (
                    st.right_boundary - TRAY_GAP - window_w,
                    tb.top + half_toward_zero(tb.bottom - tb.top - WINDOW_H),
                )
            } else {
                (
                    tb.left + half_toward_zero(tb.right - tb.left - window_w),
                    st.right_boundary - TRAY_GAP - WINDOW_H,
                )
            }
        },
    }
}

/// Every rectangle of the scan lies in the screen coordinate space.
pub open spec fn scan_in_range(scan: TaskbarScan) -> bool {
    &&& scan.work_area.in_range()
    &&& scan.taskbar matches Some(t) ==> t.in_range()
    &&& scan.tray matches Some(t) ==> t.in_range()
    &&& forall|i: int| 0 <= i < scan.rebar_bands@.len() ==> (#[trigger] scan.rebar_bands@[i]).rect.in_range()
    &&& forall|i: int|
        0 <= i < scan.children@.len() ==> ((#[trigger] scan.children@[i]).rect matches Some(r)
            ==> r.in_range())
    &&& forall|i: int|
        0 <= i < scan.top_level@.len() ==> ((#[trigger] scan.top_level@[i]).rect matches Some(r)
            ==> r.in_range())
}

/// The right boundary only moves left, and the left-side reach only right.
pub open spec fn narrows(before: DetectState, after: DetectState) -> bool {
    after.right_boundary <= before.right_boundary && after.start_right >= before.start_right
}

/// Each fold narrows the free space, never widens it.
pub proof fn lemma_folds_narrow(st: DetectState, tb: ScreenRect, bands: Seq<RebarBand>, ws: Seq<WindowInfo>)
    ensures
        narrows(st, bands_fold(st, tb, bands)),
        narrows(st, children_fold(st, tb, ws)),
        narrows(st, top_level_fold(st, tb, ws)),
    decreases bands.len() + ws.len(),
{
    if bands.len() > 0 {
        lemma_folds_narrow(st, tb, bands.drop_last(), ws);
    }
    if ws.len() > 0 {
        lemma_folds_narrow(st, tb, bands, ws.drop_last());
    }
}

/// Law (ReBar bands): the band of the task buttons (child class
/// `MSTaskSwWClass` or `MSTaskListWClass`) never changes the detection, and
/// no band changes the left-side reach; a band moves the right boundary only
/// when it is visible, non-empty and not the task buttons, and then only to
/// the left.
pub proof fn lemma_band_step(st: DetectState, tb: ScreenRect, band: RebarBand)
    ensures
        band.child_class@ == "MSTaskSwWClass"@ || band.child_class@ == "MSTaskListWClass"@
            ==> band_step(st, tb, band) == st,
        band_step(st, tb, band).start_right == st.start_right,
        band_step(st, tb, band).right_boundary <= st.right_boundary,
        band_step(st, tb, band).right_boundary != st.right_boundary ==> {
            &&& (band.style & RBBS_HIDDEN) == 0
            &&& band.rect.left < band.rect.right
            &&& band.rect.top < band.rect.bottom
            &&& band.child_class@ != "MSTaskSwWClass"@
            &&& band.child_class@ != "MSTaskListWClass"@
        },
{
}

/// Law: adding the task-button band to the ReBar bands of a scan leaves the
/// overlay's position unchanged.
pub proof fn lemma_task_band_keeps_position(s1: TaskbarScan, s2: TaskbarScan, band: RebarBand, w: i32)
    requires
        band.child_class@ == "MSTaskSwWClass"@ || band.child_class@ == "MSTaskListWClass"@,
        s2.rebar_bands@ == s1.rebar_bands@.push(band),
        s2.work_area == s1.work_area,
        s2.taskbar == s1.taskbar,
        s2.tray == s1.tray,
        s2.children@ == s1.children@,
        s2.top_level@ == s1.top_level@,
        s2.windows_11 == s1.windows_11,
    ensures
        spec_tray_pos(s2, w) == spec_tray_pos(s1, w),
{
    if let Some(tb) = s1.taskbar {
        let st = tray_step(initial_state(tb), tb, s1.tray);
        let b = s2.rebar_bands@;
        assert(b.drop_last() =~= s1.rebar_bands@);
        lemma_band_step(bands_fold(st, tb, s1.rebar_bands@), tb, band);
        assert(bands_fold(st, tb, b) == bands_fold(st, tb, s1.rebar_bands@));
        assert(detected_state(s2, tb) == detected_state(s1, tb));
    }
}

/// Law (one taskbar child): a child only narrows the free space, and moves
/// its right boundary only when it is a visible window of a tray-side class
/// (`TrayNotifyWnd`, `TrayClockWClass`, `TrayShowDesktopButtonWClass`,
/// `CiceroUIWndFrame`, `TrayButton`, `InputIndicatorFlyout` or a
/// `DeskBand`/`Deskband` class on a horizontal taskbar; the vertical
/// taskbar's subset of these), never for any other class such as
/// `ToolbarWindow32`.
pub proof fn lemma_child_step_narrows(st: DetectState, tb: ScreenRect, w: WindowInfo)
    ensures
        narrows(st, child_step(st, tb, w)),
        child_step(st, tb, w).right_boundary != st.right_boundary ==> {
            &&& w.visible
            &&& is_horizontal(tb) ==> is_right_element(w.class_name@)
            &&& !is_horizontal(tb) ==> is_bottom_element(w.class_name@)
        },
{
}

/// Law: on a horizontal taskbar, or with no taskbar, the overlay's right
/// edge and vertical position do not depend on its width: a wider overlay
/// grows to the left.
pub proof fn lemma_wider_overlay_keeps_right_edge(scan: TaskbarScan, w1: i32, w2: i32)
    requires
        scan.taskbar matches Some(tb) ==> is_horizontal(tb),
    ensures
        spec_tray_pos(scan, w1).0 + w1 == spec_tray_pos(scan, w2).0 + w2,
        spec_tray_pos(scan, w1).1 == spec_tray_pos(scan, w2).1,
{
}

/// Law: on a horizontal taskbar the overlay ends `TRAY_GAP` left of the
/// detected boundary, which is never right of the taskbar's end nor of a
/// visible notification area lying inside the taskbar.
pub proof fn lemma_overlay_left_of_tray(scan: TaskbarScan, window_w: i32, tb: ScreenRect)
    requires
        scan.taskbar == Some(tb),
        is_horizontal(tb),
    ensures
        ({
            let x = spec_tray_pos(scan, window_w).0;
            let boundary = detected_state(scan, tb).right_boundary;
            &&& x + window_w + TRAY_GAP == boundary
            &&& boundary <= tb.right
            &&& scan.tray matches Some(t) ==> (tb.left < t.left <= tb.right ==> boundary <= t.left)
        }),
{
    let s0 = initial_state(tb);
    let s1 = tray_step(s0, tb, scan.tray);
    let s2 = if scan.windows_11 {
        s1
    } else {
        bands_fold(s1, tb, scan.rebar_bands@)
    };
    let s3 = children_fold(s2, tb, scan.children@);
    lemma_folds_narrow(s1, tb, scan.rebar_bands@, scan.children@);
    lemma_folds_narrow(s2, tb, scan.rebar_bands@, scan.children@);
    lemma_folds_narrow(s3, tb, scan.rebar_bands@, scan.top_level@);
}

/// Law: on a vertical taskbar the overlay ends `TRAY_GAP` above the detected
/// boundary, which is never below the taskbar's end nor below a visible
/// notification area lying inside the taskbar.
pub proof fn lemma_overlay_above_tray(scan: TaskbarScan, window_w: i32, tb: ScreenRect)
    requires
        scan.taskbar == Some(tb),
        !is_horizontal(tb),
    ensures
        ({
            let y = spec_tray_pos(scan, window_w).1;
            let boundary = detected_state(scan, tb).right_boundary;
            &&& y + WINDOW_H + TRAY_GAP == boundary
            &&& boundary <= tb.bottom
            &&& scan.tray matches Some(t) ==> (tb.top < t.top <= tb.bottom ==> boundary <= t.top)
        }),
{
    let s0 = initial_state(tb);
    let s1 = tray_step(s0, tb, scan.tray);
    let s2 = if scan.windows_11 {
        s1
    } else {
        bands_fold(s1, tb, scan.rebar_bands@)
    };
    let s3 = children_fold(s2, tb, scan.children@);
    lemma_folds_narrow(s1, tb, scan.rebar_bands@, scan.children@);
    lemma_folds_narrow(s2, tb, scan.rebar_bands@, scan.children@);
    lemma_folds_narrow(s3, tb, scan.rebar_bands@, scan.top_level@);
}

fn class_is(c: &[char], name: &str) -> (r: bool)
    ensures
        r == (c@ == name@),
{
    let n = chars_of(name);
    chars_eq(c, n.as_slice())
}

fn class_contains(c: &[char], part: &str) -> (r: bool)
    ensures
        r == contains_seq(c@, part@),
{
    let p = chars_of(part);
    contains(c, p.as_slice())
}

fn horizontal(tb: ScreenRect) -> (r: bool)
    requires
        tb.in_range(),
    ensures
        r == is_horizontal(tb),
{
    tb.right - tb.left >= tb.bottom - tb.top
}

fn tray_update(st: DetectState, tb: ScreenRect, tray: Option<ScreenRect>) -> (r: DetectState)
    requires
        tb.in_range(),
    ensures
        r == tray_step(st, tb, tray),
{
    match tray {
        None => st,
        Some(t) => if horizontal(tb) {
            if t.left < st.right_boundary && t.left > tb.left {
                DetectState { right_boundary: t.left, ..st }
            } else {
                st
            }
        } else {
            if t.top < st.right_boundary && t.top > tb.top {
                DetectState { right_boundary: t.top, ..st }
            } else {
                st
            }
        },
    }
}

fn is_task_list(c: &[char]) -> (r: bool)
    ensures
        r == is_task_list_class(c@),
{
    class_is(c, "MSTaskSwWClass") || class_is(c, "MSTaskListWClass")
}

fn band_update(st: DetectState, tb: ScreenRect, band: &RebarBand) -> (r: DetectState)
    requires
        tb.in_range(),
        band.rect.in_range(),
    ensures
        r == band_step(st, tb, *band),
{
    let rc = band.rect;
    let child = chars_of(band.child_class.as_str());
    if (band.style & RBBS_HIDDEN) != 0 || rc.right <= rc.left || rc.bottom <= rc.top || is_task_list(
        child.as_slice(),
    ) {
        st
    } else if horizontal(tb) {
        if rc.left < st.right_boundary && rc.left > tb.left + 80 {
            DetectState { right_boundary: rc.left, ..st }
        } else {
            st
        }
    } else {
        if rc.top < st.right_boundary && rc.top > tb.top + 60 {
            DetectState { right_boundary: rc.top, ..st }
        } else {
            st
        }
    }
}

fn child_update(st: DetectState, tb: ScreenRect, w: &WindowInfo) -> (r: DetectState)
    requires
        tb.in_range(),
        w.rect matches Some(rc) ==> rc.in_range(),
    ensures
        r == child_step(st, tb, *w),
{
    let c = chars_of(w.class_name.as_str());
    let c = c.as_slice();
    if !w.visible || class_is(c, "TaskbarIPC") {
        return st;
    }
    let rc = match w.rect {
        None => return st,
        Some(rc) => rc,
    };
    if rc.right <= rc.left || rc.bottom <= rc.top {
        return st;
    }
    if horizontal(tb) {
        if rc.bottom <= tb.top || rc.top >= tb.bottom {
            st
        } else if (class_is(c, "Button") && rc.left < tb.left + 80) || class_is(c, "Start")
            || class_is(c, "TrayDummySearchControl") {
            if rc.right > st.start_right {
                DetectState { start_right: rc.right, ..st }
            } else {
                st
            }
        } else if is_task_list(c) {
            st
        } else {
            let right = class_is(c, "TrayNotifyWnd") || class_is(c, "TrayClockWClass") || class_is(
                c,
                "TrayShowDesktopButtonWClass",
            ) || class_is(c, "CiceroUIWndFrame") || class_is(c, "TrayButton") || class_is(
                c,
                "InputIndicatorFlyout",
            ) || class_contains(c, "DeskBand") || class_contains(c, "Deskband");
            if right && rc.left < st.right_boundary && rc.left > st.start_right {
                DetectState { right_boundary: rc.left, ..st }
            } else {
                st
            }
        }
    } else {
        if rc.right <= tb.left || rc.left >= tb.right {
            st
        } else {
            let bottom = class_is(c, "TrayNotifyWnd") || class_is(c, "TrayClockWClass") || class_is(
                c,
                "CiceroUIWndFrame",
            ) || class_contains(c, "DeskBand") || class_contains(c, "Deskband");
            if bottom && rc.top < st.right_boundary {
                DetectState { right_boundary: rc.top, ..st }
            } else {
                st
            }
        }
    }
}

fn top_level_update(st: DetectState, tb: ScreenRect, w: &WindowInfo) -> (r: DetectState)
    requires
        tb.in_range(),
        w.rect matches Some(rc) ==> rc.in_range(),
    ensures
        r == top_level_step(st, tb, *w),
{
    let c = chars_of(w.class_name.as_str());
    let c = c.as_slice();
    if !w.visible || class_is(c, "TaskbarIPC") || class_is(c, "Shell_TrayWnd") || class_is(
        c,
        "Shell_SecondaryTrayWnd",
    ) {
        return st;
    }
    let rc = match w.rect {
        None => return st,
        Some(rc) => rc,
    };
    if rc.right <= rc.left || rc.bottom <= rc.top || !horizontal(tb) {
        return st;
    }
    let vertically_inside = rc.top >= tb.top - 10 && rc.bottom <= tb.bottom + 10;
    let horizontally_inside = rc.left >= tb.left && rc.right <= tb.right + 10;
    if vertically_inside && horizontally_inside && (class_is(c, "CiceroUIWndFrame") || class_is(
        c,
        "TF_FloatingLangBar_WndTitle",
    )) && rc.left < st.right_boundary && rc.left > st.start_right {
        DetectState { right_boundary: rc.left, ..st }
    } else {
        st
    }
}

/// The overlay's top-left corner: `TRAY_GAP` left of the nearest occupied
/// element right of the task list (above it, on a vertical taskbar), centred
/// across the taskbar; at the bottom-right of the work area when there is no
/// taskbar.
pub fn find_tray_pos(scan: &TaskbarScan, window_w: i32) -> (r: (i32, i32))
    requires
        scan_in_range(*scan),
        0 <= window_w <= COORD_LIMIT,
    ensures
        r.0 as int == spec_tray_pos(*scan, window_w).0,
        r.1 as int == spec_tray_pos(*scan, window_w).1,
{
    let tb = match scan.taskbar {
        None => return (scan.work_area.right - window_w, scan.work_area.bottom - WINDOW_H),
        Some(tb) => tb,
    };
    let mut st = DetectState {
        start_right: tb.left,
        right_boundary: if horizontal(tb) {
            tb.right
        } else {
            tb.bottom
        },
    };
    st = tray_update(st, tb, scan.tray);
    let ghost s1 = st;
    if !scan.windows_11 {
        let mut i: usize = 0;
        assert(scan.rebar_bands@.take(0) =~= Seq::<RebarBand>::empty());
        while i < scan.rebar_bands.len()
            invariant
                i <= scan.rebar_bands@.len(),
                tb.in_range(),
                scan_in_range(*scan),
                state_ok(st),
                st == bands_fold(s1, tb, scan.rebar_bands@.take(i as int)),
            decreases scan.rebar_bands@.len() - i,
        {
            assert(scan.rebar_bands@.take(i + 1).drop_last() =~= scan.rebar_bands@.take(i as int));
            assert(scan.rebar_bands@[i as int].rect.in_range());
            st = band_update(st, tb, &scan.rebar_bands[i]);
            i = i + 1;
        }
        assert(scan.rebar_bands@.take(scan.rebar_bands@.len() as int) =~= scan.rebar_bands@);
    }
    let ghost s2 = st;
    let mut i: usize = 0;
    assert(scan.children@.take(0) =~= Seq::<WindowInfo>::empty());
    while i < scan.children.len()
        invariant
            i <= scan.children@.len(),
            tb.in_range(),
            scan_in_range(*scan),
            state_ok(st),
            st == children_fold(s2, tb, scan.children@.take(i as int)),
        decreases scan.children@.len() - i,
    {
        assert(scan.children@.take(i + 1).drop_last() =~= scan.children@.take(i as int));
        assert(scan.children@[i as int].rect matches Some(r) ==> r.in_range());
        st = child_update(st, tb, &scan.children[i]);
        i = i + 1;
    }
    assert(scan.children@.take(scan.children@.len() as int) =~= scan.children@);
    let ghost s3 = st;
    let mut i: usize = 0;
    assert(scan.top_level@.take(0) =~= Seq::<WindowInfo>::empty());
    while i < scan.top_level.len()
        invariant
            i <= scan.top_level@.len(),
            tb.in_range(),
            scan_in_range(*scan),
            state_ok(st),
            st == top_level_fold(s3, tb, scan.top_level@.take(i as int)),
        decreases scan.top_level@.len() - i,
    {
        assert(scan.top_level@.take(i + 1).drop_last() =~= scan.top_level@.take(i as int));
        assert(scan.top_level@[i as int].rect matches Some(r) ==> r.in_range());
        st = top_level_update(st, tb, &scan.top_level[i]);
        i = i + 1;
    }
    assert(scan.top_level@.take(scan.top_level@.len() as int) =~= scan.top_level@);
    if horizontal(tb) {
        let y = tb.top + half(tb.bottom - tb.top - WINDOW_H);
        let x = st.right_boundary - TRAY_GAP - window_w;
        (x, y)
    } else {
        let x = tb.left + half(tb.right - tb.left - window_w);
        let y = st.right_boundary - TRAY_GAP - WINDOW_H;
        (x, y)
    }
}

} // verus!
