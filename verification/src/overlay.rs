//! The overlay window's behaviour: its label, per-version z-order policy,
//! the topmost-restore debounce and what each one-second refresh changes.

use vstd::prelude::*;
use crate::text::{chars_eq, chars_of, extend_chars, string_from_chars};

verus! {

/// Text before the address in the label.
pub const LABEL_PREFIX: &'static str = "Broj Racunara: ";

/// Padding on each side of the label text.
pub const PADDING_X: i32 = 6;

/// Poll interval of the topmost check before Windows 11.
pub const Z_ORDER_CHECK_INTERVAL_MS: u32 = 500;

/// Poll interval of the topmost check on Windows 11.
pub const Z_ORDER_CHECK_INTERVAL_MS_WIN11: u32 = 100;

/// Consecutive covered polls before a restore, before Windows 11.
pub const Z_ORDER_RESTORE_THRESHOLD: u32 = 2;

/// Consecutive covered polls before a restore on Windows 11.
pub const Z_ORDER_RESTORE_THRESHOLD_WIN11: u32 = 1;

/// `SWP_NOZORDER`.
pub const SWP_NOZORDER: u32 = 4;

/// `(major, minor, build)` as `RtlGetVersion` reports it.
pub type WindowsVersion = (u32, u32, u32);

/// The label: `Broj Racunara: <ip>`.
pub fn label_text(ip: &str) -> (s: String)
    ensures
        s@ == LABEL_PREFIX@ + ip@,
{
    let mut out = chars_of(LABEL_PREFIX);
    let ic = chars_of(ip);
    extend_chars(&mut out, ic.as_slice());
    string_from_chars(out.as_slice())
}

/// The overlay width for a label text `text_width` pixels wide.
pub fn overlay_width(text_width: i32) -> (w: i32)
    requires
        text_width <= i32::MAX - 2 * PADDING_X,
    ensures
        w == text_width + 2 * PADDING_X,
{
    text_width + PADDING_X * 2
}

/// Windows 7 (6.1) or earlier.
pub open spec fn spec_is_windows_7_or_lower(version: Option<WindowsVersion>) -> bool {
    match version {
        Some((major, minor, _)) => major < 6 || (major == 6 && minor <= 1),
        None => false,
    }
}

/// Windows 11: 10.0 with build 22000 or later (or a later major version).
pub open spec fn spec_is_windows_11_or_higher(version: Option<WindowsVersion>) -> bool {
    match version {
        Some((major, _, build)) => major > 10 || (major == 10 && build >= 22000),
        None => false,
    }
}

/// Whether the version is Windows 7 or earlier; unknown versions are not.
pub fn is_windows_7_or_lower(version: Option<WindowsVersion>) -> (r: bool)
    ensures
        r == spec_is_windows_7_or_lower(version),
{
    match version {
        Some((major, minor, _)) => major < 6 || (major == 6 && minor <= 1),
        None => false,
    }
}

/// Whether the version is Windows 11 or later; unknown versions are not.
pub fn is_windows_11_or_higher(version: Option<WindowsVersion>) -> (r: bool)
    ensures
        r == spec_is_windows_11_or_higher(version),
{
    match version {
        Some((major, _, build)) => major > 10 || (major == 10 && build >= 22000),
        None => false,
    }
}

/// Windows 7 and Windows 11 use an unowned topmost popup that must keep its
/// place in the topmost band; Windows 8/10 use a taskbar-owned popup.
pub fn should_enforce_topmost(version: Option<WindowsVersion>) -> (r: bool)
    ensures
        r == (spec_is_windows_7_or_lower(version) || spec_is_windows_11_or_higher(version)),
{
    is_windows_7_or_lower(version) || is_windows_11_or_higher(version)
}

/// How the overlay window is created.
pub struct WindowPlacementPolicy {
    /// `WS_EX_TOPMOST` is set and the popup has no owner.
    pub topmost_unowned: bool,
    /// Foreground/reorder event hooks are installed.
    pub event_hooks: bool,
    /// Interval of the topmost poll, if there is one.
    pub z_order_poll_ms: Option<u32>,
}

/// The creation policy for a Windows version: unowned topmost with a poll
/// on Windows 7 (500 ms) and Windows 11 (100 ms, plus event hooks); owned,
/// not topmost, no poll and no hooks on Windows 8/10.
pub fn window_placement_policy(version: Option<WindowsVersion>) -> (p: WindowPlacementPolicy)
    ensures
        p.topmost_unowned == (spec_is_windows_7_or_lower(version) || spec_is_windows_11_or_higher(
            version,
        )),
        p.event_hooks == spec_is_windows_11_or_higher(version),
        p.z_order_poll_ms == (if spec_is_windows_11_or_higher(version) {
            Some(Z_ORDER_CHECK_INTERVAL_MS_WIN11)
        } else if spec_is_windows_7_or_lower(version) {
            Some(Z_ORDER_CHECK_INTERVAL_MS)
        } else {
            None::<u32>
        }),
{
    let enforce = should_enforce_topmost(version);
    let win11 = is_windows_11_or_higher(version);
    WindowPlacementPolicy {
        topmost_unowned: enforce,
        event_hooks: enforce && win11,
        z_order_poll_ms: if enforce {
            Some(
                if win11 {
                    Z_ORDER_CHECK_INTERVAL_MS_WIN11
                } else {
                    Z_ORDER_CHECK_INTERVAL_MS
                },
            )
        } else {
            None
        },
    }
}

/// Covered polls needed before a restore.
pub open spec fn restore_threshold(win11: bool) -> u32 {
    if win11 {
        Z_ORDER_RESTORE_THRESHOLD_WIN11
    } else {
        Z_ORDER_RESTORE_THRESHOLD
    }
}

/// The outcome of one topmost poll.
pub struct ZOrderTick {
    /// Consecutive covered polls so far.
    pub misses: u32,
    /// Re-assert `HWND_TOPMOST` now.
    pub restore: bool,
}

/// One poll of the topmost check: a covered poll counts, and reaching the
/// threshold restores and starts the count over; an uncovered poll resets
/// the count.
pub open spec fn spec_z_order_tick(misses: u32, taskbar_above: bool, win11: bool) -> ZOrderTick {
    if !taskbar_above {
        ZOrderTick { misses: 0, restore: false }
    } else if misses + 1 >= restore_threshold(win11) {
        ZOrderTick { misses: 0, restore: true }
    } else {
        ZOrderTick { misses: (misses + 1) as u32, restore: false }
    }
}

/// One poll of the topmost check: count consecutive polls that find the
/// taskbar above the overlay and restore once the threshold is reached.
pub fn z_order_tick(misses: u32, taskbar_above: bool, win11: bool) -> (t: ZOrderTick)
    requires
        misses < restore_threshold(win11),
    ensures
        t == spec_z_order_tick(misses, taskbar_above, win11),
        t.misses < restore_threshold(win11),
{
    let threshold = if win11 {
        Z_ORDER_RESTORE_THRESHOLD_WIN11
    } else {
        Z_ORDER_RESTORE_THRESHOLD
    };
    if taskbar_above {
        let m = misses + 1;
        if m >= threshold {
            ZOrderTick { misses: 0, restore: true }
        } else {
            ZOrderTick { misses: m, restore: false }
        }
    } else {
        ZOrderTick { misses: 0, restore: false }
    }
}

/// The outcome of the `n`-th of consecutive covered polls, counted from a
/// fresh start.
pub open spec fn after_covered_polls(n: nat, win11: bool) -> ZOrderTick
    decreases n,
{
    if n == 0 {
        ZOrderTick { misses: 0, restore: false }
    } else {
        spec_z_order_tick(after_covered_polls((n - 1) as nat, win11).misses, true, win11)
    }
}

/// Law: in a run of covered polls the overlay is restored on every
/// `restore_threshold`-th poll and on no other (each poll on Windows 11,
/// every second one elsewhere); an uncovered poll starts the count over.
pub proof fn lemma_covered_polls_restore(n: nat, misses: u32, win11: bool)
    ensures
        after_covered_polls(n, win11).misses == n % (restore_threshold(win11) as nat),
        n > 0 ==> (after_covered_polls(n, win11).restore <==> n % (restore_threshold(
            win11,
        ) as nat) == 0),
        spec_z_order_tick(misses, false, win11) == (ZOrderTick { misses: 0, restore: false }),
    decreases n,
{
    if n > 0 {
        lemma_covered_polls_restore((n - 1) as nat, misses, win11);
        let prev = after_covered_polls((n - 1) as nat, win11);
        if win11 {
            assert(restore_threshold(win11) == 1);
            assert(n % 1 == 0 && (n - 1) % 1 == 0) by (nonlinear_arith);
        } else {
            assert(restore_threshold(win11) == 2);
            assert(((n - 1) % 2 == 0 ==> n % 2 == 1) && ((n - 1) % 2 == 1 ==> n % 2 == 0)) by (nonlinear_arith)
                requires
                    n > 0,
            ;
        }
        assert(after_covered_polls(n, win11) == spec_z_order_tick(prev.misses, true, win11));
    }
}

/// On the event-driven re-check: restore at once when the overlay is a
/// topmost popup and the taskbar covers it.
pub fn recheck_restores(enforce_topmost: bool, taskbar_above: bool) -> (r: bool)
    ensures
        r == (enforce_topmost && taskbar_above),
{
    enforce_topmost && taskbar_above
}

/// On `WM_WINDOWPOSCHANGING`: a topmost popup whose z-order is being changed
/// is kept in the topmost band.
pub fn keep_in_topmost_band(enforce_topmost: bool, swp_flags: u32) -> (r: bool)
    ensures
        r == (enforce_topmost && (swp_flags & SWP_NOZORDER) == 0),
{
    enforce_topmost && (swp_flags & SWP_NOZORDER) == 0
}

/// How many top-level windows the z-order walk inspects at most.
pub const Z_ORDER_WALK_LIMIT: usize = 1024;

/// Walking the z-order front to back, the taskbar comes before the overlay.
pub open spec fn taskbar_first(order: Seq<usize>, overlay: usize, taskbar: usize) -> bool
    decreases order.len(),
{
    if order.len() == 0 || order[0] == overlay {
        false
    } else if order[0] == taskbar {
        true
    } else {
        taskbar_first(order.drop_first(), overlay, taskbar)
    }
}

/// The first `Z_ORDER_WALK_LIMIT` windows of a walk.
pub open spec fn walk_prefix(order: Seq<usize>) -> Seq<usize> {
    if order.len() > Z_ORDER_WALK_LIMIT {
        order.take(Z_ORDER_WALK_LIMIT as int)
    } else {
        order
    }
}

/// The taskbar occurs in `w` at some index with no overlay before it (or at
/// it).
pub open spec fn taskbar_before_overlay(w: Seq<usize>, overlay: usize, taskbar: usize) -> bool {
    exists|i: int|
        0 <= i < w.len() && #[trigger] w[i] == taskbar && taskbar != overlay && forall|j: int|
            0 <= j < i ==> w[j] != overlay
}

proof fn lemma_taskbar_first_iff(w: Seq<usize>, overlay: usize, taskbar: usize)
    ensures
        taskbar_first(w, overlay, taskbar) <==> taskbar_before_overlay(w, overlay, taskbar),
    decreases w.len(),
{
    if w.len() > 0 {
        let r = w.drop_first();
        lemma_taskbar_first_iff(r, overlay, taskbar);
        if w[0] == overlay {
            if taskbar_before_overlay(w, overlay, taskbar) {
                let i = choose|i: int|
                    0 <= i < w.len() && #[trigger] w[i] == taskbar && taskbar != overlay
                        && forall|j: int| 0 <= j < i ==> w[j] != overlay;
                if i > 0 {
                    assert(w[0] != overlay);
                }
            }
        } else if w[0] == taskbar {
            assert(w[0] == taskbar && taskbar != overlay);
            assert(taskbar_before_overlay(w, overlay, taskbar));
        } else {
            if taskbar_before_overlay(r, overlay, taskbar) {
                let i = choose|i: int|
                    0 <= i < r.len() && #[trigger] r[i] == taskbar && taskbar != overlay
                        && forall|j: int| 0 <= j < i ==> r[j] != overlay;
                assert(w[i + 1] == taskbar);
                assert forall|j: int| 0 <= j < i + 1 implies w[j] != overlay by {
                    if j > 0 {
                        assert(w[j] == r[j - 1]);
                    }
                }
                assert(taskbar_before_overlay(w, overlay, taskbar));
            }
            if taskbar_before_overlay(w, overlay, taskbar) {
                let i = choose|i: int|
                    0 <= i < w.len() && #[trigger] w[i] == taskbar && taskbar != overlay
                        && forall|j: int| 0 <= j < i ==> w[j] != overlay;
                assert(i > 0);
                assert(r[i - 1] == taskbar);
                assert forall|j: int| 0 <= j < i - 1 implies r[j] != overlay by {
                    assert(r[j] == w[j + 1]);
                }
                assert(taskbar_before_overlay(r, overlay, taskbar));
            }
        }
    }
}

/// Law: the taskbar is reported above the overlay exactly when, among the
/// first `Z_ORDER_WALK_LIMIT` top-level windows counted from the front
/// (index 0), the taskbar occurs with no overlay before it; in particular
/// when the frontmost window is the taskbar (and not the overlay).
pub proof fn lemma_taskbar_above_exactly(order: Seq<usize>, overlay: usize, taskbar: usize)
    ensures
        taskbar_first(walk_prefix(order), overlay, taskbar) <==> exists|i: int|
            0 <= i < order.len() && i < Z_ORDER_WALK_LIMIT && #[trigger] order[i] == taskbar
                && taskbar != overlay && forall|j: int| 0 <= j < i ==> order[j] != overlay,
        order.len() > 0 && order[0] == taskbar && taskbar != overlay ==> taskbar_first(
            walk_prefix(order),
            overlay,
            taskbar,
        ),
{
    let w = walk_prefix(order);
    lemma_taskbar_first_iff(w, overlay, taskbar);
    assert forall|i: int| 0 <= i < w.len() implies w[i] == order[i] && i < Z_ORDER_WALK_LIMIT by {}
    if taskbar_before_overlay(w, overlay, taskbar) {
        let i = choose|i: int|
            0 <= i < w.len() && #[trigger] w[i] == taskbar && taskbar != overlay && forall|j: int|
                0 <= j < i ==> w[j] != overlay;
        assert(order[i] == taskbar);
        assert forall|j: int| 0 <= j < i implies order[j] != overlay by {
            assert(w[j] == order[j]);
        }
    }
    if exists|i: int|
        0 <= i < order.len() && i < Z_ORDER_WALK_LIMIT && #[trigger] order[i] == taskbar && taskbar
            != overlay && forall|j: int| 0 <= j < i ==> order[j] != overlay {
        let i = choose|i: int|
            0 <= i < order.len() && i < Z_ORDER_WALK_LIMIT && #[trigger] order[i] == taskbar
                && taskbar != overlay && forall|j: int| 0 <= j < i ==> order[j] != overlay;
        assert(w[i] == taskbar);
        assert forall|j: int| 0 <= j < i implies w[j] != overlay by {
            assert(w[j] == order[j]);
        }
        assert(taskbar_before_overlay(w, overlay, taskbar));
    }
    if order.len() > 0 && order[0] == taskbar && taskbar != overlay {
        assert(order[0] == taskbar);
    }
}

/// Whether the taskbar covers the overlay: among the first
/// `Z_ORDER_WALK_LIMIT` top-level windows, front to back (the walk ends at
/// the last window), the taskbar appears before the overlay.
pub fn taskbar_is_above_overlay(z_order: &[usize], overlay: usize, taskbar: usize) -> (r: bool)
    ensures
        r == taskbar_first(walk_prefix(z_order@), overlay, taskbar),
{
    let n = if z_order.len() > Z_ORDER_WALK_LIMIT {
        Z_ORDER_WALK_LIMIT
    } else {
        z_order.len()
    };
    let ghost w = walk_prefix(z_order@);
    assert(w =~= z_order@.take(n as int));
    let mut i: usize = 0;
    assert(w.skip(0) =~= w);
    while i < n
        invariant
            i <= n,
            n <= z_order@.len(),
            n == w.len(),
            w == walk_prefix(z_order@),
            w =~= z_order@.take(n as int),
            taskbar_first(w, overlay, taskbar) == taskbar_first(w.skip(i as int), overlay, taskbar),
        decreases n - i,
    {
        assert(w.skip(i as int)[0] == z_order@[i as int]);
        if z_order[i] == overlay {
            return false;
        }
        if z_order[i] == taskbar {
            return true;
        }
        assert(w.skip(i as int).drop_first() =~= w.skip(i + 1));
        i = i + 1;
    }
    false
}

// ---------------------------------------------------------------------------
// The one-second refresh
// ---------------------------------------------------------------------------

/// What the overlay last applied.
pub struct LayoutState {
    /// A position has been applied at least once.
    pub initialized: bool,
    pub last_x: i32,
    pub last_y: i32,
    pub last_w: i32,
    /// The label text last set.
    pub last_text: Option<String>,
}

/// How a move treats the z-order.
pub enum ZOrderRequest {
    /// Keep the current z-order (`SWP_NOZORDER`).
    KeepCurrent,
    /// Insert at `HWND_TOPMOST`.
    Topmost,
    /// Insert at `HWND_TOP`.
    Top,
}

/// What one refresh changes.
pub struct RefreshPlan {
    /// Move/resize the overlay, with this z-order treatment.
    pub move_window: Option<ZOrderRequest>,
    /// Resize the label to the new width.
    pub resize_label: bool,
    /// Set the label text.
    pub set_text: bool,
}

impl LayoutState {
    /// Nothing applied yet.
    pub fn new() -> (s: LayoutState)
        ensures
            !s.initialized,
            s.last_text is None,
    {
        LayoutState { initialized: false, last_x: 0, last_y: 0, last_w: 0, last_text: None }
    }

    /// The position differs from the last one applied (or none was).
    pub open spec fn layout_changed(&self, x: i32, y: i32, w: i32) -> bool {
        !self.initialized || x != self.last_x || y != self.last_y || w != self.last_w
    }

    /// The text differs from the last one set (or none was).
    pub open spec fn text_changed(&self, text: Seq<char>) -> bool {
        match self.last_text {
            Some(t) => t@ != text,
            None => true,
        }
    }

    /// Record a successful move.
    pub fn record_move(&mut self, x: i32, y: i32, w: i32)
        ensures
            final(self).initialized,
            final(self).last_x == x,
            final(self).last_y == y,
            final(self).last_w == w,
            final(self).last_text == old(self).last_text,
    {
        self.initialized = true;
        self.last_x = x;
        self.last_y = y;
        self.last_w = w;
    }

    /// Record the text that was set.
    pub fn record_text(&mut self, text: String)
        ensures
            final(self).last_text == Some(text),
            final(self).initialized == old(self).initialized,
            final(self).last_x == old(self).last_x,
            final(self).last_y == old(self).last_y,
            final(self).last_w == old(self).last_w,
    {
        self.last_text = Some(text);
    }

    /// Forget everything when the window is destroyed.
    pub fn reset(&mut self)
        ensures
            !final(self).initialized,
            final(self).last_text is None,
            final(self).last_x == old(self).last_x,
            final(self).last_y == old(self).last_y,
            final(self).last_w == old(self).last_w,
    {
        self.initialized = false;
        self.last_text = None;
    }
}

/// What a refresh to position `(x, y)`, width `w` and label `text` changes:
/// only what differs from the last applied values. The first move puts a
/// topmost popup at `HWND_TOPMOST` (an owned one at `HWND_TOP`); later moves
/// keep the z-order.
pub fn plan_refresh(state: &LayoutState, x: i32, y: i32, w: i32, text: &str, enforce_topmost: bool) -> (p: RefreshPlan)
    ensures
        p.move_window is Some <==> state.layout_changed(x, y, w),
        p.move_window matches Some(z) ==> (if state.initialized {
            z is KeepCurrent
        } else if enforce_topmost {
            z is Topmost
        } else {
            z is Top
        }),
        p.resize_label == (!state.initialized || w != state.last_w),
        p.set_text == state.text_changed(text@),
{
    let layout_changed = !state.initialized || x != state.last_x || y != state.last_y || w
        != state.last_w;
    let width_changed = !state.initialized || w != state.last_w;
    let text_changed = match &state.last_text {
        Some(last) => {
            let a = chars_of(last.as_str());
            let b = chars_of(text);
            !chars_eq(a.as_slice(), b.as_slice())
        },
        None => true,
    };
    let move_window = if layout_changed {
        Some(
            if state.initialized {
                ZOrderRequest::KeepCurrent
            } else if enforce_topmost {
                ZOrderRequest::Topmost
            } else {
                ZOrderRequest::Top
            },
        )
    } else {
        None
    };
    RefreshPlan { move_window, resize_label: width_changed, set_text: text_changed }
}

/// Law: once a move and a text have been recorded, refreshing with the same
/// position, width and text changes nothing.
pub proof fn lemma_refresh_idempotent(state: LayoutState, x: i32, y: i32, w: i32, text: String)
    requires
        state.initialized,
        state.last_x == x,
        state.last_y == y,
        state.last_w == w,
        state.last_text == Some(text),
    ensures
        !state.layout_changed(x, y, w),
        !(!state.initialized || w != state.last_w),
        !state.text_changed(text@),
{
}

} // verus!
