//! The window manager: which windows are open, where they are, how big they
//! are and in which order they are stacked.
//!
//! The manager keeps the geometry and the stacking order; the page that
//! shows the windows follows what it says.

use vstd::prelude::*;
use crate::text::{dec, push_decimal, push_signed, push_str, sdec, string_from};

verus! {

/// The display state of a window.
#[derive(Clone, Copy, PartialEq, Eq, Structural, Debug)]
pub enum WindowState {
    Open,
    Minimized,
    Maximized,
    Closed,
}

/// One window on the desktop.
pub struct Window {
    pub id: u32,
    pub app_id: String,
    pub title: String,
    pub x: i32,
    pub y: i32,
    pub w: u32,
    pub h: u32,
    /// Geometry to restore when a maximized window is restored.
    pub prev_x: i32,
    pub prev_y: i32,
    pub prev_w: u32,
    pub prev_h: u32,
    pub z_index: u32,
    pub state: WindowState,
}

/// A window as a mathematical value.
pub struct WindowView {
    pub id: u32,
    pub app_id: Seq<char>,
    pub title: Seq<char>,
    pub x: i32,
    pub y: i32,
    pub w: u32,
    pub h: u32,
    pub prev_x: i32,
    pub prev_y: i32,
    pub prev_w: u32,
    pub prev_h: u32,
    pub z_index: u32,
    pub state: WindowState,
}

impl View for Window {
    type V = WindowView;

    open spec fn view(&self) -> WindowView {
        WindowView {
            id: self.id,
            app_id: self.app_id@,
            title: self.title@,
            x: self.x,
            y: self.y,
            w: self.w,
            h: self.h,
            prev_x: self.prev_x,
            prev_y: self.prev_y,
            prev_w: self.prev_w,
            prev_h: self.prev_h,
            z_index: self.z_index,
            state: self.state,
        }
    }
}

/// The inline CSS that places a window: position, size and stacking order.
pub open spec fn style_of(w: WindowView) -> Seq<char> {
    "left:"@ + sdec(w.x as int) + "px;top:"@ + sdec(w.y as int) + "px;width:"@ + dec(w.w as nat)
        + "px;height:"@ + dec(w.h as nat) + "px;z-index:"@ + dec(w.z_index as nat)
}

impl Window {
    /// The inline CSS for this window's position, size and stacking order.
    pub fn style(&self) -> (s: String)
        ensures
            s@ == style_of(self@),
    {
        let mut v: Vec<char> = Vec::new();
        push_str(&mut v, "left:");
        push_signed(&mut v, self.x as i64);
        push_str(&mut v, "px;top:");
        push_signed(&mut v, self.y as i64);
        push_str(&mut v, "px;width:");
        push_decimal(&mut v, self.w as u64);
        push_str(&mut v, "px;height:");
        push_decimal(&mut v, self.h as u64);
        push_str(&mut v, "px;z-index:");
        push_decimal(&mut v, self.z_index as u64);
        assert(v@ =~= style_of(self@));
        string_from(v.as_slice())
    }

    fn copy(&self) -> (r: Window)
        ensures
            r@ == self@,
    {
        Window {
            id: self.id,
            app_id: self.app_id.clone(),
            title: self.title.clone(),
            x: self.x,
            y: self.y,
            w: self.w,
            h: self.h,
            prev_x: self.prev_x,
            prev_y: self.prev_y,
            prev_w: self.prev_w,
            prev_h: self.prev_h,
            z_index: self.z_index,
            state: self.state,
        }
    }
}

/// The window manager as a mathematical value.
pub struct WmView {
    pub next_id: u32,
    pub windows: Seq<WindowView>,
}

/// Whether some window has this id.
pub open spec fn has_window(ws: Seq<WindowView>, id: u32) -> bool {
    exists|i: int| 0 <= i < ws.len() && #[trigger] ws[i].id == id
}

/// The position of the window with this id (meaningful when there is one).
pub open spec fn window_index(ws: Seq<WindowView>, id: u32) -> int {
    choose|i: int| 0 <= i < ws.len() && #[trigger] ws[i].id == id
}

/// The window with this id (meaningful when there is one).
pub open spec fn window_with(ws: Seq<WindowView>, id: u32) -> WindowView {
    ws[window_index(ws, id)]
}

/// The highest stacking position among the windows whose id is not `id`;
/// 0 when there is none.
pub open spec fn top_z(ws: Seq<WindowView>, id: u32) -> nat
    decreases ws.len(),
{
    if ws.len() == 0 {
        0
    } else {
        let rest = top_z(ws.drop_last(), id);
        if ws.last().id != id && ws.last().z_index > rest {
            ws.last().z_index as nat
        } else {
            rest
        }
    }
}

/// Every window other than `id` stacks at or below `top_z`, and `top_z` is
/// the position of one of them (or 0).
pub proof fn lemma_top_z_bound(ws: Seq<WindowView>, id: u32)
    ensures
        forall|j: int| 0 <= j < ws.len() && ws[j].id != id ==> #[trigger] ws[j].z_index <= top_z(ws, id),
        top_z(ws, id) == 0 || exists|j: int|
            0 <= j < ws.len() && ws[j].id != id && #[trigger] ws[j].z_index == top_z(ws, id),
        top_z(ws, id) <= u32::MAX,
    decreases ws.len(),
{
    if ws.len() > 0 {
        let d = ws.drop_last();
        lemma_top_z_bound(d, id);
        assert forall|j: int| 0 <= j < ws.len() && ws[j].id != id implies #[trigger] ws[j].z_index <= top_z(ws, id) by {
            if j < ws.len() - 1 {
                assert(ws[j] == d[j]);
            }
        }
        if top_z(ws, id) != 0 && top_z(ws, id) == top_z(d, id) {
            let j = choose|j: int| 0 <= j < d.len() && d[j].id != id && #[trigger] d[j].z_index == top_z(d, id);
            assert(ws[j] == d[j]);
        }
        if top_z(ws, id) != top_z(d, id) {
            assert(ws[ws.len() - 1].z_index == top_z(ws, id));
        }
    }
}

/// Where the `n`-th window opens: cascaded in steps of 20 pixels, ten deep.
pub open spec fn cascade_offset(id: u32) -> int {
    ((id % 10) * 20) as int
}

/// The window that `create` adds.
pub open spec fn new_window(id: u32, z: u32, app_id: Seq<char>, title: Seq<char>, w: u32, h: u32) -> WindowView {
    let x = (100 + cascade_offset(id)) as i32;
    let y = (60 + cascade_offset(id)) as i32;
    WindowView {
        id,
        app_id,
        title,
        x,
        y,
        w,
        h,
        prev_x: x,
        prev_y: y,
        prev_w: w,
        prev_h: h,
        z_index: z,
        state: WindowState::Open,
    }
}

/// The manager after opening a window: it gets the next id, appears at the
/// cascade position, and is brought to the front, one above the highest
/// window.
pub open spec fn after_create(m: WmView, app_id: Seq<char>, title: Seq<char>, w: u32, h: u32) -> WmView {
    WmView {
        next_id: (m.next_id + 1) as u32,
        windows: m.windows.push(
            new_window(m.next_id, (top_z(m.windows, m.next_id) + 1) as u32, app_id, title, w, h),
        ),
    }
}

/// The manager after closing window `id`: the window is gone, the others
/// keep their order.
pub open spec fn after_close(m: WmView, id: u32) -> WmView {
    if has_window(m.windows, id) {
        WmView { windows: m.windows.remove(window_index(m.windows, id)), ..m }
    } else {
        m
    }
}

/// The manager after changing the window with this id to `f(window)`.
pub open spec fn update_window(m: WmView, id: u32, nw: WindowView) -> WmView {
    if has_window(m.windows, id) {
        WmView { windows: m.windows.update(window_index(m.windows, id), nw), ..m }
    } else {
        m
    }
}

/// The manager after focusing window `id`: the window is stacked one above
/// the highest of the other windows.
pub open spec fn after_focus(m: WmView, id: u32) -> WmView {
    update_window(
        m,
        id,
        WindowView { z_index: (top_z(m.windows, id) + 1) as u32, ..window_with(m.windows, id) },
    )
}

/// The manager after minimizing window `id`.
pub open spec fn after_minimize(m: WmView, id: u32) -> WmView {
    update_window(m, id, WindowView { state: WindowState::Minimized, ..window_with(m.windows, id) })
}

/// A window after the maximize button: a maximized window goes back to its
/// saved geometry; any other is saved and fills the desktop.
pub open spec fn toggled_maximize(w: WindowView, desktop_w: u32, desktop_h: u32) -> WindowView {
    if w.state == WindowState::Maximized {
        WindowView { state: WindowState::Open, x: w.prev_x, y: w.prev_y, w: w.prev_w, h: w.prev_h, ..w }
    } else {
        WindowView {
            prev_x: w.x,
            prev_y: w.y,
            prev_w: w.w,
            prev_h: w.h,
            w: desktop_w,
            h: desktop_h,
            x: 0,
            y: 0,
            state: WindowState::Maximized,
            ..w
        }
    }
}

/// The manager after the maximize button of window `id`.
pub open spec fn after_maximize(m: WmView, id: u32, desktop_w: u32, desktop_h: u32) -> WmView {
    update_window(m, id, toggled_maximize(window_with(m.windows, id), desktop_w, desktop_h))
}

/// The manager after resizing window `id`.
pub open spec fn after_resize(m: WmView, id: u32, w: u32, h: u32) -> WmView {
    update_window(m, id, WindowView { w, h, ..window_with(m.windows, id) })
}

/// The manager after moving window `id`.
pub open spec fn after_move(m: WmView, id: u32, x: i32, y: i32) -> WmView {
    update_window(m, id, WindowView { x, y, ..window_with(m.windows, id) })
}

// ------------------------------------------------------------------
// Dragging and resizing with the pointer
// ------------------------------------------------------------------

/// The smallest width a resize leaves a window.
pub const MIN_RESIZE_WIDTH: i32 = 200;

/// The smallest height a resize leaves a window.
pub const MIN_RESIZE_HEIGHT: i32 = 150;

/// Where a dragged window edge lands: where it started plus how far the
/// pointer has moved since the button went down.
pub fn dragged_to(start: i32, pointer_start: i32, pointer_now: i32) -> (p: i32)
    requires
        i32::MIN <= pointer_now - pointer_start <= i32::MAX,
        i32::MIN <= start + (pointer_now - pointer_start) <= i32::MAX,
    ensures
        p == start + (pointer_now - pointer_start),
{
    start + (pointer_now - pointer_start)
}

/// A window length after a resize: the length it started with (read as an
/// `i32`, as the page reads it) plus how far the pointer has moved, but never
/// less than `min`.
pub fn resized_to(start_len: u32, pointer_start: i32, pointer_now: i32, min: i32) -> (l: u32)
    requires
        0 <= min,
        i32::MIN <= pointer_now - pointer_start <= i32::MAX,
        i32::MIN <= (start_len as i32) + (pointer_now - pointer_start) <= i32::MAX,
    ensures
        l == (if (start_len as i32) + (pointer_now - pointer_start) > min {
            (start_len as i32) + (pointer_now - pointer_start)
        } else {
            min as int
        }),
        l >= min,
{
    let grown: i32 = (start_len as i32) + (pointer_now - pointer_start);
    let kept: i32 = if grown > min {
        grown
    } else {
        min
    };
    kept as u32
}

/// What every manager keeps: ids are positive, distinct and below the next
/// id.
pub open spec fn wm_wf(m: WmView) -> bool {
    &&& m.next_id >= 1
    &&& forall|i: int| 0 <= i < m.windows.len() ==> 1 <= #[trigger] m.windows[i].id < m.next_id
    &&& forall|i: int, j: int|
        0 <= i < m.windows.len() && 0 <= j < m.windows.len() && i != j ==> #[trigger] m.windows[i].id
            != #[trigger] m.windows[j].id
}


/// A new window gets an id that no open window has, the window count grows
/// by one, and the new window is stacked above every other window.
pub proof fn lemma_create_is_fresh_and_on_top(m: WmView, app_id: Seq<char>, title: Seq<char>, w: u32, h: u32)
    requires
        wm_wf(m),
        m.next_id < u32::MAX,
        top_z(m.windows, m.next_id) < u32::MAX,
    ensures
        !has_window(m.windows, m.next_id),
        after_create(m, app_id, title, w, h).windows.len() == m.windows.len() + 1,
        has_window(after_create(m, app_id, title, w, h).windows, m.next_id),
        forall|j: int|
            0 <= j < m.windows.len() ==> #[trigger] after_create(m, app_id, title, w, h).windows[j].z_index
                < window_with(after_create(m, app_id, title, w, h).windows, m.next_id).z_index,
{
    let m2 = after_create(m, app_id, title, w, h);
    let n = m.windows.len() as int;
    assert(m2.windows[n].id == m.next_id);
    lemma_top_z_bound(m.windows, m.next_id);
    if has_window(m.windows, m.next_id) {
        let k = choose|k: int| 0 <= k < m.windows.len() && #[trigger] m.windows[k].id == m.next_id;
        assert(m.windows[k].id < m.next_id);
    }
    assert forall|k: int| 0 <= k < n implies #[trigger] m2.windows[k].id != m.next_id by {
        assert(m2.windows[k] == m.windows[k]);
    }
    let k = window_index(m2.windows, m.next_id);
    assert(0 <= k < m2.windows.len() && m2.windows[k].id == m.next_id);
    assert(k == n);
    assert forall|j: int| 0 <= j < m.windows.len() implies #[trigger] m2.windows[j].z_index < window_with(
        m2.windows,
        m.next_id,
    ).z_index by {
        assert(m2.windows[j] == m.windows[j]);
        assert(m.windows[j].id < m.next_id);
    }
}

/// Closing the window just opened gives back the windows as they were.
pub proof fn lemma_close_undoes_create(m: WmView, app_id: Seq<char>, title: Seq<char>, w: u32, h: u32)
    requires
        wm_wf(m),
        m.next_id < u32::MAX,
        top_z(m.windows, m.next_id) < u32::MAX,
    ensures
        after_close(after_create(m, app_id, title, w, h), m.next_id).windows == m.windows,
{
    lemma_create_is_fresh_and_on_top(m, app_id, title, w, h);
    let m2 = after_create(m, app_id, title, w, h);
    let n = m.windows.len() as int;
    assert(window_index(m2.windows, m.next_id) == n);
    assert(m2.windows.remove(n) =~= m.windows);
}

/// Focusing a window puts it above every other window, exactly one above
/// the highest of them, and changes nothing else.
pub proof fn lemma_focus_brings_to_front(m: WmView, id: u32)
    requires
        wm_wf(m),
        has_window(m.windows, id),
        top_z(m.windows, id) < u32::MAX,
    ensures
        has_window(after_focus(m, id).windows, id),
        window_with(after_focus(m, id).windows, id).z_index == top_z(m.windows, id) + 1,
        after_focus(m, id).windows.len() == m.windows.len(),
        after_focus(m, id).next_id == m.next_id,
        forall|j: int|
            0 <= j < m.windows.len() && m.windows[j].id != id ==> #[trigger] after_focus(m, id).windows[j]
                == m.windows[j],
        forall|j: int|
            0 <= j < m.windows.len() && j != window_index(after_focus(m, id).windows, id)
                ==> #[trigger] after_focus(m, id).windows[j].z_index < window_with(
                after_focus(m, id).windows,
                id,
            ).z_index,
{
    let m2 = after_focus(m, id);
    let i = window_index(m.windows, id);
    assert(0 <= i < m.windows.len() && m.windows[i].id == id);
    assert(m2.windows[i].id == id);
    let k = window_index(m2.windows, id);
    assert(0 <= k < m2.windows.len() && m2.windows[k].id == id);
    if k != i {
        assert(m2.windows[k] == m.windows[k]);
    }
    assert(k == i);
    lemma_top_z_bound(m.windows, id);
    assert forall|j: int| 0 <= j < m.windows.len() && j != k implies #[trigger] m2.windows[j].z_index
        < window_with(m2.windows, id).z_index by {
        assert(m2.windows[j] == m.windows[j]);
        if m.windows[j].id == id {
            assert(false);
        }
    }
}

/// Pressing maximize twice on a window that is not maximized gives it back
/// its position and size, and leaves it open.
pub proof fn lemma_maximize_twice_restores(m: WmView, id: u32, dw1: u32, dh1: u32, dw2: u32, dh2: u32)
    requires
        wm_wf(m),
        has_window(m.windows, id),
        window_with(m.windows, id).state != WindowState::Maximized,
    ensures
        ({
            let before = window_with(m.windows, id);
            let m2 = after_maximize(after_maximize(m, id, dw1, dh1), id, dw2, dh2);
            let after = window_with(m2.windows, id);
            &&& has_window(m2.windows, id)
            &&& after.x == before.x && after.y == before.y
            &&& after.w == before.w && after.h == before.h
            &&& after.state == WindowState::Open
            &&& m2.windows.len() == m.windows.len()
        }),
{
    let i = window_index(m.windows, id);
    assert(0 <= i < m.windows.len() && m.windows[i].id == id);
    let m1 = after_maximize(m, id, dw1, dh1);
    assert(m1.windows[i].id == id);
    let k1 = window_index(m1.windows, id);
    assert(0 <= k1 < m1.windows.len() && m1.windows[k1].id == id);
    if k1 != i {
        assert(m1.windows[k1] == m.windows[k1]);
    }
    assert(k1 == i);
    let m2 = after_maximize(m1, id, dw2, dh2);
    assert(m2.windows[i].id == id);
    let k2 = window_index(m2.windows, id);
    assert(0 <= k2 < m2.windows.len() && m2.windows[k2].id == id);
    if k2 != i {
        assert(m2.windows[k2] == m1.windows[k2]);
        assert(m1.windows[k2] == m.windows[k2]);
    }
    assert(k2 == i);
}

/// Closing one window leaves every other window as it was, in the same order.
pub proof fn lemma_close_keeps_others(m: WmView, id: u32)
    requires
        wm_wf(m),
    ensures
        forall|j: int|
            0 <= j < m.windows.len() && m.windows[j].id != id ==> #[trigger] after_close(m, id).windows.contains(m.windows[j]),
        !has_window(after_close(m, id).windows, id),
        after_close(m, id).windows.len() == m.windows.len() - (if has_window(m.windows, id) { 1int } else { 0 }),
{
    let m2 = after_close(m, id);
    if has_window(m.windows, id) {
        let i = window_index(m.windows, id);
        assert(0 <= i < m.windows.len() && m.windows[i].id == id);
        assert forall|j: int| 0 <= j < m.windows.len() && m.windows[j].id != id implies #[trigger] m2.windows.contains(m.windows[j]) by {
            if j < i {
                assert(m2.windows[j] == m.windows[j]);
            } else {
                assert(j != i);
                assert(m2.windows[j - 1] == m.windows[j]);
            }
        }
        if has_window(m2.windows, id) {
            let k = choose|k: int| 0 <= k < m2.windows.len() && #[trigger] m2.windows[k].id == id;
            if k < i {
                assert(m2.windows[k] == m.windows[k]);
            } else {
                assert(m2.windows[k] == m.windows[k + 1]);
            }
        }
    }
}

/// One operation of the window manager.
pub enum WmOp {
    Create { app_id: Seq<char>, title: Seq<char>, w: u32, h: u32 },
    Close { id: u32 },
    Focus { id: u32 },
    Minimize { id: u32 },
    Maximize { id: u32, desktop_w: u32, desktop_h: u32 },
    Resize { id: u32, w: u32, h: u32 },
    Move { id: u32, x: i32, y: i32 },
}

/// The manager after one operation.
pub open spec fn apply_op(m: WmView, op: WmOp) -> WmView {
    match op {
        WmOp::Create { app_id, title, w, h } => after_create(m, app_id, title, w, h),
        WmOp::Close { id } => after_close(m, id),
        WmOp::Focus { id } => after_focus(m, id),
        WmOp::Minimize { id } => after_minimize(m, id),
        WmOp::Maximize { id, desktop_w, desktop_h } => after_maximize(m, id, desktop_w, desktop_h),
        WmOp::Resize { id, w, h } => after_resize(m, id, w, h),
        WmOp::Move { id, x, y } => after_move(m, id, x, y),
    }
}

/// The manager after a sequence of operations, first to last.
pub open spec fn apply_ops(m: WmView, ops: Seq<WmOp>) -> WmView
    decreases ops.len(),
{
    if ops.len() == 0 {
        m
    } else {
        apply_ops(apply_op(m, ops[0]), ops.drop_first())
    }
}

proof fn lemma_update_keeps_ids(m: WmView, id: u32, nw: WindowView)
    requires
        wm_wf(m),
        nw.id == id,
    ensures
        wm_wf(update_window(m, id, nw)),
        update_window(m, id, nw).next_id == m.next_id,
        update_window(m, id, nw).windows.len() == m.windows.len(),
        forall|i: int| 0 <= i < m.windows.len() ==> #[trigger] update_window(m, id, nw).windows[i].id
            == m.windows[i].id,
{
    if has_window(m.windows, id) {
        let k = window_index(m.windows, id);
        assert(0 <= k < m.windows.len() && m.windows[k].id == id);
    }
}

proof fn lemma_window_with_id(ws: Seq<WindowView>, id: u32)
    requires
        has_window(ws, id),
    ensures
        window_with(ws, id).id == id,
{
    let k = window_index(ws, id);
    assert(0 <= k < ws.len() && ws[k].id == id);
}

/// One operation keeps the manager's invariant, never lowers the next id,
/// and every window afterwards either was there before or got an id that had
/// not been handed out.
proof fn lemma_op_keeps_ids(m: WmView, op: WmOp)
    requires
        wm_wf(m),
        m.next_id < u32::MAX,
    ensures
        wm_wf(apply_op(m, op)),
        m.next_id <= apply_op(m, op).next_id <= m.next_id + 1,
        forall|i: int|
            0 <= i < apply_op(m, op).windows.len() ==> has_window(m.windows, #[trigger] apply_op(m, op).windows[i].id)
                || m.next_id <= apply_op(m, op).windows[i].id < apply_op(m, op).next_id,
{
    let r = apply_op(m, op);
    match op {
        WmOp::Create { app_id, title, w, h } => {
            let n = m.windows.len() as int;
            assert forall|i: int, j: int|
                0 <= i < r.windows.len() && 0 <= j < r.windows.len() && i != j implies #[trigger] r.windows[i].id
                    != #[trigger] r.windows[j].id by {
                if i < n {
                    assert(r.windows[i] == m.windows[i]);
                }
                if j < n {
                    assert(r.windows[j] == m.windows[j]);
                }
            }
            assert forall|i: int| 0 <= i < r.windows.len() implies has_window(m.windows, #[trigger] r.windows[i].id)
                || m.next_id <= r.windows[i].id < r.next_id by {
                if i < n {
                    assert(r.windows[i] == m.windows[i]);
                }
            }
        },
        WmOp::Close { id } => {
            if has_window(m.windows, id) {
                let k = window_index(m.windows, id);
                assert(0 <= k < m.windows.len() && m.windows[k].id == id);
                assert forall|a: int, b: int|
                    0 <= a < r.windows.len() && 0 <= b < r.windows.len() && a != b implies #[trigger] r.windows[a].id
                        != #[trigger] r.windows[b].id by {
                    let a0 = if a < k { a } else { a + 1 };
                    let b0 = if b < k { b } else { b + 1 };
                    assert(r.windows[a] == m.windows[a0]);
                    assert(r.windows[b] == m.windows[b0]);
                }
                assert forall|a: int| 0 <= a < r.windows.len() implies has_window(m.windows, #[trigger] r.windows[a].id)
                    && 1 <= r.windows[a].id < r.next_id by {
                    let a0 = if a < k { a } else { a + 1 };
                    assert(r.windows[a] == m.windows[a0]);
                }
            }
        },
        _ => {
            let id = match op {
                WmOp::Focus { id } => id,
                WmOp::Minimize { id } => id,
                WmOp::Maximize { id, desktop_w, desktop_h } => id,
                WmOp::Resize { id, w, h } => id,
                WmOp::Move { id, x, y } => id,
                _ => 0,
            };
            if has_window(m.windows, id) {
                lemma_window_with_id(m.windows, id);
            }
            let nw = window_with(m.windows, id);
            let v = match op {
                WmOp::Focus { id } => WindowView { z_index: (top_z(m.windows, id) + 1) as u32, ..nw },
                WmOp::Minimize { id } => WindowView { state: WindowState::Minimized, ..nw },
                WmOp::Maximize { id, desktop_w, desktop_h } => toggled_maximize(nw, desktop_w, desktop_h),
                WmOp::Resize { id, w, h } => WindowView { w, h, ..nw },
                WmOp::Move { id, x, y } => WindowView { x, y, ..nw },
                _ => nw,
            };
            if has_window(m.windows, id) {
                lemma_update_keeps_ids(m, id, v);
                assert(r == update_window(m, id, v));
                assert forall|i: int| 0 <= i < r.windows.len() implies has_window(m.windows, #[trigger] r.windows[i].id)
                    || m.next_id <= r.windows[i].id < r.next_id by {
                    assert(r.windows[i].id == m.windows[i].id);
                    assert(m.windows[i].id == m.windows[i].id);
                }
            } else {
                assert(r == m);
                assert forall|i: int| 0 <= i < r.windows.len() implies has_window(m.windows, #[trigger] r.windows[i].id)
                    || m.next_id <= r.windows[i].id < r.next_id by {
                    assert(m.windows[i].id == m.windows[i].id);
                }
            }
        },
    }
}

/// Window ids are never reused: after any sequence of operations, a window
/// whose id had been handed out before the sequence was already open before
/// it; every other window got a new id. So a closed window's id never comes
/// back.
pub proof fn lemma_ids_never_reused(m: WmView, ops: Seq<WmOp>)
    requires
        wm_wf(m),
        m.next_id + ops.len() < u32::MAX,
    ensures
        wm_wf(apply_ops(m, ops)),
        m.next_id <= apply_ops(m, ops).next_id,
        forall|i: int|
            0 <= i < apply_ops(m, ops).windows.len() && #[trigger] apply_ops(m, ops).windows[i].id < m.next_id
                ==> has_window(m.windows, apply_ops(m, ops).windows[i].id),
    decreases ops.len(),
{
    if ops.len() > 0 {
        let m1 = apply_op(m, ops[0]);
        lemma_op_keeps_ids(m, ops[0]);
        lemma_ids_never_reused(m1, ops.drop_first());
        let r = apply_ops(m, ops);
        assert(r == apply_ops(m1, ops.drop_first()));
        assert forall|i: int| 0 <= i < r.windows.len() && #[trigger] r.windows[i].id < m.next_id implies has_window(
            m.windows,
            r.windows[i].id,
        ) by {
            let id = r.windows[i].id;
            assert(has_window(m1.windows, id));
            let k = choose|k: int| 0 <= k < m1.windows.len() && #[trigger] m1.windows[k].id == id;
            assert(has_window(m.windows, m1.windows[k].id) || m.next_id <= m1.windows[k].id);
        }
    }
}

/// Closing a window twice does what closing it once does; closing a window
/// that is not there changes nothing.
pub proof fn lemma_close_twice_is_close_once(m: WmView, id: u32)
    requires
        wm_wf(m),
    ensures
        after_close(after_close(m, id), id) == after_close(m, id),
        !has_window(m.windows, id) ==> after_close(m, id) == m,
{
    lemma_close_keeps_others(m, id);
}

/// The set of windows on the desktop.
pub struct WindowManager {
    next_id: u32,
    windows: Vec<Window>,
}

impl View for WindowManager {
    type V = WmView;

    closed spec fn view(&self) -> WmView {
        WmView {
            next_id: self.next_id,
            windows: self.windows@.map_values(|w: Window| w@),
        }
    }
}

proof fn lemma_index_unique(m: WmView, id: u32, i: int)
    requires
        wm_wf(m),
        0 <= i < m.windows.len(),
        m.windows[i].id == id,
    ensures
        has_window(m.windows, id),
        window_index(m.windows, id) == i,
{
    let k = window_index(m.windows, id);
    assert(0 <= k < m.windows.len() && m.windows[k].id == id);
}

impl WindowManager {
    pub open spec fn wf(&self) -> bool {
        wm_wf(self@)
    }

    /// An empty desktop: no windows, the first id is 1.
    pub fn new() -> (wm: Self)
        ensures
            wm.wf(),
            wm@ == (WmView { next_id: 1, windows: Seq::empty() }),
    {
        let wm = WindowManager { next_id: 1, windows: Vec::new() };
        assert(wm@.windows =~= Seq::<WindowView>::empty());
        wm
    }

    /// The highest stacking position among the windows other than `id`.
    pub fn top_z_except(&self, id: u32) -> (z: u32)
        ensures
            z == top_z(self@.windows, id),
    {
        let mut z: u32 = 0;
        let mut i: usize = 0;
        while i < self.windows.len()
            invariant
                i <= self.windows.len(),
                z == top_z(self@.windows.subrange(0, i as int), id),
            decreases self.windows.len() - i,
        {
            let ghost sub = self@.windows.subrange(0, i + 1);
            assert(sub.drop_last() =~= self@.windows.subrange(0, i as int));
            assert(sub.last() == self.windows@[i as int]@);
            let w = &self.windows[i];
            if w.id != id && w.z_index > z {
                z = w.z_index;
            }
            i = i + 1;
        }
        assert(self@.windows.subrange(0, self.windows.len() as int) =~= self@.windows);
        z
    }

    /// Whether opening one more window stays within the id counter and
    /// below the highest stacking position.
    pub fn can_create(&self) -> (b: bool)
        ensures
            b == (self@.next_id < u32::MAX && top_z(self@.windows, self@.next_id) < u32::MAX),
    {
        self.next_id < u32::MAX && self.top_z_except(self.next_id) < u32::MAX
    }

    /// Whether focusing window `id` stays below the highest stacking position.
    pub fn can_focus(&self, id: u32) -> (b: bool)
        ensures
            b == (top_z(self@.windows, id) < u32::MAX),
    {
        self.top_z_except(id) < u32::MAX
    }

    /// The number of windows.
    pub fn window_count(&self) -> (n: usize)
        ensures
            n == self@.windows.len(),
    {
        self.windows.len()
    }

    fn position(&self, id: u32) -> (r: Option<usize>)
        requires
            self.wf(),
        ensures
            match r {
                Some(i) => i < self@.windows.len() && has_window(self@.windows, id) && window_index(
                    self@.windows,
                    id,
                ) == i,
                None => !has_window(self@.windows, id),
            },
    {
        let mut i: usize = 0;
        while i < self.windows.len()
            invariant
                i <= self.windows.len(),
                self.wf(),
                forall|k: int| 0 <= k < i ==> #[trigger] self@.windows[k].id != id,
            decreases self.windows.len() - i,
        {
            assert(self@.windows[i as int] == self.windows@[i as int]@);
            if self.windows[i].id == id {
                proof {
                    lemma_index_unique(self@, id, i as int);
                }
                return Some(i);
            }
            i = i + 1;
        }
        None
    }

    /// The window with this id, if any.
    pub fn get_window(&self, id: u32) -> (r: Option<&Window>)
        requires
            self.wf(),
        ensures
            match r {
                Some(w) => has_window(self@.windows, id) && w@ == window_with(self@.windows, id),
                None => !has_window(self@.windows, id),
            },
    {
        match self.position(id) {
            Some(i) => {
                assert(self@.windows[i as int] == self.windows@[i as int]@);
                Some(&self.windows[i])
            },
            None => None,
        }
    }

    /// The windows, bottom of the creation order first.
    pub fn windows(&self) -> (r: &[Window])
        ensures
            r@.map_values(|w: Window| w@) == self@.windows,
    {
        self.windows.as_slice()
    }

    fn replace_at(&mut self, i: usize, w: Window)
        requires
            i < old(self).windows.len(),
            old(self).wf(),
            w@.id == old(self)@.windows[i as int].id,
        ensures
            final(self).wf(),
            final(self)@ == (WmView {
                windows: old(self)@.windows.update(i as int, w@),
                ..old(self)@
            }),
    {
        let ghost before = self@;
        self.windows.remove(i);
        self.windows.insert(i, w);
        assert(self@.windows =~= before.windows.update(i as int, w@));
        assert(self.wf()) by {
            assert forall|a: int, b: int|
                0 <= a < self@.windows.len() && 0 <= b < self@.windows.len() && a != b
                    implies #[trigger] self@.windows[a].id != #[trigger] self@.windows[b].id by {
                assert(self@.windows[a].id == before.windows[a].id);
                assert(self@.windows[b].id == before.windows[b].id);
            }
            assert forall|a: int| 0 <= a < self@.windows.len() implies 1 <= #[trigger] self@.windows[a].id < self@.next_id by {
                assert(self@.windows[a].id == before.windows[a].id);
            }
        }
    }

    /// Opens a window and brings it to the front; returns its id.
    pub fn create_window(&mut self, app_id: &str, title: &str, w: u32, h: u32) -> (id: u32)
        requires
            old(self).wf(),
            old(self)@.next_id < u32::MAX,
            top_z(old(self)@.windows, old(self)@.next_id) < u32::MAX,
        ensures
            final(self).wf(),
            id == old(self)@.next_id,
            final(self)@ == after_create(old(self)@, app_id@, title@, w, h),
    {
        let id = self.next_id;
        let z = self.top_z_except(id) + 1;
        self.next_id = self.next_id + 1;
        let offset = (id % 10) * 20;
        let x = 100 + offset as i32;
        let y = 60 + offset as i32;
        let win = Window {
            id,
            app_id: app_id.to_owned(),
            title: title.to_owned(),
            x,
            y,
            w,
            h,
            prev_x: x,
            prev_y: y,
            prev_w: w,
            prev_h: h,
            z_index: z,
            state: WindowState::Open,
        };
        let ghost before = self@.windows;
        self.windows.push(win);
        assert(self@.windows =~= before.push(win@));
        assert(self.wf()) by {
            assert forall|i: int, j: int|
                0 <= i < self@.windows.len() && 0 <= j < self@.windows.len() && i != j
                    implies #[trigger] self@.windows[i].id != #[trigger] self@.windows[j].id by {
                if i < before.len() && j < before.len() {
                } else if i < before.len() {
                    assert(self@.windows[i] == before[i]);
                } else {
                    assert(self@.windows[j] == before[j]);
                }
            }
            assert forall|i: int| 0 <= i < self@.windows.len() implies 1 <= #[trigger] self@.windows[i].id < self@.next_id by {
                if i < before.len() {
                    assert(self@.windows[i] == before[i]);
                }
            }
        }
        id
    }

    /// Closes window `id`; other windows keep their order.
    pub fn close_window(&mut self, id: u32)
        requires
            old(self).wf(),
        ensures
            final(self).wf(),
            final(self)@ == after_close(old(self)@, id),
    {
        if let Some(i) = self.position(id) {
            let ghost before = self@.windows;
            self.windows.remove(i);
            assert(self@.windows =~= before.remove(i as int));
            assert(self.wf()) by {
                assert forall|a: int, b: int|
                    0 <= a < self@.windows.len() && 0 <= b < self@.windows.len() && a != b
                        implies #[trigger] self@.windows[a].id != #[trigger] self@.windows[b].id by {
                    let a0 = if a < i { a } else { a + 1 };
                    let b0 = if b < i { b } else { b + 1 };
                    assert(self@.windows[a] == before[a0]);
                    assert(self@.windows[b] == before[b0]);
                }
                assert forall|a: int| 0 <= a < self@.windows.len() implies 1 <= #[trigger] self@.windows[a].id < self@.next_id by {
                    let a0 = if a < i { a } else { a + 1 };
                    assert(self@.windows[a] == before[a0]);
                }
            }
        }
    }

    /// Brings window `id` to the front: one above the highest of the other
    /// windows. Nothing changes when there is no such window.
    pub fn focus_window_inner(&mut self, id: u32)
        requires
            old(self).wf(),
            has_window(old(self)@.windows, id) ==> top_z(old(self)@.windows, id) < u32::MAX,
        ensures
            final(self).wf(),
            final(self)@ == after_focus(old(self)@, id),
    {
        match self.position(id) {
            Some(i) => {
                proof {
                    lemma_index_unique(self@, id, i as int);
                }
                let z = self.top_z_except(id) + 1;
                let mut w = self.windows[i].copy();
                assert(self@.windows[i as int] == self.windows@[i as int]@);
                w.z_index = z;
                self.replace_at(i, w);
            },
            None => {},
        }
    }

    /// Minimizes window `id`.
    pub fn minimize_window(&mut self, id: u32)
        requires
            old(self).wf(),
        ensures
            final(self).wf(),
            final(self)@ == after_minimize(old(self)@, id),
    {
        match self.position(id) {
            Some(i) => {
                proof {
                    lemma_index_unique(self@, id, i as int);
                }
                let mut w = self.windows[i].copy();
                assert(self@.windows[i as int] == self.windows@[i as int]@);
                w.state = WindowState::Minimized;
                self.replace_at(i, w);
            },
            None => {},
        }
    }

    /// The maximize button of window `id`, on a desktop of the given size:
    /// maximizes it, or restores it if it is maximized.
    pub fn maximize_window(&mut self, id: u32, desktop_w: u32, desktop_h: u32)
        requires
            old(self).wf(),
        ensures
            final(self).wf(),
            final(self)@ == after_maximize(old(self)@, id, desktop_w, desktop_h),
    {
        match self.position(id) {
            Some(i) => {
                proof {
                    lemma_index_unique(self@, id, i as int);
                }
                let mut w = self.windows[i].copy();
                assert(self@.windows[i as int] == self.windows@[i as int]@);
                match w.state {
                    WindowState::Maximized => {
                        w.state = WindowState::Open;
                        w.x = w.prev_x;
                        w.y = w.prev_y;
                        w.w = w.prev_w;
                        w.h = w.prev_h;
                    },
                    _ => {
                        w.prev_x = w.x;
                        w.prev_y = w.y;
                        w.prev_w = w.w;
                        w.prev_h = w.h;
                        w.w = desktop_w;
                        w.h = desktop_h;
                        w.x = 0;
                        w.y = 0;
                        w.state = WindowState::Maximized;
                    },
                }
                self.replace_at(i, w);
            },
            None => {},
        }
    }

    /// Resizes window `id`.
    pub fn set_window_size(&mut self, id: u32, w: u32, h: u32)
        requires
            old(self).wf(),
        ensures
            final(self).wf(),
            final(self)@ == after_resize(old(self)@, id, w, h),
    {
        match self.position(id) {
            Some(i) => {
                proof {
                    lemma_index_unique(self@, id, i as int);
                }
                let mut win = self.windows[i].copy();
                assert(self@.windows[i as int] == self.windows@[i as int]@);
                win.w = w;
                win.h = h;
                self.replace_at(i, win);
            },
            None => {},
        }
    }

    /// Moves window `id`; `Err` when there is no such window.
    pub fn set_window_position(&mut self, id: u32, x: i32, y: i32) -> (r: Result<(), ()>)
        requires
            old(self).wf(),
        ensures
            final(self).wf(),
            final(self)@ == after_move(old(self)@, id, x, y),
            r is Ok <==> has_window(old(self)@.windows, id),
    {
        match self.position(id) {
            Some(i) => {
                proof {
                    lemma_index_unique(self@, id, i as int);
                }
                let mut win = self.windows[i].copy();
                assert(self@.windows[i as int] == self.windows@[i as int]@);
                win.x = x;
                win.y = y;
                self.replace_at(i, win);
                Ok(())
            },
            None => Err(()),
        }
    }
}

} // verus!
