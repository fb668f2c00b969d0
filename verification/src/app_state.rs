//! The state of the whole desktop and the window operations that keep the
//! window manager and the taskbar in step with each other.

use vstd::prelude::*;
use crate::taskbar::{
    after_add_button, after_remove_button, after_set_active, Taskbar, TaskButtonView,
};
use crate::vfs::VirtualFS;
use crate::window_manager::{
    after_close, after_create, after_focus, after_maximize, after_minimize, WindowManager,
    WmView, lemma_close_undoes_create, top_z, has_window,
};
use crate::taskbar::{first_button, has_button, is_first_button};

verus! {

/// Everything the desktop holds: its windows, its taskbar (once the
/// desktop is shown) and its file system (once loaded).
pub struct AppState {
    pub window_manager: WindowManager,
    pub taskbar: Option<Taskbar>,
    pub vfs: Option<VirtualFS>,
}

/// The desktop is consistent: the window manager keeps its invariant and
/// every taskbar button stands for a window id already handed out.
pub open spec fn app_wf(app: AppState) -> bool {
    &&& app.window_manager.wf()
    &&& app.taskbar matches Some(tb) ==> forall|i: int|
        0 <= i < tb@.buttons.len() ==> #[trigger] tb@.buttons[i].window_id < app.window_manager@.next_id
}

impl AppState {
    /// A fresh desktop: no windows, no taskbar, no file system yet.
    pub fn new() -> (app: Self)
        ensures
            app_wf(app),
            app.window_manager@.windows.len() == 0,
            app.taskbar is None,
            app.vfs is None,
    {
        AppState { window_manager: WindowManager::new(), taskbar: None, vfs: None }
    }
}

/// Installs the taskbar.
pub fn set_taskbar(app: &mut AppState, tb: Taskbar)
    ensures
        final(app).taskbar == Some(tb),
        final(app).window_manager == old(app).window_manager,
        final(app).vfs == old(app).vfs,
{
    app.taskbar = Some(tb);
}

/// Installs the loaded file system.
pub fn set_vfs(app: &mut AppState, vfs: VirtualFS)
    ensures
        final(app).vfs == Some(vfs),
        final(app).window_manager == old(app).window_manager,
        final(app).taskbar == old(app).taskbar,
{
    app.vfs = Some(vfs);
}

/// Opens a window and adds its taskbar button; returns the window id.
pub fn create_window(app: &mut AppState, app_id: &str, title: &str, w: u32, h: u32) -> (id: u32)
    requires
        old(app).window_manager.wf(),
        old(app).window_manager@.next_id < u32::MAX,
        top_z(old(app).window_manager@.windows, old(app).window_manager@.next_id) < u32::MAX,
        old(app).taskbar is Some,
    ensures
        id == old(app).window_manager@.next_id,
        final(app).window_manager.wf(),
        final(app).window_manager@ == after_create(old(app).window_manager@, app_id@, title@, w, h),
        final(app).taskbar matches Some(tb) && tb@ == after_add_button(
            old(app).taskbar->0@,
            id,
            title@,
        ),
        final(app).vfs == old(app).vfs,
        app_wf(*old(app)) ==> app_wf(*final(app)),
{
    let id = app.window_manager.create_window(app_id, title, w, h);
    match &mut app.taskbar {
        Some(tb) => tb.add_app_button(id, title),
        None => {},
    }
    proof {
        if app_wf(*old(app)) {
            let tb = app.taskbar->0@;
            assert forall|i: int| 0 <= i < tb.buttons.len() implies #[trigger] tb.buttons[i].window_id
                < app.window_manager@.next_id by {
                if i < old(app).taskbar->0@.buttons.len() {
                    assert(tb.buttons[i] == old(app).taskbar->0@.buttons[i]);
                }
            }
        }
    }
    id
}

/// Closes a window and removes its taskbar button.
pub fn close_window(app: &mut AppState, id: u32)
    requires
        old(app).window_manager.wf(),
        old(app).taskbar is Some,
    ensures
        final(app).window_manager.wf(),
        final(app).window_manager@ == after_close(old(app).window_manager@, id),
        final(app).taskbar matches Some(tb) && tb@ == after_remove_button(old(app).taskbar->0@, id),
        final(app).vfs == old(app).vfs,
        app_wf(*old(app)) ==> app_wf(*final(app)),
{
    app.window_manager.close_window(id);
    match &mut app.taskbar {
        Some(tb) => tb.remove_app_button(id),
        None => {},
    }
    proof {
        if app_wf(*old(app)) {
            let b0 = old(app).taskbar->0@.buttons;
            let tb = app.taskbar->0@;
            assert forall|i: int| 0 <= i < tb.buttons.len() implies #[trigger] tb.buttons[i].window_id
                < app.window_manager@.next_id by {
                if has_button(b0, id) {
                    let f = first_button(b0, id);
                    assert(is_first_button(b0, id, f));
                    if i < f {
                        assert(tb.buttons[i] == b0[i]);
                    } else {
                        assert(tb.buttons[i] == b0[i + 1]);
                    }
                } else {
                    assert(tb.buttons[i] == b0[i]);
                }
            }
        }
    }
}

/// Minimizes a window.
pub fn minimize_window(app: &mut AppState, id: u32)
    requires
        old(app).window_manager.wf(),
    ensures
        final(app).window_manager.wf(),
        final(app).window_manager@ == after_minimize(old(app).window_manager@, id),
        final(app).taskbar == old(app).taskbar,
        final(app).vfs == old(app).vfs,
        app_wf(*old(app)) ==> app_wf(*final(app)),
{
    app.window_manager.minimize_window(id);
}

/// Maximizes, or restores, a window on a desktop of the given size.
pub fn maximize_window(app: &mut AppState, id: u32, desktop_w: u32, desktop_h: u32)
    requires
        old(app).window_manager.wf(),
    ensures
        final(app).window_manager.wf(),
        final(app).window_manager@ == after_maximize(old(app).window_manager@, id, desktop_w, desktop_h),
        final(app).taskbar == old(app).taskbar,
        final(app).vfs == old(app).vfs,
        app_wf(*old(app)) ==> app_wf(*final(app)),
{
    app.window_manager.maximize_window(id, desktop_w, desktop_h);
}

/// Brings a window to the front and makes its taskbar button the active one.
pub fn focus_window(app: &mut AppState, id: u32)
    requires
        old(app).window_manager.wf(),
        has_window(old(app).window_manager@.windows, id) ==> top_z(old(app).window_manager@.windows, id)
            < u32::MAX,
        old(app).taskbar is Some,
    ensures
        final(app).window_manager.wf(),
        final(app).window_manager@ == after_focus(old(app).window_manager@, id),
        final(app).taskbar matches Some(tb) && tb@ == after_set_active(old(app).taskbar->0@, id),
        final(app).vfs == old(app).vfs,
        app_wf(*old(app)) ==> app_wf(*final(app)),
{
    app.window_manager.focus_window_inner(id);
    match &mut app.taskbar {
        Some(tb) => tb.set_active(id),
        None => {},
    }
}

/// Closing the window just opened gives back both the windows and the
/// taskbar buttons as they were.
pub proof fn lemma_close_undoes_create_on_desktop(
    wm: WmView,
    buttons: Seq<TaskButtonView>,
    app_id: Seq<char>,
    title: Seq<char>,
    w: u32,
    h: u32,
)
    requires
        crate::window_manager::wm_wf(wm),
        wm.next_id < u32::MAX,
        top_z(wm.windows, wm.next_id) < u32::MAX,
        forall|i: int| 0 <= i < buttons.len() ==> #[trigger] buttons[i].window_id < wm.next_id,
    ensures
        ({
            let t0 = crate::taskbar::TaskbarView { buttons, start_menu_open: false };
            let wm2 = after_close(after_create(wm, app_id, title, w, h), wm.next_id);
            let t2 = after_remove_button(after_add_button(t0, wm.next_id, title), wm.next_id);
            &&& wm2.windows == wm.windows
            &&& t2.buttons == buttons
        }),
{
    lemma_close_undoes_create(wm, app_id, title, w, h);
    let t0 = crate::taskbar::TaskbarView { buttons, start_menu_open: false };
    let t1 = after_add_button(t0, wm.next_id, title);
    let n = buttons.len() as int;
    assert(t1.buttons[n].window_id == wm.next_id);
    assert forall|k: int| 0 <= k < n implies #[trigger] t1.buttons[k].window_id != wm.next_id by {
        assert(t1.buttons[k] == buttons[k]);
    }
    assert(is_first_button(t1.buttons, wm.next_id, n));
    let f = first_button(t1.buttons, wm.next_id);
    assert(is_first_button(t1.buttons, wm.next_id, f));
    if f < n {
        assert(t1.buttons[f] == buttons[f]);
    }
    assert(f == n);
    assert(t1.buttons.remove(n) =~= buttons);
}

} // verus!
