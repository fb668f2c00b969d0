use win95_desktop::app_state::{self, AppState};
use win95_desktop::taskbar::{button_element_id, is_start_menu_shortcut, launch_app, Launch, Taskbar};
use win95_desktop::window_manager::{dragged_to, resized_to, WindowManager, WindowState, MIN_RESIZE_HEIGHT, MIN_RESIZE_WIDTH};

#[test]
fn new_windows_cascade_and_stack_on_top() {
    let mut wm = WindowManager::new();
    let a = wm.create_window("notepad", "Notepad", 500, 400);
    let b = wm.create_window("paint", "Paint", 600, 450);
    assert_eq!(a, 1);
    assert_eq!(b, 2);
    assert_eq!(wm.window_count(), 2);
    let wa = wm.get_window(a).unwrap();
    assert_eq!((wa.x, wa.y, wa.w, wa.h), (120, 80, 500, 400));
    let wb = wm.get_window(b).unwrap();
    assert_eq!((wb.x, wb.y), (140, 100));
    assert!(wb.z_index > wa.z_index);
    assert_eq!(wa.state, WindowState::Open);
}

#[test]
fn window_style_lists_geometry() {
    let mut wm = WindowManager::new();
    let a = wm.create_window("notepad", "Notepad", 500, 400);
    let style = wm.get_window(a).unwrap().style();
    assert_eq!(style, "left:120px;top:80px;width:500px;height:400px;z-index:1");
}

#[test]
fn focus_brings_window_to_front() {
    let mut wm = WindowManager::new();
    let a = wm.create_window("notepad", "Notepad", 500, 400);
    let b = wm.create_window("paint", "Paint", 600, 450);
    wm.focus_window_inner(a);
    let za = wm.get_window(a).unwrap().z_index;
    let zb = wm.get_window(b).unwrap().z_index;
    assert!(za > zb);
    assert_eq!(zb, 2);
    assert_eq!(za, 3);
    // Focusing the top window again keeps it one above the others.
    wm.focus_window_inner(a);
    assert_eq!(wm.get_window(a).unwrap().z_index, 3);
    wm.focus_window_inner(b);
    assert_eq!(wm.get_window(b).unwrap().z_index, 4);
    assert!(wm.can_focus(a));
    wm.focus_window_inner(99);
    assert_eq!(wm.window_count(), 2);
}

#[test]
fn close_removes_only_that_window() {
    let mut wm = WindowManager::new();
    let a = wm.create_window("notepad", "Notepad", 500, 400);
    let b = wm.create_window("paint", "Paint", 600, 450);
    wm.close_window(a);
    assert_eq!(wm.window_count(), 1);
    assert!(wm.get_window(a).is_none());
    assert_eq!(wm.get_window(b).unwrap().title, "Paint");
    wm.close_window(99);
    assert_eq!(wm.window_count(), 1);
}

#[test]
fn maximize_twice_restores_geometry() {
    let mut wm = WindowManager::new();
    let a = wm.create_window("notepad", "Notepad", 500, 400);
    wm.maximize_window(a, 1024, 738);
    let w = wm.get_window(a).unwrap();
    assert_eq!((w.x, w.y, w.w, w.h), (0, 0, 1024, 738));
    assert_eq!(w.state, WindowState::Maximized);
    wm.maximize_window(a, 1024, 738);
    let w = wm.get_window(a).unwrap();
    assert_eq!((w.x, w.y, w.w, w.h), (120, 80, 500, 400));
    assert_eq!(w.state, WindowState::Open);
}

#[test]
fn minimize_keeps_the_window() {
    let mut wm = WindowManager::new();
    let a = wm.create_window("notepad", "Notepad", 500, 400);
    wm.minimize_window(a);
    assert_eq!(wm.get_window(a).unwrap().state, WindowState::Minimized);
    assert_eq!(wm.window_count(), 1);
}

#[test]
fn move_and_resize() {
    let mut wm = WindowManager::new();
    let a = wm.create_window("notepad", "Notepad", 500, 400);
    assert_eq!(wm.set_window_position(a, 7, -3), Ok(()));
    assert_eq!(wm.set_window_position(42, 7, -3), Err(()));
    wm.set_window_size(a, 300, 200);
    let w = wm.get_window(a).unwrap();
    assert_eq!((w.x, w.y, w.w, w.h), (7, -3, 300, 200));
}

#[test]
fn pointer_drag_and_resize_arithmetic() {
    assert_eq!(dragged_to(120, 300, 350), 170);
    assert_eq!(dragged_to(120, 300, 250), 70);
    assert_eq!(resized_to(500, 10, 60, 200), 550);
    assert_eq!(resized_to(500, 400, 10, 200), 200);
    assert_eq!(resized_to(300, 50, 0, 100), 250);
}

#[test]
fn desktop_create_and_close_keep_taskbar_in_step() {
    let mut app = AppState::new();
    app_state::set_taskbar(&mut app, Taskbar::new());
    let a = app_state::create_window(&mut app, "notepad", "Notepad", 500, 400);
    let b = app_state::create_window(&mut app, "paint", "Paint", 600, 450);
    {
        let tb = app.taskbar.as_ref().unwrap();
        assert_eq!(tb.buttons().len(), 2);
        assert_eq!(tb.buttons()[0].window_id, a);
        assert_eq!(tb.buttons()[1].title, "Paint");
    }
    app_state::focus_window(&mut app, a);
    {
        let tb = app.taskbar.as_ref().unwrap();
        assert!(tb.buttons()[0].active);
        assert!(!tb.buttons()[1].active);
    }
    app_state::close_window(&mut app, a);
    assert_eq!(app.window_manager.window_count(), 1);
    let tb = app.taskbar.as_ref().unwrap();
    assert_eq!(tb.buttons().len(), 1);
    assert_eq!(tb.buttons()[0].window_id, b);
}

#[test]
fn desktop_minimize_and_maximize() {
    let mut app = AppState::new();
    app_state::set_taskbar(&mut app, Taskbar::new());
    let a = app_state::create_window(&mut app, "notepad", "Notepad", 500, 400);
    app_state::minimize_window(&mut app, a);
    assert_eq!(app.window_manager.get_window(a).unwrap().state, WindowState::Minimized);
    assert_eq!(app.taskbar.as_ref().unwrap().buttons().len(), 1);
    app_state::maximize_window(&mut app, a, 800, 600);
    assert_eq!(app.window_manager.get_window(a).unwrap().state, WindowState::Maximized);
}

#[test]
fn taskbar_start_menu_toggles() {
    let mut tb = Taskbar::new();
    assert!(!tb.start_menu_open());
    tb.toggle_start_menu();
    assert!(tb.start_menu_open());
    tb.toggle_start_menu();
    assert!(!tb.start_menu_open());
    tb.toggle_start_menu();
    tb.close_start_menu();
    assert!(!tb.start_menu_open());
}

#[test]
fn taskbar_button_ids_and_shortcuts() {
    assert_eq!(button_element_id(7), "tb-btn-win-7");
    assert!(is_start_menu_shortcut("Meta", false));
    assert!(is_start_menu_shortcut("Escape", true));
    assert!(!is_start_menu_shortcut("Escape", false));
}

#[test]
fn start_menu_items_launch_their_apps() {
    assert!(matches!(launch_app("terminal"), Launch::Terminal));
    assert!(matches!(launch_app("programs"), Launch::Nothing));
    assert!(matches!(launch_app("lockout"), Launch::Lockout));
    match launch_app("cv") {
        Launch::Markdown { title, path } => {
            assert_eq!(title, "CV - Notepad");
            assert_eq!(path, "content/cv/cv.md");
        }
        other => panic!("unexpected {:?}", other),
    }
    assert!(matches!(launch_app("solitaire"), Launch::Blank));
}

#[test]
fn resizing_never_goes_below_the_minimum() {
    assert_eq!(resized_to(300, 400, 0, MIN_RESIZE_WIDTH), 200);
    assert_eq!(resized_to(200, 100, 0, MIN_RESIZE_HEIGHT), 150);
    assert_eq!(resized_to(400, 100, 120, MIN_RESIZE_HEIGHT), 420);
}

#[test]
fn closed_ids_are_not_reused_and_closing_twice_is_harmless() {
    let mut wm = WindowManager::new();
    let a = wm.create_window("notepad", "Notepad", 500, 400);
    wm.close_window(a);
    wm.close_window(a);
    assert_eq!(wm.window_count(), 0);
    let b = wm.create_window("paint", "Paint", 600, 450);
    assert!(b > a);
    assert_eq!(wm.get_window(b).unwrap().z_index, 1);
}
