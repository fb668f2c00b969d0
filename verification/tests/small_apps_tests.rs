use win95_desktop::apps::calculator::CalculatorApp;
use win95_desktop::apps::calendar::{month_cells, month_name, CalendarNav};
use win95_desktop::apps::cdplayer::{CdState, TimerEffect};
use win95_desktop::apps::notepad::{NotepadApp, NotepadCommand};
use win95_desktop::apps::paint::{PaintApp, PaintState, Stroke, ToolbarEffect};
use win95_desktop::apps::sysinfo::{SysInfoApp, GENERAL_PAGE, HARDWARE_PAGE};

#[test]
fn cd_player_plays_and_skips() {
    let mut cd = CdState::new();
    assert_eq!(cd.display_text(), "⏸ Track 01 [00:00]");
    assert_eq!(cd.handle_action("play"), TimerEffect::Start);
    assert!(cd.tick());
    assert!(cd.tick());
    assert!(cd.tick());
    assert_eq!(cd.display_text(), "▶ Track 01 [00:03]");
    assert_eq!(cd.handle_action("next"), TimerEffect::Keep);
    assert_eq!(cd.display_text(), "▶ Track 02 [00:00]");
    cd.handle_action("prev");
    cd.handle_action("prev");
    assert_eq!(cd.display_text(), "▶ Track 14 [00:00]");
    assert_eq!(cd.handle_action("play"), TimerEffect::Stop);
    assert!(!cd.tick());
}

#[test]
fn cd_player_moves_on_after_thirty_seconds() {
    let mut cd = CdState::new();
    cd.handle_action("play");
    for _ in 0..29 {
        cd.tick();
    }
    assert_eq!(cd.display_text(), "▶ Track 01 [00:29]");
    cd.tick();
    assert_eq!(cd.display_text(), "▶ Track 02 [00:00]");
    cd.handle_action("stop");
    assert_eq!(cd.display_text(), "⏸ Track 02 [00:00]");
}

#[test]
fn cd_player_eject() {
    let mut cd = CdState::new();
    cd.handle_action("next");
    assert_eq!(cd.handle_action("eject"), TimerEffect::Stop);
    assert_eq!(cd.display_text(), "No Disc");
    assert_eq!(cd.handle_action("play"), TimerEffect::Keep);
    assert_eq!(cd.display_text(), "No Disc");
    assert_eq!(cd.handle_action("eject"), TimerEffect::Keep);
    assert_eq!(cd.display_text(), "⏸ Track 01 [00:00]");
}

#[test]
fn calendar_navigation_wraps_years() {
    let mut n = CalendarNav { year: 2026, month: 12 };
    n.next();
    assert_eq!((n.year, n.month), (2027, 1));
    n.prev();
    assert_eq!((n.year, n.month), (2026, 12));
    n.navigate("prev");
    assert_eq!((n.year, n.month), (2026, 11));
    n.navigate("next");
    assert_eq!((n.year, n.month), (2026, 12));
}

#[test]
fn calendar_marks_today_only_in_its_month() {
    let n = CalendarNav { year: 2026, month: 6 };
    assert_eq!(n.today_in_view(29, 5, 2026), Some(29));
    assert_eq!(n.today_in_view(29, 6, 2026), None);
    assert_eq!(n.today_in_view(29, 5, 2025), None);
}

#[test]
fn calendar_month_layout() {
    assert_eq!(month_name(2), "February");
    assert_eq!(month_name(13), "?");
    let cells = month_cells(3, 30);
    assert_eq!(cells.len(), 35);
    assert_eq!(&cells[0..4], &[None, None, None, Some(1)]);
    assert_eq!(cells[32], Some(30));
    assert_eq!(cells[33], None);
    assert_eq!(month_cells(0, 28).len(), 28);
}

#[test]
fn calculator_entry() {
    assert_eq!(CalculatorApp::backspace("123"), "12");
    assert_eq!(CalculatorApp::backspace("7"), "0");
    assert_eq!(CalculatorApp::enter_digit("0", false, "5"), Some(("5".to_string(), false)));
    assert_eq!(CalculatorApp::enter_digit("12", false, "."), Some(("12.".to_string(), false)));
    assert_eq!(CalculatorApp::enter_digit("1.5", false, "."), None);
    assert_eq!(CalculatorApp::enter_digit("1.5", true, "."), Some(("0.".to_string(), false)));
    assert_eq!(CalculatorApp::enter_digit("42", true, "9"), Some(("9".to_string(), false)));
    assert_eq!(
        CalculatorApp::enter_digit("123456789012345", false, "6"),
        Some(("123456789012345".to_string(), false))
    );
}

#[test]
fn calculator_keys() {
    assert_eq!(CalculatorApp::key_action("7"), Some("7".to_string()));
    assert_eq!(CalculatorApp::key_action("Enter"), Some("=".to_string()));
    assert_eq!(CalculatorApp::key_action("Escape"), Some("C".to_string()));
    assert_eq!(CalculatorApp::key_action("Backspace"), Some("Back".to_string()));
    assert_eq!(CalculatorApp::key_action("*"), Some("*".to_string()));
    assert_eq!(CalculatorApp::key_action("x"), None);
}

#[test]
fn sysinfo_tabs() {
    assert_eq!(SysInfoApp::tab_content("hardware", 3), HARDWARE_PAGE);
    assert_eq!(SysInfoApp::tab_content("general", 3), GENERAL_PAGE);
    assert_eq!(SysInfoApp::tab_content("whatever", 3), GENERAL_PAGE);
    let perf = SysInfoApp::tab_content("performance", 12);
    assert!(perf.contains("Open Windows:</td><td>12</td></tr>"));
    assert!(perf.starts_with("\n<h3>Performance</h3>"));
    assert!(SysInfoApp::is_active_tab("hardware", "hardware"));
    assert!(!SysInfoApp::is_active_tab("general", "hardware"));
}

#[test]
fn notepad_menu_and_window_ids() {
    assert_eq!(NotepadApp::menu_command("new"), NotepadCommand::ClearText);
    assert_eq!(NotepadApp::menu_command("save"), NotepadCommand::Save);
    assert_eq!(NotepadApp::menu_command("exit"), NotepadCommand::CloseWindow);
    assert_eq!(NotepadApp::menu_command("open"), NotepadCommand::Nothing);
    assert_eq!(NotepadApp::window_id_of("win-7"), Some(7));
    assert_eq!(NotepadApp::window_id_of("win-+12"), Some(12));
    assert_eq!(NotepadApp::window_id_of("win-"), None);
    assert_eq!(NotepadApp::window_id_of("win-x"), None);
    assert_eq!(NotepadApp::window_id_of("tb-7"), None);
    assert_eq!(NotepadApp::window_id_of("win-4294967296"), None);
}

#[test]
fn paint_tools_and_strokes() {
    let mut p = PaintState::new();
    assert_eq!(p.tool, "pencil");
    assert_eq!(p.drag(), None);
    assert_eq!(p.press(), Stroke::Dot { radius_halves: 1 });
    assert_eq!(p.drag(), Some(Stroke::Dot { radius_halves: 1 }));
    p.release();
    assert_eq!(p.drag(), None);
    assert_eq!(p.toolbar_click(None, Some("5")), ToolbarEffect::Selected);
    assert_eq!(p.size, 5);
    assert_eq!(p.toolbar_click(Some("brush"), None), ToolbarEffect::Selected);
    assert_eq!(p.stroke(), Stroke::Dot { radius_halves: 15 });
    assert_eq!(p.toolbar_click(Some("eraser"), None), ToolbarEffect::Selected);
    assert_eq!(p.stroke(), Stroke::Erase { side: 5 });
    assert_eq!(p.toolbar_click(Some("clear"), None), ToolbarEffect::ClearCanvas);
    assert_eq!(p.tool, "eraser");
    assert_eq!(p.toolbar_click(None, Some("big")), ToolbarEffect::Nothing);
    assert_eq!(p.size, 5);
    p.select_color("#ff0000");
    assert_eq!(p.color, "#ff0000");
}

#[test]
fn paint_palette_and_canvas() {
    let html = PaintApp::palette_html();
    assert!(html.starts_with(
        "<div class=\"paint-color selected\" data-color=\"#000000\" style=\"background:#000000;\"></div><div class=\"paint-color\" data-color=\"#ffffff\""
    ));
    assert_eq!(html.matches("paint-color").count(), 16);
    assert!(html.ends_with("data-color=\"#008080\" style=\"background:#008080;\"></div>"));
    assert_eq!(PaintApp::canvas_size(600, 450), (600, 386));
    assert_eq!(PaintApp::canvas_size(100, 100), (200, 100));
}

#[test]
fn calendar_next_undoes_prev_across_years() {
    let mut n = CalendarNav { year: 2026, month: 1 };
    n.prev();
    assert_eq!((n.year, n.month), (2025, 12));
    n.next();
    assert_eq!((n.year, n.month), (2026, 1));
}
