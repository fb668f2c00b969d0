use win95_desktop::terminal::{Clock, EnterAction, History, Terminal, HELP_TEXT};

fn clock(hours: u32, minutes: u32, seconds: u32) -> Clock {
    Clock { year: 2026, month: 5, day: 29, weekday: 1, hours, minutes, seconds }
}

#[test]
fn history_recalls_commands_in_order() {
    let mut h = History::new();
    h.push("help".to_string());
    h.push("dir".to_string());
    assert_eq!(h.up(), Some("dir".to_string()));
    assert_eq!(h.up(), Some("help".to_string()));
    assert_eq!(h.up(), Some("help".to_string()));
    assert_eq!(h.down(), Some("dir".to_string()));
    assert_eq!(h.down(), None);
}

#[test]
fn history_ignores_blank_lines_and_repeats() {
    let mut h = History::new();
    h.push(String::new());
    assert_eq!(h.up(), None);
    h.push("ver".to_string());
    h.push("ver".to_string());
    assert_eq!(h.up(), Some("ver".to_string()));
    assert_eq!(h.up(), Some("ver".to_string()));
    assert_eq!(h.down(), None);
}

#[test]
fn history_up_then_down_returns_to_the_end() {
    let mut h = History::new();
    h.push("a".to_string());
    h.push("b".to_string());
    h.push("c".to_string());
    assert_eq!(h.up(), Some("c".to_string()));
    assert_eq!(h.down(), None);
    assert_eq!(h.up(), Some("c".to_string()));
}

#[test]
fn time_uses_twelve_hour_clock() {
    assert_eq!(Terminal::execute_command("time", &clock(15, 5, 9)), "3:05:09 PM");
    assert_eq!(Terminal::execute_command("time", &clock(0, 0, 0)), "12:00:00 AM");
    assert_eq!(Terminal::execute_command("time", &clock(12, 30, 59)), "12:30:59 PM");
}

#[test]
fn date_shows_weekday_month_day_year() {
    assert_eq!(Terminal::execute_command("date", &clock(9, 0, 0)), "Mon Jun 29 2026");
}

#[test]
fn commands_are_case_insensitive() {
    assert_eq!(Terminal::execute_command("HELP", &clock(9, 0, 0)), HELP_TEXT);
    assert_eq!(Terminal::execute_command("  WhoAmI  ", &clock(9, 0, 0)), "Carlos — Software Engineer & Rust Enthusiast");
}

#[test]
fn echo_joins_its_words() {
    assert_eq!(Terminal::execute_command("  echo   hello    world ", &clock(9, 0, 0)), "hello world");
    assert_eq!(Terminal::execute_command("echo", &clock(9, 0, 0)), "ECHO is on.");
}

#[test]
fn type_reports_missing_file() {
    assert_eq!(Terminal::execute_command("type", &clock(9, 0, 0)), "Syntax: TYPE [filename]");
    assert_eq!(
        Terminal::execute_command("type cv.md", &clock(9, 0, 0)),
        "Cannot find file 'cv.md' — try opening it with File Manager."
    );
}

#[test]
fn unknown_command_is_reported_with_the_whole_line() {
    assert_eq!(
        Terminal::execute_command(" foo bar ", &clock(9, 0, 0)),
        "'foo bar' is not recognized as an internal or external command,\r\noperable program or batch file."
    );
}

#[test]
fn blank_line_prints_nothing() {
    assert_eq!(Terminal::execute_command("   ", &clock(9, 0, 0)), "");
}

#[test]
fn enter_handles_clear_and_exit() {
    assert!(matches!(Terminal::enter_action("  CLEAR "), EnterAction::Clear));
    assert!(matches!(Terminal::enter_action("exit"), EnterAction::Exit));
    assert!(matches!(Terminal::enter_action("dir"), EnterAction::Run));
}

#[test]
fn run_refuses_only_a_date_it_cannot_name() {
    let bad = Clock { year: 2026, month: 12, day: 1, weekday: 7, hours: 9, minutes: 0, seconds: 0 };
    assert_eq!(Terminal::run("date", &bad), None);
    assert_eq!(Terminal::run("  DATE now", &bad), None);
    assert_eq!(Terminal::run("email", &bad), Some("carlos@example.com".to_string()));
    assert_eq!(Terminal::run("date", &clock(9, 0, 0)), Some("Mon Jun 29 2026".to_string()));
}

#[test]
fn unix_style_commands() {
    assert_eq!(Terminal::execute_command("ls", &clock(9, 0, 0)), "about/  cv/  projects/  skills/  contact/  README");
    assert_eq!(Terminal::execute_command("LS", &clock(9, 0, 0)), "about/  cv/  projects/  skills/  contact/  README");
    assert_eq!(Terminal::execute_command("cat", &clock(9, 0, 0)), "Syntax: CAT [filename]");
    assert!(Terminal::execute_command("cat README", &clock(9, 0, 0)).starts_with("System 95 — Carlos' CV & portfolio."));
    assert_eq!(
        Terminal::execute_command("cat about.md", &clock(9, 0, 0)),
        "Cannot find file 'about.md' — try opening it with File Manager."
    );
    assert!(Terminal::execute_command("neofetch", &clock(9, 0, 0)).contains("OS:      System 95 [Version 95.0.0]"));
    assert_eq!(
        Terminal::execute_command("Shutdown", &clock(9, 0, 0)),
        "Shutting down System 95...\r\nIt is now safe to turn off your computer."
    );
    assert!(Terminal::execute_command("help", &clock(9, 0, 0)).contains("NEOFETCH  Show system information"));
}
