use win95_desktop::apps::minesweeper::{number_color, CellBackground, CellContent, CellState, ClickResult, MsState};
use win95_desktop::apps::snake::{KeyOutcome, SnakeState, TickOutcome};

fn top_row_mines() -> Vec<(usize, usize)> {
    let mut draws: Vec<(usize, usize)> = (0..9).map(|c| (0usize, c)).collect();
    draws.push((1, 0));
    draws
}

#[test]
fn minesweeper_labels_cells_with_touching_mines() {
    let mut g = MsState::init_game();
    assert!(g.needs_seeding());
    g.begin();
    let placed = g.seed_mines(&top_row_mines(), 8, 8);
    assert_eq!(placed, 10);
    assert_eq!(g.grid()[0], CellState::Mine);
    assert_eq!(g.grid()[9], CellState::Mine);
    assert_eq!(g.grid()[10], CellState::Number(4));
    assert_eq!(g.grid()[11], CellState::Number(3));
    assert_eq!(g.grid()[17], CellState::Number(2));
    assert_eq!(g.grid()[18], CellState::Number(1));
    assert_eq!(g.grid()[20], CellState::Empty);
}

#[test]
fn minesweeper_seeding_skips_safe_cell_and_repeats() {
    let mut g = MsState::init_game();
    g.begin();
    let draws = vec![(4, 4), (0, 0), (0, 0), (0, 1)];
    assert_eq!(g.seed_mines(&draws, 4, 4), 2);
    assert_eq!(g.grid()[40], CellState::Empty);
    assert_eq!(g.grid()[0], CellState::Mine);
}

#[test]
fn minesweeper_cascade_from_empty_corner_wins() {
    let mut g = MsState::init_game();
    g.begin();
    g.seed_mines(&top_row_mines(), 8, 8);
    assert_eq!(g.click_cell(8, 8), ClickResult::Won);
    assert!(g.won());
    assert!(g.is_revealed(1, 1));
    assert!(!g.is_revealed(0, 0));
    assert_eq!(g.cell_content(1, 1), CellContent::Number(4));
    assert_eq!(g.cell_background(1, 1), CellBackground::Sunken);
    assert_eq!(g.click_cell(5, 5), ClickResult::Ignored);
}

#[test]
fn minesweeper_mine_loses_the_game() {
    let mut g = MsState::init_game();
    g.begin();
    g.seed_mines(&top_row_mines(), 8, 8);
    assert_eq!(g.click_cell(1, 1), ClickResult::Revealed);
    assert!(g.is_revealed(1, 1));
    assert!(!g.is_revealed(2, 2));
    assert_eq!(g.click_cell(0, 3), ClickResult::Lost);
    assert!(g.game_over());
    assert_eq!(g.cell_content(0, 5), CellContent::Mine);
    assert_eq!(g.cell_background(0, 5), CellBackground::Exploded);
    assert_eq!(g.tick(), false);
}

#[test]
fn minesweeper_flags_count_down_and_block_clicks() {
    let mut g = MsState::init_game();
    assert_eq!(g.cell_content(0, 0), CellContent::Blank);
    assert_eq!(g.cell_background(0, 0), CellBackground::Raised);
    assert!(!g.toggle_flag(0, 0));
    g.begin();
    g.seed_mines(&top_row_mines(), 8, 8);
    assert_eq!(g.counter_text(), "010");
    assert!(g.toggle_flag(0, 0));
    assert!(g.is_flagged(0, 0));
    assert_eq!(g.counter_text(), "009");
    assert_eq!(g.cell_content(0, 0), CellContent::Flag);
    assert_eq!(g.click_cell(0, 0), ClickResult::Ignored);
    assert!(g.toggle_flag(0, 0));
    assert_eq!(g.counter_text(), "010");
}

#[test]
fn minesweeper_clock_counts_while_running() {
    let mut g = MsState::init_game();
    assert_eq!(g.timer_text(), "000");
    assert_eq!(g.tick(), false);
    g.begin();
    assert_eq!(g.tick(), true);
    assert_eq!(g.tick(), true);
    assert_eq!(g.timer_text(), "002");
    g.stop_timer();
    assert_eq!(g.tick(), false);
}

#[test]
fn minesweeper_number_colors() {
    assert_eq!(number_color(1), "blue");
    assert_eq!(number_color(3), "red");
    assert_eq!(number_color(8), "gray");
}

#[test]
fn snake_eats_and_grows() {
    let mut s = SnakeState::new_game(0);
    assert_eq!(s.body(), &[(10, 10), (9, 10), (8, 10)]);
    assert!(s.try_place_food(11, 10));
    assert!(!s.try_place_food(9, 10));
    assert!(s.tick_in_range());
    assert_eq!(s.tick(), TickOutcome::Ate);
    assert_eq!(s.score(), 10);
    assert_eq!(s.high_score(), 10);
    assert_eq!(s.body().len(), 4);
    assert_eq!(s.body()[0], (11, 10));
    assert_eq!(s.speed_ms(), 150);
}

#[test]
fn snake_turns_only_across_its_heading() {
    let mut s = SnakeState::new_game(0);
    s.try_place_food(0, 0);
    assert_eq!(s.key_press("ArrowLeft"), KeyOutcome::Handled);
    assert_eq!(s.tick(), TickOutcome::Moved);
    assert_eq!(s.body()[0], (11, 10));
    assert_eq!(s.key_press("w"), KeyOutcome::Handled);
    assert_eq!(s.tick(), TickOutcome::Moved);
    assert_eq!(s.body()[0], (11, 9));
    assert_eq!(s.body().len(), 3);
    assert_eq!(s.key_press("q"), KeyOutcome::Ignored);
}

#[test]
fn snake_crashes_into_the_wall() {
    let mut s = SnakeState::new_game(30);
    s.try_place_food(0, 0);
    for _ in 0..9 {
        assert_eq!(s.tick(), TickOutcome::Moved);
    }
    assert_eq!(s.body()[0], (19, 10));
    assert_eq!(s.tick(), TickOutcome::Crashed);
    assert!(s.game_over());
    assert_eq!(s.high_score(), 30);
    assert_eq!(s.tick(), TickOutcome::Stopped);
    assert_eq!(s.key_press(" "), KeyOutcome::Restart);
    s.reset();
    assert!(!s.game_over());
    assert_eq!(s.score(), 0);
    assert_eq!(s.high_score(), 30);
}

#[test]
fn snake_pauses() {
    let mut s = SnakeState::new_game(0);
    assert_eq!(s.key_press("p"), KeyOutcome::Paused);
    assert!(s.paused());
    assert_eq!(s.tick(), TickOutcome::Stopped);
    assert_eq!(s.key_press("P"), KeyOutcome::Resumed);
    assert!(s.toggle_pause());
    assert!(!s.toggle_pause());
}
