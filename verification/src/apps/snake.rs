//! Snake on a 20 by 20 board. Where food appears is drawn at random by
//! the caller and handed in.

use vstd::prelude::*;
use crate::text::{chars_of, eq_str};

verus! {

pub const GRID_SIZE: i32 = 20;

/// A board cell `(x, y)`.
pub type Cell = (i32, i32);

pub open spec fn in_grid(c: Cell) -> bool {
    0 <= c.0 < 20 && 0 <= c.1 < 20
}

/// One step left, right, up or down.
pub open spec fn is_step(d: Cell) -> bool {
    (d.0 == 0 && (d.1 == 1 || d.1 == -1)) || (d.1 == 0 && (d.0 == 1 || d.0 == -1))
}

pub open spec fn opposite(a: Cell, b: Cell) -> bool {
    a.0 == -b.0 && a.1 == -b.1
}

pub open spec fn shifted(c: Cell, d: Cell) -> Cell {
    ((c.0 + d.0) as i32, (c.1 + d.1) as i32)
}

/// The game as a mathematical value.
pub struct SnakeView {
    pub body: Seq<Cell>,
    pub direction: Cell,
    pub next_direction: Cell,
    pub food: Cell,
    pub score: u32,
    pub high_score: u32,
    pub game_over: bool,
    pub paused: bool,
    pub speed_ms: u32,
}

/// What every game keeps: the snake is on the board, at least two cells
/// long, no two of its cells alike; while it runs its second cell is right
/// behind its head; it never heads back the way it came; and the high score
/// is at least the score.
pub open spec fn snake_wf(s: SnakeView) -> bool {
    &&& s.body.len() >= 2
    &&& forall|i: int| 0 <= i < s.body.len() ==> in_grid(#[trigger] s.body[i])
    &&& forall|i: int, j: int| 0 <= i < j < s.body.len() ==> #[trigger] s.body[i] != #[trigger] s.body[j]
    &&& is_step(s.direction)
    &&& is_step(s.next_direction)
    &&& !opposite(s.next_direction, s.direction)
    &&& !s.game_over ==> shifted(s.body[1], s.direction) == s.body[0]
    &&& s.high_score >= s.score
    &&& s.score % 10 == 0
}

/// The snake as it starts: three cells heading right from the middle.
pub open spec fn start_body() -> Seq<Cell> {
    seq![(10i32, 10i32), (9i32, 10i32), (8i32, 10i32)]
}

/// The pace of the game after scoring `score`: 150 ms, 5 ms faster for
/// every 20 points, never faster than 60 ms.
pub open spec fn speed_for(score: u32) -> u32 {
    let s = 150 - (score / 20) * 5;
    (if s > 60 { s } else { 60 }) as u32
}

/// The pace quickens with the score: it starts at 150 ms, never gets faster
/// than 60 ms, never slows down as the score grows, and every 20 points take
/// 5 ms off until the floor.
pub proof fn lemma_speed_schedule(a: u32, b: u32)
    ensures
        speed_for(0) == 150,
        60 <= speed_for(a) <= 150,
        a <= b ==> speed_for(b) <= speed_for(a),
        a < 360 ==> speed_for(a) == 150 - (a / 20) * 5,
{
    if a <= b {
        assert((a / 20) * 5 <= (b / 20) * 5) by (nonlinear_arith)
            requires
                a <= b,
        {
            assert(a / 20 <= b / 20) by (nonlinear_arith) requires a <= b;
        }
    }
    if a < 360 {
        assert((a / 20) * 5 <= 85) by (nonlinear_arith)
            requires
                a < 360,
        {
            assert(a / 20 <= 17) by (nonlinear_arith) requires a < 360;
        }
    }
}

/// The cell the head moves into on the next tick.
pub open spec fn next_head(s: SnakeView) -> Cell {
    shifted(s.body[0], s.next_direction)
}

/// The next tick ends the game: the head leaves the board or runs into
/// the snake (its current tail included).
pub open spec fn tick_crashes(s: SnakeView) -> bool {
    !in_grid(next_head(s)) || s.body.contains(next_head(s))
}

/// What one tick of the game loop did.
#[derive(Clone, Copy, PartialEq, Eq, Structural, Debug)]
pub enum TickOutcome {
    /// The game is paused or over: the loop stops.
    Stopped,
    /// The snake hit a wall or itself.
    Crashed,
    /// The snake moved.
    Moved,
    /// The snake moved onto the food and grew; new food must be placed.
    Ate,
}

/// The game after one tick.
pub open spec fn after_tick(s: SnakeView) -> (SnakeView, TickOutcome) {
    if s.paused || s.game_over {
        (s, TickOutcome::Stopped)
    } else if tick_crashes(s) {
        (SnakeView { direction: s.next_direction, game_over: true, ..s }, TickOutcome::Crashed)
    } else if next_head(s) == s.food {
        let score = (s.score + 10) as u32;
        (
            SnakeView {
                body: seq![next_head(s)] + s.body,
                direction: s.next_direction,
                score,
                high_score: if score > s.high_score { score } else { s.high_score },
                speed_ms: speed_for(score),
                ..s
            },
            TickOutcome::Ate,
        )
    } else {
        (
            SnakeView {
                body: (seq![next_head(s)] + s.body).drop_last(),
                direction: s.next_direction,
                ..s
            },
            TickOutcome::Moved,
        )
    }
}

/// What a key press did.
#[derive(Clone, Copy, PartialEq, Eq, Structural, Debug)]
pub enum KeyOutcome {
    /// Not a game key: let the browser have it.
    Ignored,
    /// A game key, handled.
    Handled,
    /// Pause was toggled; the game is now paused.
    Paused,
    /// Pause was toggled; the game runs again.
    Resumed,
    /// Space after the game ended: start a new game.
    Restart,
}

pub open spec fn is_up_key(k: Seq<char>) -> bool {
    k == "ArrowUp"@ || k == "w"@ || k == "W"@
}

pub open spec fn is_down_key(k: Seq<char>) -> bool {
    k == "ArrowDown"@ || k == "s"@ || k == "S"@
}

pub open spec fn is_left_key(k: Seq<char>) -> bool {
    k == "ArrowLeft"@ || k == "a"@ || k == "A"@
}

pub open spec fn is_right_key(k: Seq<char>) -> bool {
    k == "ArrowRight"@ || k == "d"@ || k == "D"@
}

pub open spec fn is_pause_key(k: Seq<char>) -> bool {
    k == "p"@ || k == "P"@
}

/// The game after a key press. The arrows (or WASD) only turn the snake
/// across its current heading; the turn takes effect on the next tick.
pub open spec fn after_key(s: SnakeView, k: Seq<char>) -> (SnakeView, KeyOutcome) {
    if s.game_over {
        (s, if k == " "@ { KeyOutcome::Restart } else { KeyOutcome::Ignored })
    } else if is_up_key(k) {
        (if s.direction.1 == 0 { SnakeView { next_direction: (0i32, -1i32), ..s } } else { s }, KeyOutcome::Handled)
    } else if is_down_key(k) {
        (if s.direction.1 == 0 { SnakeView { next_direction: (0i32, 1i32), ..s } } else { s }, KeyOutcome::Handled)
    } else if is_left_key(k) {
        (if s.direction.0 == 0 { SnakeView { next_direction: (-1i32, 0i32), ..s } } else { s }, KeyOutcome::Handled)
    } else if is_right_key(k) {
        (if s.direction.0 == 0 { SnakeView { next_direction: (1i32, 0i32), ..s } } else { s }, KeyOutcome::Handled)
    } else if is_pause_key(k) {
        (SnakeView { paused: !s.paused, ..s }, if !s.paused { KeyOutcome::Paused } else { KeyOutcome::Resumed })
    } else {
        (s, KeyOutcome::Ignored)
    }
}

/// The game of Snake.
pub struct SnakeState {
    body: Vec<Cell>,
    direction: Cell,
    next_direction: Cell,
    food: Cell,
    score: u32,
    high_score: u32,
    game_over: bool,
    paused: bool,
    speed_ms: u32,
}

impl View for SnakeState {
    type V = SnakeView;

    closed spec fn view(&self) -> SnakeView {
        SnakeView {
            body: self.body@,
            direction: self.direction,
            next_direction: self.next_direction,
            food: self.food,
            score: self.score,
            high_score: self.high_score,
            game_over: self.game_over,
            paused: self.paused,
            speed_ms: self.speed_ms,
        }
    }
}

fn start_body_vec() -> (v: Vec<Cell>)
    ensures
        v@ == start_body(),
{
    let mut v: Vec<Cell> = Vec::new();
    v.push((10, 10));
    v.push((9, 10));
    v.push((8, 10));
    assert(v@ =~= start_body());
    v
}

impl SnakeState {
    pub open spec fn wf(&self) -> bool {
        snake_wf(self@)
    }

    /// A new game, keeping `high_score` from earlier games; the food is
    /// not placed yet.
    pub fn new_game(high_score: u32) -> (s: Self)
        ensures
            s.wf(),
            s@.body == start_body(),
            s@.direction == (1i32, 0i32),
            s@.next_direction == (1i32, 0i32),
            s@.score == 0,
            s@.high_score == high_score,
            !s@.game_over,
            !s@.paused,
            s@.speed_ms == 150,
    {
        SnakeState {
            body: start_body_vec(),
            direction: (1, 0),
            next_direction: (1, 0),
            food: (10, 10),
            score: 0,
            high_score,
            game_over: false,
            paused: false,
            speed_ms: 150,
        }
    }

    /// Starts over (the Reset button or Space after a crash), keeping the
    /// high score and the food until new food is placed.
    pub fn reset(&mut self)
        requires
            old(self).wf(),
        ensures
            final(self).wf(),
            final(self)@ == (SnakeView {
                body: start_body(),
                direction: (1i32, 0i32),
                next_direction: (1i32, 0i32),
                score: 0,
                game_over: false,
                paused: false,
                speed_ms: 150,
                ..old(self)@
            }),
    {
        self.body = start_body_vec();
        self.direction = (1, 0);
        self.next_direction = (1, 0);
        self.score = 0;
        self.game_over = false;
        self.paused = false;
        self.speed_ms = 150;
    }

    /// The snake, head first.
    pub fn body(&self) -> (b: &[Cell])
        ensures
            b@ == self@.body,
    {
        self.body.as_slice()
    }

    pub fn food(&self) -> (f: Cell)
        ensures
            f == self@.food,
    {
        self.food
    }

    pub fn score(&self) -> (n: u32)
        ensures
            n == self@.score,
    {
        self.score
    }

    pub fn high_score(&self) -> (n: u32)
        ensures
            n == self@.high_score,
    {
        self.high_score
    }

    pub fn game_over(&self) -> (b: bool)
        ensures
            b == self@.game_over,
    {
        self.game_over
    }

    pub fn paused(&self) -> (b: bool)
        ensures
            b == self@.paused,
    {
        self.paused
    }

    /// The delay before the next tick, in milliseconds.
    pub fn speed_ms(&self) -> (n: u32)
        ensures
            n == self@.speed_ms,
    {
        self.speed_ms
    }

    fn body_contains(&self, c: Cell) -> (b: bool)
        ensures
            b == self@.body.contains(c),
    {
        let mut i: usize = 0;
        while i < self.body.len()
            invariant
                i <= self.body.len(),
                forall|k: int| 0 <= k < i ==> self@.body[k] != c,
            decreases self.body.len() - i,
        {
            if self.body[i].0 == c.0 && self.body[i].1 == c.1 {
                assert(self@.body[i as int] == c);
                return true;
            }
            i = i + 1;
        }
        false
    }

    /// Puts the food at the drawn cell unless the snake is there. Returns
    /// whether the food was placed; if not, another cell must be drawn.
    pub fn try_place_food(&mut self, x: i32, y: i32) -> (placed: bool)
        ensures
            placed == !old(self)@.body.contains((x, y)),
            final(self)@ == (if placed { SnakeView { food: (x, y), ..old(self)@ } } else { old(self)@ }),
    {
        if self.body_contains((x, y)) {
            false
        } else {
            self.food = (x, y);
            true
        }
    }

    /// The Pause button: toggles pause unless the game is over. Returns
    /// whether the game is paused now.
    pub fn toggle_pause(&mut self) -> (paused: bool)
        ensures
            final(self)@ == (if old(self)@.game_over { old(self)@ } else { SnakeView { paused: !old(self)@.paused, ..old(self)@ } }),
            paused == final(self)@.paused,
    {
        if !self.game_over {
            self.paused = !self.paused;
        }
        self.paused
    }

    /// Handles a key press.
    pub fn key_press(&mut self, key: &str) -> (r: KeyOutcome)
        requires
            old(self).wf(),
        ensures
            final(self).wf(),
            (final(self)@, r) == after_key(old(self)@, key@),
    {
        let k = chars_of(key);
        let ks = k.as_slice();
        if self.game_over {
            return if eq_str(ks, " ") {
                KeyOutcome::Restart
            } else {
                KeyOutcome::Ignored
            };
        }
        if eq_str(ks, "ArrowUp") || eq_str(ks, "w") || eq_str(ks, "W") {
            if self.direction.1 == 0 {
                self.next_direction = (0, -1);
            }
            KeyOutcome::Handled
        } else if eq_str(ks, "ArrowDown") || eq_str(ks, "s") || eq_str(ks, "S") {
            if self.direction.1 == 0 {
                self.next_direction = (0, 1);
            }
            KeyOutcome::Handled
        } else if eq_str(ks, "ArrowLeft") || eq_str(ks, "a") || eq_str(ks, "A") {
            if self.direction.0 == 0 {
                self.next_direction = (-1, 0);
            }
            KeyOutcome::Handled
        } else if eq_str(ks, "ArrowRight") || eq_str(ks, "d") || eq_str(ks, "D") {
            if self.direction.0 == 0 {
                self.next_direction = (1, 0);
            }
            KeyOutcome::Handled
        } else if eq_str(ks, "p") || eq_str(ks, "P") {
            self.paused = !self.paused;
            if self.paused {
                KeyOutcome::Paused
            } else {
                KeyOutcome::Resumed
            }
        } else {
            KeyOutcome::Ignored
        }
    }

    /// Whether the next tick can run: eating at 610 points or more would
    /// take the game's delay below zero, which the speed schedule does not
    /// allow.
    pub fn tick_in_range(&self) -> (b: bool)
        requires
            self.wf(),
        ensures
            b == ((!self@.paused && !self@.game_over && !tick_crashes(self@) && next_head(self@)
                == self@.food) ==> (self@.score + 10) / 20 * 5 <= 150),
    {
        if self.paused || self.game_over {
            return true;
        }
        let head = self.body[0];
        let nh: Cell = (head.0 + self.next_direction.0, head.1 + self.next_direction.1);
        if nh.0 < 0 || nh.0 >= GRID_SIZE || nh.1 < 0 || nh.1 >= GRID_SIZE {
            return true;
        }
        if self.body_contains(nh) {
            return true;
        }
        if nh.0 == self.food.0 && nh.1 == self.food.1 {
            (self.score as u64 + 10) / 20 * 5 <= 150
        } else {
            true
        }
    }

    /// One tick of the game loop: the snake turns as last asked, moves one
    /// cell, and crashes, eats or just moves. Eating scores 10 points,
    /// raises the high score if beaten and speeds the game up.
    pub fn tick(&mut self) -> (r: TickOutcome)
        requires
            old(self).wf(),
            (!old(self)@.paused && !old(self)@.game_over && !tick_crashes(old(self)@) && next_head(old(self)@)
                == old(self)@.food) ==> (old(self)@.score + 10) / 20 * 5 <= 150,
        ensures
            final(self).wf(),
            (final(self)@, r) == after_tick(old(self)@),
    {
        if self.paused || self.game_over {
            return TickOutcome::Stopped;
        }
        self.direction = self.next_direction;
        let head = self.body[0];
        let nh: Cell = (head.0 + self.direction.0, head.1 + self.direction.1);
        if nh.0 < 0 || nh.0 >= GRID_SIZE || nh.1 < 0 || nh.1 >= GRID_SIZE {
            self.game_over = true;
            return TickOutcome::Crashed;
        }
        if self.body_contains(nh) {
            self.game_over = true;
            return TickOutcome::Crashed;
        }
        let ghost old_body = self@.body;
        self.body.insert(0, nh);
        assert(self@.body =~= seq![nh] + old_body);
        if nh.0 == self.food.0 && nh.1 == self.food.1 {
            self.score = self.score + 10;
            if self.score > self.high_score {
                self.high_score = self.score;
            }
            let step = (self.score / 20) * 5;
            let s = 150 - step;
            self.speed_ms = if s > 60 {
                s
            } else {
                60
            };
            assert(self@.body[1] == old_body[0]);
            TickOutcome::Ate
        } else {
            let ghost grown = self@.body;
            self.body.pop();
            assert(self@.body =~= grown.drop_last());
            assert(self@.body[1] == old_body[0]);
            TickOutcome::Moved
        }
    }
}

/// The snake cannot turn back on itself: while the game runs, the head
/// never moves into the cell right behind it.
pub proof fn lemma_no_u_turn(s: SnakeView)
    requires
        snake_wf(s),
        !s.game_over,
    ensures
        next_head(s) != s.body[1],
{
}

/// Each move keeps the length of the snake; eating makes it one longer.
pub proof fn lemma_tick_length(s: SnakeView)
    requires
        snake_wf(s),
    ensures
        after_tick(s).1 == TickOutcome::Ate ==> after_tick(s).0.body.len() == s.body.len() + 1,
        after_tick(s).1 != TickOutcome::Ate ==> after_tick(s).0.body.len() == s.body.len(),
{
}

/// A tick keeps the snake whole: it stays on the board with no two cells
/// alike and never gets shorter; a crash ends the game and leaves the snake
/// where it was.
pub proof fn lemma_tick_keeps_snake_whole(s: SnakeView)
    requires
        snake_wf(s),
        (!s.paused && !s.game_over && !tick_crashes(s) && next_head(s) == s.food) ==> (s.score + 10) / 20
            * 5 <= 150,
    ensures
        snake_wf(after_tick(s).0),
        after_tick(s).0.body.len() >= s.body.len(),
        after_tick(s).1 == TickOutcome::Crashed ==> after_tick(s).0.body == s.body
            && after_tick(s).0.game_over,
{
    let (t, r) = after_tick(s);
    if r == TickOutcome::Ate || r == TickOutcome::Moved {
        let g = seq![next_head(s)] + s.body;
        assert forall|i: int, j: int| 0 <= i < j < g.len() implies #[trigger] g[i] != #[trigger] g[j] by {
            if i == 0 {
                assert(g[j] == s.body[j - 1]);
                assert(s.body.contains(s.body[j - 1]));
            } else {
                assert(g[i] == s.body[i - 1]);
                assert(g[j] == s.body[j - 1]);
            }
        }
        assert forall|i: int| 0 <= i < g.len() implies in_grid(#[trigger] g[i]) by {
            if i > 0 {
                assert(g[i] == s.body[i - 1]);
            }
        }
        if r == TickOutcome::Ate {
            assert(t.body == g);
            assert(g[1] == s.body[0]);
        } else {
            assert(t.body == g.drop_last());
            assert(g[1] == s.body[0]);
            assert forall|i: int, j: int| 0 <= i < j < t.body.len() implies #[trigger] t.body[i] != #[trigger] t.body[j] by {
                assert(t.body[i] == g[i]);
                assert(t.body[j] == g[j]);
            }
            assert forall|i: int| 0 <= i < t.body.len() implies in_grid(#[trigger] t.body[i]) by {
                assert(t.body[i] == g[i]);
            }
        }
    }
}

proof fn lemma_key_groups()
    ensures
        is_up_key("ArrowUp"@) && !is_down_key("ArrowUp"@) && !is_left_key("ArrowUp"@) && !is_right_key("ArrowUp"@),
        is_up_key("w"@) && !is_down_key("w"@) && !is_left_key("w"@) && !is_right_key("w"@),
        is_up_key("W"@) && !is_down_key("W"@) && !is_left_key("W"@) && !is_right_key("W"@),
        is_down_key("ArrowDown"@) && !is_up_key("ArrowDown"@) && !is_left_key("ArrowDown"@) && !is_right_key("ArrowDown"@),
        is_down_key("s"@) && !is_up_key("s"@) && !is_left_key("s"@) && !is_right_key("s"@),
        is_down_key("S"@) && !is_up_key("S"@) && !is_left_key("S"@) && !is_right_key("S"@),
        is_left_key("ArrowLeft"@) && !is_up_key("ArrowLeft"@) && !is_down_key("ArrowLeft"@) && !is_right_key("ArrowLeft"@),
        is_left_key("a"@) && !is_up_key("a"@) && !is_down_key("a"@) && !is_right_key("a"@),
        is_left_key("A"@) && !is_up_key("A"@) && !is_down_key("A"@) && !is_right_key("A"@),
        is_right_key("ArrowRight"@) && !is_up_key("ArrowRight"@) && !is_down_key("ArrowRight"@) && !is_left_key("ArrowRight"@),
        is_right_key("d"@) && !is_up_key("d"@) && !is_down_key("d"@) && !is_left_key("d"@),
        is_right_key("D"@) && !is_up_key("D"@) && !is_down_key("D"@) && !is_left_key("D"@),
{
    reveal_strlit("ArrowUp");
    assert("ArrowUp"@.len() == 7);
    reveal_strlit("w");
    assert("w"@.len() == 1);
    reveal_strlit("W");
    assert("W"@.len() == 1);
    reveal_strlit("ArrowDown");
    assert("ArrowDown"@.len() == 9);
    reveal_strlit("s");
    assert("s"@.len() == 1);
    reveal_strlit("S");
    assert("S"@.len() == 1);
    reveal_strlit("ArrowLeft");
    assert("ArrowLeft"@.len() == 9);
    reveal_strlit("a");
    assert("a"@.len() == 1);
    reveal_strlit("A");
    assert("A"@.len() == 1);
    reveal_strlit("ArrowRight");
    assert("ArrowRight"@.len() == 10);
    reveal_strlit("d");
    assert("d"@.len() == 1);
    reveal_strlit("D");
    assert("D"@.len() == 1);
    reveal_strlit("p");
    assert("p"@.len() == 1);
    reveal_strlit("P");
    assert("P"@.len() == 1);
    reveal_strlit(" ");
    assert(" "@.len() == 1);
    assert("ArrowDown"@[5] == 'D' && "ArrowUp"@[5] == 'U' && "ArrowLeft"@[5] == 'L' && "ArrowRight"@[5] == 'R');
    assert("s"@[0] == 's');
    assert("S"@[0] == 'S');
    assert("w"@[0] == 'w');
    assert("W"@[0] == 'W');
    assert("a"@[0] == 'a');
    assert("A"@[0] == 'A');
    assert("d"@[0] == 'd');
    assert("D"@[0] == 'D');
    assert("p"@[0] == 'p');
    assert("P"@[0] == 'P');
    assert(" "@[0] == ' ');
}

/// The arrow keys (and W, A, S, D) steer where they point: down and up turn
/// a snake that runs sideways towards a larger or a smaller row, left and
/// right turn a snake that runs up or down towards a smaller or a larger
/// column, and the next head lies one cell that way.
pub proof fn lemma_arrow_keys_steer(s: SnakeView)
    requires
        !s.game_over,
        s.body.len() > 0,
    ensures
        s.direction.1 == 0 ==> after_key(s, "ArrowDown"@).0.next_direction == (0i32, 1i32),
        s.direction.1 == 0 ==> after_key(s, "s"@).0.next_direction == (0i32, 1i32),
        s.direction.1 == 0 ==> after_key(s, "S"@).0.next_direction == (0i32, 1i32),
        s.direction.1 == 0 ==> after_key(s, "ArrowUp"@).0.next_direction == (0i32, -1i32),
        s.direction.1 == 0 ==> after_key(s, "w"@).0.next_direction == (0i32, -1i32),
        s.direction.1 == 0 ==> after_key(s, "W"@).0.next_direction == (0i32, -1i32),
        s.direction.0 == 0 ==> after_key(s, "ArrowLeft"@).0.next_direction == (-1i32, 0i32),
        s.direction.0 == 0 ==> after_key(s, "a"@).0.next_direction == (-1i32, 0i32),
        s.direction.0 == 0 ==> after_key(s, "A"@).0.next_direction == (-1i32, 0i32),
        s.direction.0 == 0 ==> after_key(s, "ArrowRight"@).0.next_direction == (1i32, 0i32),
        s.direction.0 == 0 ==> after_key(s, "d"@).0.next_direction == (1i32, 0i32),
        s.direction.0 == 0 ==> after_key(s, "D"@).0.next_direction == (1i32, 0i32),
        s.direction.1 == 0 ==> next_head(after_key(s, "ArrowDown"@).0) == (s.body[0].0, (s.body[0].1 + 1) as i32),
        s.direction.1 == 0 ==> next_head(after_key(s, "ArrowUp"@).0) == (s.body[0].0, (s.body[0].1 - 1) as i32),
        s.direction.0 == 0 ==> next_head(after_key(s, "ArrowLeft"@).0) == ((s.body[0].0 - 1) as i32, s.body[0].1),
        s.direction.0 == 0 ==> next_head(after_key(s, "ArrowRight"@).0) == ((s.body[0].0 + 1) as i32, s.body[0].1),
{
    lemma_key_groups();
}

/// The Snake application.
pub struct SnakeApp;

} // verus!
