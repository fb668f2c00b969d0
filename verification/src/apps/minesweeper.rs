//! Minesweeper on a 9 by 9 board with 10 mines.
//!
//! Cells are numbered row by row: cell `r * 9 + c` is at row `r`, column `c`.
//! Where the mines go is drawn at random by the caller and handed in; the
//! board never puts a mine under the first click.

use vstd::prelude::*;
use crate::text::{dec_padded, push_decimal_padded, string_from};

verus! {

pub const GRID_SIZE: usize = 9;
pub const MINE_COUNT: usize = 10;
pub const CELLS: usize = 81;

/// What a cell holds.
#[derive(Clone, Copy, PartialEq, Eq, Structural, Debug)]
pub enum CellState {
    Mine,
    /// A safe cell next to this many mines (1 to 8).
    Number(u8),
    /// A safe cell with no mine around it.
    Empty,
}

pub open spec fn row_of(i: int) -> int {
    i / 9
}

pub open spec fn col_of(i: int) -> int {
    i % 9
}

pub open spec fn valid_cell(i: int) -> bool {
    0 <= i < 81
}

pub open spec fn abs_le1(d: int) -> bool {
    -1 <= d <= 1
}

/// Cells `a` and `b` are on the board and touch, or are the same cell.
pub open spec fn near(a: int, b: int) -> bool {
    &&& valid_cell(a)
    &&& valid_cell(b)
    &&& abs_le1(row_of(a) - row_of(b))
    &&& abs_le1(col_of(a) - col_of(b))
}

/// Number of `true` entries.
pub open spec fn true_count(s: Seq<bool>) -> nat
    decreases s.len(),
{
    if s.len() == 0 {
        0
    } else {
        true_count(s.drop_last()) + if s.last() {
            1nat
        } else {
            0nat
        }
    }
}

/// Number of mines among the first `upto` cells near cell `i`.
pub open spec fn mines_near_upto(g: Seq<CellState>, i: int, upto: int) -> nat
    decreases upto,
{
    if upto <= 0 {
        0
    } else {
        mines_near_upto(g, i, upto - 1) + if near(i, upto - 1) && g[upto - 1] == CellState::Mine {
            1nat
        } else {
            0nat
        }
    }
}

/// Number of mines touching cell `i`.
pub open spec fn mines_near(g: Seq<CellState>, i: int) -> nat {
    mines_near_upto(g, i, 81)
}

/// Number of mines on the board.
pub open spec fn mine_total_upto(g: Seq<CellState>, upto: int) -> nat
    decreases upto,
{
    if upto <= 0 {
        0
    } else {
        mine_total_upto(g, upto - 1) + if g[upto - 1] == CellState::Mine {
            1nat
        } else {
            0nat
        }
    }
}

pub open spec fn mine_total(g: Seq<CellState>) -> nat {
    mine_total_upto(g, 81)
}

/// The board with every safe cell labelled by its count of touching mines.
pub open spec fn with_numbers(g: Seq<CellState>) -> Seq<CellState> {
    Seq::new(
        81,
        |i: int|
            if g[i] == CellState::Mine {
                CellState::Mine
            } else if mines_near(g, i) > 0 {
                CellState::Number(mines_near(g, i) as u8)
            } else {
                CellState::Empty
            },
    )
}

/// Places mines at the drawn cells in order, skipping a cell that already
/// holds a mine and the safe cell, until there are ten mines or no draws
/// left. Returns the board and the number of mines on it.
pub open spec fn place_mines(g: Seq<CellState>, mines: nat, draws: Seq<(usize, usize)>, safe: int) -> (Seq<CellState>, nat)
    decreases draws.len(),
{
    if mines >= 10 || draws.len() == 0 {
        (g, mines)
    } else {
        let d = draws[0];
        let i = d.0 * 9 + d.1;
        if g[i] == CellState::Mine || i == safe {
            place_mines(g, mines, draws.drop_first(), safe)
        } else {
            place_mines(g.update(i, CellState::Mine), mines + 1, draws.drop_first(), safe)
        }
    }
}

/// Every cell that `rev` shows and `base` did not, if it touches no mine,
/// has all its unflagged neighbours shown as well.
pub open spec fn closed(rev: Seq<bool>, base: Seq<bool>, flags: Seq<bool>, g: Seq<CellState>) -> bool {
    forall|x: int, y: int|
        #![trigger rev[x], rev[y]]
        valid_cell(x) && rev[x] && !base[x] && g[x] == CellState::Empty && near(x, y) && !flags[y]
            ==> rev[y]
}

/// `s` shows every cell `base` shows, the target if it is on the board and
/// unflagged, and is closed: a candidate for what revealing can show.
pub open spec fn covers(s: Seq<bool>, base: Seq<bool>, flags: Seq<bool>, g: Seq<CellState>, t: int) -> bool {
    &&& s.len() == 81
    &&& forall|i: int| 0 <= i < 81 && base[i] ==> #[trigger] s[i]
    &&& (valid_cell(t) && !flags[t]) ==> s[t]
    &&& closed(s, base, flags, g)
}

/// Every cell shown by `a` is shown by `b`.
pub open spec fn shown_within(a: Seq<bool>, b: Seq<bool>) -> bool {
    forall|i: int| 0 <= i < 81 && a[i] ==> #[trigger] b[i]
}

/// The board as a mathematical value.
pub struct MsView {
    pub grid: Seq<CellState>,
    pub revealed: Seq<bool>,
    pub flagged: Seq<bool>,
    pub mines: nat,
    pub game_over: bool,
    pub won: bool,
    pub first_click: bool,
    pub flag_count: i32,
    pub timer_secs: i32,
    pub timer_active: bool,
}

/// What every board keeps: 81 cells, `mines` counts the mines, no cell is
/// both flagged and shown, the flag counter counts the flags, and the clock
/// is not negative.
pub open spec fn ms_wf(m: MsView) -> bool {
    &&& m.grid.len() == 81
    &&& m.revealed.len() == 81
    &&& m.flagged.len() == 81
    &&& m.mines == mine_total(m.grid)
    &&& forall|i: int| 0 <= i < 81 ==> !(#[trigger] m.flagged[i] && m.revealed[i])
    &&& m.flag_count == true_count(m.flagged)
    &&& m.timer_secs >= 0
}

/// The game after the flag on cell `t` is set or taken away; the flag
/// counter follows.
pub open spec fn flag_toggled(m: MsView, t: int) -> MsView {
    let f = m.flagged.update(t, !m.flagged[t]);
    MsView { flagged: f, flag_count: true_count(f) as i32, ..m }
}

/// Flagging a cell twice leaves the game as it was.
pub proof fn lemma_flag_twice_restores(m: MsView, t: int)
    requires
        ms_wf(m),
        0 <= t < 81,
    ensures
        flag_toggled(flag_toggled(m, t), t) == m,
{
    let m1 = flag_toggled(m, t);
    assert(m1.flagged.update(t, !m1.flagged[t]) =~= m.flagged);
    lemma_true_count_bound(m.flagged);
}

/// The game after the visitor asks to show cell `t`: the least closed
/// extension of what was shown that includes `t` (if on the board and
/// unflagged).
pub open spec fn reveal_post(before: MsView, after: MsView, t: int, r: bool) -> bool {
    &&& after == MsView { revealed: after.revealed, ..before }
    &&& after.revealed.len() == 81
    &&& shown_within(before.revealed, after.revealed)
    &&& (valid_cell(t) && !before.flagged[t]) ==> after.revealed[t]
    &&& closed(after.revealed, before.revealed, before.flagged, before.grid)
    &&& forall|s: Seq<bool>|
        #[trigger] covers(s, before.revealed, before.flagged, before.grid, t) ==> shown_within(
            after.revealed,
            s,
        )
    &&& forall|i: int| 0 <= i < 81 && after.revealed[i] && !before.revealed[i] ==> !#[trigger] before.flagged[i]
    &&& r == !(valid_cell(t) && !before.revealed[t] && !before.flagged[t] && before.grid[t]
        == CellState::Mine)
}

pub proof fn lemma_true_count_bound(s: Seq<bool>)
    ensures
        true_count(s) <= s.len(),
    decreases s.len(),
{
    if s.len() > 0 {
        lemma_true_count_bound(s.drop_last());
    }
}

/// Showing more cells raises the count of shown cells; showing a new cell
/// raises it strictly.
pub proof fn lemma_true_count_mono(a: Seq<bool>, b: Seq<bool>)
    requires
        a.len() == b.len(),
        forall|i: int| 0 <= i < a.len() && a[i] ==> #[trigger] b[i],
    ensures
        true_count(a) <= true_count(b),
        (exists|i: int| 0 <= i < a.len() && !a[i] && #[trigger] b[i]) ==> true_count(a) < true_count(b),
    decreases a.len(),
{
    if a.len() > 0 {
        let a1 = a.drop_last();
        let b1 = b.drop_last();
        assert forall|i: int| 0 <= i < a1.len() && a1[i] implies #[trigger] b1[i] by {
            assert(a[i]);
        }
        lemma_true_count_mono(a1, b1);
        if exists|i: int| 0 <= i < a.len() && !a[i] && #[trigger] b[i] {
            let i = choose|i: int| 0 <= i < a.len() && !a[i] && #[trigger] b[i];
            if i < a.len() - 1 {
                assert(!a1[i] && b1[i]);
            }
        }
    }
}

proof fn lemma_true_count_update(s: Seq<bool>, i: int, v: bool)
    requires
        0 <= i < s.len(),
    ensures
        true_count(s.update(i, v)) + (if s[i] { 1int } else { 0 }) == true_count(s) + (if v { 1int } else { 0 }),
    decreases s.len(),
{
    let u = s.update(i, v);
    if i < s.len() - 1 {
        assert(u.drop_last() =~= s.drop_last().update(i, v));
        lemma_true_count_update(s.drop_last(), i, v);
    } else {
        assert(u.drop_last() =~= s.drop_last());
    }
}

proof fn lemma_mine_total_update(g: Seq<CellState>, i: int, upto: int)
    requires
        0 <= i < g.len(),
        0 <= upto <= g.len(),
        g[i] != CellState::Mine,
    ensures
        mine_total_upto(g.update(i, CellState::Mine), upto) == mine_total_upto(g, upto) + (if i < upto { 1int } else { 0 }),
    decreases upto,
{
    if upto > 0 {
        lemma_mine_total_update(g, i, upto - 1);
    }
}

proof fn lemma_mine_total_same(g: Seq<CellState>, h: Seq<CellState>, upto: int)
    requires
        0 <= upto <= g.len(),
        g.len() == h.len(),
        forall|k: int| 0 <= k < g.len() ==> (#[trigger] g[k] == CellState::Mine) == (h[k] == CellState::Mine),
    ensures
        mine_total_upto(g, upto) == mine_total_upto(h, upto),
    decreases upto,
{
    if upto > 0 {
        lemma_mine_total_same(g, h, upto - 1);
    }
}

/// The minesweeper game.
pub struct MsState {
    grid: Vec<CellState>,
    revealed: Vec<bool>,
    flagged: Vec<bool>,
    mines: usize,
    game_over: bool,
    won: bool,
    first_click: bool,
    flag_count: i32,
    timer_secs: i32,
    timer_active: bool,
}

impl View for MsState {
    type V = MsView;

    closed spec fn view(&self) -> MsView {
        MsView {
            grid: self.grid@,
            revealed: self.revealed@,
            flagged: self.flagged@,
            mines: self.mines as nat,
            game_over: self.game_over,
            won: self.won,
            first_click: self.first_click,
            flag_count: self.flag_count,
            timer_secs: self.timer_secs,
            timer_active: self.timer_active,
        }
    }
}

/// What a click on the board did.
#[derive(Clone, Copy, PartialEq, Eq, Structural, Debug)]
pub enum ClickResult {
    /// The game is over, or the cell is flagged: nothing happened.
    Ignored,
    /// Cells were shown and the game goes on.
    Revealed,
    /// A mine was shown: the game is lost (the face becomes `x_x`).
    Lost,
    /// Only mines are left hidden: the game is won (the face becomes `B-)`).
    Won,
}

/// What a cell shows.
#[derive(Clone, Copy, PartialEq, Eq, Structural, Debug)]
pub enum CellContent {
    Blank,
    Mine,
    Flag,
    Number(u8),
}

/// How a cell is drawn.
#[derive(Clone, Copy, PartialEq, Eq, Structural, Debug)]
pub enum CellBackground {
    /// Not shown yet: a raised button.
    Raised,
    /// Shown: flat and white.
    Sunken,
    /// An unflagged mine after the game is lost.
    Exploded,
}

/// What cell `i` shows.
pub open spec fn content_spec(m: MsView, i: int) -> CellContent {
    if m.revealed[i] {
        match m.grid[i] {
            CellState::Mine => CellContent::Mine,
            CellState::Number(n) => CellContent::Number(n),
            CellState::Empty => CellContent::Blank,
        }
    } else if m.flagged[i] {
        CellContent::Flag
    } else if m.game_over && m.grid[i] == CellState::Mine {
        CellContent::Mine
    } else {
        CellContent::Blank
    }
}

/// How cell `i` is drawn.
pub open spec fn background_spec(m: MsView, i: int) -> CellBackground {
    if m.game_over && m.grid[i] == CellState::Mine && !m.flagged[i] {
        CellBackground::Exploded
    } else if m.revealed[i] {
        CellBackground::Sunken
    } else {
        CellBackground::Raised
    }
}

/// The fresh game of `init_game`: no mines, nothing shown or flagged, the
/// clock stopped at zero.
pub open spec fn fresh(m: MsView) -> bool {
    &&& m.grid == Seq::new(81, |i: int| CellState::Empty)
    &&& m.revealed == Seq::new(81, |i: int| false)
    &&& m.flagged == Seq::new(81, |i: int| false)
    &&& m.mines == 0
    &&& !m.game_over
    &&& !m.won
    &&& !m.first_click
    &&& m.flag_count == 0
    &&& m.timer_secs == 0
    &&& !m.timer_active
}

impl MsState {
    pub open spec fn wf(&self) -> bool {
        ms_wf(self@)
    }

    /// A fresh game: an empty board, nothing shown, no flags, timer at zero.
    pub fn init_game() -> (s: Self)
        ensures
            s.wf(),
            fresh(s@),
    {
        let mut grid: Vec<CellState> = Vec::new();
        let mut revealed: Vec<bool> = Vec::new();
        let mut flagged: Vec<bool> = Vec::new();
        let mut i: usize = 0;
        while i < CELLS
            invariant
                i <= 81,
                grid@ =~= Seq::new(i as nat, |k: int| CellState::Empty),
                revealed@ =~= Seq::new(i as nat, |k: int| false),
                flagged@ =~= Seq::new(i as nat, |k: int| false),
            decreases 81 - i,
        {
            grid.push(CellState::Empty);
            revealed.push(false);
            flagged.push(false);
            i = i + 1;
        }
        let s = MsState {
            grid,
            revealed,
            flagged,
            mines: 0,
            game_over: false,
            won: false,
            first_click: false,
            flag_count: 0,
            timer_secs: 0,
            timer_active: false,
        };
        proof {
            lemma_no_mines(s@.grid, 81);
            assert(true_count(s@.flagged) == 0) by {
                lemma_true_count_zero(s@.flagged);
            }
        }
        s
    }

    /// The board.
    pub fn grid(&self) -> (g: &[CellState])
        ensures
            g@ == self@.grid,
    {
        self.grid.as_slice()
    }

    /// Whether the game is lost.
    pub fn game_over(&self) -> (b: bool)
        ensures
            b == self@.game_over,
    {
        self.game_over
    }

    /// Whether the game is won.
    pub fn won(&self) -> (b: bool)
        ensures
            b == self@.won,
    {
        self.won
    }

    /// Whether the first click has happened (the mines are down).
    pub fn first_click(&self) -> (b: bool)
        ensures
            b == self@.first_click,
    {
        self.first_click
    }

    /// Whether the next click on the board must first lay the mines.
    pub fn needs_seeding(&self) -> (b: bool)
        ensures
            b == (!self@.game_over && !self@.won && !self@.first_click),
    {
        !self.game_over && !self.won && !self.first_click
    }

    /// Whether cell `r`, `c` is shown.
    pub fn is_revealed(&self, r: usize, c: usize) -> (b: bool)
        requires
            self.wf(),
            r < 9,
            c < 9,
        ensures
            b == self@.revealed[r * 9 + c],
    {
        self.revealed[r * 9 + c]
    }

    /// Whether cell `r`, `c` is flagged.
    pub fn is_flagged(&self, r: usize, c: usize) -> (b: bool)
        requires
            self.wf(),
            r < 9,
            c < 9,
        ensures
            b == self@.flagged[r * 9 + c],
    {
        self.flagged[r * 9 + c]
    }

    fn count_mines_near(&self, i: usize) -> (n: u8)
        requires
            self.grid@.len() == 81,
            i < 81,
        ensures
            n == mines_near(self@.grid, i as int),
            n <= 81,
    {
        let mut n: u8 = 0;
        let mut j: usize = 0;
        let ghost g = self@.grid;
        while j < CELLS
            invariant
                j <= 81,
                i < 81,
                g == self@.grid,
                g.len() == 81,
                n == mines_near_upto(g, i as int, j as int),
                n <= j,
            decreases 81 - j,
        {
            proof {
                lemma_near_count_bound(g, i as int, j as int + 1);
            }
            let ri = i / 9;
            let ci = i % 9;
            let rj = j / 9;
            let cj = j % 9;
            let close = ri + 1 >= rj && rj + 1 >= ri && ci + 1 >= cj && cj + 1 >= ci;
            assert(close == near(i as int, j as int));
            if close && self.grid[j] == CellState::Mine {
                n = n + 1;
            }
            j = j + 1;
        }
        n
    }

    /// Lays mines at the drawn cells, in order, skipping the safe cell and
    /// cells that already hold a mine, until ten are down; once ten are
    /// down, labels every safe cell with its count of touching mines.
    /// Returns the number of mines on the board: below ten means more draws
    /// are needed.
    pub fn seed_mines(&mut self, draws: &[(usize, usize)], safe_row: usize, safe_col: usize) -> (placed: usize)
        requires
            old(self).wf(),
            forall|k: int| 0 <= k < draws@.len() ==> #[trigger] draws@[k].0 < 9 && draws@[k].1 < 9,
            safe_row < 9,
            safe_col < 9,
        ensures
            final(self).wf(),
            placed == final(self)@.mines,
            ({
                let (g1, m1) = place_mines(
                    old(self)@.grid,
                    old(self)@.mines,
                    draws@,
                    safe_row * 9 + safe_col,
                );
                &&& placed == m1
                &&& final(self)@ == MsView {
                    grid: if m1 == 10 && old(self)@.mines < 10 {
                        with_numbers(g1)
                    } else {
                        g1
                    },
                    mines: m1,
                    ..old(self)@
                }
            }),
    {
        let safe = safe_row * 9 + safe_col;
        let ghost g0 = self@.grid;
        let ghost m0 = self@.mines;
        let start_mines = self.mines;
        let mut k: usize = 0;
        assert(draws@.skip(0) =~= draws@);
        while k < draws.len() && self.mines < MINE_COUNT
            invariant
                k <= draws.len(),
                safe == safe_row * 9 + safe_col,
                safe < 81,
                forall|q: int| 0 <= q < draws@.len() ==> #[trigger] draws@[q].0 < 9 && draws@[q].1 < 9,
                self.wf(),
                self@ == (MsView { grid: self@.grid, mines: self@.mines, ..old(self)@ }),
                place_mines(g0, m0, draws@, safe as int) == place_mines(
                    self@.grid,
                    self@.mines,
                    draws@.skip(k as int),
                    safe as int,
                ),
            decreases draws.len() - k,
        {
            let ghost rest = draws@.skip(k as int);
            assert(rest[0] == draws@[k as int]);
            assert(rest.drop_first() =~= draws@.skip(k + 1));
            let (r, c) = draws[k];
            let i = r * 9 + c;
            if self.grid[i] == CellState::Mine || i == safe {
            } else {
                proof {
                    lemma_mine_total_update(self@.grid, i as int, 81);
                }
                self.grid.set(i, CellState::Mine);
                self.mines = self.mines + 1;
            }
            k = k + 1;
        }
        proof {
            if k >= draws.len() {
                assert(draws@.skip(k as int).len() == 0);
            }
        }
        if self.mines == MINE_COUNT && start_mines < MINE_COUNT {
            self.label_numbers();
        }
        self.mines
    }

    fn label_numbers(&mut self)
        requires
            old(self).wf(),
        ensures
            final(self).wf(),
            final(self)@ == (MsView { grid: with_numbers(old(self)@.grid), ..old(self)@ }),
    {
        let ghost g = self@.grid;
        let mut out: Vec<CellState> = Vec::new();
        let mut i: usize = 0;
        while i < CELLS
            invariant
                i <= 81,
                self@ == old(self)@,
                g == self@.grid,
                g.len() == 81,
                out@ =~= with_numbers(g).subrange(0, i as int),
            decreases 81 - i,
        {
            let cell = self.grid[i];
            let v = if cell == CellState::Mine {
                CellState::Mine
            } else {
                let n = self.count_mines_near(i);
                if n > 0 {
                    CellState::Number(n)
                } else {
                    CellState::Empty
                }
            };
            out.push(v);
            i = i + 1;
        }
        proof {
            let h = with_numbers(g);
            assert forall|k: int| 0 <= k < 81 implies (#[trigger] h[k] == CellState::Mine) == (g[k] == CellState::Mine) by {}
            lemma_mine_total_same(h, g, 81);
            assert(h.subrange(0, 81) =~= h);
        }
        self.grid = out;
    }

    /// Shows cell `row`, `col`; a cell touching no mine shows its
    /// neighbours in turn. Returns `false` exactly when the cell was a
    /// hidden, unflagged mine. Off-board, shown and flagged cells are left
    /// alone.
    pub fn uncover(&mut self, row: usize, col: usize) -> (r: bool)
        requires
            old(self).wf(),
        ensures
            final(self).wf(),
            reveal_post(old(self)@, final(self)@, (row * 9 + col) as int, r) || !(row < 9 && col < 9),
            !(row < 9 && col < 9) ==> r && final(self)@ == old(self)@,
    {
        if row >= GRID_SIZE || col >= GRID_SIZE {
            return true;
        }
        self.reveal_cell(row * 9 + col)
    }

    fn reveal_cell(&mut self, t: usize) -> (r: bool)
        requires
            old(self).wf(),
            t < 81,
        ensures
            final(self).wf(),
            reveal_post(old(self)@, final(self)@, t as int, r),
        decreases 81 - true_count(old(self)@.revealed),
    {
        proof {
            lemma_true_count_bound(self@.revealed);
        }
        if self.revealed[t] || self.flagged[t] {
            assert forall|s: Seq<bool>| #[trigger] covers(s, self@.revealed, self@.flagged, self@.grid, t as int)
                implies shown_within(self@.revealed, s) by {}
            return true;
        }
        let ghost r0 = self@.revealed;
        proof {
            lemma_true_count_update(self@.revealed, t as int, true);
            assert(!(self@.flagged[t as int] && true));
        }
        self.revealed.set(t, true);
        let ghost r1 = self@.revealed;
        if self.grid[t] == CellState::Mine {
            assert forall|s: Seq<bool>| #[trigger] covers(s, r0, self@.flagged, self@.grid, t as int)
                implies shown_within(r1, s) by {
                assert forall|i: int| 0 <= i < 81 && r1[i] implies #[trigger] s[i] by {
                    if i != t {
                        assert(r0[i]);
                    }
                }
            }
            return false;
        }
        if self.grid[t] == CellState::Empty {
            let mut y: usize = 0;
            while y < CELLS
                invariant
                    y <= 81,
                    t < 81,
                    self.wf(),
                    self@ == (MsView { revealed: self@.revealed, ..old(self)@ }),
                    r1 == r0.update(t as int, true),
                    r0 == old(self)@.revealed,
                    r0.len() == 81,
                    !r0[t as int],
                    !old(self)@.flagged[t as int],
                    old(self)@.grid[t as int] == CellState::Empty,
                    true_count(r1) == true_count(r0) + 1,
                    shown_within(r1, self@.revealed),
                    self@.revealed.len() == 81,
                    forall|i: int| 0 <= i < 81 && self@.revealed[i] && !r0[i] ==> !#[trigger] old(self)@.flagged[i],
                    closed(self@.revealed, r1, old(self)@.flagged, old(self)@.grid),
                    forall|q: int| 0 <= q < y && near(t as int, q) && !old(self)@.flagged[q] ==> #[trigger] self@.revealed[q],
                    forall|s: Seq<bool>|
                        #[trigger] covers(s, r0, old(self)@.flagged, old(self)@.grid, t as int) ==> shown_within(
                            self@.revealed,
                            s,
                        ),
                decreases 81 - y,
            {
                let ty = t / 9;
                let tx = t % 9;
                let yy = y / 9;
                let yx = y % 9;
                let close = ty + 1 >= yy && yy + 1 >= ty && tx + 1 >= yx && yx + 1 >= tx;
                assert(close == near(t as int, y as int));
                if close {
                    let ghost rk = self@.revealed;
                    proof {
                        lemma_true_count_mono(r1, rk);
                        lemma_true_count_bound(rk);
                    }
                    self.reveal_cell(y);
                    let ghost rk1 = self@.revealed;
                    proof {
                        let fl = old(self)@.flagged;
                        let g = old(self)@.grid;
                        // closure relative to r1 carries over
                        assert forall|x: int, z: int|
                            #![trigger rk1[x], rk1[z]]
                            valid_cell(x) && rk1[x] && !r1[x] && g[x] == CellState::Empty && near(x, z)
                                && !fl[z] implies rk1[z] by {
                            if rk[x] {
                                assert(rk[x] && rk[z]);
                            }
                        }
                        // minimality: every candidate for the outer call is one for the inner call
                        assert forall|s: Seq<bool>| #[trigger] covers(s, r0, fl, g, t as int) implies shown_within(
                            rk1,
                            s,
                        ) by {
                            assert(shown_within(rk, s));
                            assert(s[t as int]);
                            if !fl[y as int] {
                                assert(s[t as int] && s[y as int]);
                            }
                            assert(covers(s, rk, fl, g, y as int)) by {
                                assert forall|x: int, z: int|
                                    #![trigger s[x], s[z]]
                                    valid_cell(x) && s[x] && !rk[x] && g[x] == CellState::Empty
                                        && near(x, z) && !fl[z] implies s[z] by {
                                    assert(!r0[x]);
                                    assert(s[x] && s[z]);
                                }
                            }
                        }
                        assert forall|q: int| 0 <= q < y + 1 && near(t as int, q) && !fl[q] implies #[trigger] rk1[q] by {
                            if q < y {
                                assert(rk[q]);
                            }
                        }
                    }
                } else {
                    assert forall|q: int| 0 <= q < y + 1 && near(t as int, q) && !old(self)@.flagged[q] implies #[trigger] self@.revealed[q] by {
                    }
                }
                y = y + 1;
            }
            proof {
                let fl = old(self)@.flagged;
                let g = old(self)@.grid;
                let rf = self@.revealed;
                assert forall|x: int, z: int|
                    #![trigger rf[x], rf[z]]
                    valid_cell(x) && rf[x] && !r0[x] && g[x] == CellState::Empty && near(x, z) && !fl[z] implies rf[z] by {
                    if x == t {
                        assert(near(t as int, z));
                    } else {
                        assert(!r1[x]);
                        assert(rf[x] && rf[z]);
                    }
                }
            }
            true
        } else {
            assert forall|s: Seq<bool>| #[trigger] covers(s, r0, self@.flagged, self@.grid, t as int)
                implies shown_within(r1, s) by {
                assert forall|i: int| 0 <= i < 81 && r1[i] implies #[trigger] s[i] by {
                    if i != t {
                        assert(r0[i]);
                    }
                }
            }
            true
        }
    }

    fn count_revealed(&self) -> (n: usize)
        requires
            self.wf(),
        ensures
            n == true_count(self@.revealed),
    {
        let mut n: usize = 0;
        let mut i: usize = 0;
        while i < CELLS
            invariant
                i <= 81,
                self.wf(),
                n == true_count(self@.revealed.subrange(0, i as int)),
                n <= i,
            decreases 81 - i,
        {
            let ghost pre = self@.revealed.subrange(0, i as int);
            assert(self@.revealed.subrange(0, i + 1).drop_last() =~= pre);
            if self.revealed[i] {
                n = n + 1;
            }
            i = i + 1;
        }
        assert(self@.revealed.subrange(0, 81) =~= self@.revealed);
        n
    }

    fn count_flags(&self) -> (n: usize)
        requires
            self.flagged@.len() == 81,
        ensures
            n == true_count(self@.flagged),
            n <= 81,
    {
        let mut n: usize = 0;
        let mut i: usize = 0;
        while i < CELLS
            invariant
                i <= 81,
                self.flagged@.len() == 81,
                n == true_count(self@.flagged.subrange(0, i as int)),
                n <= i,
            decreases 81 - i,
        {
            let ghost pre = self@.flagged.subrange(0, i as int);
            assert(self@.flagged.subrange(0, i + 1).drop_last() =~= pre);
            if self.flagged[i] {
                n = n + 1;
            }
            i = i + 1;
        }
        assert(self@.flagged.subrange(0, 81) =~= self@.flagged);
        n
    }

    /// Whether only the ten mines' worth of cells are still hidden.
    pub fn check_win(&self) -> (b: bool)
        requires
            self.wf(),
        ensures
            b == (81 - true_count(self@.revealed) == 10),
    {
        let n = self.count_revealed();
        proof {
            lemma_true_count_bound(self@.revealed);
        }
        CELLS - n == MINE_COUNT
    }

    /// Marks the first click: the clock starts.
    pub fn begin(&mut self)
        ensures
            final(self)@ == (MsView { first_click: true, timer_active: true, ..old(self)@ }),
    {
        self.first_click = true;
        self.timer_active = true;
    }

    /// A left click on cell `row`, `col`: ignored once the game is over or
    /// on a flagged cell; otherwise shows the cell, and the game is lost on
    /// a mine or won when only ten cells stay hidden. Either end stops the
    /// clock.
    pub fn click_cell(&mut self, row: usize, col: usize) -> (r: ClickResult)
        requires
            old(self).wf(),
            row < 9,
            col < 9,
        ensures
            final(self).wf(),
            ({
                let t = (row * 9 + col) as int;
                let o = old(self)@;
                let f = final(self)@;
                if o.game_over || o.won || o.flagged[t] {
                    r == ClickResult::Ignored && f == o
                } else {
                    let lost = !o.revealed[t] && o.grid[t] == CellState::Mine;
                    let mid = MsView { revealed: f.revealed, ..o };
                    &&& reveal_post(o, mid, t, !lost)
                    &&& if lost {
                        r == ClickResult::Lost && f == MsView { game_over: true, timer_active: false, ..mid }
                    } else if 81 - true_count(f.revealed) == 10 {
                        r == ClickResult::Won && f == MsView { won: true, timer_active: false, ..mid }
                    } else {
                        r == ClickResult::Revealed && f == mid
                    }
                }
            }),
    {
        if self.game_over || self.won {
            return ClickResult::Ignored;
        }
        if self.flagged[row * 9 + col] {
            return ClickResult::Ignored;
        }
        if !self.uncover(row, col) {
            self.game_over = true;
            self.timer_active = false;
            ClickResult::Lost
        } else if self.check_win() {
            self.won = true;
            self.timer_active = false;
            ClickResult::Won
        } else {
            ClickResult::Revealed
        }
    }

    /// A right click on cell `row`, `col`: toggles its flag, unless the game
    /// is over, has not started, or the cell is shown. Returns whether the
    /// flag changed.
    pub fn toggle_flag(&mut self, row: usize, col: usize) -> (changed: bool)
        requires
            old(self).wf(),
            row < 9,
            col < 9,
        ensures
            final(self).wf(),
            ({
                let t = (row * 9 + col) as int;
                let o = old(self)@;
                if o.game_over || o.won || !o.first_click || o.revealed[t] {
                    !changed && final(self)@ == o
                } else {
                    changed && final(self)@ == flag_toggled(o, t)
                }
            }),
    {
        let t = row * 9 + col;
        if self.game_over || self.won || !self.first_click || self.revealed[t] {
            return false;
        }
        let v = !self.flagged[t];
        proof {
            lemma_true_count_update(self@.flagged, t as int, v);
        }
        self.flagged.set(t, v);
        let n = self.count_flags();
        self.flag_count = n as i32;
        true
    }

    /// Seconds on the clock.
    pub fn timer_secs(&self) -> (n: i32)
        ensures
            n == self@.timer_secs,
    {
        self.timer_secs
    }

    /// One tick of the clock: counts a second while the game runs. Returns
    /// whether the clock keeps going.
    pub fn tick(&mut self) -> (running: bool)
        requires
            old(self)@.timer_secs < i32::MAX,
        ensures
            running == (old(self)@.timer_active && !old(self)@.game_over && !old(self)@.won),
            final(self)@ == (MsView {
                timer_secs: if running { (old(self)@.timer_secs + 1) as i32 } else { old(self)@.timer_secs },
                ..old(self)@
            }),
    {
        if self.timer_active && !self.game_over && !self.won {
            self.timer_secs = self.timer_secs + 1;
            true
        } else {
            false
        }
    }

    /// Stops the clock (before a new game).
    pub fn stop_timer(&mut self)
        ensures
            final(self)@ == (MsView { timer_active: false, ..old(self)@ }),
    {
        self.timer_active = false;
    }

    /// What cell `r`, `c` shows.
    pub fn cell_content(&self, r: usize, c: usize) -> (v: CellContent)
        requires
            self.wf(),
            r < 9,
            c < 9,
        ensures
            v == content_spec(self@, (r * 9 + c) as int),
    {
        let i = r * 9 + c;
        if self.revealed[i] {
            match self.grid[i] {
                CellState::Mine => CellContent::Mine,
                CellState::Number(n) => CellContent::Number(n),
                CellState::Empty => CellContent::Blank,
            }
        } else if self.flagged[i] {
            CellContent::Flag
        } else if self.game_over && self.grid[i] == CellState::Mine {
            CellContent::Mine
        } else {
            CellContent::Blank
        }
    }

    /// How cell `r`, `c` is drawn.
    pub fn cell_background(&self, r: usize, c: usize) -> (v: CellBackground)
        requires
            self.wf(),
            r < 9,
            c < 9,
        ensures
            v == background_spec(self@, (r * 9 + c) as int),
    {
        let i = r * 9 + c;
        if self.game_over && self.grid[i] == CellState::Mine && !self.flagged[i] {
            CellBackground::Exploded
        } else if self.revealed[i] {
            CellBackground::Sunken
        } else {
            CellBackground::Raised
        }
    }

    /// The mine counter: ten minus the flags, never below zero, three digits.
    pub fn counter_text(&self) -> (s: String)
        requires
            self.wf(),
        ensures
            s@ == dec_padded(
                (if 10 - self@.flag_count > 0 { 10 - self@.flag_count } else { 0 }) as nat,
                3,
            ),
    {
        proof {
            lemma_true_count_bound(self@.flagged);
        }
        let remaining: i32 = if 10 - self.flag_count > 0 {
            10 - self.flag_count
        } else {
            0
        };
        let mut v: Vec<char> = Vec::new();
        push_decimal_padded(&mut v, remaining as u64, 3);
        string_from(v.as_slice())
    }

    /// The clock: seconds, at most 999, three digits.
    pub fn timer_text(&self) -> (s: String)
        requires
            self.wf(),
        ensures
            s@ == dec_padded((if self@.timer_secs < 999 { self@.timer_secs } else { 999 }) as nat, 3),
    {
        let secs: i32 = if self.timer_secs < 999 {
            self.timer_secs
        } else {
            999
        };
        let mut v: Vec<char> = Vec::new();
        push_decimal_padded(&mut v, secs as u64, 3);
        string_from(v.as_slice())
    }
}

proof fn lemma_no_mines(g: Seq<CellState>, upto: int)
    requires
        0 <= upto <= g.len(),
        forall|i: int| 0 <= i < g.len() ==> #[trigger] g[i] != CellState::Mine,
    ensures
        mine_total_upto(g, upto) == 0,
    decreases upto,
{
    if upto > 0 {
        lemma_no_mines(g, upto - 1);
    }
}

proof fn lemma_true_count_zero(s: Seq<bool>)
    requires
        forall|i: int| 0 <= i < s.len() ==> !#[trigger] s[i],
    ensures
        true_count(s) == 0,
    decreases s.len(),
{
    if s.len() > 0 {
        lemma_true_count_zero(s.drop_last());
    }
}

proof fn lemma_near_count_bound(g: Seq<CellState>, i: int, upto: int)
    requires
        0 <= upto,
    ensures
        mines_near_upto(g, i, upto) <= upto,
    decreases upto,
{
    if upto > 0 {
        lemma_near_count_bound(g, i, upto - 1);
    }
}


/// Laying mines never puts one under the safe cell, so the first click
/// cannot lose.
pub proof fn lemma_first_click_is_safe(g: Seq<CellState>, mines: nat, draws: Seq<(usize, usize)>, safe: int)
    requires
        valid_cell(safe),
        g.len() == 81,
        g[safe] != CellState::Mine,
        forall|k: int| 0 <= k < draws.len() ==> #[trigger] draws[k].0 < 9 && draws[k].1 < 9,
    ensures
        place_mines(g, mines, draws, safe).0.len() == 81,
        place_mines(g, mines, draws, safe).0[safe] != CellState::Mine,
        with_numbers(place_mines(g, mines, draws, safe).0)[safe] != CellState::Mine,
    decreases draws.len(),
{
    if !(mines >= 10 || draws.len() == 0) {
        let d = draws[0];
        let i = d.0 * 9 + d.1;
        assert forall|k: int| 0 <= k < draws.drop_first().len() implies #[trigger] draws.drop_first()[k].0 < 9
            && draws.drop_first()[k].1 < 9 by {
            assert(draws.drop_first()[k] == draws[k + 1]);
        }
        if g[i] == CellState::Mine || i == safe {
            lemma_first_click_is_safe(g, mines, draws.drop_first(), safe);
        } else {
            lemma_first_click_is_safe(g.update(i, CellState::Mine), mines + 1, draws.drop_first(), safe);
        }
    }
}

proof fn lemma_mines_near_zero(g: Seq<CellState>, i: int, j: int, upto: int)
    requires
        0 <= j < upto <= 81,
        near(i, j),
        g[j] == CellState::Mine,
    ensures
        mines_near_upto(g, i, upto) > 0,
    decreases upto,
{
    if j < upto - 1 {
        lemma_mines_near_zero(g, i, j, upto - 1);
    }
}

/// On a labelled board, showing a cell never uncovers any mine other than
/// the cell itself: the cascade stops at cells that touch a mine.
pub proof fn lemma_cascade_avoids_mines(before: MsView, after: MsView, t: int, r: bool, h: Seq<CellState>)
    requires
        ms_wf(before),
        h.len() == 81,
        before.grid == with_numbers(h),
        reveal_post(before, after, t, r),
    ensures
        forall|i: int|
            0 <= i < 81 && after.revealed[i] && !before.revealed[i] && i != t ==> #[trigger] before.grid[i]
                != CellState::Mine,
{
    let g = before.grid;
    let fl = before.flagged;
    let r0 = before.revealed;
    let s = Seq::new(81, |i: int| r0[i] || i == t || g[i] != CellState::Mine);
    assert forall|x: int, y: int|
        #![trigger s[x], s[y]]
        valid_cell(x) && s[x] && !r0[x] && g[x] == CellState::Empty && near(x, y) && !fl[y] implies s[y] by {
        if g[y] == CellState::Mine {
            assert(h[y] == CellState::Mine);
            assert(h[x] != CellState::Mine);
            lemma_mines_near_zero(h, x, y, 81);
            assert(mines_near(h, x) > 0);
        }
    }
    assert(covers(s, r0, fl, g, t));
    assert(shown_within(after.revealed, s));
    assert forall|i: int|
        0 <= i < 81 && after.revealed[i] && !before.revealed[i] && i != t implies #[trigger] before.grid[i]
            != CellState::Mine by {
        assert(s[i]);
    }
}

/// The color of the digit `n` on a shown cell.
pub fn number_color(n: u8) -> (s: &'static str)
    ensures
        s@ == (if n == 1 { "blue"@ } else if n == 2 { "green"@ } else if n == 3 { "red"@ } else if n
            == 4 { "navy"@ } else if n == 5 { "maroon"@ } else if n == 6 { "teal"@ } else if n == 7 {
            "black"@
        } else if n == 8 { "gray"@ } else if n == 0 { ""@ } else { "black"@ }),
{
    if n == 1 { "blue" }
    else if n == 2 { "green" }
    else if n == 3 { "red" }
    else if n == 4 { "navy" }
    else if n == 5 { "maroon" }
    else if n == 6 { "teal" }
    else if n == 7 { "black" }
    else if n == 8 { "gray" }
    else if n == 0 { "" }
    else { "black" }
}

/// The Minesweeper application.
pub struct MinesweeperApp;

} // verus!
