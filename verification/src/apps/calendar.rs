//! The calendar: month-by-month navigation and the layout of a month in
//! weeks starting on Sunday.

use vstd::prelude::*;

verus! {

/// The month shown, with `month` from 1 (January) to 12.
pub struct CalendarNav {
    pub year: i32,
    pub month: u32,
}

pub open spec fn nav_wf(n: CalendarNav) -> bool {
    1 <= n.month <= 12
}

/// The month before.
pub open spec fn prev_month(n: CalendarNav) -> CalendarNav {
    if n.month == 1 {
        CalendarNav { year: (n.year - 1) as i32, month: 12 }
    } else {
        CalendarNav { year: n.year, month: (n.month - 1) as u32 }
    }
}

/// The month after.
pub open spec fn next_month(n: CalendarNav) -> CalendarNav {
    if n.month == 12 {
        CalendarNav { year: (n.year + 1) as i32, month: 1 }
    } else {
        CalendarNav { year: n.year, month: (n.month + 1) as u32 }
    }
}

/// The cells of a month, row by row, seven to a row: `start_day` blank
/// cells (0 when the month starts on a Sunday), the days 1 to `last_day`,
/// then blanks to complete the last row.
pub open spec fn month_cells_spec(start_day: nat, last_day: nat) -> Seq<Option<u32>> {
    let fill = ((7 - (start_day + last_day) % 7) % 7) as nat;
    Seq::new(start_day, |i: int| None::<u32>) + Seq::new(last_day, |i: int| Some((i + 1) as u32))
        + Seq::new(fill, |i: int| None::<u32>)
}

pub const MONTH_NAMES: [&'static str; 12] = [
    "January",
    "February",
    "March",
    "April",
    "May",
    "June",
    "July",
    "August",
    "September",
    "October",
    "November",
    "December",
];

/// The name of `month` (1 to 12); `?` for any other number.
pub open spec fn month_name_spec(month: u32) -> Seq<char> {
    if 1 <= month <= 12 {
        MONTH_NAMES@[month - 1]@
    } else {
        "?"@
    }
}

/// The months are named, from 1, January to December, no two alike; any
/// other number shows `?`.
pub proof fn lemma_month_names()
    ensures
        month_name_spec(1) == "January"@,
        month_name_spec(2) == "February"@,
        month_name_spec(3) == "March"@,
        month_name_spec(4) == "April"@,
        month_name_spec(5) == "May"@,
        month_name_spec(6) == "June"@,
        month_name_spec(7) == "July"@,
        month_name_spec(8) == "August"@,
        month_name_spec(9) == "September"@,
        month_name_spec(10) == "October"@,
        month_name_spec(11) == "November"@,
        month_name_spec(12) == "December"@,
        month_name_spec(0) == "?"@ && month_name_spec(13) == "?"@,
        forall|a: u32, b: u32| 1 <= a <= 12 && 1 <= b <= 12 && a != b ==> #[trigger] month_name_spec(a) != #[trigger] month_name_spec(b),
{
    reveal_strlit("January");
    assert("January"@[0] == 'J' && "January"@[1] == 'a' && "January"@[2] == 'n');
    reveal_strlit("February");
    assert("February"@[0] == 'F' && "February"@[1] == 'e' && "February"@[2] == 'b');
    reveal_strlit("March");
    assert("March"@[0] == 'M' && "March"@[1] == 'a' && "March"@[2] == 'r');
    reveal_strlit("April");
    assert("April"@[0] == 'A' && "April"@[1] == 'p' && "April"@[2] == 'r');
    reveal_strlit("May");
    assert("May"@[0] == 'M' && "May"@[1] == 'a' && "May"@[2] == 'y');
    reveal_strlit("June");
    assert("June"@[0] == 'J' && "June"@[1] == 'u' && "June"@[2] == 'n');
    reveal_strlit("July");
    assert("July"@[0] == 'J' && "July"@[1] == 'u' && "July"@[2] == 'l');
    reveal_strlit("August");
    assert("August"@[0] == 'A' && "August"@[1] == 'u' && "August"@[2] == 'g');
    reveal_strlit("September");
    assert("September"@[0] == 'S' && "September"@[1] == 'e' && "September"@[2] == 'p');
    reveal_strlit("October");
    assert("October"@[0] == 'O' && "October"@[1] == 'c' && "October"@[2] == 't');
    reveal_strlit("November");
    assert("November"@[0] == 'N' && "November"@[1] == 'o' && "November"@[2] == 'v');
    reveal_strlit("December");
    assert("December"@[0] == 'D' && "December"@[1] == 'e' && "December"@[2] == 'c');
    assert forall|a: u32, b: u32| 1 <= a <= 12 && 1 <= b <= 12 && a != b implies #[trigger] month_name_spec(a)
        != #[trigger] month_name_spec(b) by {
        if month_name_spec(a) == month_name_spec(b) {
            assert(month_name_spec(a)[0] == month_name_spec(b)[0]);
            assert(month_name_spec(a)[1] == month_name_spec(b)[1]);
            assert(month_name_spec(a)[2] == month_name_spec(b)[2]);
        }
    }
}

impl CalendarNav {
    /// The month `◀` leads to.
    pub fn prev(&mut self)
        requires
            nav_wf(*old(self)),
            old(self).month == 1 ==> old(self).year > i32::MIN,
        ensures
            nav_wf(*final(self)),
            *final(self) == prev_month(*old(self)),
    {
        if self.month == 1 {
            self.month = 12;
            self.year = self.year - 1;
        } else {
            self.month = self.month - 1;
        }
    }

    /// The month `▶` leads to.
    pub fn next(&mut self)
        requires
            nav_wf(*old(self)),
            old(self).month == 12 ==> old(self).year < i32::MAX,
        ensures
            nav_wf(*final(self)),
            *final(self) == next_month(*old(self)),
    {
        if self.month == 12 {
            self.month = 1;
            self.year = self.year + 1;
        } else {
            self.month = self.month + 1;
        }
    }

    /// Follows a navigation arrow: `prev` goes back, anything else forward.
    pub fn navigate(&mut self, dir: &str)
        requires
            nav_wf(*old(self)),
            dir@ == "prev"@ && old(self).month == 1 ==> old(self).year > i32::MIN,
            dir@ != "prev"@ && old(self).month == 12 ==> old(self).year < i32::MAX,
        ensures
            nav_wf(*final(self)),
            *final(self) == (if dir@ == "prev"@ { prev_month(*old(self)) } else { next_month(*old(self)) }),
    {
        if crate::text::str_eq(dir, "prev") {
            self.prev();
        } else {
            self.next();
        }
    }

    /// The day of this month to highlight as today, given today's date
    /// (`real_month` from 0 for January).
    pub fn today_in_view(&self, today: u32, real_month: u32, real_year: i32) -> (r: Option<u32>)
        ensures
            r == (if self.month >= 1 && self.month - 1 == real_month && self.year == real_year {
                Some(today)
            } else {
                None::<u32>
            }),
    {
        if self.month >= 1 && self.month - 1 == real_month && self.year == real_year {
            Some(today)
        } else {
            None
        }
    }
}

/// `◀` undoes `▶`.
pub proof fn lemma_prev_undoes_next(n: CalendarNav)
    requires
        nav_wf(n),
        n.month == 12 ==> n.year < i32::MAX,
    ensures
        prev_month(next_month(n)) == n,
{
}

/// `▶` undoes `◀`.
pub proof fn lemma_next_undoes_prev(n: CalendarNav)
    requires
        nav_wf(n),
        n.month == 1 ==> n.year > i32::MIN,
    ensures
        next_month(prev_month(n)) == n,
{
}

/// The name of a month.
pub fn month_name(month: u32) -> (s: &'static str)
    ensures
        s@ == month_name_spec(month),
{
    if month >= 1 && month <= 12 {
        MONTH_NAMES[(month - 1) as usize]
    } else {
        "?"
    }
}

/// The cells of a month, seven to a row.
pub fn month_cells(start_day: u32, last_day: u32) -> (cells: Vec<Option<u32>>)
    ensures
        cells@ == month_cells_spec(start_day as nat, last_day as nat),
        cells@.len() % 7 == 0,
{
    let mut cells: Vec<Option<u32>> = Vec::new();
    let mut i: u32 = 0;
    while i < start_day
        invariant
            i <= start_day,
            cells@ =~= Seq::new(i as nat, |k: int| None::<u32>),
        decreases start_day - i,
    {
        cells.push(None);
        i = i + 1;
    }
    let ghost pre = cells@;
    let mut d: u64 = 1;
    while d <= last_day as u64
        invariant
            1 <= d <= last_day + 1,
            cells@ =~= pre + Seq::new((d - 1) as nat, |k: int| Some((k + 1) as u32)),
        decreases last_day + 1 - d,
    {
        cells.push(Some(d as u32));
        d = d + 1;
    }
    let ghost mid = cells@;
    let total: u64 = start_day as u64 + last_day as u64;
    let fill: u64 = (7 - total % 7) % 7;
    let mut j: u64 = 0;
    while j < fill
        invariant
            j <= fill,
            cells@ =~= mid + Seq::new(j as nat, |k: int| None::<u32>),
        decreases fill - j,
    {
        cells.push(None);
        j = j + 1;
    }
    assert(cells@ =~= month_cells_spec(start_day as nat, last_day as nat));
    cells
}

/// The calendar application.
pub struct CalendarApp;

} // verus!
