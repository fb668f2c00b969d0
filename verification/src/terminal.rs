//! The MS-DOS style terminal: its command interpreter and input history.

use vstd::prelude::*;
use vstd::string::StringExecFns;
use crate::text::{chars_of, dec, dec_padded, eq_str, str_eq, join, join_spaced, push_all, push_decimal, push_decimal_padded, push_signed, push_str, sdec, split_words, string_from, trim, trim_chars, views, words};

verus! {

// ------------------------------------------------------------------
// Command history
// ------------------------------------------------------------------

/// The cursor after arrow up: one entry back, staying on the first.
pub open spec fn cursor_up(c: nat) -> nat {
    if c > 0 {
        (c - 1) as nat
    } else {
        0
    }
}

/// The cursor after arrow down among `len` entries: one entry forward, or
/// past the end once the last entry is passed.
pub open spec fn cursor_down(c: nat, len: nat) -> nat {
    if c + 1 < len {
        c + 1
    } else {
        len
    }
}

/// Commands entered at the prompt, with a cursor for the arrow keys.
pub struct History {
    entries: Vec<String>,
    index: usize,
}

impl History {
    /// The entered commands, oldest first.
    pub closed spec fn entries(&self) -> Seq<Seq<char>> {
        self.entries@.map_values(|e: String| e@)
    }

    /// The position of the arrow-key cursor; `entries().len()` means past the end.
    pub closed spec fn cursor(&self) -> nat {
        self.index as nat
    }

    /// What every history keeps: the cursor stays within the entries plus
    /// one, no entry is empty and no entry repeats the one before it.
    pub open spec fn wf(&self) -> bool {
        &&& self.cursor() <= self.entries().len()
        &&& forall|i: int| 0 <= i < self.entries().len() ==> #[trigger] self.entries()[i].len() > 0
        &&& forall|i: int|
            0 < i < self.entries().len() ==> #[trigger] self.entries()[i] != self.entries()[i - 1]
    }

    /// An empty history.
    pub fn new() -> (h: Self)
        ensures
            h.wf(),
            h.entries() == Seq::<Seq<char>>::empty(),
            h.cursor() == 0,
    {
        let h = History { entries: Vec::new(), index: 0 };
        assert(h.entries() =~= Seq::<Seq<char>>::empty());
        h
    }

    /// Records a command. Empty commands and a repeat of the last command
    /// are ignored; otherwise the command is appended and the cursor moves
    /// past the end.
    pub fn push(&mut self, cmd: String)
        requires
            old(self).wf(),
        ensures
            final(self).wf(),
            if cmd@.len() == 0 || (old(self).entries().len() > 0 && old(self).entries().last()
                == cmd@) {
                *final(self) == *old(self)
            } else {
                &&& final(self).entries() == old(self).entries().push(cmd@)
                &&& final(self).cursor() == final(self).entries().len()
            },
    {
        if cmd.as_str().is_empty() {
            return;
        }
        let n = self.entries.len();
        if n > 0 {
            let last = &self.entries[n - 1];
            if last.eq(&cmd) {
                assert(self.entries()[n - 1] == self.entries@[n - 1]@);
                return;
            }
        }
        proof {
            if n > 0 {
                assert(self.entries()[n - 1] == self.entries@[n - 1]@);
            }
        }
        let ghost before = self.entries();
        self.entries.push(cmd);
        self.index = self.entries.len();
        assert(self.entries() =~= before.push(cmd@));
    }

    /// Arrow up: moves the cursor one entry back (it stays on the first
    /// entry) and returns the entry under it; `None` when empty.
    pub fn up(&mut self) -> (r: Option<String>)
        requires
            old(self).wf(),
        ensures
            final(self).wf(),
            final(self).entries() == old(self).entries(),
            old(self).entries().len() == 0 ==> r is None && final(self).cursor() == old(
                self,
            ).cursor(),
            old(self).entries().len() > 0 ==> {
                &&& final(self).cursor() == cursor_up(old(self).cursor())
                &&& r matches Some(e) && e@ == old(self).entries()[final(self).cursor() as int]
            },
    {
        if self.entries.len() == 0 {
            return None;
        }
        if self.index > 0 {
            self.index = self.index - 1;
        }
        let e = self.entries[self.index].clone();
        assert(self.entries()[self.index as int] == self.entries@[self.index as int]@);
        Some(e)
    }

    /// Arrow down: moves the cursor one entry forward and returns that
    /// entry; past the last entry it moves beyond the end and returns `None`.
    pub fn down(&mut self) -> (r: Option<String>)
        requires
            old(self).wf(),
        ensures
            final(self).wf(),
            final(self).entries() == old(self).entries(),
            old(self).entries().len() == 0 ==> r is None && final(self).cursor() == old(
                self,
            ).cursor(),
            old(self).entries().len() > 0 ==> {
                &&& final(self).cursor() == cursor_down(old(self).cursor(), old(self).entries().len())
                &&& if final(self).cursor() < old(self).entries().len() {
                    r matches Some(e) && e@ == old(self).entries()[final(self).cursor() as int]
                } else {
                    r is None
                }
            },
    {
        let n = self.entries.len();
        if n == 0 {
            return None;
        }
        if self.index < n - 1 {
            self.index = self.index + 1;
            let e = self.entries[self.index].clone();
            assert(self.entries()[self.index as int] == self.entries@[self.index as int]@);
            Some(e)
        } else {
            self.index = n;
            None
        }
    }
}

/// Arrow down undoes arrow up: from any cursor position after the first
/// entry (the position past the end included), moving up and then down
/// returns the cursor to where it was.
pub proof fn lemma_history_up_then_down(cursor: nat, len: nat)
    requires
        0 < cursor <= len,
    ensures
        cursor_down(cursor_up(cursor), len) == cursor,
{
}

/// Arrow up right after entering a command recalls that command.
pub proof fn lemma_push_then_up_recalls(entries: Seq<Seq<char>>, cmd: Seq<char>)
    ensures
        ({
            let e = entries.push(cmd);
            e[cursor_up(e.len()) as int] == cmd
        }),
{
}

// ------------------------------------------------------------------
// Command interpreter
// ------------------------------------------------------------------

/// The wall-clock reading the `DATE` and `TIME` commands report.
pub struct Clock {
    pub year: i64,
    /// Month of the year, 0 for January.
    pub month: u32,
    /// Day of the month.
    pub day: u32,
    /// Day of the week, 0 for Sunday.
    pub weekday: u32,
    pub hours: u32,
    pub minutes: u32,
    pub seconds: u32,
}

/// The lowercase form of a string (`str::to_lowercase`, full Unicode mapping).
pub uninterp spec fn lowercase(s: Seq<char>) -> Seq<char>;

/// An ASCII character.
pub open spec fn is_ascii_char(c: char) -> bool {
    (c as u32) < 128
}

/// All characters of `s` are ASCII.
pub open spec fn all_ascii(s: Seq<char>) -> bool {
    forall|i: int| 0 <= i < s.len() ==> is_ascii_char(#[trigger] s[i])
}

/// `c` with `A` to `Z` turned into `a` to `z`.
pub open spec fn ascii_lower_char(c: char) -> char {
    if 65 <= (c as u32) <= 90 {
        ((c as u32) + 32) as char
    } else {
        c
    }
}

/// `s` with its ASCII capitals made small.
pub open spec fn ascii_lower(s: Seq<char>) -> Seq<char> {
    s.map_values(|c: char| ascii_lower_char(c))
}

/// Lowercases a string with `str::to_lowercase`. The contract claims that
/// the result depends on the text alone (it is `lowercase` of it) and, for
/// ASCII text, what the Unicode mapping does there: `A` to `Z` become `a` to
/// `z`, every other character stays. The mapping of other characters is left
/// unsaid.
#[verifier::external_body]
fn to_lowercase(s: &str) -> (r: String)
    ensures
        r@ == lowercase(s@),
        all_ascii(s@) ==> r@ == ascii_lower(s@),
{
    s.to_lowercase()
}

pub const HELP_TEXT: &'static str = "\
Available commands:\r\n\
  HELP      Show this help\r\n\
  WHOAMI    Display user info\r\n\
  PROJECTS  List projects\r\n\
  SKILLS    Show tech skills\r\n\
  EMAIL     Show contact info\r\n\
  DATE      Show current date\r\n\
  TIME      Show current time\r\n\
  ECHO      Display a message\r\n\
  DIR       List files (simulated)\r\n\
  TYPE      Display file contents\r\n\
  LS        List files\r\n\
  CAT       Show a file\r\n\
  NEOFETCH  Show system information\r\n\
  VER       Show version\r\n\
  SHUTDOWN  Shut down the system\r\n\
  CLEAR     Clear the screen\r\n\
  EXIT      Close terminal";

pub const LS_TEXT: &'static str = "about/  cv/  projects/  skills/  contact/  README";

pub const CAT_SYNTAX_TEXT: &'static str = "Syntax: CAT [filename]";

/// The one file the terminal can show.
pub const README_NAME: &'static str = "README";

pub const README_TEXT: &'static str = "\
System 95 — Carlos' CV & portfolio.\r\n\
Open My PC or the File Manager to read about me, my CV, projects and skills.";

pub const NEOFETCH_TEXT: &'static str = "\
carlos@system95\r\n\
---------------\r\n\
OS:      System 95 [Version 95.0.0]\r\n\
Host:    WebAssembly (wasm32-unknown-unknown)\r\n\
Kernel:  Rust + wasm-bindgen\r\n\
Shell:   MS-DOS Prompt\r\n\
Theme:   System 95 Classic\r\n\
Memory:  4.00 GB (Virtual)";

pub const SHUTDOWN_TEXT: &'static str = "\
Shutting down System 95...\r\n\
It is now safe to turn off your computer.";

pub const WHOAMI_TEXT: &'static str = "Carlos — Software Engineer & Rust Enthusiast";

pub const PROJECTS_TEXT: &'static str = "Open the Projects Gallery from the Start menu to see my work.\r\n\
                 Notable: System 95 Desktop (this!), systems tooling, web apps.";

pub const SKILLS_TEXT: &'static str = "Languages:  Rust, TypeScript, Python, C/C++\r\n\
                 Web:        WASM, HTML/CSS, React\r\n\
                 Systems:    Linux, Networking, Embedded\r\n\
                 Tools:      Git, Docker, Zig";

pub const EMAIL_TEXT: &'static str = "carlos@example.com";

pub const DIR_TEXT: &'static str = "\
 Volume in drive C is SYSTEM95\r\n\
 Directory of C:\\\r\n\
\r\n\
about/        &lt;DIR&gt;    06-29-26  12:00\r\n\
cv/           &lt;DIR&gt;    06-29-26  12:00\r\n\
projects/     &lt;DIR&gt;    06-29-26  12:00\r\n\
skills/       &lt;DIR&gt;    06-29-26  12:00\r\n\
contact/      &lt;DIR&gt;    06-29-26  12:00\r\n\
README         1,024  06-29-26  12:00\r\n\
        5 Dir(s)   1,234,567,890 bytes free";

pub const VER_TEXT: &'static str = "\
System 95 [Version 95.0.0]\r\n\
(C) 1981-1996.\r\n\
This CV is running in your browser via Rust + WebAssembly.";

pub const ECHO_ON_TEXT: &'static str = "ECHO is on.";

pub const TYPE_SYNTAX_TEXT: &'static str = "Syntax: TYPE [filename]";

pub const TYPE_MISSING_PREFIX: &'static str = "Cannot find file '";

pub const TYPE_MISSING_SUFFIX: &'static str = "' — try opening it with File Manager.";

pub const UNKNOWN_PREFIX: &'static str = "'";

pub const UNKNOWN_SUFFIX: &'static str = "' is not recognized as an internal or external command,\r\n\
                     operable program or batch file.";

/// Three-letter month name for month `m` (0 for January).
pub open spec fn month_abbr(m: nat) -> Seq<char> {
    if m == 0 { "Jan"@ }
    else if m == 1 { "Feb"@ }
    else if m == 2 { "Mar"@ }
    else if m == 3 { "Apr"@ }
    else if m == 4 { "May"@ }
    else if m == 5 { "Jun"@ }
    else if m == 6 { "Jul"@ }
    else if m == 7 { "Aug"@ }
    else if m == 8 { "Sep"@ }
    else if m == 9 { "Oct"@ }
    else if m == 10 { "Nov"@ }
    else { "Dec"@ }
}

/// Three-letter weekday name for day `d` (0 for Sunday).
pub open spec fn day_abbr(d: nat) -> Seq<char> {
    if d == 0 { "Sun"@ }
    else if d == 1 { "Mon"@ }
    else if d == 2 { "Tue"@ }
    else if d == 3 { "Wed"@ }
    else if d == 4 { "Thu"@ }
    else if d == 5 { "Fri"@ }
    else { "Sat"@ }
}

/// DATE names the months, from month 0, Jan Feb Mar Apr May Jun Jul Aug
/// Sep Oct Nov Dec, and the weekdays, from day 0, Sun Mon Tue Wed Thu Fri
/// Sat; no two months and no two weekdays share a name.
pub proof fn lemma_date_names()
    ensures
        month_abbr(0) == "Jan"@,
        month_abbr(1) == "Feb"@,
        month_abbr(2) == "Mar"@,
        month_abbr(3) == "Apr"@,
        month_abbr(4) == "May"@,
        month_abbr(5) == "Jun"@,
        month_abbr(6) == "Jul"@,
        month_abbr(7) == "Aug"@,
        month_abbr(8) == "Sep"@,
        month_abbr(9) == "Oct"@,
        month_abbr(10) == "Nov"@,
        month_abbr(11) == "Dec"@,
        forall|a: nat, b: nat| a < 12 && b < 12 && a != b ==> #[trigger] month_abbr(a) != #[trigger] month_abbr(b),
        day_abbr(0) == "Sun"@,
        day_abbr(1) == "Mon"@,
        day_abbr(2) == "Tue"@,
        day_abbr(3) == "Wed"@,
        day_abbr(4) == "Thu"@,
        day_abbr(5) == "Fri"@,
        day_abbr(6) == "Sat"@,
        forall|a: nat, b: nat| a < 7 && b < 7 && a != b ==> #[trigger] day_abbr(a) != #[trigger] day_abbr(b),
{
    reveal_strlit("Jan");
    assert("Jan"@[0] == 'J' && "Jan"@[1] == 'a' && "Jan"@[2] == 'n');
    reveal_strlit("Feb");
    assert("Feb"@[0] == 'F' && "Feb"@[1] == 'e' && "Feb"@[2] == 'b');
    reveal_strlit("Mar");
    assert("Mar"@[0] == 'M' && "Mar"@[1] == 'a' && "Mar"@[2] == 'r');
    reveal_strlit("Apr");
    assert("Apr"@[0] == 'A' && "Apr"@[1] == 'p' && "Apr"@[2] == 'r');
    reveal_strlit("May");
    assert("May"@[0] == 'M' && "May"@[1] == 'a' && "May"@[2] == 'y');
    reveal_strlit("Jun");
    assert("Jun"@[0] == 'J' && "Jun"@[1] == 'u' && "Jun"@[2] == 'n');
    reveal_strlit("Jul");
    assert("Jul"@[0] == 'J' && "Jul"@[1] == 'u' && "Jul"@[2] == 'l');
    reveal_strlit("Aug");
    assert("Aug"@[0] == 'A' && "Aug"@[1] == 'u' && "Aug"@[2] == 'g');
    reveal_strlit("Sep");
    assert("Sep"@[0] == 'S' && "Sep"@[1] == 'e' && "Sep"@[2] == 'p');
    reveal_strlit("Oct");
    assert("Oct"@[0] == 'O' && "Oct"@[1] == 'c' && "Oct"@[2] == 't');
    reveal_strlit("Nov");
    assert("Nov"@[0] == 'N' && "Nov"@[1] == 'o' && "Nov"@[2] == 'v');
    reveal_strlit("Dec");
    assert("Dec"@[0] == 'D' && "Dec"@[1] == 'e' && "Dec"@[2] == 'c');
    reveal_strlit("Sun");
    assert("Sun"@[0] == 'S' && "Sun"@[1] == 'u' && "Sun"@[2] == 'n');
    reveal_strlit("Mon");
    assert("Mon"@[0] == 'M' && "Mon"@[1] == 'o' && "Mon"@[2] == 'n');
    reveal_strlit("Tue");
    assert("Tue"@[0] == 'T' && "Tue"@[1] == 'u' && "Tue"@[2] == 'e');
    reveal_strlit("Wed");
    assert("Wed"@[0] == 'W' && "Wed"@[1] == 'e' && "Wed"@[2] == 'd');
    reveal_strlit("Thu");
    assert("Thu"@[0] == 'T' && "Thu"@[1] == 'h' && "Thu"@[2] == 'u');
    reveal_strlit("Fri");
    assert("Fri"@[0] == 'F' && "Fri"@[1] == 'r' && "Fri"@[2] == 'i');
    reveal_strlit("Sat");
    assert("Sat"@[0] == 'S' && "Sat"@[1] == 'a' && "Sat"@[2] == 't');
    assert forall|a: nat, b: nat| a < 12 && b < 12 && a != b implies #[trigger] month_abbr(a) != #[trigger] month_abbr(b) by {
        if month_abbr(a) == month_abbr(b) {
            assert(month_abbr(a)[0] == month_abbr(b)[0]);
            assert(month_abbr(a)[1] == month_abbr(b)[1]);
            assert(month_abbr(a)[2] == month_abbr(b)[2]);
        }
    }
    assert forall|a: nat, b: nat| a < 7 && b < 7 && a != b implies #[trigger] day_abbr(a) != #[trigger] day_abbr(b) by {
        if day_abbr(a) == day_abbr(b) {
            assert(day_abbr(a)[0] == day_abbr(b)[0]);
            assert(day_abbr(a)[1] == day_abbr(b)[1]);
            assert(day_abbr(a)[2] == day_abbr(b)[2]);
        }
    }
}

fn month_abbr_str(m: u32) -> (s: &'static str)
    ensures
        s@ == month_abbr(m as nat),
{
    if m == 0 { "Jan" }
    else if m == 1 { "Feb" }
    else if m == 2 { "Mar" }
    else if m == 3 { "Apr" }
    else if m == 4 { "May" }
    else if m == 5 { "Jun" }
    else if m == 6 { "Jul" }
    else if m == 7 { "Aug" }
    else if m == 8 { "Sep" }
    else if m == 9 { "Oct" }
    else if m == 10 { "Nov" }
    else { "Dec" }
}

fn day_abbr_str(d: u32) -> (s: &'static str)
    ensures
        s@ == day_abbr(d as nat),
{
    if d == 0 { "Sun" }
    else if d == 1 { "Mon" }
    else if d == 2 { "Tue" }
    else if d == 3 { "Wed" }
    else if d == 4 { "Thu" }
    else if d == 5 { "Fri" }
    else { "Sat" }
}

/// `DATE` output, such as `Mon Jun 29 2026`.
pub open spec fn date_text(c: Clock) -> Seq<char> {
    day_abbr(c.weekday as nat) + " "@ + month_abbr(c.month as nat) + " "@ + dec(c.day as nat)
        + " "@ + sdec(c.year as int)
}

/// Hour on the 12-hour dial: 12 for midnight and noon.
pub open spec fn hour12(h: nat) -> nat {
    if h % 12 == 0 {
        12
    } else {
        h % 12
    }
}

/// The twelve-hour dial: the hour shown is from 1 to 12 and agrees with the
/// hour of the day modulo 12, so midnight and noon show 12.
pub proof fn lemma_twelve_hour_dial(h: nat)
    ensures
        1 <= hour12(h) <= 12,
        hour12(h) % 12 == h % 12,
        h % 12 == 0 ==> hour12(h) == 12,
{
}

/// `TIME` output, such as `3:05:09 PM`.
pub open spec fn time_text(c: Clock) -> Seq<char> {
    dec(hour12(c.hours as nat)) + ":"@ + dec_padded(c.minutes as nat, 2) + ":"@ + dec_padded(
        c.seconds as nat,
        2,
    ) + " "@ + (if c.hours < 12 { "AM"@ } else { "PM"@ })
}

/// A command word lowercased: by the ASCII rule when it is ASCII, by the
/// full Unicode mapping otherwise.
pub open spec fn command_word(w: Seq<char>) -> Seq<char> {
    if all_ascii(w) {
        ascii_lower(w)
    } else {
        lowercase(w)
    }
}

/// The input line's command word, lowercased, is `date`.
pub open spec fn asks_for_date(cmd: Seq<char>) -> bool {
    let parts = words(trim(cmd));
    parts.len() > 0 && command_word(parts[0]) == "date"@
}

/// The clock's month and weekday name a month and a day of the week.
pub open spec fn clock_readable(c: Clock) -> bool {
    c.month < 12 && c.weekday < 7
}

/// The command words the terminal knows.
pub open spec fn is_builtin(command: Seq<char>) -> bool {
    command == "help"@ || command == "whoami"@ || command == "projects"@ || command == "skills"@
        || command == "email"@ || command == "date"@ || command == "time"@ || command == "echo"@
        || command == "dir"@ || command == "type"@ || command == "ver"@ || command == "ls"@
        || command == "cat"@ || command == "neofetch"@ || command == "shutdown"@
}

/// Command names ignore case and the spaces around a line: two lines whose
/// ASCII command words differ only in case, with the same words after them,
/// print the same answer.
pub proof fn lemma_commands_ignore_case(c1: Seq<char>, c2: Seq<char>, c: Clock)
    requires
        words(trim(c1)).len() > 0,
        words(trim(c2)).len() > 0,
        all_ascii(words(trim(c1))[0]),
        all_ascii(words(trim(c2))[0]),
        ascii_lower(words(trim(c1))[0]) == ascii_lower(words(trim(c2))[0]),
        words(trim(c1)).skip(1) == words(trim(c2)).skip(1),
        is_builtin(ascii_lower(words(trim(c1))[0])),
    ensures
        command_output(c1, c) == command_output(c2, c),
{
}

/// What the terminal answers to the lowercased command word `command`,
/// with the remaining words `args` of the trimmed input line `line`.
pub open spec fn response_for(
    command: Seq<char>,
    args: Seq<Seq<char>>,
    line: Seq<char>,
    c: Clock,
) -> Seq<char> {
    if command == "help"@ {
        HELP_TEXT@
    } else if command == "whoami"@ {
        WHOAMI_TEXT@
    } else if command == "projects"@ {
        PROJECTS_TEXT@
    } else if command == "skills"@ {
        SKILLS_TEXT@
    } else if command == "email"@ {
        EMAIL_TEXT@
    } else if command == "date"@ {
        date_text(c)
    } else if command == "time"@ {
        time_text(c)
    } else if command == "echo"@ {
        if args.len() == 0 {
            ECHO_ON_TEXT@
        } else {
            join(args, seq![' '])
        }
    } else if command == "dir"@ {
        DIR_TEXT@
    } else if command == "type"@ {
        if args.len() == 0 {
            TYPE_SYNTAX_TEXT@
        } else {
            TYPE_MISSING_PREFIX@ + join(args, seq![' ']) + TYPE_MISSING_SUFFIX@
        }
    } else if command == "ver"@ {
        VER_TEXT@
    } else if command == "ls"@ {
        LS_TEXT@
    } else if command == "cat"@ {
        if args.len() == 0 {
            CAT_SYNTAX_TEXT@
        } else if join(args, seq![' ']) == README_NAME@ {
            README_TEXT@
        } else {
            TYPE_MISSING_PREFIX@ + join(args, seq![' ']) + TYPE_MISSING_SUFFIX@
        }
    } else if command == "neofetch"@ {
        NEOFETCH_TEXT@
    } else if command == "shutdown"@ {
        SHUTDOWN_TEXT@
    } else {
        UNKNOWN_PREFIX@ + line + UNKNOWN_SUFFIX@
    }
}

/// What the terminal answers to the input line `cmd`: nothing for a blank
/// line, else the response to its first word, lowercased.
pub open spec fn command_output(cmd: Seq<char>, c: Clock) -> Seq<char> {
    let line = trim(cmd);
    let parts = words(line);
    if parts.len() == 0 {
        Seq::empty()
    } else {
        response_for(command_word(parts[0]), parts.skip(1), line, c)
    }
}

/// What pressing Enter does with an input line.
pub enum EnterAction {
    /// Clear the screen.
    Clear,
    /// Close the terminal window.
    Exit,
    /// Run the line as a command and print its output.
    Run,
}

/// The MS-DOS prompt application.
pub struct Terminal;

impl Terminal {
    /// The answer to the lowercased command word `command`, the remaining
    /// words `args` and the trimmed line `line`.
    pub fn respond(command: &str, args: &[Vec<char>], line: &[char], clock: &Clock) -> (r: String)
        requires
            command@ == "date"@ ==> clock_readable(*clock),
        ensures
            r@ == response_for(command@, views(args@), line@, *clock),
    {
        let cmd = chars_of(command);
        if eq_str(cmd.as_slice(), "help") {
            String::from_str(HELP_TEXT)
        } else if eq_str(cmd.as_slice(), "whoami") {
            String::from_str(WHOAMI_TEXT)
        } else if eq_str(cmd.as_slice(), "projects") {
            String::from_str(PROJECTS_TEXT)
        } else if eq_str(cmd.as_slice(), "skills") {
            String::from_str(SKILLS_TEXT)
        } else if eq_str(cmd.as_slice(), "email") {
            String::from_str(EMAIL_TEXT)
        } else if eq_str(cmd.as_slice(), "date") {
            let mut v: Vec<char> = Vec::new();
            push_str(&mut v, day_abbr_str(clock.weekday));
            push_str(&mut v, " ");
            push_str(&mut v, month_abbr_str(clock.month));
            push_str(&mut v, " ");
            push_decimal(&mut v, clock.day as u64);
            push_str(&mut v, " ");
            push_signed(&mut v, clock.year);
            assert(v@ =~= date_text(*clock));
            string_from(v.as_slice())
        } else if eq_str(cmd.as_slice(), "time") {
            let mut v: Vec<char> = Vec::new();
            let h = clock.hours;
            let h12: u32 = if h % 12 == 0 {
                12
            } else {
                h % 12
            };
            push_decimal(&mut v, h12 as u64);
            push_str(&mut v, ":");
            push_decimal_padded(&mut v, clock.minutes as u64, 2);
            push_str(&mut v, ":");
            push_decimal_padded(&mut v, clock.seconds as u64, 2);
            push_str(&mut v, " ");
            if h < 12 {
                push_str(&mut v, "AM");
            } else {
                push_str(&mut v, "PM");
            }
            assert(v@ =~= time_text(*clock));
            string_from(v.as_slice())
        } else if eq_str(cmd.as_slice(), "echo") {
            if args.len() == 0 {
                String::from_str(ECHO_ON_TEXT)
            } else {
                let j = join_spaced(args, 0);
                assert(args@.skip(0) =~= args@);
                string_from(j.as_slice())
            }
        } else if eq_str(cmd.as_slice(), "dir") {
            String::from_str(DIR_TEXT)
        } else if eq_str(cmd.as_slice(), "type") {
            if args.len() == 0 {
                String::from_str(TYPE_SYNTAX_TEXT)
            } else {
                let mut v: Vec<char> = Vec::new();
                push_str(&mut v, TYPE_MISSING_PREFIX);
                let j = join_spaced(args, 0);
                assert(args@.skip(0) =~= args@);
                push_all(&mut v, j.as_slice());
                push_str(&mut v, TYPE_MISSING_SUFFIX);
                string_from(v.as_slice())
            }
        } else if eq_str(cmd.as_slice(), "ver") {
            String::from_str(VER_TEXT)
        } else if eq_str(cmd.as_slice(), "ls") {
            String::from_str(LS_TEXT)
        } else if eq_str(cmd.as_slice(), "cat") {
            if args.len() == 0 {
                String::from_str(CAT_SYNTAX_TEXT)
            } else {
                let j = join_spaced(args, 0);
                assert(args@.skip(0) =~= args@);
                if eq_str(j.as_slice(), README_NAME) {
                    String::from_str(README_TEXT)
                } else {
                    let mut v: Vec<char> = Vec::new();
                    push_str(&mut v, TYPE_MISSING_PREFIX);
                    push_all(&mut v, j.as_slice());
                    push_str(&mut v, TYPE_MISSING_SUFFIX);
                    string_from(v.as_slice())
                }
            }
        } else if eq_str(cmd.as_slice(), "neofetch") {
            String::from_str(NEOFETCH_TEXT)
        } else if eq_str(cmd.as_slice(), "shutdown") {
            String::from_str(SHUTDOWN_TEXT)
        } else {
            let mut v: Vec<char> = Vec::new();
            push_str(&mut v, UNKNOWN_PREFIX);
            push_all(&mut v, line);
            push_str(&mut v, UNKNOWN_SUFFIX);
            string_from(v.as_slice())
        }
    }

    /// Runs one input line and returns what the terminal prints for it.
    pub fn execute_command(cmd: &str, clock: &Clock) -> (r: String)
        requires
            asks_for_date(cmd@) ==> clock_readable(*clock),
        ensures
            r@ == command_output(cmd@, *clock),
    {
        let chars = chars_of(cmd);
        let line = trim_chars(chars.as_slice());
        let mut parts = split_words(line.as_slice());
        if parts.len() == 0 {
            return String::new();
        }
        let first = string_from(parts[0].as_slice());
        let command = to_lowercase(first.as_str());
        assert(views(parts@)[0] == parts@[0]@);
        let ghost all = parts@;
        let args = parts.split_off(1);
        assert(views(args@) =~= views(all).skip(1));
        Self::respond(command.as_str(), args.as_slice(), line.as_slice(), clock)
    }

    /// Runs one input line, or gives `None` when it asks for the date and the
    /// clock's month or weekday is out of range (no name to print).
    pub fn run(cmd: &str, clock: &Clock) -> (r: Option<String>)
        ensures
            match r {
                Some(s) => (asks_for_date(cmd@) ==> clock_readable(*clock)) && s@ == command_output(
                    cmd@,
                    *clock,
                ),
                None => asks_for_date(cmd@) && !clock_readable(*clock),
            },
    {
        let chars = chars_of(cmd);
        let line = trim_chars(chars.as_slice());
        let parts = split_words(line.as_slice());
        if parts.len() > 0 {
            let first = string_from(parts[0].as_slice());
            let command = to_lowercase(first.as_str());
            assert(views(parts@)[0] == parts@[0]@);
            if str_eq(command.as_str(), "date") && !(clock.month < 12 && clock.weekday < 7) {
                return None;
            }
        }
        Some(Self::execute_command(cmd, clock))
    }

    /// What pressing Enter does: `clear` and `exit` (in any case, around
    /// white space) are handled by the window; anything else is run.
    pub fn enter_action(cmd: &str) -> (r: EnterAction)
        ensures
            r == (if command_word(trim(cmd@)) == "clear"@ {
                EnterAction::Clear
            } else if command_word(trim(cmd@)) == "exit"@ {
                EnterAction::Exit
            } else {
                EnterAction::Run
            }),
    {
        let chars = chars_of(cmd);
        let line = trim_chars(chars.as_slice());
        let line_str = string_from(line.as_slice());
        let lower = to_lowercase(line_str.as_str());
        let lc = chars_of(lower.as_str());
        if eq_str(lc.as_slice(), "clear") {
            EnterAction::Clear
        } else if eq_str(lc.as_slice(), "exit") {
            EnterAction::Exit
        } else {
            EnterAction::Run
        }
    }
}

} // verus!
