//! The calculator's display editing and keyboard mapping.
//!
//! The arithmetic itself works on floating-point numbers and lives with the
//! page; here is what happens to the digits on the display.

use vstd::prelude::*;
use crate::text::{chars_of, eq_str, is_digit, push_str, string_from};

verus! {

/// The number of bytes of `s` in UTF-8 (what `str::len` counts).
pub open spec fn utf8_len(s: Seq<char>) -> nat
    decreases s.len(),
{
    if s.len() == 0 {
        0
    } else {
        let u = s.last() as u32;
        utf8_len(s.drop_last()) + if u < 0x80 {
            1nat
        } else if u < 0x800 {
            2nat
        } else if u < 0x10000 {
            3nat
        } else {
            4nat
        }
    }
}

fn utf8_len_exec(s: &[char]) -> (n: u128)
    ensures
        n == utf8_len(s@),
{
    let mut n: u128 = 0;
    let mut i: usize = 0;
    while i < s.len()
        invariant
            i <= s.len(),
            n == utf8_len(s@.subrange(0, i as int)),
            n <= 4 * i,
        decreases s.len() - i,
    {
        assert(s@.subrange(0, i + 1).drop_last() =~= s@.subrange(0, i as int));
        let u = s[i] as u32;
        n = n + if u < 0x80 {
            1
        } else if u < 0x800 {
            2
        } else if u < 0x10000 {
            3
        } else {
            4
        };
        i = i + 1;
    }
    assert(s@.subrange(0, s@.len() as int) =~= s@);
    n
}

/// The display after `⌫`: the last character removed, or `0` when one byte
/// (or none) is left.
pub open spec fn backspace_spec(d: Seq<char>) -> Seq<char> {
    if utf8_len(d) > 1 {
        d.drop_last()
    } else {
        "0"@
    }
}

/// The display and the fresh-entry flag after typing `action` (a digit or
/// `.`); `None` when a second decimal point is refused.
pub open spec fn digit_spec(d: Seq<char>, new_input: bool, action: Seq<char>) -> Option<(Seq<char>, bool)> {
    if action == "."@ && d.contains('.') && !new_input {
        None
    } else if new_input {
        Some((if action == "."@ { "0."@ } else { action }, false))
    } else if utf8_len(d) < 15 {
        Some((if d == "0"@ && action != "."@ { action } else { d + action }, false))
    } else {
        Some((d, false))
    }
}

/// The button a key stands for: a digit, `.`, an operator, `=` for Enter,
/// `C` for Escape, `Back` for Backspace.
pub open spec fn key_action_spec(k: Seq<char>) -> Option<Seq<char>> {
    if k.len() == 1 && is_digit(k[0]) {
        Some(k)
    } else if k == "."@ || k == "+"@ || k == "-"@ || k == "*"@ || k == "/"@ {
        Some(k)
    } else if k == "Enter"@ || k == "="@ {
        Some("="@)
    } else if k == "Escape"@ {
        Some("C"@)
    } else if k == "Backspace"@ {
        Some("Back"@)
    } else {
        None
    }
}

/// On ASCII text the UTF-8 length is the number of characters.
pub proof fn lemma_ascii_utf8_len(d: Seq<char>)
    requires
        forall|i: int| 0 <= i < d.len() ==> (d[i] as u32) < 0x80,
    ensures
        utf8_len(d) == d.len(),
    decreases d.len(),
{
    if d.len() > 0 {
        assert(d.last() == d[d.len() - 1]);
        lemma_ascii_utf8_len(d.drop_last());
    }
}

/// `⌫` on an ASCII display takes off exactly its last character; a display
/// of one character (or none) becomes `0`.
pub proof fn lemma_backspace_removes_last(d: Seq<char>)
    requires
        forall|i: int| 0 <= i < d.len() ==> (d[i] as u32) < 0x80,
    ensures
        d.len() >= 2 ==> backspace_spec(d) == d.drop_last() && backspace_spec(d).len() + 1 == d.len()
            && backspace_spec(d) + seq![d.last()] == d,
        d.len() < 2 ==> backspace_spec(d) == "0"@,
{
    lemma_ascii_utf8_len(d);
    if d.len() >= 2 {
        assert(d.drop_last() + seq![d.last()] =~= d);
    }
}

/// Every digit key and every operator key presses its own button; Enter and
/// `=` both press `=`; Escape and Backspace press two other buttons (`C` and
/// `Back`), different from each other and from `=`.
pub proof fn lemma_key_map(c: char)
    ensures
        is_digit(c) ==> key_action_spec(seq![c]) == Some(seq![c]),
        key_action_spec("Enter"@) == key_action_spec("="@),
        key_action_spec("Enter"@) == Some("="@),
        key_action_spec("Escape"@) == Some("C"@),
        key_action_spec("Backspace"@) == Some("Back"@),
        "="@ != "C"@ && "="@ != "Back"@ && "C"@ != "Back"@,
        key_action_spec("+"@) == Some("+"@) && key_action_spec("-"@) == Some("-"@)
            && key_action_spec("*"@) == Some("*"@) && key_action_spec("/"@) == Some("/"@),
{
    reveal_strlit("Enter");
    reveal_strlit("=");
    reveal_strlit("Escape");
    reveal_strlit("Backspace");
    reveal_strlit("C");
    reveal_strlit("Back");
    reveal_strlit(".");
    reveal_strlit("+");
    reveal_strlit("-");
    reveal_strlit("*");
    reveal_strlit("/");
    assert("="@[0] == '=' && "C"@[0] == 'C' && "Back"@.len() == 4);
    assert("Enter"@.len() == 5 && "Escape"@.len() == 6 && "Backspace"@.len() == 9);
    assert("Enter"@[0] == 'E' && "Escape"@[0] == 'E' && "Escape"@[1] == 's' && "Enter"@[1] == 'n');
    assert("Backspace"@[0] == 'B');
    assert("."@[0] == '.' && "+"@[0] == '+' && "-"@[0] == '-' && "*"@[0] == '*' && "/"@[0] == '/');
    if is_digit(c) {
        assert(seq![c] != "."@ && seq![c] != "+"@);
    }
}

/// The calculator application.
pub struct CalculatorApp;

impl CalculatorApp {
    /// The display after `⌫`. The last character must be a one-byte
    /// character when more than one byte is shown.
    pub fn backspace(display: &str) -> (r: String)
        requires
            utf8_len(display@) > 1 ==> (display@.last() as u32) < 0x80,
        ensures
            r@ == backspace_spec(display@),
    {
        let d = chars_of(display);
        if utf8_len_exec(d.as_slice()) > 1 {
            let mut v = d;
            v.pop();
            string_from(v.as_slice())
        } else {
            string_from(chars_of("0").as_slice())
        }
    }

    /// Typing a digit or `.` on the display.
    pub fn enter_digit(display: &str, new_input: bool, action: &str) -> (r: Option<(String, bool)>)
        ensures
            match r {
                Some((s, b)) => digit_spec(display@, new_input, action@) == Some((s@, b)),
                None => digit_spec(display@, new_input, action@) is None,
            },
    {
        let d = chars_of(display);
        let a = chars_of(action);
        let is_dot = eq_str(a.as_slice(), ".");
        let mut has_dot = false;
        let mut i: usize = 0;
        while i < d.len()
            invariant
                i <= d.len(),
                has_dot == d@.subrange(0, i as int).contains('.'),
            decreases d.len() - i,
        {
            assert(d@.subrange(0, i + 1).drop_last() =~= d@.subrange(0, i as int));
            proof {
                let p = d@.subrange(0, i + 1);
                if p.contains('.') {
                    let k = choose|k: int| 0 <= k < p.len() && p[k] == '.';
                    if k < i {
                        assert(d@.subrange(0, i as int)[k] == '.');
                    }
                }
                if d@.subrange(0, i as int).contains('.') {
                    let k = choose|k: int| 0 <= k < i && d@.subrange(0, i as int)[k] == '.';
                    assert(p[k] == '.');
                }
                if d@[i as int] == '.' {
                    assert(p[i as int] == '.');
                }
            }
            if d[i] == '.' {
                has_dot = true;
            }
            i = i + 1;
        }
        assert(d@.subrange(0, d@.len() as int) =~= d@);
        if is_dot && has_dot && !new_input {
            return None;
        }
        if new_input {
            if is_dot {
                return Some((string_from(chars_of("0.").as_slice()), false));
            } else {
                return Some((string_from(a.as_slice()), false));
            }
        }
        if utf8_len_exec(d.as_slice()) < 15 {
            if eq_str(d.as_slice(), "0") && !is_dot {
                Some((string_from(a.as_slice()), false))
            } else {
                let mut v = d;
                push_str(&mut v, action);
                Some((string_from(v.as_slice()), false))
            }
        } else {
            Some((string_from(d.as_slice()), false))
        }
    }

    /// The button a key press stands for, if any.
    pub fn key_action(key: &str) -> (r: Option<String>)
        ensures
            match r {
                Some(s) => key_action_spec(key@) == Some(s@),
                None => key_action_spec(key@) is None,
            },
    {
        let k = chars_of(key);
        let ks = k.as_slice();
        if k.len() == 1 && (k[0] as u32) >= 48 && (k[0] as u32) <= 57 {
            Some(string_from(ks))
        } else if eq_str(ks, ".") || eq_str(ks, "+") || eq_str(ks, "-") || eq_str(ks, "*") || eq_str(ks, "/") {
            Some(string_from(ks))
        } else if eq_str(ks, "Enter") || eq_str(ks, "=") {
            Some(string_from(chars_of("=").as_slice()))
        } else if eq_str(ks, "Escape") {
            Some(string_from(chars_of("C").as_slice()))
        } else if eq_str(ks, "Backspace") {
            Some(string_from(chars_of("Back").as_slice()))
        } else {
            None
        }
    }
}

} // verus!
