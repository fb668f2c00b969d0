//! The log-in screen: the password check and the taskbar clock that the
//! desktop shows once it starts.

use vstd::prelude::*;
use crate::terminal::hour12;
use crate::text::{dec, dec_padded, push_decimal, push_decimal_padded, push_str, str_eq, string_from};

verus! {

/// The password that opens the desktop.
pub const PASSWORD: &'static str = "123";

/// The name the desktop greets after a successful log-in.
pub const VISITOR_NAME: &'static str = "Visitor";

/// The name of a guest, who enters without the password.
pub const GUEST_NAME: &'static str = "Guest";

/// Shown under the password field after a wrong password.
pub const WRONG_PASSWORD_TEXT: &'static str = "The password is incorrect. Please try again. (Hint: 123)";

/// Who logged in.
pub struct LoginResult {
    pub username: String,
    pub is_guest: bool,
}

/// The taskbar clock at `hours:minutes`, such as `3:05 PM`.
pub open spec fn clock_spec(hours: u32, minutes: u32) -> Seq<char> {
    dec(hour12(hours as nat)) + ":"@ + dec_padded(minutes as nat, 2) + " "@ + (if hours < 12 {
        "AM"@
    } else {
        "PM"@
    })
}

/// The log-in for the password `password`: the visitor, not as a guest,
/// exactly when the password is right.
pub fn check_password(password: &str) -> (r: Option<LoginResult>)
    ensures
        r is Some <==> password@ == PASSWORD@,
        r matches Some(l) ==> l.username@ == VISITOR_NAME@ && !l.is_guest,
{
    if str_eq(password, PASSWORD) {
        Some(LoginResult { username: VISITOR_NAME.to_string(), is_guest: false })
    } else {
        None
    }
}

/// The log-in of a guest: no password asked, marked as a guest.
pub fn guest_login() -> (r: LoginResult)
    ensures
        r.username@ == GUEST_NAME@,
        r.is_guest,
{
    LoginResult { username: GUEST_NAME.to_string(), is_guest: true }
}

/// Whether the key named `key` submits the password.
pub fn is_submit_key(key: &str) -> (b: bool)
    ensures
        b == (key@ == "Enter"@),
{
    str_eq(key, "Enter")
}

/// The clock text for the local time `hours:minutes` (hours from 0 to 23).
pub fn clock_text(hours: u32, minutes: u32) -> (s: String)
    ensures
        s@ == clock_spec(hours, minutes),
{
    let mut v: Vec<char> = Vec::new();
    let h12: u32 = if hours % 12 == 0 {
        12
    } else {
        hours % 12
    };
    push_decimal(&mut v, h12 as u64);
    push_str(&mut v, ":");
    push_decimal_padded(&mut v, minutes as u64, 2);
    push_str(&mut v, " ");
    if hours < 12 {
        push_str(&mut v, "AM");
    } else {
        push_str(&mut v, "PM");
    }
    assert(v@ =~= clock_spec(hours, minutes));
    string_from(v.as_slice())
}

} // verus!
