//! The System Properties window: three tabs of facts about the machine, one
//! of which counts the windows that are open.

use vstd::prelude::*;
use crate::text::{chars_of, dec, push_decimal, push_str, str_eq, string_from};

verus! {

/// The page of the General tab (also shown for a tab name it does not know).
pub const GENERAL_PAGE: &'static str = r#"
<h3>General</h3>
<table style="width:100%;border-collapse:collapse;font-size:12px;">
<tr style="height:24px;"><td style="padding:4px;font-weight:bold;width:100px;">System:</td><td>System 95</td></tr>
<tr style="height:24px;"><td style="padding:4px;font-weight:bold;">Version:</td><td>95.0.0 (WebAssembly Build)</td></tr>
<tr style="height:24px;"><td style="padding:4px;font-weight:bold;">Registered to:</td><td>Carlos Fuessler</td></tr>
<tr style="height:24px;"><td style="padding:4px;font-weight:bold;">Platform:</td><td>WebAssembly (Rust + wasm-bindgen)</td></tr>
</table>
"#;

/// The page of the Hardware tab.
pub const HARDWARE_PAGE: &'static str = r#"
<h3>Hardware</h3>
<table style="width:100%;border-collapse:collapse;font-size:12px;">
<tr style="height:24px;"><td style="padding:4px;font-weight:bold;width:100px;">CPU:</td><td>WebAssembly (wasm32-unknown-unknown)</td></tr>
<tr style="height:24px;"><td style="padding:4px;font-weight:bold;">RAM:</td><td>4.00 GB (Virtual)</td></tr>
<tr style="height:24px;"><td style="padding:4px;font-weight:bold;">Architecture:</td><td>WASM virtual machine</td></tr>
</table>
"#;

/// The Performance page up to the number of open windows.
pub const PERFORMANCE_HEAD: &'static str = r#"
<h3>Performance</h3>
<table style="width:100%;border-collapse:collapse;font-size:12px;">
<tr style="height:24px;"><td style="padding:4px;font-weight:bold;width:120px;">System Status:</td><td>Active</td></tr>
<tr style="height:24px;"><td style="padding:4px;font-weight:bold;">Open Windows:</td><td>"#;

/// The Performance page after the number of open windows.
pub const PERFORMANCE_TAIL: &'static str = r#"</td></tr>
<tr style="height:24px;"><td style="padding:4px;font-weight:bold;">Desktop Theme:</td><td>System 95 Classic</td></tr>
<tr style="height:24px;"><td style="padding:4px;font-weight:bold;">Build Target:</td><td>wasm32-unknown-unknown</td></tr>
</table>
"#;

/// The tab bar above the pages.
pub const TAB_BAR: &'static str = "<span class='sysinfo-tab' data-tab='general'>General</span> <span class='sysinfo-tab' data-tab='hardware'>Hardware</span> <span class='sysinfo-tab' data-tab='performance'>Performance</span>";

/// The page shown under the tab named `tab` while `windows` windows are open.
pub open spec fn tab_page(tab: Seq<char>, windows: nat) -> Seq<char> {
    if tab == "hardware"@ {
        HARDWARE_PAGE@
    } else if tab == "performance"@ {
        PERFORMANCE_HEAD@ + dec(windows) + PERFORMANCE_TAIL@
    } else {
        GENERAL_PAGE@
    }
}

pub struct SysInfoApp;

impl SysInfoApp {
    /// The HTML of the page under the tab named `tab`, given how many windows
    /// the window manager holds.
    pub fn tab_content(tab: &str, window_count: usize) -> (page: String)
        ensures
            page@ == tab_page(tab@, window_count as nat),
    {
        if str_eq(tab, "hardware") {
            HARDWARE_PAGE.to_string()
        } else if str_eq(tab, "performance") {
            let mut v = chars_of(PERFORMANCE_HEAD);
            push_decimal(&mut v, window_count as u64);
            push_str(&mut v, PERFORMANCE_TAIL);
            string_from(v.as_slice())
        } else {
            GENERAL_PAGE.to_string()
        }
    }

    /// Whether the tab named `candidate` is drawn as the active one while
    /// `active` is shown.
    pub fn is_active_tab(candidate: &str, active: &str) -> (b: bool)
        ensures
            b == (candidate@ == active@),
    {
        str_eq(candidate, active)
    }
}

} // verus!
