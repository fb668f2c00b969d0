//! The desktop: its icons, where they stand, and what a double-click on one
//! opens.

use vstd::prelude::*;
use crate::text::{dec, push_decimal, push_str, str_eq, string_from};

verus! {

/// The picture of the "My PC" icon.
pub const MY_PC_ICON: &'static str = r##"<svg class="icon-svg" viewBox="0 0 16 16"><rect x="2" y="2" width="12" height="9" fill="#dfdfdf" stroke="#808080" stroke-width="1.5"/><path fill="#808080" d="M1,12 h14 v2 h-14 z M6,11 h4 v2 h-4 z"/><rect x="3" y="3" width="10" height="7" fill="#008080"/></svg>"##;

/// The picture of the "Recycle Bin" icon.
pub const RECYCLE_BIN_ICON: &'static str = r##"<svg class="icon-svg" viewBox="0 0 16 16"><path fill="#dfdfdf" stroke="#808080" stroke-width="1" d="M3,4 h10 l-1,10 h-8 z M2,2 h12 v2 h-12 z M6,2 v-1 h4 v1 z"/><line x1="6" y1="6" x2="6" y2="12" stroke="#808080" stroke-width="1"/><line x1="10" y1="6" x2="10" y2="12" stroke="#808080" stroke-width="1"/></svg>"##;

/// The title of the window that "My PC" opens beside System Properties.
pub const ABOUT_TITLE: &'static str = "About Me - Notepad";

/// The document shown in that window.
pub const ABOUT_PATH: &'static str = "content/about/about.md";

/// An icon on the desktop.
pub struct DesktopIcon {
    pub id: String,
    pub title: String,
    pub icon: &'static str,
}

/// What a double-click on a desktop icon opens.
#[derive(Clone, Copy, PartialEq, Eq, Structural, Debug)]
pub enum DesktopLaunch {
    /// The "About Me" document and the System Properties window.
    AboutAndSystem,
    /// The (empty) recycle bin: only a note in the console.
    RecycleBin,
    /// Nothing.
    Nothing,
}

/// What the icon with id `id` opens.
pub open spec fn launch_of(id: Seq<char>) -> DesktopLaunch {
    if id == "my-pc"@ {
        DesktopLaunch::AboutAndSystem
    } else if id == "recycle-bin"@ {
        DesktopLaunch::RecycleBin
    } else {
        DesktopLaunch::Nothing
    }
}

/// The distance from the top of the desktop to the icon at position `i`.
pub open spec fn icon_top(i: nat) -> nat {
    16 + i * 90
}

/// The icons stand in one column from 16 pixels down, 90 pixels apart.
pub proof fn lemma_icons_evenly_spaced(i: nat)
    ensures
        icon_top(0) == 16,
        icon_top(i + 1) == icon_top(i) + 90,
{
}

/// The style of the icon at position `i`: icons stand in one column, 90
/// pixels apart.
pub open spec fn icon_style_spec(i: nat) -> Seq<char> {
    "position: absolute; top: "@ + dec(icon_top(i)) + "px; left: 16px;"@
}

/// The inside of an icon: its picture above its label.
pub open spec fn icon_html_spec(picture: Seq<char>, title: Seq<char>) -> Seq<char> {
    "<div class=\"desktop-icon-img\">"@ + picture + "</div><div class=\"desktop-icon-label\">"@
        + title + "</div>"@
}

/// The icons the desktop starts with: "My PC", then "Recycle Bin".
pub fn default_icons() -> (v: Vec<DesktopIcon>)
    ensures
        v.len() == 2,
        v@[0].id@ == "my-pc"@,
        v@[0].title@ == "My PC"@,
        v@[0].icon@ == MY_PC_ICON@,
        v@[1].id@ == "recycle-bin"@,
        v@[1].title@ == "Recycle Bin"@,
        v@[1].icon@ == RECYCLE_BIN_ICON@,
{
    let mut v: Vec<DesktopIcon> = Vec::new();
    v.push(DesktopIcon { id: "my-pc".to_string(), title: "My PC".to_string(), icon: MY_PC_ICON });
    v.push(
        DesktopIcon {
            id: "recycle-bin".to_string(),
            title: "Recycle Bin".to_string(),
            icon: RECYCLE_BIN_ICON,
        },
    );
    v
}

/// The style attribute of the icon at position `i`.
pub fn icon_style(i: usize) -> (s: String)
    requires
        icon_top(i as nat) <= u64::MAX,
    ensures
        s@ == icon_style_spec(i as nat),
{
    let mut v: Vec<char> = Vec::new();
    push_str(&mut v, "position: absolute; top: ");
    let top: u64 = 16 + (i as u64) * 90;
    push_decimal(&mut v, top);
    push_str(&mut v, "px; left: 16px;");
    string_from(v.as_slice())
}

/// The inner HTML of an icon.
pub fn icon_html(icon: &DesktopIcon) -> (s: String)
    ensures
        s@ == icon_html_spec(icon.icon@, icon.title@),
{
    let mut v: Vec<char> = Vec::new();
    push_str(&mut v, "<div class=\"desktop-icon-img\">");
    push_str(&mut v, icon.icon);
    push_str(&mut v, "</div><div class=\"desktop-icon-label\">");
    push_str(&mut v, icon.title.as_str());
    push_str(&mut v, "</div>");
    string_from(v.as_slice())
}

/// What a double-click on the icon with id `id` opens.
pub fn launch_desktop_app(id: &str) -> (l: DesktopLaunch)
    ensures
        l == launch_of(id@),
{
    if str_eq(id, "my-pc") {
        DesktopLaunch::AboutAndSystem
    } else if str_eq(id, "recycle-bin") {
        DesktopLaunch::RecycleBin
    } else {
        DesktopLaunch::Nothing
    }
}

} // verus!
