//! The taskbar: one button per open window, at most one of them active,
//! and the Start menu. Also what launching an item of the Start menu does.

use vstd::prelude::*;
use crate::text::{dec, push_decimal, push_str, string_from};

verus! {

/// A taskbar button, standing for the window with `window_id`.
pub struct TaskButton {
    pub window_id: u32,
    pub title: String,
    pub active: bool,
}

/// A taskbar button as a mathematical value.
pub struct TaskButtonView {
    pub window_id: u32,
    pub title: Seq<char>,
    pub active: bool,
}

impl View for TaskButton {
    type V = TaskButtonView;

    open spec fn view(&self) -> TaskButtonView {
        TaskButtonView { window_id: self.window_id, title: self.title@, active: self.active }
    }
}

/// The taskbar as a mathematical value.
pub struct TaskbarView {
    pub buttons: Seq<TaskButtonView>,
    pub start_menu_open: bool,
}

/// `i` is the first button for window `id`.
pub open spec fn is_first_button(bs: Seq<TaskButtonView>, id: u32, i: int) -> bool {
    &&& 0 <= i < bs.len()
    &&& bs[i].window_id == id
    &&& forall|k: int| 0 <= k < i ==> #[trigger] bs[k].window_id != id
}

/// Some button stands for window `id`.
pub open spec fn has_button(bs: Seq<TaskButtonView>, id: u32) -> bool {
    exists|i: int| is_first_button(bs, id, i)
}

/// The first button for window `id` (meaningful when there is one).
pub open spec fn first_button(bs: Seq<TaskButtonView>, id: u32) -> int {
    choose|i: int| is_first_button(bs, id, i)
}

/// The taskbar after adding an inactive button at the end.
pub open spec fn after_add_button(t: TaskbarView, id: u32, title: Seq<char>) -> TaskbarView {
    TaskbarView {
        buttons: t.buttons.push(TaskButtonView { window_id: id, title, active: false }),
        ..t
    }
}

/// The taskbar after removing the first button for window `id`.
pub open spec fn after_remove_button(t: TaskbarView, id: u32) -> TaskbarView {
    if has_button(t.buttons, id) {
        TaskbarView { buttons: t.buttons.remove(first_button(t.buttons, id)), ..t }
    } else {
        t
    }
}

/// The taskbar after activating window `id`: its first button is the only
/// active one; with no such button none is active.
pub open spec fn after_set_active(t: TaskbarView, id: u32) -> TaskbarView {
    TaskbarView {
        buttons: t.buttons.map(
            |i: int, b: TaskButtonView|
                TaskButtonView { active: has_button(t.buttons, id) && i == first_button(t.buttons, id), ..b },
        ),
        ..t
    }
}

/// Focusing a window leaves exactly one button highlighted, its own, when it
/// has one, and every button in place.
pub proof fn lemma_focus_highlights_one_button(t: TaskbarView, id: u32)
    ensures
        ({
            let b = after_set_active(t, id).buttons;
            &&& b.len() == t.buttons.len()
            &&& forall|i: int| 0 <= i < b.len() ==> #[trigger] b[i].window_id == t.buttons[i].window_id
                && b[i].title == t.buttons[i].title
            &&& forall|i: int, j: int| 0 <= i < b.len() && 0 <= j < b.len() && #[trigger] b[i].active
                && #[trigger] b[j].active ==> i == j
            &&& has_button(t.buttons, id) ==> b[first_button(t.buttons, id)].active
                && b[first_button(t.buttons, id)].window_id == id
        }),
{
    if has_button(t.buttons, id) {
        let f = first_button(t.buttons, id);
        assert(is_first_button(t.buttons, id, f));
    }
}

/// The DOM id of the taskbar button for a window: `tb-btn-win-<id>`.
pub open spec fn button_dom_id(window_id: u32) -> Seq<char> {
    "tb-btn-win-"@ + dec(window_id as nat)
}

proof fn lemma_first_button_unique(bs: Seq<TaskButtonView>, id: u32, i: int)
    requires
        is_first_button(bs, id, i),
    ensures
        has_button(bs, id),
        first_button(bs, id) == i,
{
    let j = first_button(bs, id);
    assert(is_first_button(bs, id, j));
    if j < i {
        assert(bs[j].window_id != id);
    }
    if i < j {
        assert(bs[i].window_id != id);
    }
}

/// The taskbar at the bottom of the screen.
pub struct Taskbar {
    buttons: Vec<TaskButton>,
    start_menu_open: bool,
}

impl View for Taskbar {
    type V = TaskbarView;

    closed spec fn view(&self) -> TaskbarView {
        TaskbarView {
            buttons: self.buttons@.map_values(|b: TaskButton| b@),
            start_menu_open: self.start_menu_open,
        }
    }
}

impl Taskbar {
    /// An empty taskbar with the Start menu closed.
    pub fn new() -> (t: Self)
        ensures
            t@ == (TaskbarView { buttons: Seq::empty(), start_menu_open: false }),
    {
        let t = Taskbar { buttons: Vec::new(), start_menu_open: false };
        assert(t@.buttons =~= Seq::<TaskButtonView>::empty());
        t
    }

    /// The buttons, left to right.
    pub fn buttons(&self) -> (r: &[TaskButton])
        ensures
            r@.map_values(|b: TaskButton| b@) == self@.buttons,
    {
        self.buttons.as_slice()
    }

    /// Whether the Start menu is open.
    pub fn start_menu_open(&self) -> (b: bool)
        ensures
            b == self@.start_menu_open,
    {
        self.start_menu_open
    }

    fn find(&self, id: u32) -> (r: Option<usize>)
        ensures
            match r {
                Some(i) => is_first_button(self@.buttons, id, i as int) && has_button(self@.buttons, id)
                    && first_button(self@.buttons, id) == i,
                None => !has_button(self@.buttons, id),
            },
    {
        let mut i: usize = 0;
        while i < self.buttons.len()
            invariant
                i <= self.buttons.len(),
                forall|k: int| 0 <= k < i ==> #[trigger] self@.buttons[k].window_id != id,
            decreases self.buttons.len() - i,
        {
            assert(self@.buttons[i as int] == self.buttons@[i as int]@);
            if self.buttons[i].window_id == id {
                proof {
                    lemma_first_button_unique(self@.buttons, id, i as int);
                }
                return Some(i);
            }
            i = i + 1;
        }
        proof {
            if has_button(self@.buttons, id) {
                let j = choose|j: int| is_first_button(self@.buttons, id, j);
                assert(self@.buttons[j].window_id == id);
            }
        }
        None
    }

    /// Adds an inactive button for window `window_id` at the right end.
    pub fn add_app_button(&mut self, window_id: u32, title: &str)
        ensures
            final(self)@ == after_add_button(old(self)@, window_id, title@),
    {
        let ghost before = self@.buttons;
        let b = TaskButton { window_id, title: title.to_owned(), active: false };
        self.buttons.push(b);
        assert(self@.buttons =~= before.push(b@));
    }

    /// Removes the first button for window `window_id`, if any.
    pub fn remove_app_button(&mut self, window_id: u32)
        ensures
            final(self)@ == after_remove_button(old(self)@, window_id),
    {
        if let Some(i) = self.find(window_id) {
            let ghost before = self@.buttons;
            self.buttons.remove(i);
            assert(self@.buttons =~= before.remove(i as int));
        }
    }

    /// Marks the first button for window `window_id` as the only active one.
    pub fn set_active(&mut self, window_id: u32)
        ensures
            final(self)@ == after_set_active(old(self)@, window_id),
    {
        let found = self.find(window_id);
        let ghost target = after_set_active(self@, window_id);
        let n = self.buttons.len();
        let mut out: Vec<TaskButton> = Vec::new();
        let mut i: usize = 0;
        while i < n
            invariant
                n == self.buttons.len(),
                i <= n,
                target == after_set_active(old(self)@, window_id),
                self@ == old(self)@,
                match found {
                    Some(f) => has_button(self@.buttons, window_id) && first_button(
                        self@.buttons,
                        window_id,
                    ) == f,
                    None => !has_button(self@.buttons, window_id),
                },
                out@.map_values(|b: TaskButton| b@) =~= target.buttons.subrange(0, i as int),
            decreases n - i,
        {
            let b = &self.buttons[i];
            assert(self@.buttons[i as int] == self.buttons@[i as int]@);
            let active = match found {
                Some(f) => f == i,
                None => false,
            };
            let ghost before = out@.map_values(|b: TaskButton| b@);
            let nb = TaskButton { window_id: b.window_id, title: b.title.clone(), active };
            out.push(nb);
            assert(out@.map_values(|b: TaskButton| b@) =~= before.push(nb@));
            i = i + 1;
        }
        self.buttons = out;
        assert(self@.buttons =~= target.buttons);
    }

    /// Opens the Start menu if closed, closes it if open.
    pub fn toggle_start_menu(&mut self)
        ensures
            final(self)@ == (TaskbarView { start_menu_open: !old(self)@.start_menu_open, ..old(self)@ }),
    {
        self.start_menu_open = !self.start_menu_open;
    }

    /// Closes the Start menu (a click elsewhere, or a chosen item).
    pub fn close_start_menu(&mut self)
        ensures
            final(self)@ == (TaskbarView { start_menu_open: false, ..old(self)@ }),
    {
        self.start_menu_open = false;
    }
}

/// The DOM id of the taskbar button for a window.
pub fn button_element_id(window_id: u32) -> (s: String)
    ensures
        s@ == button_dom_id(window_id),
{
    let mut v: Vec<char> = Vec::new();
    push_str(&mut v, "tb-btn-win-");
    push_decimal(&mut v, window_id as u64);
    string_from(v.as_slice())
}

/// The keyboard shortcut for the Start menu: the Windows key, or Ctrl+Esc.
pub fn is_start_menu_shortcut(key: &str, ctrl: bool) -> (b: bool)
    ensures
        b == (key@ == "Meta"@ || (key@ == "Escape"@ && ctrl)),
{
    let k = crate::text::chars_of(key);
    crate::text::eq_str(k.as_slice(), "Meta") || (crate::text::eq_str(k.as_slice(), "Escape") && ctrl)
}

/// What choosing an item of the Start menu opens.
#[derive(Debug)]
pub enum Launch {
    /// A category that only opens on hover.
    Nothing,
    FileManager,
    Terminal,
    Projects,
    Contact,
    /// A markdown document, with its window title and content path.
    Markdown { title: &'static str, path: &'static str },
    Calculator,
    Notepad,
    Calendar,
    Minesweeper,
    Snake,
    SysInfo,
    Paint,
    CdPlayer,
    /// Lock the screen and show the login dialog again.
    Lockout,
    /// An empty 400 by 300 window titled with the item's own name.
    Blank,
}

/// What the Start menu item named `app` opens.
pub open spec fn launch_spec(app: Seq<char>) -> Launch {
    if app == "programs"@ { Launch::Nothing }
    else if app == "file-manager"@ { Launch::FileManager }
    else if app == "terminal"@ { Launch::Terminal }
    else if app == "projects"@ { Launch::Projects }
    else if app == "contact"@ { Launch::Contact }
    else if app == "about"@ { Launch::Markdown { title: "About Me - Notepad", path: "content/about/about.md" } }
    else if app == "cv"@ { Launch::Markdown { title: "CV - Notepad", path: "content/cv/cv.md" } }
    else if app == "skills"@ { Launch::Markdown { title: "Skills - Notepad", path: "content/skills/skills.md" } }
    else if app == "calculator"@ { Launch::Calculator }
    else if app == "notepad"@ { Launch::Notepad }
    else if app == "calendar"@ { Launch::Calendar }
    else if app == "minesweeper"@ { Launch::Minesweeper }
    else if app == "snake"@ { Launch::Snake }
    else if app == "sysinfo"@ { Launch::SysInfo }
    else if app == "paint"@ { Launch::Paint }
    else if app == "cdplayer"@ { Launch::CdPlayer }
    else if app == "help"@ { Launch::Markdown { title: "Help", path: "content/about/about.md" } }
    else if app == "lockout"@ { Launch::Lockout }
    else { Launch::Blank }
}

/// Decides what the Start menu item named `app` opens.
pub fn launch_app(app: &str) -> (r: Launch)
    ensures
        r == launch_spec(app@),
{
    let a = crate::text::chars_of(app);
    let s = a.as_slice();
    if crate::text::eq_str(s, "programs") { Launch::Nothing }
    else if crate::text::eq_str(s, "file-manager") { Launch::FileManager }
    else if crate::text::eq_str(s, "terminal") { Launch::Terminal }
    else if crate::text::eq_str(s, "projects") { Launch::Projects }
    else if crate::text::eq_str(s, "contact") { Launch::Contact }
    else if crate::text::eq_str(s, "about") { Launch::Markdown { title: "About Me - Notepad", path: "content/about/about.md" } }
    else if crate::text::eq_str(s, "cv") { Launch::Markdown { title: "CV - Notepad", path: "content/cv/cv.md" } }
    else if crate::text::eq_str(s, "skills") { Launch::Markdown { title: "Skills - Notepad", path: "content/skills/skills.md" } }
    else if crate::text::eq_str(s, "calculator") { Launch::Calculator }
    else if crate::text::eq_str(s, "notepad") { Launch::Notepad }
    else if crate::text::eq_str(s, "calendar") { Launch::Calendar }
    else if crate::text::eq_str(s, "minesweeper") { Launch::Minesweeper }
    else if crate::text::eq_str(s, "snake") { Launch::Snake }
    else if crate::text::eq_str(s, "sysinfo") { Launch::SysInfo }
    else if crate::text::eq_str(s, "paint") { Launch::Paint }
    else if crate::text::eq_str(s, "cdplayer") { Launch::CdPlayer }
    else if crate::text::eq_str(s, "help") { Launch::Markdown { title: "Help", path: "content/about/about.md" } }
    else if crate::text::eq_str(s, "lockout") { Launch::Lockout }
    else { Launch::Blank }
}

} // verus!
