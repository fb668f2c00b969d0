//! The onboarding assistant: a three-step tour that advances as the
//! visitor opens the suggested applications.

use vstd::prelude::*;
use vstd::string::StringExecFns;
use crate::text::str_eq;

verus! {

/// The text and button label of one step of the tour.
pub struct ClippyStep {
    pub text: String,
    pub btn: String,
}

/// The texts of the three steps, as loaded from the content files.
pub struct ClippyDialogues {
    pub step0: ClippyStep,
    pub step1: ClippyStep,
    pub step2: ClippyStep,
}

pub const DEFAULT_STEP0_TEXT: &'static str = "Hi! I'm Clippy. Let's explore Carlos' portfolio! Double-click the <b>My PC</b> icon on the desktop to read the <b>About Me</b> section.";

pub const DEFAULT_STEP1_TEXT: &'static str = "Excellent! You opened My PC. Here you can read about Carlos.<br/><br/>Next, let's see his work! Open the <b>Projects Gallery</b> from the Start Menu.";

pub const DEFAULT_STEP2_TEXT: &'static str = "Wow, look at all these cool projects! Carlos has built systems tooling, web apps, and this retro desktop.<br/><br/>Now you're ready to explore on your own. Have fun!";

pub const SKIP_TOUR: &'static str = "Skip Tour";

pub const CLOSE: &'static str = "Close";

/// Where the assistant flies to.
#[derive(Clone, Copy, PartialEq, Eq, Structural, Debug)]
pub enum Placement {
    /// Next to the Start button, bottom left.
    StartButton,
    /// The middle of the screen.
    Center,
}

/// What the assistant shows after a step change.
pub struct ClippyPrompt {
    pub text: String,
    pub btn: String,
    pub placement: Placement,
}

/// The text of step `step` (0, 1 or 2): the loaded one, else the built-in one.
pub open spec fn step_text(d: Option<ClippyDialogues>, step: nat) -> Seq<char> {
    match d {
        Some(d) => if step == 0 {
            d.step0.text@
        } else if step == 1 {
            d.step1.text@
        } else {
            d.step2.text@
        },
        None => if step == 0 {
            DEFAULT_STEP0_TEXT@
        } else if step == 1 {
            DEFAULT_STEP1_TEXT@
        } else {
            DEFAULT_STEP2_TEXT@
        },
    }
}

/// The button label of step `step`: the loaded one, else `Skip Tour`, or
/// `Close` on the last step.
pub open spec fn step_btn(d: Option<ClippyDialogues>, step: nat) -> Seq<char> {
    match d {
        Some(d) => if step == 0 {
            d.step0.btn@
        } else if step == 1 {
            d.step1.btn@
        } else {
            d.step2.btn@
        },
        None => if step == 2 {
            CLOSE@
        } else {
            SKIP_TOUR@
        },
    }
}

/// Which step the tour moves to when `app_id` opens in step `step`, if any.
pub open spec fn next_step(step: u32, closed: bool, app_id: Seq<char>) -> Option<u32> {
    if closed {
        None
    } else if step == 0 && (app_id == "file-manager"@ || app_id == "markdown"@) {
        Some(1)
    } else if step == 1 && app_id == "projects"@ {
        Some(2)
    } else {
        None
    }
}

/// The state of the tour.
pub struct ClippyState {
    pub step: u32,
    pub closed: bool,
    pub dialogues: Option<ClippyDialogues>,
}

fn copy_text(d: &Option<ClippyDialogues>, step: u32) -> (r: (String, String))
    requires
        step <= 2,
    ensures
        r.0@ == step_text(*d, step as nat),
        r.1@ == step_btn(*d, step as nat),
{
    match d {
        Some(d) => if step == 0 {
            (d.step0.text.clone(), d.step0.btn.clone())
        } else if step == 1 {
            (d.step1.text.clone(), d.step1.btn.clone())
        } else {
            (d.step2.text.clone(), d.step2.btn.clone())
        },
        None => if step == 0 {
            (String::from_str(DEFAULT_STEP0_TEXT), String::from_str(SKIP_TOUR))
        } else if step == 1 {
            (String::from_str(DEFAULT_STEP1_TEXT), String::from_str(SKIP_TOUR))
        } else {
            (String::from_str(DEFAULT_STEP2_TEXT), String::from_str(CLOSE))
        },
    }
}

impl ClippyState {
    /// The tour at its first step, with no dialogues loaded yet.
    pub fn new() -> (s: Self)
        ensures
            s.step == 0,
            !s.closed,
            s.dialogues is None,
    {
        ClippyState { step: 0, closed: false, dialogues: None }
    }

    /// The text and button of the first step.
    pub fn initial_prompt(&self) -> (r: (String, String))
        ensures
            r.0@ == step_text(self.dialogues, 0),
            r.1@ == step_btn(self.dialogues, 0),
    {
        copy_text(&self.dialogues, 0)
    }

    /// An application opened: the tour moves from step 0 to 1 when the file
    /// manager or a document opens, from 1 to 2 when the projects gallery
    /// opens, and returns what to show then. A closed tour never moves.
    pub fn on_app_open(&mut self, app_id: &str) -> (r: Option<ClippyPrompt>)
        ensures
            final(self).closed == old(self).closed,
            final(self).dialogues == old(self).dialogues,
            match next_step(old(self).step, old(self).closed, app_id@) {
                None => r is None && final(self).step == old(self).step,
                Some(n) => {
                    &&& final(self).step == n
                    &&& r matches Some(p) && p.text@ == step_text(old(self).dialogues, n as nat)
                        && p.btn@ == step_btn(old(self).dialogues, n as nat)
                        && p.placement == (if n == 1 { Placement::StartButton } else { Placement::Center })
                },
            },
    {
        if self.closed {
            return None;
        }
        if self.step == 0 && (str_eq(app_id, "file-manager") || str_eq(app_id, "markdown")) {
            self.step = 1;
            let (text, btn) = copy_text(&self.dialogues, 1);
            Some(ClippyPrompt { text, btn, placement: Placement::StartButton })
        } else if self.step == 1 && str_eq(app_id, "projects") {
            self.step = 2;
            let (text, btn) = copy_text(&self.dialogues, 2);
            Some(ClippyPrompt { text, btn, placement: Placement::Center })
        } else {
            None
        }
    }

    /// The visitor dismissed the assistant; it stays away for good.
    pub fn close(&mut self)
        ensures
            final(self).closed,
            final(self).step == old(self).step,
            final(self).dialogues == old(self).dialogues,
    {
        self.closed = true;
    }
}

/// The tour only moves forward: the step never decreases and never passes 2.
pub proof fn lemma_tour_moves_forward(step: u32, closed: bool, app_id: Seq<char>)
    requires
        step <= 2,
    ensures
        next_step(step, closed, app_id) matches Some(n) ==> n == step + 1 && n <= 2,
        closed ==> next_step(step, closed, app_id) is None,
{
}

} // verus!
