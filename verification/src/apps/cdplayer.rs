//! The CD player: fourteen tracks, a play/pause toggle, track skipping and
//! an eject button. Playback is simulated: each track lasts 30 seconds.

use vstd::prelude::*;
use crate::text::{chars_of, dec_padded, eq_str, push_decimal_padded, push_str, string_from};

verus! {

pub const TRACK_COUNT: usize = 14;

/// Seconds after which the player moves on to the next track.
pub const TRACK_SECONDS: u32 = 30;

/// The player as a mathematical value.
pub struct CdView {
    pub current_track: nat,
    pub playing: bool,
    pub elapsed_secs: nat,
    pub ejected: bool,
}

/// What every player keeps: a valid track, and less than a track's time elapsed.
pub open spec fn cd_wf(s: CdView) -> bool {
    s.current_track < 14 && s.elapsed_secs < 30
}

/// The track after `t`, wrapping from the last to the first.
pub open spec fn next_track(t: nat) -> nat {
    if t < 13 { t + 1 } else { 0 }
}

/// The track before `t`, wrapping from the first to the last.
pub open spec fn prev_track(t: nat) -> nat {
    if t > 0 { (t - 1) as nat } else { 13 }
}

/// What the page must do with the one-second clock after a button.
#[derive(Clone, Copy, PartialEq, Eq, Structural, Debug)]
pub enum TimerEffect {
    Keep,
    Start,
    Stop,
}

/// The player after the button `action`, and what happens to the clock.
pub open spec fn after_action(s: CdView, action: Seq<char>) -> (CdView, TimerEffect) {
    if action == "eject"@ {
        if !s.ejected {
            (CdView { ejected: true, playing: false, ..s }, TimerEffect::Stop)
        } else {
            (CdView { ejected: false, current_track: 0, elapsed_secs: 0, ..s }, TimerEffect::Keep)
        }
    } else if action == "play"@ {
        if s.ejected {
            (s, TimerEffect::Keep)
        } else if !s.playing {
            (CdView { playing: true, ..s }, TimerEffect::Start)
        } else {
            (CdView { playing: false, ..s }, TimerEffect::Stop)
        }
    } else if action == "stop"@ {
        (CdView { playing: false, elapsed_secs: 0, ..s }, TimerEffect::Stop)
    } else if action == "prev"@ {
        if s.ejected {
            (s, TimerEffect::Keep)
        } else {
            (CdView { current_track: prev_track(s.current_track), elapsed_secs: 0, ..s }, TimerEffect::Keep)
        }
    } else if action == "next"@ {
        if s.ejected {
            (s, TimerEffect::Keep)
        } else {
            (CdView { current_track: next_track(s.current_track), elapsed_secs: 0, ..s }, TimerEffect::Keep)
        }
    } else {
        (s, TimerEffect::Keep)
    }
}

/// The player after one second of the clock; `false` when it is not playing.
pub open spec fn after_tick(s: CdView) -> (CdView, bool) {
    if !s.playing || s.ejected {
        (s, false)
    } else if s.elapsed_secs + 1 >= 30 {
        (CdView { current_track: next_track(s.current_track), elapsed_secs: 0, ..s }, true)
    } else {
        (CdView { elapsed_secs: s.elapsed_secs + 1, ..s }, true)
    }
}

/// The display: `No Disc`, or the play symbol, the track number and the
/// elapsed time, such as `▶ Track 03 [00:17]`.
pub open spec fn display_spec(s: CdView) -> Seq<char> {
    if s.ejected {
        "No Disc"@
    } else {
        (if s.playing { "▶"@ } else { "⏸"@ }) + " Track "@ + dec_padded(s.current_track + 1, 2) + " ["@
            + dec_padded(s.elapsed_secs / 60, 2) + ":"@ + dec_padded(s.elapsed_secs % 60, 2) + "]"@
    }
}

/// The CD player.
pub struct CdState {
    current_track: usize,
    playing: bool,
    elapsed_secs: u32,
    ejected: bool,
}

impl View for CdState {
    type V = CdView;

    closed spec fn view(&self) -> CdView {
        CdView {
            current_track: self.current_track as nat,
            playing: self.playing,
            elapsed_secs: self.elapsed_secs as nat,
            ejected: self.ejected,
        }
    }
}

impl CdState {
    /// A loaded disc at the first track, stopped.
    pub fn new() -> (s: Self)
        ensures
            s@ == (CdView { current_track: 0, playing: false, elapsed_secs: 0, ejected: false }),
    {
        CdState { current_track: 0, playing: false, elapsed_secs: 0, ejected: false }
    }

    /// Handles a button of the player.
    pub fn handle_action(&mut self, action: &str) -> (effect: TimerEffect)
        requires
            cd_wf(old(self)@),
        ensures
            cd_wf(final(self)@),
            (final(self)@, effect) == after_action(old(self)@, action@),
    {
        let a = chars_of(action);
        let s = a.as_slice();
        if eq_str(s, "eject") {
            self.ejected = !self.ejected;
            if self.ejected {
                self.playing = false;
                TimerEffect::Stop
            } else {
                self.current_track = 0;
                self.elapsed_secs = 0;
                TimerEffect::Keep
            }
        } else if eq_str(s, "play") {
            if self.ejected {
                return TimerEffect::Keep;
            }
            self.playing = !self.playing;
            if self.playing {
                TimerEffect::Start
            } else {
                TimerEffect::Stop
            }
        } else if eq_str(s, "stop") {
            self.playing = false;
            self.elapsed_secs = 0;
            TimerEffect::Stop
        } else if eq_str(s, "prev") {
            if self.ejected {
                return TimerEffect::Keep;
            }
            if self.current_track > 0 {
                self.current_track = self.current_track - 1;
            } else {
                self.current_track = TRACK_COUNT - 1;
            }
            self.elapsed_secs = 0;
            TimerEffect::Keep
        } else if eq_str(s, "next") {
            if self.ejected {
                return TimerEffect::Keep;
            }
            if self.current_track < TRACK_COUNT - 1 {
                self.current_track = self.current_track + 1;
            } else {
                self.current_track = 0;
            }
            self.elapsed_secs = 0;
            TimerEffect::Keep
        } else {
            TimerEffect::Keep
        }
    }

    /// One second of playback: advances the time, and the track every 30
    /// seconds. Returns whether the clock keeps running.
    pub fn tick(&mut self) -> (running: bool)
        requires
            cd_wf(old(self)@),
        ensures
            cd_wf(final(self)@),
            (final(self)@, running) == after_tick(old(self)@),
    {
        if !self.playing || self.ejected {
            return false;
        }
        self.elapsed_secs = self.elapsed_secs + 1;
        if self.elapsed_secs >= TRACK_SECONDS {
            if self.current_track < TRACK_COUNT - 1 {
                self.current_track = self.current_track + 1;
                self.elapsed_secs = 0;
            } else {
                self.current_track = 0;
                self.elapsed_secs = 0;
            }
        }
        true
    }

    /// The text of the display.
    pub fn display_text(&self) -> (s: String)
        requires
            cd_wf(self@),
        ensures
            s@ == display_spec(self@),
    {
        if self.ejected {
            return string_from(chars_of("No Disc").as_slice());
        }
        let mut v: Vec<char> = Vec::new();
        if self.playing {
            push_str(&mut v, "▶");
        } else {
            push_str(&mut v, "⏸");
        }
        push_str(&mut v, " Track ");
        push_decimal_padded(&mut v, (self.current_track + 1) as u64, 2);
        push_str(&mut v, " [");
        push_decimal_padded(&mut v, (self.elapsed_secs / 60) as u64, 2);
        push_str(&mut v, ":");
        push_decimal_padded(&mut v, (self.elapsed_secs % 60) as u64, 2);
        push_str(&mut v, "]");
        assert(v@ =~= display_spec(self@));
        string_from(v.as_slice())
    }
}

/// `Next` steps through the fourteen tracks in order and wraps from the last
/// to the first; `Prev` goes the other way.
pub proof fn lemma_tracks_in_order(t: nat)
    requires
        t < 14,
    ensures
        next_track(t) == (t + 1) % 14,
        prev_track(t) == (t + 13) % 14,
        next_track(t) < 14 && prev_track(t) < 14,
{
}

/// `Prev` undoes `Next`: with a disc in, skipping forward then back returns
/// to the same track, at its start.
pub proof fn lemma_prev_undoes_next(s: CdView)
    requires
        cd_wf(s),
        !s.ejected,
    ensures
        after_action(after_action(s, "next"@).0, "prev"@).0 == (CdView { elapsed_secs: 0, ..s }),
{
    reveal_strlit("next");
    reveal_strlit("prev");
    reveal_strlit("eject");
    reveal_strlit("play");
    reveal_strlit("stop");
    assert("next"@[0] == 'n');
    assert("prev"@[0] == 'p' && "prev"@[1] == 'r');
    assert("eject"@[0] == 'e');
    assert("play"@[0] == 'p' && "play"@[1] == 'l');
    assert("stop"@[0] == 's');
    assert("next"@ != "eject"@);
    assert("next"@ != "play"@);
    assert("next"@ != "stop"@);
    assert("next"@ != "prev"@);
    assert("prev"@ != "eject"@);
    assert("prev"@ != "play"@);
    assert("prev"@ != "stop"@);
}

/// The CD player application.
pub struct CDPlayerApp;

} // verus!
