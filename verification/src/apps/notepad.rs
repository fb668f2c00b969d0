//! Notepad: a text area with New, Save and Exit. Exit closes the window the
//! text area sits in, which it finds by the window element's id.

use vstd::prelude::*;
use crate::text::{chars_of, dec, lemma_parse_dec, parse_u32, parse_u32_spec};

verus! {

/// The key under which the saved text is kept in the browser's storage.
pub const STORAGE_KEY: &'static str = "notepad_text";

/// What a click on a menu item asks for.
#[derive(Clone, Copy, PartialEq, Eq, Structural, Debug)]
pub enum NotepadCommand {
    /// Empty the text area and forget the saved text.
    ClearText,
    /// Keep the text area's contents (and store them in the browser).
    Save,
    /// Close the enclosing window.
    CloseWindow,
    /// Not a menu item.
    Nothing,
}

/// The command behind the menu item named `item`.
pub open spec fn command_of(item: Seq<char>) -> NotepadCommand {
    if item == "new"@ {
        NotepadCommand::ClearText
    } else if item == "save"@ {
        NotepadCommand::Save
    } else if item == "exit"@ {
        NotepadCommand::CloseWindow
    } else {
        NotepadCommand::Nothing
    }
}

/// The id of the window whose element carries the id `element_id`: the
/// number after the prefix `win-`.
pub open spec fn window_id_spec(element_id: Seq<char>) -> Option<u32> {
    if element_id.len() >= 4 && element_id.take(4) == "win-"@ {
        parse_u32_spec(element_id.skip(4))
    } else {
        None
    }
}

/// The window id read from a window element's id is the number the element
/// was named with: `win-7` gives 7, for every window id.
pub proof fn lemma_window_id_round_trip(n: u32)
    ensures
        window_id_spec("win-"@ + dec(n as nat)) == Some(n),
{
    reveal_strlit("win-");
    let e = "win-"@ + dec(n as nat);
    assert(e.take(4) =~= "win-"@);
    assert(e.skip(4) =~= dec(n as nat));
    lemma_parse_dec(n);
}

pub struct NotepadApp;

impl NotepadApp {
    /// The command behind a menu item's `data-menuitem` value.
    pub fn menu_command(item: &str) -> (c: NotepadCommand)
        ensures
            c == command_of(item@),
    {
        if crate::text::str_eq(item, "new") {
            NotepadCommand::ClearText
        } else if crate::text::str_eq(item, "save") {
            NotepadCommand::Save
        } else if crate::text::str_eq(item, "exit") {
            NotepadCommand::CloseWindow
        } else {
            NotepadCommand::Nothing
        }
    }

    /// The window id encoded in a window element's id (`win-7` gives 7), or
    /// `None` where the id has another shape.
    pub fn window_id_of(element_id: &str) -> (r: Option<u32>)
        ensures
            r == window_id_spec(element_id@),
    {
        let v = chars_of(element_id);
        proof {
            reveal_strlit("win-");
        }
        if v.len() >= 4 && v[0] == 'w' && v[1] == 'i' && v[2] == 'n' && v[3] == '-' {
            assert(v@.take(4) =~= "win-"@);
            let mut rest = v.clone();
            let tail = rest.split_off(4);
            assert(tail@ =~= element_id@.skip(4));
            parse_u32(tail.as_slice())
        } else {
            proof {
                if v@.len() >= 4 && v@.take(4) == "win-"@ {
                    assert(v@.take(4)[0] == 'w');
                    assert(v@.take(4)[1] == 'i');
                    assert(v@.take(4)[2] == 'n');
                    assert(v@.take(4)[3] == '-');
                }
            }
            None
        }
    }
}

} // verus!
