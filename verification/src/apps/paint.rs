//! Paint: a pencil, a brush and an eraser in three sizes, and a palette of
//! sixteen colours. The canvas drawing itself is done by the page; this
//! module decides what to draw.

use vstd::prelude::*;
use crate::text::{chars_of, parse_u32, parse_u32_spec, push_str, str_eq, string_from};

verus! {

/// The palette, in the order its swatches are shown.
pub const COLORS: [&'static str; 16] = [
    "#000000", "#ffffff", "#ff0000", "#00ff00", "#0000ff",
    "#ffff00", "#ff00ff", "#00ffff", "#808080", "#c0c0c0",
    "#800000", "#008000", "#000080", "#808000", "#800080", "#008080",
];

/// The colour the eraser paints with.
pub const CANVAS_BACKGROUND: &'static str = "#ffffff";

/// The smallest canvas the page makes.
pub const MIN_CANVAS_WIDTH: u32 = 200;
pub const MIN_CANVAS_HEIGHT: u32 = 100;

/// The height of the toolbar and the palette above the canvas.
pub const CHROME_HEIGHT: u32 = 64;

/// The swatch of the palette colour `color` at position `i`; the first is
/// selected at the start.
pub open spec fn swatch(i: int, color: Seq<char>) -> Seq<char> {
    "<div class=\"paint-color"@ + (if i == 0 { " selected"@ } else { ""@ }) + "\" data-color=\""@
        + color + "\" style=\"background:"@ + color + ";\"></div>"@
}

/// The swatches of the first `n` palette colours.
pub open spec fn palette_upto(n: nat) -> Seq<char>
    decreases n,
{
    if n == 0 {
        Seq::empty()
    } else {
        palette_upto((n - 1) as nat) + swatch(n - 1, COLORS@[n - 1]@)
    }
}

/// What the pointer leaves on the canvas at one point.
#[derive(Clone, Copy, PartialEq, Eq, Structural, Debug)]
pub enum Stroke {
    /// A background-coloured square of side `side`, centred on the point.
    Erase { side: u32 },
    /// A disc in the current colour, of radius `radius_halves / 2`.
    Dot { radius_halves: u64 },
}

/// What a click on a toolbar button asks for.
#[derive(Clone, Copy, PartialEq, Eq, Structural, Debug)]
pub enum ToolbarEffect {
    /// Paint the whole canvas white.
    ClearCanvas,
    /// The tool or the size changed; the buttons' highlight follows.
    Selected,
    /// Nothing changes.
    Nothing,
}

/// The drawing state of a Paint window.
pub struct PaintState {
    pub tool: String,
    pub color: String,
    pub size: u32,
    pub drawing: bool,
}

/// The stroke drawn with `tool` at `size`.
pub open spec fn stroke_of(tool: Seq<char>, size: u32) -> Stroke {
    if tool == "eraser"@ {
        Stroke::Erase { side: size }
    } else if tool == "brush"@ {
        Stroke::Dot { radius_halves: (3 * size) as u64 }
    } else {
        Stroke::Dot { radius_halves: size as u64 }
    }
}

/// The brush paints three times as wide as the pencil at the same size,
/// the eraser clears a square as wide as the size, and a larger size never
/// draws smaller.
pub proof fn lemma_brush_widths(size: u32, bigger: u32)
    ensures
        stroke_of("pencil"@, size) == (Stroke::Dot { radius_halves: size as u64 }),
        stroke_of("eraser"@, size) == (Stroke::Erase { side: size }),
        stroke_of("brush"@, size) == (Stroke::Dot { radius_halves: (3 * size) as u64 }),
        size <= bigger ==> match (stroke_of("brush"@, size), stroke_of("brush"@, bigger)) {
            (Stroke::Dot { radius_halves: r1 }, Stroke::Dot { radius_halves: r2 }) => r1 <= r2,
            _ => false,
        },
{
    reveal_strlit("pencil");
    reveal_strlit("eraser");
    reveal_strlit("brush");
    assert("pencil"@[0] == 'p' && "eraser"@[0] == 'e' && "brush"@[0] == 'b');
    assert("pencil"@.len() == 6 && "brush"@.len() == 5);
}

impl PaintState {
    /// A fresh window: the pencil, black, one pixel, not drawing.
    pub fn new() -> (s: PaintState)
        ensures
            s.tool@ == "pencil"@,
            s.color@ == "#000000"@,
            s.size == 1,
            !s.drawing,
    {
        PaintState {
            tool: "pencil".to_string(),
            color: "#000000".to_string(),
            size: 1,
            drawing: false,
        }
    }

    /// A click on a toolbar button carrying `data-tool` = `tool`, or, when
    /// it carries none, `data-size` = `size`.
    pub fn toolbar_click(&mut self, tool: Option<&str>, size: Option<&str>) -> (e: ToolbarEffect)
        ensures
            match tool {
                Some(t) => if t@ == "clear"@ {
                    e == ToolbarEffect::ClearCanvas && final(self).tool@ == old(self).tool@
                } else {
                    e == ToolbarEffect::Selected && final(self).tool@ == t@
                },
                None => final(self).tool@ == old(self).tool@,
            },
            tool is None ==> match size {
                Some(z) => match parse_u32_spec(z@) {
                    Some(n) => e == ToolbarEffect::Selected && final(self).size == n,
                    None => e == ToolbarEffect::Nothing && final(self).size == old(self).size,
                },
                None => e == ToolbarEffect::Nothing && final(self).size == old(self).size,
            },
            tool is Some ==> final(self).size == old(self).size,
            final(self).color@ == old(self).color@,
            final(self).drawing == old(self).drawing,
    {
        match tool {
            Some(t) => {
                if str_eq(t, "clear") {
                    ToolbarEffect::ClearCanvas
                } else {
                    self.tool = t.to_string();
                    ToolbarEffect::Selected
                }
            },
            None => match size {
                Some(z) => {
                    let v = chars_of(z);
                    match parse_u32(v.as_slice()) {
                        Some(n) => {
                            self.size = n;
                            ToolbarEffect::Selected
                        },
                        None => ToolbarEffect::Nothing,
                    }
                },
                None => ToolbarEffect::Nothing,
            },
        }
    }

    /// A click on the palette swatch of `color`.
    pub fn select_color(&mut self, color: &str)
        ensures
            final(self).color@ == color@,
            final(self).tool@ == old(self).tool@,
            final(self).size == old(self).size,
            final(self).drawing == old(self).drawing,
    {
        self.color = color.to_string();
    }

    /// The button goes down on the canvas: drawing starts, and the stroke
    /// to draw at the point comes back.
    pub fn press(&mut self) -> (s: Stroke)
        ensures
            final(self).drawing,
            s == stroke_of(old(self).tool@, old(self).size),
            final(self).tool@ == old(self).tool@,
            final(self).color@ == old(self).color@,
            final(self).size == old(self).size,
    {
        self.drawing = true;
        self.stroke()
    }

    /// The pointer moves: the stroke to draw, if the button is down.
    pub fn drag(&self) -> (s: Option<Stroke>)
        ensures
            s == (if self.drawing { Some(stroke_of(self.tool@, self.size)) } else { None }),
    {
        if self.drawing {
            Some(self.stroke())
        } else {
            None
        }
    }

    /// The button comes up anywhere on the page.
    pub fn release(&mut self)
        ensures
            !final(self).drawing,
            final(self).tool@ == old(self).tool@,
            final(self).color@ == old(self).color@,
            final(self).size == old(self).size,
    {
        self.drawing = false;
    }

    /// The stroke of the current tool and size: the eraser clears a square as
    /// wide as the size, the brush paints a disc of radius one and a half
    /// times the size, anything else a disc of radius half the size.
    pub fn stroke(&self) -> (s: Stroke)
        ensures
            s == stroke_of(self.tool@, self.size),
    {
        if str_eq(self.tool.as_str(), "eraser") {
            Stroke::Erase { side: self.size }
        } else if str_eq(self.tool.as_str(), "brush") {
            Stroke::Dot { radius_halves: 3 * (self.size as u64) }
        } else {
            Stroke::Dot { radius_halves: self.size as u64 }
        }
    }
}

pub struct PaintApp;

impl PaintApp {
    /// The palette's HTML: one swatch per colour, the first selected.
    pub fn palette_html() -> (h: String)
        ensures
            h@ == palette_upto(16),
    {
        let mut v: Vec<char> = Vec::new();
        let mut i: usize = 0;
        while i < 16
            invariant
                i <= 16,
                v@ == palette_upto(i as nat),
            decreases 16 - i,
        {
            let c = COLORS[i];
            push_str(&mut v, "<div class=\"paint-color");
            if i == 0 {
                push_str(&mut v, " selected");
            } else {
                push_str(&mut v, "");
            }
            push_str(&mut v, "\" data-color=\"");
            push_str(&mut v, c);
            push_str(&mut v, "\" style=\"background:");
            push_str(&mut v, c);
            push_str(&mut v, ";\"></div>");
            assert(v@ =~= palette_upto(i as nat) + swatch(i as int, COLORS@[i as int]@));
            i = i + 1;
        }
        string_from(v.as_slice())
    }

    /// The canvas size for a window body of `client_width` by
    /// `client_height` pixels: the body less the toolbar and palette, and no
    /// smaller than 200 by 100.
    pub fn canvas_size(client_width: u32, client_height: u32) -> (r: (u32, u32))
        requires
            client_height >= CHROME_HEIGHT,
        ensures
            r.0 == (if client_width > MIN_CANVAS_WIDTH { client_width } else { MIN_CANVAS_WIDTH }),
            r.1 == (if client_height - CHROME_HEIGHT > MIN_CANVAS_HEIGHT {
                (client_height - CHROME_HEIGHT) as u32
            } else {
                MIN_CANVAS_HEIGHT
            }),
    {
        let h = client_height - CHROME_HEIGHT;
        let w2 = if client_width > MIN_CANVAS_WIDTH { client_width } else { MIN_CANVAS_WIDTH };
        let h2 = if h > MIN_CANVAS_HEIGHT { h } else { MIN_CANVAS_HEIGHT };
        (w2, h2)
    }
}

} // verus!
