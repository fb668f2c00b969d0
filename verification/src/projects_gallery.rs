//! The projects gallery: cards tagged by topic, and filter buttons that show
//! only the cards carrying a tag.

use vstd::prelude::*;
use crate::text::{chars_of, contains_chars, has_substring, str_eq};

verus! {

/// The gallery's body: the filter buttons and the cards.
pub const GALLERY_HTML: &'static str = r#"
            <div id="gallery-filter" style="padding:4px;border-bottom:1px inset var(--silver-dark);display:flex;gap:4px;flex-wrap:wrap;">
                <button class="win95-btn" data-filter="all">All</button>
                <button class="win95-btn" data-filter="rust">Rust</button>
                <button class="win95-btn" data-filter="web">Web</button>
                <button class="win95-btn" data-filter="systems">Systems</button>
            </div>
            <div id="gallery-cards" style="padding:8px;display:flex;flex-wrap:wrap;gap:12px;overflow-y:auto;height:calc(100% - 42px);align-content:flex-start;">
                <div class="project-card" data-tags="rust web">
                    <h3>System 95 Desktop</h3>
                    <p>A retro 95-themed desktop environment in the browser — built with Rust WASM.</p>
                    <div class="project-tags">Rust, WASM, CSS</div>
                </div>
                <div class="project-card" data-tags="rust systems">
                    <h3>Project Alpha</h3>
                    <p>Systems programming project description.</p>
                    <div class="project-tags">Rust, Systems</div>
                </div>
                <div class="project-card" data-tags="web">
                    <h3>Project Beta</h3>
                    <p>Web development project description.</p>
                    <div class="project-tags">TypeScript, React, Node</div>
                </div>
            </div>
        "#;

/// The style a hidden card gets.
pub const HIDDEN_STYLE: &'static str = "display:none";

/// Whether a card tagged `tags` stays visible under the filter `filter`:
/// always under `all`, else when the tags contain the filter's text.
pub open spec fn visible_under(filter: Seq<char>, tags: Seq<char>) -> bool {
    filter == "all"@ || has_substring(tags, filter)
}

pub struct ProjectsGallery;

impl ProjectsGallery {
    /// Whether the card whose `data-tags` is `tags` (empty where it has
    /// none) is shown under the filter button `filter`.
    pub fn card_visible(filter: &str, tags: &str) -> (b: bool)
        ensures
            b == visible_under(filter@, tags@),
    {
        if str_eq(filter, "all") {
            true
        } else {
            let t = chars_of(tags);
            let f = chars_of(filter);
            contains_chars(t.as_slice(), f.as_slice())
        }
    }

    /// The style attribute a card gets under the filter: empty when shown,
    /// `display:none` when hidden.
    pub fn card_style(filter: &str, tags: &str) -> (s: &'static str)
        ensures
            s@ == (if visible_under(filter@, tags@) { ""@ } else { HIDDEN_STYLE@ }),
    {
        if Self::card_visible(filter, tags) {
            ""
        } else {
            HIDDEN_STYLE
        }
    }
}

} // verus!
