//! The Contact window: three links.

use vstd::prelude::*;

verus! {

/// The body of the Contact window.
pub const CONTACT_HTML: &'static str = r#"
            <div style="padding:16px;display:flex;flex-direction:column;gap:12px;">
                <div>📧 <a href="mailto:carlos@example.com" style="color:#0000ff;text-decoration:underline;">carlos@example.com</a></div>
                <div>🐙 <a href="https://github.com/carlos" target="_blank" style="color:#0000ff;text-decoration:underline;">github.com/carlos</a></div>
                <div>🔗 <a href="https://linkedin.com/in/carlos" target="_blank" style="color:#0000ff;text-decoration:underline;">linkedin.com/in/carlos</a></div>
            </div>
        "#;

/// The window's size.
pub const CONTACT_WIDTH: u32 = 400;
pub const CONTACT_HEIGHT: u32 = 250;

pub struct ContactApp;

} // verus!
