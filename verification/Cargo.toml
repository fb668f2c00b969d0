[package]
name = "win95_desktop"
version = "0.1.0"
edition = "2021"
publish = false

[dependencies]
pulldown-cmark = { version = "0.11", default-features = false, features = ["html"] }
serde = { version = "1", features = ["derive"] }
serde_json = "1"
wasm-bindgen = "0.2"
wasm-bindgen-futures = "0.4"
js-sys = "0.3"
web-sys = { version = "0.3", features = ["Window", "Document", "Element", "HtmlElement", "HtmlInputElement", "HtmlTextAreaElement", "HtmlCanvasElement", "CanvasRenderingContext2d", "MouseEvent", "KeyboardEvent", "Event", "EventTarget", "Node", "NodeList", "HtmlCollection", "DomTokenList", "DomRect", "Response", "Storage", "CssStyleDeclaration", "console"] }
