use win95_desktop::clippy::{ClippyDialogues, ClippyState, ClippyStep, Placement, DEFAULT_STEP0_TEXT, DEFAULT_STEP1_TEXT, DEFAULT_STEP2_TEXT};
use win95_desktop::contact::CONTACT_HTML;
use win95_desktop::desktop::{default_icons, icon_html, icon_style, launch_desktop_app, DesktopLaunch, MY_PC_ICON};
use win95_desktop::file_manager::{FileAction, FileManager, TreeRow};
use win95_desktop::login::{check_password, clock_text, guest_login, is_submit_key, WRONG_PASSWORD_TEXT};
use win95_desktop::markdown::{FetchOutcome, MarkdownViewer, FETCH_ERROR_HTML, LOAD_ERROR_HTML};
use win95_desktop::projects_gallery::{ProjectsGallery, GALLERY_HTML};
use win95_desktop::serve::{mime_type, request_path, response_header, NOT_FOUND_BODY};
use win95_desktop::vfs::{FsEntry, VirtualFS};

fn file(name: &str, path: &str) -> FsEntry {
    FsEntry { name: name.to_string(), path: path.to_string(), entry_type: "file".to_string(), children: None }
}

fn dir(name: &str, path: &str, children: Vec<FsEntry>) -> FsEntry {
    FsEntry { name: name.to_string(), path: path.to_string(), entry_type: "dir".to_string(), children: Some(children) }
}

fn sample_fs() -> VirtualFS {
    VirtualFS::new(vec![
        dir("about", "/about", vec![file("about.md", "/about/about.md")]),
        dir(
            "projects",
            "/projects",
            vec![
                file("alpha.md", "/projects/alpha.md"),
                dir("shots", "/projects/shots", vec![file("a.png", "/projects/shots/a.png")]),
            ],
        ),
        file("README", "/README"),
    ])
}

#[test]
fn vfs_lists_children() {
    let fs = sample_fs();
    let root = fs.list_children("/").unwrap();
    assert_eq!(root.len(), 3);
    assert_eq!(fs.list_children("").unwrap().len(), 3);
    let projects = fs.list_children("/projects").unwrap();
    assert_eq!(projects[1].name, "shots");
    assert_eq!(fs.list_children("/projects/shots").unwrap()[0].path, "/projects/shots/a.png");
    assert!(fs.list_children("/README").is_none());
    assert!(fs.list_children("/nowhere").is_none());
}

#[test]
fn vfs_finds_files_only() {
    let fs = sample_fs();
    assert_eq!(fs.get_file_path("/about/about.md"), Some("/about/about.md".to_string()));
    assert_eq!(fs.get_file_path("/projects/shots/a.png"), Some("/projects/shots/a.png".to_string()));
    assert_eq!(fs.get_file_path("/projects"), None);
    assert_eq!(fs.get_file_path("/missing.md"), None);
    assert_eq!(fs.find_entry("/projects/shots").unwrap().name, "shots");
}

#[test]
fn file_manager_parent_paths() {
    assert_eq!(FileManager::parent_path("/"), "/");
    assert_eq!(FileManager::parent_path("/projects"), "/");
    assert_eq!(FileManager::parent_path("/projects/shots"), "/projects");
    assert_eq!(FileManager::parent_path("/projects/shots/"), "/projects");
    assert_eq!(FileManager::parent_path("about"), "/");
    assert_eq!(FileManager::up_target("/"), None);
    assert_eq!(FileManager::up_target("/projects/shots"), Some("/projects".to_string()));
}

#[test]
fn file_manager_tree_expands_current_branch() {
    let fs = sample_fs();
    let root = fs.list_children("/").unwrap();
    let rows = FileManager::tree_rows(root, "/projects/shots", 0);
    let names: Vec<(&str, usize, bool)> = rows.iter().map(|r| (r.name.as_str(), r.depth, r.active)).collect();
    assert_eq!(names, vec![("about", 0, false), ("projects", 0, false), ("shots", 1, true)]);
    let collapsed = FileManager::tree_rows(root, "/", 0);
    assert_eq!(collapsed.len(), 2);
}

#[test]
fn file_manager_rows_and_labels() {
    let row = TreeRow { name: "shots".to_string(), path: "/projects/shots".to_string(), depth: 1, active: true };
    assert_eq!(
        FileManager::tree_row_style(&row),
        "padding-left:20px;cursor:pointer;white-space:nowrap;font-family:var(--font);font-size:var(--font-size);background:var(--title-active);color:var(--title-active-text);"
    );
    assert_eq!(FileManager::tree_label("shots"), "📁 shots");
    assert_eq!(FileManager::file_label("dir", "shots"), "📁 shots");
    assert_eq!(FileManager::file_label("file", "a.png"), "📄 a.png");
}

#[test]
fn file_manager_double_click() {
    assert!(matches!(FileManager::file_action("dir", "/projects"), FileAction::Navigate(p) if p == "/projects"));
    assert!(matches!(FileManager::file_action("file", "/about/about.md"), FileAction::OpenDocument { title, path } if title == "about.md" && path == "/about/about.md"));
    assert!(matches!(FileManager::file_action("file", "/projects/shots/a.png"), FileAction::Nothing));
}

#[test]
fn clippy_tour_advances_with_the_right_apps() {
    let mut c = ClippyState::new();
    let (text, btn) = c.initial_prompt();
    assert_eq!(text, DEFAULT_STEP0_TEXT);
    assert_eq!(btn, "Skip Tour");
    assert!(c.on_app_open("projects").is_none());
    let p = c.on_app_open("markdown").unwrap();
    assert_eq!(p.text, DEFAULT_STEP1_TEXT);
    assert_eq!(p.placement, Placement::StartButton);
    assert_eq!(c.step, 1);
    let p = c.on_app_open("projects").unwrap();
    assert_eq!(p.text, DEFAULT_STEP2_TEXT);
    assert_eq!(p.btn, "Close");
    assert_eq!(p.placement, Placement::Center);
    assert!(c.on_app_open("projects").is_none());
    assert_eq!(c.step, 2);
}

#[test]
fn clippy_uses_loaded_dialogues_and_stays_closed() {
    let step = |t: &str, b: &str| ClippyStep { text: t.to_string(), btn: b.to_string() };
    let mut c = ClippyState::new();
    c.dialogues = Some(ClippyDialogues { step0: step("a", "x"), step1: step("b", "y"), step2: step("c", "z") });
    assert_eq!(c.initial_prompt(), ("a".to_string(), "x".to_string()));
    let p = c.on_app_open("file-manager").unwrap();
    assert_eq!((p.text.as_str(), p.btn.as_str()), ("b", "y"));
    c.close();
    assert!(c.on_app_open("projects").is_none());
    assert_eq!(c.step, 1);
}

#[test]
fn login_checks_the_password() {
    let ok = check_password("123").unwrap();
    assert_eq!(ok.username, "Visitor");
    assert!(!ok.is_guest);
    assert!(check_password("1234").is_none());
    assert!(check_password("").is_none());
    let guest = guest_login();
    assert_eq!(guest.username, "Guest");
    assert!(guest.is_guest);
    assert!(WRONG_PASSWORD_TEXT.contains("Hint: 123"));
    assert!(is_submit_key("Enter"));
    assert!(!is_submit_key("a"));
}

#[test]
fn login_clock_text() {
    assert_eq!(clock_text(0, 7), "12:07 AM");
    assert_eq!(clock_text(13, 45), "1:45 PM");
    assert_eq!(clock_text(12, 0), "12:00 PM");
    assert_eq!(clock_text(11, 59), "11:59 AM");
}

#[test]
fn desktop_icons_stand_in_a_column() {
    let icons = default_icons();
    assert_eq!(icons.len(), 2);
    assert_eq!(icons[0].id, "my-pc");
    assert_eq!(icons[1].title, "Recycle Bin");
    assert_eq!(icon_style(0), "position: absolute; top: 16px; left: 16px;");
    assert_eq!(icon_style(1), "position: absolute; top: 106px; left: 16px;");
    let html = icon_html(&icons[0]);
    assert_eq!(
        html,
        format!("<div class=\"desktop-icon-img\">{}</div><div class=\"desktop-icon-label\">My PC</div>", MY_PC_ICON)
    );
    assert_eq!(launch_desktop_app("my-pc"), DesktopLaunch::AboutAndSystem);
    assert_eq!(launch_desktop_app("recycle-bin"), DesktopLaunch::RecycleBin);
    assert_eq!(launch_desktop_app("trash"), DesktopLaunch::Nothing);
}

#[test]
fn gallery_filters_by_tag() {
    assert!(ProjectsGallery::card_visible("all", "web"));
    assert!(ProjectsGallery::card_visible("rust", "rust web"));
    assert!(ProjectsGallery::card_visible("web", "rust web"));
    assert!(!ProjectsGallery::card_visible("systems", "rust web"));
    assert!(ProjectsGallery::card_visible("", "anything"));
    assert!(!ProjectsGallery::card_visible("rust", ""));
    assert_eq!(ProjectsGallery::card_style("web", "rust systems"), "display:none");
    assert_eq!(ProjectsGallery::card_style("rust", "rust systems"), "");
    assert!(GALLERY_HTML.contains("data-filter=\"systems\""));
    assert!(CONTACT_HTML.contains("mailto:carlos@example.com"));
}

#[test]
fn markdown_is_rendered_and_framed() {
    assert_eq!(MarkdownViewer::render("# Hi"), "<div class=\"markdown-body\"><h1>Hi</h1>\n</div>");
    assert_eq!(
        MarkdownViewer::render("*a* and **b**"),
        "<div class=\"markdown-body\"><p><em>a</em> and <strong>b</strong></p>\n</div>"
    );
    assert_eq!(MarkdownViewer::frame("x"), "<div class=\"markdown-body\">x</div>");
    assert_eq!(MarkdownViewer::content_for(&FetchOutcome::TextError), LOAD_ERROR_HTML);
    assert_eq!(MarkdownViewer::content_for(&FetchOutcome::FetchError), FETCH_ERROR_HTML);
    assert_eq!(
        MarkdownViewer::content_for(&FetchOutcome::Text("* alpha".to_string())),
        "<div class=\"markdown-body\"><ul>\n<li>alpha</li>\n</ul>\n</div>"
    );
}

#[test]
fn server_maps_requests_to_files() {
    assert_eq!(request_path("GET / HTTP/1.1\r\n"), "index.html");
    assert_eq!(request_path("GET /pkg/app.wasm HTTP/1.1\r\n"), "pkg/app.wasm");
    assert_eq!(request_path("GET //style.css HTTP/1.1"), "style.css");
    assert_eq!(request_path("GET"), "index.html");
    assert_eq!(request_path(""), "index.html");
}

#[test]
fn server_content_types() {
    assert_eq!(mime_type("index.html"), "text/html");
    assert_eq!(mime_type("pkg/app.wasm"), "application/wasm");
    assert_eq!(mime_type("a/b.c/photo.jpeg"), "image/jpeg");
    assert_eq!(mime_type("content/about.md"), "text/plain");
    assert_eq!(mime_type("LICENSE"), "application/octet-stream");
    assert_eq!(mime_type("svg"), "image/svg+xml");
}

#[test]
fn server_response_header() {
    assert_eq!(
        response_header(true, "text/css", 42),
        "HTTP/1.1 200 OK\r\nContent-Type: text/css\r\nContent-Length: 42\r\n\r\n"
    );
    assert_eq!(
        response_header(false, "text/html", NOT_FOUND_BODY.len()),
        "HTTP/1.1 404 NOT FOUND\r\nContent-Type: text/html\r\nContent-Length: 13\r\n\r\n"
    );
}
