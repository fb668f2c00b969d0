//! The development server's request handling: which file a request line
//! names, its content type, and the head of the response.

use vstd::prelude::*;
use crate::text::{chars_of, dec, eq_str, last_index_of, lemma_last_index_after, push_decimal, push_str, rfind_char, split_words, string_from, sub_chars, views, words};

verus! {

/// The address the server listens on.
pub const ADDRESS: &'static str = "127.0.0.1:8080";

/// The status line of a response with the file.
pub const STATUS_OK: &'static str = "HTTP/1.1 200 OK";

/// The status line of a response without it.
pub const STATUS_NOT_FOUND: &'static str = "HTTP/1.1 404 NOT FOUND";

/// The body sent when the file cannot be read.
pub const NOT_FOUND_BODY: &'static str = "404 Not Found";

/// `s` without its leading slashes.
pub open spec fn strip_slashes(s: Seq<char>) -> Seq<char>
    decreases s.len(),
{
    if s.len() > 0 && s[0] == '/' {
        strip_slashes(s.drop_first())
    } else {
        s
    }
}

/// The file a request line asks for: its second word (`/` where it has
/// none), `/` standing for `/index.html`, without leading slashes.
pub open spec fn request_target(line: Seq<char>) -> Seq<char> {
    let w = words(line);
    let t = if w.len() >= 2 {
        w[1]
    } else {
        "/"@
    };
    strip_slashes(if t == "/"@ { "/index.html"@ } else { t })
}

/// What follows the last dot of `path`; all of it where it has no dot.
pub open spec fn extension(path: Seq<char>) -> Seq<char> {
    match last_index_of(path, '.') {
        Some(i) => path.skip(i + 1),
        None => path,
    }
}

/// The content type served for a file with extension `ext`.
pub open spec fn mime_for(ext: Seq<char>) -> Seq<char> {
    if ext == "html"@ {
        "text/html"@
    } else if ext == "css"@ {
        "text/css"@
    } else if ext == "js"@ {
        "application/javascript"@
    } else if ext == "wasm"@ {
        "application/wasm"@
    } else if ext == "json"@ {
        "application/json"@
    } else if ext == "png"@ {
        "image/png"@
    } else if ext == "jpg"@ || ext == "jpeg"@ {
        "image/jpeg"@
    } else if ext == "md"@ {
        "text/plain"@
    } else if ext == "svg"@ {
        "image/svg+xml"@
    } else {
        "application/octet-stream"@
    }
}

/// The head of a response: status line, content type and length, and the
/// blank line before the body.
pub open spec fn header_spec(found: bool, mime: Seq<char>, body_len: nat) -> Seq<char> {
    (if found { STATUS_OK@ } else { STATUS_NOT_FOUND@ }) + "\r\nContent-Type: "@ + mime
        + "\r\nContent-Length: "@ + dec(body_len) + "\r\n\r\n"@
}

/// The content type follows the file's extension: a file `name.js` is
/// served as JavaScript, `name.wasm` as WebAssembly, and so on through the
/// table, whatever dots `name` holds.
pub proof fn lemma_content_types(name: Seq<char>)
    ensures
        mime_for(extension(name + "."@ + "html"@)) == "text/html"@,
        mime_for(extension(name + "."@ + "css"@)) == "text/css"@,
        mime_for(extension(name + "."@ + "js"@)) == "application/javascript"@,
        mime_for(extension(name + "."@ + "wasm"@)) == "application/wasm"@,
        mime_for(extension(name + "."@ + "json"@)) == "application/json"@,
        mime_for(extension(name + "."@ + "png"@)) == "image/png"@,
        mime_for(extension(name + "."@ + "jpg"@)) == "image/jpeg"@,
        mime_for(extension(name + "."@ + "jpeg"@)) == "image/jpeg"@,
        mime_for(extension(name + "."@ + "md"@)) == "text/plain"@,
        mime_for(extension(name + "."@ + "svg"@)) == "image/svg+xml"@,
{
    reveal_strlit(".");
    assert("."@ =~= seq!['.']);
    reveal_strlit("html");
    reveal_strlit("css");
    reveal_strlit("js");
    reveal_strlit("wasm");
    reveal_strlit("json");
    reveal_strlit("png");
    reveal_strlit("jpg");
    reveal_strlit("jpeg");
    reveal_strlit("md");
    reveal_strlit("svg");
    assert("html"@.len() == 4 && "html"@[0] == 'h' && "html"@[1] == 't');
    assert("css"@.len() == 3 && "css"@[0] == 'c' && "css"@[1] == 's');
    assert("js"@.len() == 2 && "js"@[0] == 'j' && "js"@[1] == 's');
    assert("wasm"@.len() == 4 && "wasm"@[0] == 'w' && "wasm"@[1] == 'a');
    assert("json"@.len() == 4 && "json"@[0] == 'j' && "json"@[1] == 's');
    assert("png"@.len() == 3 && "png"@[0] == 'p' && "png"@[1] == 'n');
    assert("jpg"@.len() == 3 && "jpg"@[0] == 'j' && "jpg"@[1] == 'p');
    assert("jpeg"@.len() == 4 && "jpeg"@[0] == 'j' && "jpeg"@[1] == 'p');
    assert("md"@.len() == 2 && "md"@[0] == 'm' && "md"@[1] == 'd');
    assert("svg"@.len() == 3 && "svg"@[0] == 's' && "svg"@[1] == 'v');
    reveal_strlit("html");
    assert forall|i: int| 0 <= i < "html"@.len() implies "html"@[i] != '.' by {}
    lemma_last_index_after(name, '.', "html"@);
    assert((name + "."@ + "html"@).skip(name.len() as int + 1) =~= "html"@);
    reveal_strlit("css");
    assert forall|i: int| 0 <= i < "css"@.len() implies "css"@[i] != '.' by {}
    lemma_last_index_after(name, '.', "css"@);
    assert((name + "."@ + "css"@).skip(name.len() as int + 1) =~= "css"@);
    reveal_strlit("js");
    assert forall|i: int| 0 <= i < "js"@.len() implies "js"@[i] != '.' by {}
    lemma_last_index_after(name, '.', "js"@);
    assert((name + "."@ + "js"@).skip(name.len() as int + 1) =~= "js"@);
    reveal_strlit("wasm");
    assert forall|i: int| 0 <= i < "wasm"@.len() implies "wasm"@[i] != '.' by {}
    lemma_last_index_after(name, '.', "wasm"@);
    assert((name + "."@ + "wasm"@).skip(name.len() as int + 1) =~= "wasm"@);
    reveal_strlit("json");
    assert forall|i: int| 0 <= i < "json"@.len() implies "json"@[i] != '.' by {}
    lemma_last_index_after(name, '.', "json"@);
    assert((name + "."@ + "json"@).skip(name.len() as int + 1) =~= "json"@);
    reveal_strlit("png");
    assert forall|i: int| 0 <= i < "png"@.len() implies "png"@[i] != '.' by {}
    lemma_last_index_after(name, '.', "png"@);
    assert((name + "."@ + "png"@).skip(name.len() as int + 1) =~= "png"@);
    reveal_strlit("jpg");
    assert forall|i: int| 0 <= i < "jpg"@.len() implies "jpg"@[i] != '.' by {}
    lemma_last_index_after(name, '.', "jpg"@);
    assert((name + "."@ + "jpg"@).skip(name.len() as int + 1) =~= "jpg"@);
    reveal_strlit("jpeg");
    assert forall|i: int| 0 <= i < "jpeg"@.len() implies "jpeg"@[i] != '.' by {}
    lemma_last_index_after(name, '.', "jpeg"@);
    assert((name + "."@ + "jpeg"@).skip(name.len() as int + 1) =~= "jpeg"@);
    reveal_strlit("md");
    assert forall|i: int| 0 <= i < "md"@.len() implies "md"@[i] != '.' by {}
    lemma_last_index_after(name, '.', "md"@);
    assert((name + "."@ + "md"@).skip(name.len() as int + 1) =~= "md"@);
    reveal_strlit("svg");
    assert forall|i: int| 0 <= i < "svg"@.len() implies "svg"@[i] != '.' by {}
    lemma_last_index_after(name, '.', "svg"@);
    assert((name + "."@ + "svg"@).skip(name.len() as int + 1) =~= "svg"@);
}

fn strip_leading_slashes(v: &[char]) -> (r: Vec<char>)
    ensures
        r@ == strip_slashes(v@),
{
    let mut i: usize = 0;
    assert(v@.skip(0) =~= v@);
    while i < v.len() && v[i] == '/'
        invariant
            i <= v.len(),
            strip_slashes(v@) == strip_slashes(v@.skip(i as int)),
        decreases v.len() - i,
    {
        assert(v@.skip(i as int).drop_first() =~= v@.skip(i + 1));
        i = i + 1;
    }
    sub_chars(v, i, v.len())
}

/// The path of the file that the request line `line` asks for.
pub fn request_path(line: &str) -> (p: String)
    ensures
        p@ == request_target(line@),
{
    let l = chars_of(line);
    let w = split_words(l.as_slice());
    let t: Vec<char> = if w.len() >= 2 {
        assert(views(w@)[1] == w@[1]@);
        w[1].clone()
    } else {
        chars_of("/")
    };
    let t2: Vec<char> = if eq_str(t.as_slice(), "/") {
        chars_of("/index.html")
    } else {
        t
    };
    let r = strip_leading_slashes(t2.as_slice());
    string_from(r.as_slice())
}

/// The content type served for the file at `path`.
pub fn mime_type(path: &str) -> (m: &'static str)
    ensures
        m@ == mime_for(extension(path@)),
{
    let p = chars_of(path);
    let ext: Vec<char> = match rfind_char(p.as_slice(), '.') {
        Some(i) => sub_chars(p.as_slice(), i + 1, p.len()),
        None => p,
    };
    let e = ext.as_slice();
    if eq_str(e, "html") {
        "text/html"
    } else if eq_str(e, "css") {
        "text/css"
    } else if eq_str(e, "js") {
        "application/javascript"
    } else if eq_str(e, "wasm") {
        "application/wasm"
    } else if eq_str(e, "json") {
        "application/json"
    } else if eq_str(e, "png") {
        "image/png"
    } else if eq_str(e, "jpg") || eq_str(e, "jpeg") {
        "image/jpeg"
    } else if eq_str(e, "md") {
        "text/plain"
    } else if eq_str(e, "svg") {
        "image/svg+xml"
    } else {
        "application/octet-stream"
    }
}

/// The head of the response for a file that was (`found`) or was not read,
/// served as `mime`, with a body of `body_len` bytes.
pub fn response_header(found: bool, mime: &str, body_len: usize) -> (h: String)
    ensures
        h@ == header_spec(found, mime@, body_len as nat),
{
    let mut v: Vec<char> = if found {
        chars_of(STATUS_OK)
    } else {
        chars_of(STATUS_NOT_FOUND)
    };
    push_str(&mut v, "\r\nContent-Type: ");
    push_str(&mut v, mime);
    push_str(&mut v, "\r\nContent-Length: ");
    push_decimal(&mut v, body_len as u64);
    push_str(&mut v, "\r\n\r\n");
    string_from(v.as_slice())
}

} // verus!
