//! The file manager: navigating the virtual file system, the folder tree
//! on the left and what opening an entry does.

use vstd::prelude::*;
use crate::text::{chars_of, dec, eq_chars, ends_with, push_decimal, last_index_of, push_str, rfind_char, starts_with, str_eq, string_from, sub_chars};
use crate::vfs::FsEntry;

verus! {

/// `s` without trailing `/` characters.
pub open spec fn trim_slashes(s: Seq<char>) -> Seq<char>
    decreases s.len(),
{
    if s.len() > 0 && s.last() == '/' {
        trim_slashes(s.drop_last())
    } else {
        s
    }
}

/// The folder above `path`: everything before its last `/` (trailing
/// slashes ignored), or `/` at the top.
pub open spec fn parent_spec(path: Seq<char>) -> Seq<char> {
    if path == "/"@ {
        "/"@
    } else {
        let t = trim_slashes(path);
        match last_index_of(t, '/') {
            Some(pos) => if pos == 0 {
                "/"@
            } else {
                t.subrange(0, pos)
            },
            None => "/"@,
        }
    }
}

proof fn lemma_trim_slashes_prefix(s: Seq<char>)
    ensures
        trim_slashes(s).is_prefix_of(s),
    decreases s.len(),
{
    if s.len() > 0 && s.last() == '/' {
        lemma_trim_slashes_prefix(s.drop_last());
    }
}

proof fn lemma_last_index_in_range(s: Seq<char>, c: char)
    ensures
        last_index_of(s, c) matches Some(i) ==> 0 <= i < s.len() && s[i] == c,
    decreases s.len(),
{
    if s.len() > 0 && s.last() != c {
        lemma_last_index_in_range(s.drop_last(), c);
    }
}

/// The Up button never leaves the tree: the folder above a path is the
/// root or a shorter path that the path starts with.
pub proof fn lemma_parent_is_ancestor(path: Seq<char>)
    ensures
        parent_spec(path) == "/"@ || (parent_spec(path).len() < path.len()
            && parent_spec(path).is_prefix_of(path)),
{
    if path != "/"@ {
        let t = trim_slashes(path);
        lemma_trim_slashes_prefix(path);
        lemma_last_index_in_range(t, '/');
        match last_index_of(t, '/') {
            Some(pos) => {
                if pos != 0 {
                    assert(t.subrange(0, pos).is_prefix_of(path));
                }
            },
            None => {},
        }
    }
}

/// Up goes to the folder that holds the entry: the parent of `q/n`, for a
/// folder `q` and an entry name `n` without slashes, is `q` itself.
pub proof fn lemma_parent_of_child(q: Seq<char>, n: Seq<char>)
    requires
        q.len() > 0,
        q[0] == '/',
        n.len() > 0,
        forall|i: int| 0 <= i < n.len() ==> n[i] != '/',
    ensures
        parent_spec(q + "/"@ + n) == q,
{
    reveal_strlit("/");
    let p = q + "/"@ + n;
    assert("/"@ =~= seq!['/']);
    assert(p.last() == n.last());
    assert(n.last() == n[n.len() - 1]);
    assert(p.len() > 1);
    assert(p != "/"@);
    assert(trim_slashes(p) == p);
    crate::text::lemma_last_index_after(q, '/', n);
    assert(q.len() > 0);
    assert(p.subrange(0, q.len() as int) =~= q);
}

/// The folder above an entry at the top, `/n`, is the root `/`.
pub proof fn lemma_parent_of_top_level(n: Seq<char>)
    requires
        n.len() > 0,
        forall|i: int| 0 <= i < n.len() ==> n[i] != '/',
    ensures
        parent_spec("/"@ + n) == "/"@,
{
    reveal_strlit("/");
    let p = "/"@ + n;
    assert(p =~= Seq::<char>::empty() + seq!['/'] + n);
    assert(p.last() == n[n.len() - 1]);
    assert(p.len() > 1);
    assert(p != "/"@);
    assert(trim_slashes(p) == p);
    crate::text::lemma_last_index_after(Seq::<char>::empty(), '/', n);
}

/// One row of the folder tree.
pub struct TreeRow {
    pub name: String,
    pub path: String,
    /// Nesting level, 0 for the folders at the root.
    pub depth: usize,
    /// The row is the folder being shown.
    pub active: bool,
}

/// A tree row as a mathematical value.
pub struct TreeRowView {
    pub name: Seq<char>,
    pub path: Seq<char>,
    pub depth: nat,
    pub active: bool,
}

impl View for TreeRow {
    type V = TreeRowView;

    open spec fn view(&self) -> TreeRowView {
        TreeRowView { name: self.name@, path: self.path@, depth: self.depth as nat, active: self.active }
    }
}

/// A folder is expanded when it is the current folder or one of its ancestors.
pub open spec fn expanded(e: FsEntry, cur: Seq<char>) -> bool {
    e.path@ == cur || (e.path@ + "/"@).is_prefix_of(cur)
}

/// The rows of the folder tree for `entries` at nesting `depth`: each
/// folder in order, followed by the rows of its sub-folders if expanded.
/// Files are not listed.
pub open spec fn tree_rows_spec(entries: Seq<FsEntry>, cur: Seq<char>, depth: nat) -> Seq<TreeRowView>
    decreases entries,
{
    if entries.len() == 0 {
        Seq::empty()
    } else {
        let e = entries[0];
        let rest = tree_rows_spec(entries.drop_first(), cur, depth);
        if e.entry_type@ != "dir"@ {
            rest
        } else {
            let row = TreeRowView { name: e.name@, path: e.path@, depth, active: e.path@ == cur };
            let sub = if expanded(e, cur) {
                match e.children {
                    Some(c) => {
                        proof {
                            assert(decreases_to!(entries => entries[0]));
                        }
                        tree_rows_spec(c@, cur, depth + 1)
                    },
                    None => Seq::empty(),
                }
            } else {
                Seq::empty()
            };
            seq![row] + sub + rest
        }
    }
}

/// The depth of the deepest nesting of folders.
pub open spec fn tree_height(entries: Seq<FsEntry>) -> nat
    decreases entries,
{
    if entries.len() == 0 {
        0
    } else {
        let e = entries[0];
        let h0: nat = match e.children {
            Some(c) => {
                proof {
                    assert(decreases_to!(entries => entries[0]));
                }
                1 + tree_height(c@)
            },
            None => 1,
        };
        let hr = tree_height(entries.drop_first());
        if h0 > hr {
            h0
        } else {
            hr
        }
    }
}

/// What double-clicking an entry in the file list does.
#[derive(Debug)]
pub enum FileAction {
    /// Open the folder.
    Navigate(String),
    /// Open the markdown document at `path` in the viewer, in a window
    /// titled with the file's name.
    OpenDocument { title: String, path: String },
    /// Nothing.
    Nothing,
}

/// The last component of a path (after its last `/`), or the whole path.
pub open spec fn base_name(path: Seq<char>) -> Seq<char> {
    match last_index_of(path, '/') {
        Some(pos) => path.subrange(pos + 1, path.len() as int),
        None => path,
    }
}

/// The name of the entry at `q/n` is `n`, for a name without slashes.
pub proof fn lemma_base_name_of_child(q: Seq<char>, n: Seq<char>)
    requires
        forall|i: int| 0 <= i < n.len() ==> n[i] != '/',
    ensures
        base_name(q + "/"@ + n) == n,
{
    reveal_strlit("/");
    assert("/"@ =~= seq!['/']);
    crate::text::lemma_last_index_after(q, '/', n);
    assert((q + "/"@ + n).subrange(q.len() as int + 1, (q + "/"@ + n).len() as int) =~= n);
}

/// What double-clicking the entry of type `entry_type` at `path` does.
/// A folder opens in place; a Markdown file opens in the viewer.
pub open spec fn file_action_spec(entry_type: Seq<char>, path: Seq<char>) -> (int, Seq<char>, Seq<char>) {
    if entry_type == "dir"@ {
        (0, path, Seq::empty())
    } else if entry_type == "file"@ && ".md"@.is_suffix_of(path) {
        (1, base_name(path), path)
    } else {
        (2, Seq::empty(), Seq::empty())
    }
}

pub open spec fn file_action_view(a: FileAction) -> (int, Seq<char>, Seq<char>) {
    match a {
        FileAction::Navigate(p) => (0, p@, Seq::empty()),
        FileAction::OpenDocument { title, path } => (1, title@, path@),
        FileAction::Nothing => (2, Seq::empty(), Seq::empty()),
    }
}


/// The style of a folder-tree row: indented 16 pixels per level, and
/// highlighted when it is the folder being shown.
pub open spec fn row_style_spec(depth: nat, active: bool) -> Seq<char> {
    "padding-left:"@ + dec(depth * 16 + 4)
        + "px;cursor:pointer;white-space:nowrap;font-family:var(--font);font-size:var(--font-size);"@
        + (if active { "background:var(--title-active);color:var(--title-active-text);"@ } else { ""@ })
}

/// The icon of an entry of type `entry_type` in the file list.
pub open spec fn icon_spec(entry_type: Seq<char>) -> Seq<char> {
    if entry_type == "dir"@ { "📁"@ } else { "📄"@ }
}

/// The file manager.
pub struct FileManager;

impl FileManager {
    /// The folder above `path` (the `Up` button).
    pub fn parent_path(path: &str) -> (r: String)
        ensures
            r@ == parent_spec(path@),
    {
        if str_eq(path, "/") {
            return string_from(chars_of("/").as_slice());
        }
        let p = chars_of(path);
        let mut n = p.len();
        assert(p@.subrange(0, n as int) =~= p@);
        while n > 0 && p[n - 1] == '/'
            invariant
                n <= p@.len(),
                trim_slashes(path@) == trim_slashes(p@.subrange(0, n as int)),
                p@ == path@,
            decreases n,
        {
            assert(p@.subrange(0, n as int).drop_last() =~= p@.subrange(0, n - 1));
            n = n - 1;
        }
        let t = sub_chars(p.as_slice(), 0, n);
        assert(trim_slashes(path@) == t@);
        match rfind_char(t.as_slice(), '/') {
            Some(pos) => {
                if pos == 0 {
                    string_from(chars_of("/").as_slice())
                } else {
                    let head = sub_chars(t.as_slice(), 0, pos);
                    string_from(head.as_slice())
                }
            },
            None => string_from(chars_of("/").as_slice()),
        }
    }

    /// Whether the folders under `entries` nest less than `limit` deep, the
    /// bound that `tree_rows` asks of its starting depth.
    pub fn tree_height_below(entries: &[FsEntry], limit: usize) -> (b: bool)
        ensures
            b == (tree_height(entries@) < limit),
        decreases entries@,
    {
        if limit == 0 {
            return false;
        }
        let mut i: usize = 0;
        assert(entries@.skip(0) =~= entries@);
        while i < entries.len()
            invariant
                i <= entries.len(),
                limit > 0,
                (tree_height(entries@) < limit) == (tree_height(entries@.skip(i as int)) < limit),
            decreases entries.len() - i,
        {
            let ghost rest = entries@.skip(i as int);
            assert(rest[0] == entries@[i as int]);
            assert(rest.drop_first() =~= entries@.skip(i + 1));
            let e = &entries[i];
            match &e.children {
                Some(c) => {
                    assert(decreases_to!(entries@ => entries@[i as int]));
                    if !Self::tree_height_below(c.as_slice(), limit - 1) {
                        return false;
                    }
                },
                None => {
                    if limit <= 1 {
                        return false;
                    }
                },
            }
            i = i + 1;
        }
        assert(entries@.skip(entries.len() as int).len() == 0);
        true
    }

    /// The rows of the folder tree while `cur` is shown.
    pub fn tree_rows(entries: &[FsEntry], cur: &str, depth: usize) -> (rows: Vec<TreeRow>)
        requires
            depth + tree_height(entries@) < usize::MAX,
        ensures
            rows@.map_values(|r: TreeRow| r@) == tree_rows_spec(entries@, cur@, depth as nat),
        decreases entries@,
    {
        let mut rows: Vec<TreeRow> = Vec::new();
        let mut i: usize = 0;
        assert(entries@.skip(0) =~= entries@);
        while i < entries.len()
            invariant
                i <= entries.len(),
                depth + tree_height(entries@.skip(i as int)) < usize::MAX,
                tree_rows_spec(entries@, cur@, depth as nat) == rows@.map_values(|r: TreeRow| r@)
                    + tree_rows_spec(entries@.skip(i as int), cur@, depth as nat),
            decreases entries.len() - i,
        {
            let ghost rest = entries@.skip(i as int);
            assert(rest[0] == entries@[i as int]);
            assert(rest.drop_first() =~= entries@.skip(i + 1));
            let e = &entries[i];
            if str_eq(e.entry_type.as_str(), "dir") {
                let ghost before = rows@.map_values(|r: TreeRow| r@);
                let row = TreeRow {
                    name: e.name.clone(),
                    path: e.path.clone(),
                    depth,
                    active: str_eq(e.path.as_str(), cur),
                };
                rows.push(row);
                assert(rows@.map_values(|r: TreeRow| r@) =~= before.push(row@));
                let cur_chars = chars_of(cur);
                let mut prefix = chars_of(e.path.as_str());
                prefix.push('/');
                assert(prefix@ =~= e.path@ + "/"@) by {
                    reveal_strlit("/");
                }
                let is_exp = str_eq(e.path.as_str(), cur) || starts_with(cur_chars.as_slice(), prefix.as_slice());
                if is_exp {
                    match &e.children {
                        Some(c) => {
                            assert(decreases_to!(entries@ => entries@[i as int]));
                            let mut sub = Self::tree_rows(c.as_slice(), cur, depth + 1);
                            let ghost b2 = rows@.map_values(|r: TreeRow| r@);
                            let ghost sv = sub@.map_values(|r: TreeRow| r@);
                            rows.append(&mut sub);
                            assert(rows@.map_values(|r: TreeRow| r@) =~= b2 + sv);
                        },
                        None => {},
                    }
                }
            }
            i = i + 1;
        }
        assert(entries@.skip(entries.len() as int).len() == 0);
        assert(rows@.map_values(|r: TreeRow| r@) + tree_rows_spec(entries@.skip(i as int), cur@, depth as nat)
            =~= rows@.map_values(|r: TreeRow| r@));
        rows
    }

    /// What double-clicking the entry of type `entry_type` at `path` does.
    pub fn file_action(entry_type: &str, path: &str) -> (a: FileAction)
        ensures
            file_action_view(a) == file_action_spec(entry_type@, path@),
    {
        if str_eq(entry_type, "dir") {
            return FileAction::Navigate(string_from(chars_of(path).as_slice()));
        }
        let p = chars_of(path);
        let md = chars_of(".md");
        if str_eq(entry_type, "file") && ends_with(p.as_slice(), md.as_slice()) {
            let name = match rfind_char(p.as_slice(), '/') {
                Some(pos) => {
                    let n = p.len();
                    assert(pos < n);
                    sub_chars(p.as_slice(), pos + 1, n)
                },
                None => sub_chars(p.as_slice(), 0, p.len()),
            };
            assert(p@.subrange(0, p@.len() as int) =~= p@);
            FileAction::OpenDocument { title: string_from(name.as_slice()), path: string_from(p.as_slice()) }
        } else {
            FileAction::Nothing
        }
    }

    /// The icon of an entry in the file list.
    pub fn entry_icon(entry_type: &str) -> (s: &'static str)
        ensures
            s@ == icon_spec(entry_type@),
    {
        if str_eq(entry_type, "dir") {
            "📁"
        } else {
            "📄"
        }
    }
    /// The label of an entry in the file list: its icon, a space, its name.
    pub fn file_label(entry_type: &str, name: &str) -> (s: String)
        ensures
            s@ == icon_spec(entry_type@) + " "@ + name@,
    {
        let mut v = chars_of(Self::entry_icon(entry_type));
        push_str(&mut v, " ");
        push_str(&mut v, name);
        string_from(v.as_slice())
    }

    /// The label of a folder-tree row.
    pub fn tree_label(name: &str) -> (s: String)
        ensures
            s@ == "📁 "@ + name@,
    {
        let mut v = chars_of("📁 ");
        push_str(&mut v, name);
        string_from(v.as_slice())
    }

    /// The style attribute of a folder-tree row.
    pub fn tree_row_style(row: &TreeRow) -> (s: String)
        requires
            row.depth * 16 + 4 <= u64::MAX,
        ensures
            s@ == row_style_spec(row.depth as nat, row.active),
    {
        let mut v = chars_of("padding-left:");
        push_decimal(&mut v, (row.depth as u64) * 16 + 4);
        push_str(
            &mut v,
            "px;cursor:pointer;white-space:nowrap;font-family:var(--font);font-size:var(--font-size);",
        );
        if row.active {
            push_str(&mut v, "background:var(--title-active);color:var(--title-active-text);");
        } else {
            push_str(&mut v, "");
        }
        string_from(v.as_slice())
    }

    /// Where the Up button leads from `path`: its parent folder, or nowhere
    /// when the parent is the folder itself.
    pub fn up_target(path: &str) -> (r: Option<String>)
        ensures
            match r {
                Some(p) => parent_spec(path@) != path@ && p@ == parent_spec(path@),
                None => parent_spec(path@) == path@,
            },
    {
        let parent = Self::parent_path(path);
        let a = chars_of(parent.as_str());
        let b = chars_of(path);
        if eq_chars(a.as_slice(), b.as_slice()) {
            None
        } else {
            Some(parent)
        }
    }
}

} // verus!
