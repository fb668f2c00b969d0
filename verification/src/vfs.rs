//! The virtual file system: a tree of directories and files, each known
//! by its full path.

use vstd::prelude::*;
use crate::text::str_eq;

verus! {

/// A file or directory of the virtual file system.
pub struct FsEntry {
    pub name: String,
    pub path: String,
    /// `"dir"` or `"file"`.
    pub entry_type: String,
    pub children: Option<Vec<FsEntry>>,
}

/// The children of an entry, as a sequence (empty when it has none).
pub open spec fn children_of(e: FsEntry) -> Option<Seq<FsEntry>> {
    match e.children {
        Some(c) => Some(c@),
        None => None,
    }
}

/// The first entry, in depth-first order (an entry before its children,
/// its children before its next sibling), whose path is `path`.
pub open spec fn find_in(entries: Seq<FsEntry>, path: Seq<char>) -> Option<FsEntry>
    decreases entries,
{
    if entries.len() == 0 {
        None
    } else {
        let e = entries[0];
        if e.path@ == path {
            Some(e)
        } else {
            let inner = match e.children {
                Some(c) => {
                    proof {
                        assert(decreases_to!(entries => entries[0]));
                    }
                    find_in(c@, path)
                },
                None => None,
            };
            if inner is Some {
                inner
            } else {
                find_in(entries.drop_first(), path)
            }
        }
    }
}

/// Some entry of the tree, at any depth, has path `path`.
pub open spec fn tree_has_path(entries: Seq<FsEntry>, path: Seq<char>) -> bool
    decreases entries,
{
    if entries.len() == 0 {
        false
    } else {
        let e = entries[0];
        ||| e.path@ == path
        ||| match e.children {
            Some(c) => {
                proof {
                    assert(decreases_to!(entries => entries[0]));
                }
                tree_has_path(c@, path)
            },
            None => false,
        }
        ||| tree_has_path(entries.drop_first(), path)
    }
}

/// The children listed at `path`: the root entries for `/` or the empty
/// path, else the children of the directory found at `path`.
pub open spec fn list_spec(root: Seq<FsEntry>, path: Seq<char>) -> Option<Seq<FsEntry>> {
    if path == "/"@ || path.len() == 0 {
        Some(root)
    } else {
        match find_in(root, path) {
            None => None,
            Some(e) => if e.entry_type@ != "dir"@ {
                None
            } else {
                children_of(e)
            },
        }
    }
}

/// The path of the file found at `path`; `None` for a directory or no entry.
pub open spec fn file_path_spec(root: Seq<FsEntry>, path: Seq<char>) -> Option<Seq<char>> {
    match find_in(root, path) {
        None => None,
        Some(e) => if e.entry_type@ == "file"@ {
            Some(e.path@)
        } else {
            None
        },
    }
}

/// Searching finds an entry with exactly the path asked for, and finds one
/// whenever the tree holds one.
pub proof fn lemma_find_sound_and_complete(entries: Seq<FsEntry>, path: Seq<char>)
    ensures
        find_in(entries, path) matches Some(e) ==> e.path@ == path,
        find_in(entries, path) is Some <==> tree_has_path(entries, path),
    decreases entries,
{
    if entries.len() > 0 {
        let e = entries[0];
        if e.path@ != path {
            match e.children {
                Some(c) => {
                    assert(decreases_to!(entries => entries[0]));
                    lemma_find_sound_and_complete(c@, path);
                },
                None => {},
            }
            lemma_find_sound_and_complete(entries.drop_first(), path);
        }
    }
}

/// The virtual file system: the entries at its root.
pub struct VirtualFS {
    root: Vec<FsEntry>,
}

impl VirtualFS {
    /// The entries at the root.
    pub closed spec fn root(&self) -> Seq<FsEntry> {
        self.root@
    }

    /// A file system with the given root entries.
    pub fn new(root: Vec<FsEntry>) -> (fs: Self)
        ensures
            fs.root() == root@,
    {
        VirtualFS { root }
    }

    pub fn find_in_entries<'a>(entries: &'a [FsEntry], path: &str) -> (r: Option<&'a FsEntry>)
        ensures
            match r {
                Some(e) => find_in(entries@, path@) == Some(*e),
                None => find_in(entries@, path@) is None,
            },
        decreases entries@,
    {
        let mut i: usize = 0;
        assert(entries@.skip(0) =~= entries@);
        while i < entries.len()
            invariant
                i <= entries.len(),
                find_in(entries@, path@) == find_in(entries@.skip(i as int), path@),
            decreases entries.len() - i,
        {
            let ghost rest = entries@.skip(i as int);
            assert(rest[0] == entries@[i as int]);
            assert(rest.drop_first() =~= entries@.skip(i + 1));
            let entry = &entries[i];
            if str_eq(entry.path.as_str(), path) {
                return Some(entry);
            }
            match &entry.children {
                Some(children) => {
                    assert(decreases_to!(entries@ => entries@[i as int]));
                    let found = Self::find_in_entries(children.as_slice(), path);
                    if found.is_some() {
                        return found;
                    }
                },
                None => {},
            }
            i = i + 1;
        }
        None
    }

    pub fn find_entry(&self, path: &str) -> (r: Option<&FsEntry>)
        ensures
            match r {
                Some(e) => find_in(self.root(), path@) == Some(*e),
                None => find_in(self.root(), path@) is None,
            },
    {
        Self::find_in_entries(self.root.as_slice(), path)
    }

    /// The children of the directory at `path`; `/` or `""` gives the root
    /// entries. `None` when there is no such entry or it is not a directory.
    pub fn list_children(&self, path: &str) -> (r: Option<&[FsEntry]>)
        ensures
            match r {
                Some(s) => list_spec(self.root(), path@) == Some(s@),
                None => list_spec(self.root(), path@) is None,
            },
    {
        if str_eq(path, "/") || path.is_empty() {
            return Some(self.root.as_slice());
        }
        match self.find_entry(path) {
            None => None,
            Some(entry) => {
                if !str_eq(entry.entry_type.as_str(), "dir") {
                    return None;
                }
                match &entry.children {
                    Some(c) => Some(c.as_slice()),
                    None => None,
                }
            },
        }
    }

    /// The path of the file at `path`; `None` when not found or a directory.
    pub fn get_file_path(&self, path: &str) -> (r: Option<String>)
        ensures
            match r {
                Some(p) => file_path_spec(self.root(), path@) == Some(p@),
                None => file_path_spec(self.root(), path@) is None,
            },
    {
        match self.find_entry(path) {
            None => None,
            Some(entry) => {
                if str_eq(entry.entry_type.as_str(), "file") {
                    Some(entry.path.clone())
                } else {
                    None
                }
            },
        }
    }
}

} // verus!
