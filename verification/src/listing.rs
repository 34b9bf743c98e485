//! Directory listing nodes: a serializable snapshot of one filesystem
//! entry, with its children when it is a directory.
//!
//! The filesystem facts (name, path, the metadata flags) enter as plain
//! values; reading them, and serializing a node for the host, is the
//! caller's part.  Listings are ordered directories-first, then by
//! path.

use vstd::prelude::*;

use crate::strutil::{lemma_str_le_trans, lemma_str_lt_asym, spec_str_lt, str_lt};
use vstd::seq_lib::*;

verus! {

/// What kind of entry a path names.
#[derive(Clone, Copy, Debug, PartialEq, Eq, Structural)]
pub enum FileType {
    File,
    LinkFile,
    Dir,
    LinkDir,
    Unknown,
}

/// The kind derived from an entry's metadata flags.
pub open spec fn spec_from_flags(is_file: bool, is_dir: bool, is_symlink: bool) -> FileType {
    if is_file {
        if is_symlink {
            FileType::LinkFile
        } else {
            FileType::File
        }
    } else if is_dir {
        if is_symlink {
            FileType::LinkDir
        } else {
            FileType::Dir
        }
    } else {
        FileType::Unknown
    }
}

impl FileType {
    /// Whether this kind is a directory (plain or linked).
    pub open spec fn spec_is_dir(self) -> bool {
        match self {
            FileType::File => false,
            FileType::LinkFile => false,
            FileType::Dir => true,
            FileType::LinkDir => true,
            FileType::Unknown => false,
        }
    }

    /// Builds the kind from an entry's metadata flags.
    pub fn from_flags(is_file: bool, is_dir: bool, is_symlink: bool) -> (r: FileType)
        ensures
            r == spec_from_flags(is_file, is_dir, is_symlink),
    {
        if is_file {
            if is_symlink {
                FileType::LinkFile
            } else {
                FileType::File
            }
        } else if is_dir {
            if is_symlink {
                FileType::LinkDir
            } else {
                FileType::Dir
            }
        } else {
            FileType::Unknown
        }
    }

    /// Whether this kind is a directory.
    pub fn is_dir(&self) -> (r: bool)
        ensures
            r == self.spec_is_dir(),
    {
        match self {
            FileType::File => false,
            FileType::LinkFile => false,
            FileType::Dir => true,
            FileType::LinkDir => true,
            FileType::Unknown => false,
        }
    }
}

/// One listed entry: its name, its full path, its kind, and — for a
/// directory — its children.
pub struct FileNode {
    pub name: String,
    pub path: String,
    pub kind: FileType,
    pub children: Option<Vec<FileNode>>,
}

impl FileNode {
    /// A node for one entry: a directory starts with an empty child
    /// list, any other kind carries none.
    pub fn new(name: String, path: String, kind: FileType) -> (r: FileNode)
        ensures
            r.name@ == name@,
            r.path@ == path@,
            r.kind == kind,
            kind.spec_is_dir() ==> (r.children matches Some(c) && c@ == Seq::<FileNode>::empty()),
            !kind.spec_is_dir() ==> r.children is None,
    {
        let children = if kind.is_dir() {
            Some(Vec::new())
        } else {
            None
        };
        FileNode { name, path, kind, children }
    }

    /// Whether the node is a directory.
    pub fn is_dir(&self) -> (r: bool)
        ensures
            r == self.kind.spec_is_dir(),
    {
        self.kind.is_dir()
    }

    /// Appends a child to a directory node; any other node is left
    /// unchanged.
    pub fn add_child(&mut self, node: FileNode)
        ensures
            final(self).name == old(self).name,
            final(self).path == old(self).path,
            final(self).kind == old(self).kind,
            old(self).children matches Some(c) ==> (final(self).children matches Some(c2)
                && c2@ == c@.push(node)),
            old(self).children is None ==> *final(self) == *old(self),
    {
        match &mut self.children {
            Some(children) => children.push(node),
            None => {},
        }
    }
}

/// Listing order: directories come before files; entries of the same
/// kind go by their path, lexicographically.  `true` when `a` may stand
/// before `b`.
pub open spec fn spec_entry_precedes(
    a_dir: bool,
    a_path: Seq<char>,
    b_dir: bool,
    b_path: Seq<char>,
) -> bool {
    if a_dir != b_dir {
        a_dir
    } else {
        !spec_str_lt(b_path, a_path)
    }
}

/// Exec counterpart of the listing order.
pub fn entry_precedes(a_dir: bool, a_path: &str, b_dir: bool, b_path: &str) -> (r: bool)
    ensures
        r == spec_entry_precedes(a_dir, a_path@, b_dir, b_path@),
{
    if a_dir == b_dir {
        !str_lt(b_path, a_path)
    } else {
        a_dir
    }
}


/// The listing order between two nodes.
pub open spec fn entry_le(a: FileNode, b: FileNode) -> bool {
    spec_entry_precedes(a.kind.spec_is_dir(), a.path@, b.kind.spec_is_dir(), b.path@)
}

/// A listing in order: every earlier node may stand before every later
/// one.
pub open spec fn sorted_entries(s: Seq<FileNode>) -> bool {
    forall|x: int, y: int| 0 <= x < y < s.len() ==> entry_le(#[trigger] s[x], #[trigger] s[y])
}

/// Between any two nodes the listing order holds one way or the other.
proof fn lemma_entry_le_total(a: FileNode, b: FileNode)
    ensures
        entry_le(a, b) || entry_le(b, a),
{
    if a.kind.spec_is_dir() == b.kind.spec_is_dir() {
        if spec_str_lt(b.path@, a.path@) {
            lemma_str_lt_asym(b.path@, a.path@);
        }
    }
}

/// The listing order is transitive.
proof fn lemma_entry_le_trans(a: FileNode, b: FileNode, c: FileNode)
    requires
        entry_le(a, b),
        entry_le(b, c),
    ensures
        entry_le(a, c),
{
    if a.kind.spec_is_dir() == b.kind.spec_is_dir() && b.kind.spec_is_dir()
        == c.kind.spec_is_dir() {
        lemma_str_le_trans(a.path@, b.path@, c.path@);
    }
}

/// Exec counterpart of the listing order on nodes.
fn node_le(a: &FileNode, b: &FileNode) -> (r: bool)
    ensures
        r == entry_le(*a, *b),
{
    entry_precedes(a.is_dir(), a.path.as_str(), b.is_dir(), b.path.as_str())
}

/// Sorts a listing by insertion: directories first, then by path.  The
/// result holds exactly the given nodes, in order.
pub fn sort_entries(entries: Vec<FileNode>) -> (r: Vec<FileNode>)
    ensures
        r@.to_multiset() == entries@.to_multiset(),
        sorted_entries(r@),
{
    let mut rest = entries;
    let ghost all = rest@;
    let mut out: Vec<FileNode> = Vec::new();
    proof {
        broadcast use group_to_multiset_ensures;
        broadcast use vstd::multiset::group_multiset_axioms;

        assert(out@.to_multiset().add(rest@.to_multiset()) =~= all.to_multiset());
    }
    while rest.len() > 0
        invariant
            out@.to_multiset().add(rest@.to_multiset()) == all.to_multiset(),
            sorted_entries(out@),
        decreases rest@.len(),
    {
        proof {
            broadcast use group_to_multiset_ensures;
            broadcast use vstd::multiset::group_multiset_axioms;
        }
        let ghost rest0 = rest@;
        let ghost out0 = out@;
        let e = match rest.pop() {
            Some(e) => e,
            None => {
                return out;
            },
        };
        proof {
            assert(rest@ =~= rest0.remove(rest0.len() - 1));
            assert(rest@.to_multiset() == rest0.to_multiset().remove(e));
            assert(rest0.to_multiset().contains(e)) by {
                assert(rest0[rest0.len() - 1] == e);
                assert(rest0.contains(e));
            }
        }
        let mut j: usize = 0;
        while j < out.len() && node_le(&out[j], &e)
            invariant
                j <= out@.len(),
                out@ == out0,
                forall|m: int| 0 <= m < j ==> entry_le(#[trigger] out@[m], e),
            decreases out@.len() - j,
        {
            j += 1;
        }
        proof {
            if j < out@.len() {
                lemma_entry_le_total(out@[j as int], e);
                assert(entry_le(e, out@[j as int]));
            }
            assert forall|m: int| j <= m < out@.len() implies entry_le(
                e,
                #[trigger] out@[m],
            ) by {
                if m > j {
                    lemma_entry_le_trans(e, out@[j as int], out@[m]);
                }
            }
            out0.insert_ensures(j as int, e);
        }
        out.insert(j, e);
        proof {
            assert(out@ == out0.insert(j as int, e));
            assert(out@.to_multiset() == out0.to_multiset().insert(e));
            assert forall|x: int, y: int|
                0 <= x < y < out@.len() implies entry_le(
                #[trigger] out@[x],
                #[trigger] out@[y],
            ) by {
                if y < j {
                    assert(out@[x] == out0[x] && out@[y] == out0[y]);
                } else if x > j {
                    assert(out@[x] == out0[x - 1] && out@[y] == out0[y - 1]);
                } else if x == j {
                    assert(out@[x] == e && out@[y] == out0[y - 1]);
                } else if y == j {
                    assert(out@[x] == out0[x] && out@[y] == e);
                } else {
                    assert(x < j && y > j);
                    assert(out@[x] == out0[x] && out@[y] == out0[y - 1]);
                }
            }
            assert(out@.to_multiset().add(rest@.to_multiset()) =~= all.to_multiset());
        }
    }
    out
}

} // verus!
