//! A file tree held in an arena.
//!
//! Nodes are addressed by index into one vector; a directory holds the
//! indices of its children.  Children are always added after their
//! parent, so every child index is strictly greater than its parent's —
//! which rules out cycles.  The filesystem facts a node is built from
//! (name, file or directory, symlink) enter as plain values; the walk
//! that produces them is the caller's part.

use vstd::prelude::*;

verus! {

/// Payload of a file node.
pub struct FileData {
    pub name: String,
}

impl FileData {
    /// A file entry with the given name.
    pub fn new(name: String) -> (r: Self)
        ensures
            r.name@ == name@,
    {
        FileData { name }
    }
}

/// Payload of a directory node: its name and its children's indices.
pub struct DirData {
    pub name: String,
    pub children: Vec<usize>,
}

impl DirData {
    /// An empty directory entry with the given name.
    pub fn new(name: String) -> (r: Self)
        ensures
            r.name@ == name@,
            r.children@ == Seq::<usize>::empty(),
    {
        DirData { name, children: Vec::new() }
    }

    /// Appends a child index.
    pub fn add_child(&mut self, child: usize)
        ensures
            final(self).name == old(self).name,
            final(self).children@ == old(self).children@.push(child),
    {
        self.children.push(child);
    }
}

/// One node of the tree: a file or a directory, each possibly reached
/// through a symbolic link.
pub enum FileNode {
    File(FileData),
    LinkFile(FileData),
    Dir(DirData),
    LinkDir(DirData),
}

impl FileNode {
    /// The node's name.
    pub open spec fn spec_name(&self) -> Seq<char> {
        match self {
            FileNode::File(f) => f.name@,
            FileNode::LinkFile(f) => f.name@,
            FileNode::Dir(d) => d.name@,
            FileNode::LinkDir(d) => d.name@,
        }
    }

    /// Whether the node is a file (plain or linked).
    pub open spec fn spec_is_file(&self) -> bool {
        match self {
            FileNode::File(_) => true,
            FileNode::LinkFile(_) => true,
            FileNode::Dir(_) => false,
            FileNode::LinkDir(_) => false,
        }
    }

    /// Whether the node was reached through a symbolic link.
    pub open spec fn spec_is_link(&self) -> bool {
        match self {
            FileNode::File(_) => false,
            FileNode::LinkFile(_) => true,
            FileNode::Dir(_) => false,
            FileNode::LinkDir(_) => true,
        }
    }

    /// The node's child indices (a file has none).
    pub open spec fn spec_children(&self) -> Seq<usize> {
        match self {
            FileNode::File(_) => Seq::empty(),
            FileNode::LinkFile(_) => Seq::empty(),
            FileNode::Dir(d) => d.children@,
            FileNode::LinkDir(d) => d.children@,
        }
    }

    /// The node's name.
    pub fn name(&self) -> (r: &str)
        ensures
            r@ == self.spec_name(),
    {
        match self {
            FileNode::File(file) => file.name.as_str(),
            FileNode::LinkFile(file) => file.name.as_str(),
            FileNode::Dir(dir) => dir.name.as_str(),
            FileNode::LinkDir(dir) => dir.name.as_str(),
        }
    }

    /// Whether the node is a file.
    pub fn is_file(&self) -> (r: bool)
        ensures
            r == self.spec_is_file(),
    {
        match self {
            FileNode::File(_) => true,
            FileNode::LinkFile(_) => true,
            FileNode::Dir(_) => false,
            FileNode::LinkDir(_) => false,
        }
    }

    /// Whether the node is a directory.
    pub fn is_dir(&self) -> (r: bool)
        ensures
            r == !self.spec_is_file(),
    {
        !self.is_file()
    }

    /// Appends a child index to a directory node; a file node is left
    /// unchanged.
    pub fn add_child(&mut self, child: usize)
        ensures
            old(self).spec_is_file() ==> *final(self) == *old(self),
            !old(self).spec_is_file() ==> {
                &&& final(self).spec_name() == old(self).spec_name()
                &&& final(self).spec_is_file() == old(self).spec_is_file()
                &&& final(self).spec_is_link() == old(self).spec_is_link()
                &&& final(self).spec_children() == old(self).spec_children().push(child)
            },
    {
        match self {
            FileNode::File(_) => {},
            FileNode::LinkFile(_) => {},
            FileNode::Dir(dir) => dir.add_child(child),
            FileNode::LinkDir(dir) => dir.add_child(child),
        }
    }

    /// Builds a node from the facts read off an entry's metadata: a
    /// file or a directory, possibly behind a symbolic link.  An entry
    /// that is neither a file nor a directory has no node.
    pub fn try_new(name: String, is_file: bool, is_dir: bool, is_symlink: bool) -> (r: Option<
        FileNode,
    >)
        ensures
            match r {
                Some(node) => {
                    &&& node.spec_name() == name@
                    &&& node.spec_is_file() == is_file
                    &&& node.spec_is_link() == is_symlink
                    &&& node.spec_children() == Seq::<usize>::empty()
                    &&& is_file || is_dir
                },
                None => !is_file && !is_dir,
            },
    {
        if is_file {
            let file_data = FileData::new(name);
            if is_symlink {
                Some(FileNode::LinkFile(file_data))
            } else {
                Some(FileNode::File(file_data))
            }
        } else if is_dir {
            let dir_data = DirData::new(name);
            if is_symlink {
                Some(FileNode::LinkDir(dir_data))
            } else {
                Some(FileNode::Dir(dir_data))
            }
        } else {
            None
        }
    }
}

/// A file tree: an arena of nodes, the root at index zero.
pub struct FileTree {
    pub nodes: Vec<FileNode>,
}

impl FileTree {
    /// Every child index points past its parent and into the arena.
    pub open spec fn wf(self) -> bool {
        &&& self.nodes@.len() >= 1
        &&& forall|i: int, j: int|
            0 <= i < self.nodes@.len() && 0 <= j < self.nodes@[i].spec_children().len()
                ==> i < #[trigger] self.nodes@[i].spec_children()[j] < self.nodes@.len()
    }

    /// The node at index `i`.
    pub open spec fn spec_node(self, i: int) -> FileNode {
        self.nodes@[i]
    }

    /// How many nodes the tree holds.
    pub open spec fn spec_len(self) -> nat {
        self.nodes@.len()
    }

    /// A tree of one node, the root.
    pub fn new(root: FileNode) -> (r: Self)
        requires
            root.spec_children() == Seq::<usize>::empty(),
        ensures
            r.wf(),
            r.spec_len() == 1,
            r.spec_node(0) == root,
    {
        let mut nodes: Vec<FileNode> = Vec::new();
        nodes.push(root);
        FileTree { nodes }
    }

    /// Number of nodes.
    pub fn len(&self) -> (r: usize)
        ensures
            r == self.spec_len(),
    {
        self.nodes.len()
    }

    /// Borrows the node at `i`.
    pub fn node(&self, i: usize) -> (r: &FileNode)
        requires
            i < self.spec_len(),
        ensures
            *r == self.spec_node(i as int),
    {
        &self.nodes[i]
    }

    /// Appends `node` to the arena and registers it as a child of
    /// `parent`; returns the new node's index.  The node comes in
    /// without children of its own — its children are added after it,
    /// which keeps every child index above its parent's.
    pub fn add_node(&mut self, parent: usize, node: FileNode) -> (idx: usize)
        requires
            old(self).wf(),
            parent < old(self).spec_len(),
            !old(self).spec_node(parent as int).spec_is_file(),
            node.spec_children() == Seq::<usize>::empty(),
            old(self).spec_len() < usize::MAX,
        ensures
            final(self).wf(),
            idx == old(self).spec_len(),
            final(self).spec_len() == old(self).spec_len() + 1,
            final(self).spec_node(idx as int) == node,
            forall|i: int|
                0 <= i < old(self).spec_len() && i != parent ==> final(self).spec_node(i) == old(
                    self,
                ).spec_node(i),
            final(self).spec_node(parent as int).spec_children() == old(self).spec_node(
                parent as int,
            ).spec_children().push(idx),
            final(self).spec_node(parent as int).spec_name() == old(self).spec_node(
                parent as int,
            ).spec_name(),
            final(self).spec_node(parent as int).spec_is_file() == old(self).spec_node(
                parent as int,
            ).spec_is_file(),
    {
        let idx = self.nodes.len();
        self.nodes.push(node);
        self.nodes[parent].add_child(idx);
        proof {
            assert forall|i: int, j: int|
                0 <= i < self.nodes@.len() && 0 <= j < self.nodes@[i].spec_children().len() implies i
                < #[trigger] self.nodes@[i].spec_children()[j] < self.nodes@.len() by {}
        }
        idx
    }
}

} // verus!
