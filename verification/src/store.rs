//! The file store: the files and directories that the engine reads and
//! writes, held in memory under their paths.
//!
//! A path is a key and nothing more: the store compares paths as written
//! and does not relate a directory to entries under longer paths. A
//! directory carries what lies below it itself: its files with their
//! texts and its subdirectories, each under its path below the directory.

use vstd::prelude::*;
use crate::table::{listed, Duplicate, Table};

verus! {

/// What a directory holds under one path below it.
pub enum Member {
    /// A file with its text.
    File(String),
    /// A subdirectory. What lies in it is held under longer paths of the
    /// same directory.
    Folder,
}

/// The mathematical value of a [`Member`].
pub enum MemberView {
    File(Seq<char>),
    Folder,
}

impl View for Member {
    type V = MemberView;

    open spec fn view(&self) -> MemberView {
        match self {
            Member::File(content) => MemberView::File(content@),
            Member::Folder => MemberView::Folder,
        }
    }
}

impl Duplicate for Member {
    fn duplicate(&self) -> (copy: Member) {
        match self {
            Member::File(content) => Member::File(content.clone()),
            Member::Folder => Member::Folder,
        }
    }
}

/// What the store holds under one path.
pub enum Node {
    /// A text file. `is_output` marks the file that the process writes its
    /// own output to; such a file is neither read nor rewritten.
    File { content: String, is_output: bool },
    /// A directory with the files and subdirectories below it, at any
    /// depth.
    Directory { members: Table<Member> },
}

/// The mathematical value of a [`Node`].
pub enum NodeView {
    File { content: Seq<char>, is_output: bool },
    Directory { members: Map<Seq<char>, MemberView> },
}

/// The mathematical value of a [`FileStore`]: a map from paths to nodes.
pub type StoreView = Map<Seq<char>, NodeView>;

impl View for Node {
    type V = NodeView;

    open spec fn view(&self) -> NodeView {
        match self {
            Node::File { content, is_output } => NodeView::File {
                content: content@,
                is_output: *is_output,
            },
            Node::Directory { members } => NodeView::Directory { members: members@ },
        }
    }
}

impl Node {
    /// An ordinary text file with the given content.
    pub fn file(content: &str) -> (n: Node)
        ensures
            n@ == (NodeView::File { content: content@, is_output: false }),
    {
        Node::File { content: content.to_owned(), is_output: false }
    }

    /// A node with the same value.
    pub fn duplicate(&self) -> (n: Node)
        ensures
            n@ == self@,
    {
        match self {
            Node::File { content, is_output } => Node::File {
                content: content.clone(),
                is_output: *is_output,
            },
            Node::Directory { members } => Node::Directory { members: members.duplicate() },
        }
    }
}

impl Duplicate for Node {
    fn duplicate(&self) -> (copy: Node) {
        Node::duplicate(self)
    }
}

/// `path` is a file of the store.
pub open spec fn is_file(s: StoreView, path: Seq<char>) -> bool {
    s.contains_key(path) && s[path] is File
}

/// `path` is a directory of the store.
pub open spec fn is_dir(s: StoreView, path: Seq<char>) -> bool {
    s.contains_key(path) && s[path] is Directory
}

/// The files and directories that the engine works on.
pub struct FileStore {
    nodes: Table<Node>,
}

impl View for FileStore {
    type V = StoreView;

    closed spec fn view(&self) -> StoreView {
        self.nodes@
    }
}

impl FileStore {
    /// The store without any path.
    pub fn new() -> (s: FileStore)
        ensures
            s@ == StoreView::empty(),
    {
        FileStore { nodes: Table::new() }
    }

    /// Puts `node` under `path`, in place of what was there.
    pub fn insert(&mut self, path: &str, node: Node)
        ensures
            final(self)@ == old(self)@.insert(path@, node@),
    {
        self.nodes.put(path, node);
    }

    /// The node under `path`, if there is one.
    pub fn get(&self, path: &str) -> (r: Option<&Node>)
        ensures
            match r {
                Some(node) => self@.contains_key(path@) && node@ == self@[path@],
                None => !self@.contains_key(path@),
            },
    {
        self.nodes.get(path)
    }

    /// The paths of the store, each once.
    pub fn paths(&self) -> (paths: Vec<String>)
        ensures
            forall|path: Seq<char>| self@.contains_key(path) <==> #[trigger] listed(paths@, path),
            forall|i: int, j: int|
                0 <= i < j < paths.len() ==> (#[trigger] paths[i])@ != (#[trigger] paths[j])@,
    {
        self.nodes.keys()
    }

    /// A store with the same value.
    pub fn duplicate(&self) -> (copy: FileStore)
        ensures
            copy@ == self@,
    {
        FileStore { nodes: self.nodes.duplicate() }
    }

    /// Whether anything is stored under `path`.
    pub fn contains(&self, path: &str) -> (b: bool)
        ensures
            b == self@.contains_key(path@),
    {
        self.nodes.contains(path)
    }

    /// Whether `path` is a file.
    pub fn is_file(&self, path: &str) -> (b: bool)
        ensures
            b == is_file(self@, path@),
    {
        match self.nodes.get(path) {
            Some(Node::File { .. }) => true,
            _ => false,
        }
    }

    /// Whether `path` is a directory.
    pub fn is_dir(&self, path: &str) -> (b: bool)
        ensures
            b == is_dir(self@, path@),
    {
        match self.nodes.get(path) {
            Some(Node::Directory { .. }) => true,
            _ => false,
        }
    }
}

} // verus!
