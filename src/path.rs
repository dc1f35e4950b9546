//! Paths as sequences of components, and the nodes of the workspace tree.

use vstd::prelude::*;

verus! {

/// A path, one component per element (`/`, `ws`, `a.txt`).
pub type PathModel = Seq<Seq<char>>;

#[derive(Clone, Debug)]
pub struct NodePath {
    pub parts: Vec<String>,
}

impl View for NodePath {
    type V = PathModel;

    open spec fn view(&self) -> PathModel {
        self.parts@.map_values(|s: String| s@)
    }
}

/// The last component, empty for an empty path.
pub open spec fn last_name(p: PathModel) -> Seq<char> {
    if p.len() > 0 {
        p.last()
    } else {
        Seq::empty()
    }
}

/// The parent of a path with at least two components; a shorter path is
/// its own fallback.
pub open spec fn parent_or_self(p: PathModel) -> PathModel {
    if p.len() >= 2 {
        p.drop_last()
    } else {
        p
    }
}

/// `p` is `base` or lies under it.
pub open spec fn is_within(p: PathModel, base: PathModel) -> bool {
    base.len() <= p.len() && p.subrange(0, base.len() as int) == base
}

/// `p` moved along with `from` to `to`, where it lies within `from`.
pub open spec fn rebased(p: PathModel, from: PathModel, to: PathModel) -> PathModel {
    if is_within(p, from) {
        to + p.skip(from.len() as int)
    } else {
        p
    }
}

pub open spec fn opt_within(o: Option<PathModel>, base: PathModel) -> bool {
    match o {
        Some(p) => is_within(p, base),
        None => false,
    }
}

pub open spec fn opt_rebased(o: Option<PathModel>, from: PathModel, to: PathModel) -> Option<
    PathModel,
> {
    match o {
        Some(p) => Some(rebased(p, from, to)),
        None => None,
    }
}

pub open spec fn opt_path(o: Option<NodePath>) -> Option<PathModel> {
    match o {
        Some(p) => Some(p@),
        None => None,
    }
}

impl NodePath {
    pub fn new(parts: Vec<String>) -> (r: NodePath)
        ensures
            r.parts@ == parts@,
    {
        NodePath { parts }
    }

    /// The path of the child `name` under this one.
    pub fn join(&self, name: &String) -> (r: NodePath)
        ensures
            r@ == self@.push(name@),
    {
        let mut parts = self.parts.clone();
        parts.push(name.clone());
        let r = NodePath { parts };
        assert(r@ =~= self@.push(name@));
        r
    }

    /// The last component, or an empty name for an empty path.
    pub fn file_name(&self) -> (r: String)
        ensures
            r@ == last_name(self@),
    {
        let n = self.parts.len();
        if n > 0 {
            self.parts[n - 1].clone()
        } else {
            String::new()
        }
    }

    /// The containing folder, or the path itself where it has none.
    pub fn parent_or_self(&self) -> (r: NodePath)
        ensures
            r@ == parent_or_self(self@),
    {
        let mut r = self.clone_path();
        if r.parts.len() >= 2 {
            r.parts.pop();
            assert(r@ =~= self@.drop_last());
        }
        r
    }

    /// A copy with the same components.
    pub fn clone_path(&self) -> (r: NodePath)
        ensures
            r@ == self@,
            r.parts@ == self.parts@,
    {
        let parts = self.parts.clone();
        proof {
            assert forall|i: int| 0 <= i < parts@.len() implies parts@[i] == self.parts@[i] by {
                assert(cloned::<String>(self.parts[i], parts[i]));
            }
            assert(parts@ =~= self.parts@);
        }
        NodePath { parts }
    }

    /// Whether this path is `base` or lies under it.
    pub fn is_within(&self, base: &NodePath) -> (r: bool)
        ensures
            r == is_within(self@, base@),
    {
        let n = base.parts.len();
        if n > self.parts.len() {
            return false;
        }
        let mut i: usize = 0;
        while i < n
            invariant
                n == base.parts.len(),
                n <= self.parts.len(),
                i <= n,
                self@.subrange(0, i as int) == base@.subrange(0, i as int),
            decreases n - i,
        {
            if self.parts[i] != base.parts[i] {
                proof {
                    assert(self@.subrange(0, n as int)[i as int] != base@[i as int]);
                }
                return false;
            }
            assert(self@.subrange(0, i + 1) =~= self@.subrange(0, i as int).push(self@[i as int]));
            assert(base@.subrange(0, i + 1) =~= base@.subrange(0, i as int).push(base@[i as int]));
            i = i + 1;
        }
        assert(base@ =~= base@.subrange(0, n as int));
        true
    }

    /// This path moved along with `from` to `to`, where it lies within `from`.
    pub fn rebased(&self, from: &NodePath, to: &NodePath) -> (r: NodePath)
        ensures
            r@ == rebased(self@, from@, to@),
    {
        if !self.is_within(from) {
            return self.clone_path();
        }
        let mut r = to.clone_path();
        let n = self.parts.len();
        let mut i: usize = from.parts.len();
        let ghost start = i as int;
        while i < n
            invariant
                n == self.parts.len(),
                start == from@.len(),
                start <= i <= n,
                r@ == to@ + self@.subrange(start, i as int),
            decreases n - i,
        {
            let c = self.parts[i].clone();
            assert(c@ == self@[i as int]);
            let ghost before = r@;
            r.parts.push(c);
            assert(r@ =~= before.push(c@));
            assert(self@.subrange(start, i + 1) =~= self@.subrange(start, i as int).push(c@));
            i = i + 1;
        }
        assert(self@.subrange(start, n as int) =~= self@.skip(start));
        r
    }

    /// Whether both paths have the same components.
    pub fn same_as(&self, other: &NodePath) -> (r: bool)
        ensures
            r == (self@ == other@),
    {
        let n = self.parts.len();
        if n != other.parts.len() {
            proof {
                if self@ == other@ {
                    assert(self@.len() == other@.len());
                }
            }
            return false;
        }
        let mut i: usize = 0;
        while i < n
            invariant
                n == self.parts.len(),
                n == other.parts.len(),
                i <= n,
                self@.subrange(0, i as int) == other@.subrange(0, i as int),
            decreases n - i,
        {
            if self.parts[i] != other.parts[i] {
                proof {
                    assert(self@[i as int] != other@[i as int]);
                }
                return false;
            }
            assert(self@.subrange(0, i + 1) =~= self@.subrange(0, i as int).push(self@[i as int]));
            assert(other@.subrange(0, i + 1) =~= other@.subrange(0, i as int).push(other@[i as int]));
            i = i + 1;
        }
        assert(self@ =~= self@.subrange(0, n as int));
        assert(other@ =~= other@.subrange(0, n as int));
        true
    }
}

pub fn opt_is_within(a: &Option<NodePath>, base: &NodePath) -> (r: bool)
    ensures
        r == opt_within(opt_path(*a), base@),
{
    match a {
        Some(p) => p.is_within(base),
        None => false,
    }
}

pub fn opt_rebased_path(a: &Option<NodePath>, from: &NodePath, to: &NodePath) -> (r: Option<
    NodePath,
>)
    ensures
        opt_path(r) == opt_rebased(opt_path(*a), from@, to@),
{
    match a {
        Some(p) => Some(p.rebased(from, to)),
        None => None,
    }
}

pub fn clone_opt_path(a: &Option<NodePath>) -> (r: Option<NodePath>)
    ensures
        opt_path(r) == opt_path(*a),
{
    match a {
        Some(p) => Some(p.clone_path()),
        None => None,
    }
}

/// One entry of a folder listing, as the file system reports it.
#[derive(Clone, Debug)]
pub struct DirEntry {
    pub name: String,
    pub is_dir: bool,
}

/// A listing entry: its name and whether it is a folder.
pub type EntryModel = (Seq<char>, bool);

impl View for DirEntry {
    type V = EntryModel;

    open spec fn view(&self) -> EntryModel {
        (self.name@, self.is_dir)
    }
}

impl DirEntry {
    pub fn new(name: String, is_dir: bool) -> (r: DirEntry)
        ensures
            r.name@ == name@,
            r.is_dir == is_dir,
    {
        DirEntry { name, is_dir }
    }

    pub fn clone_entry(&self) -> (r: DirEntry)
        ensures
            r@ == self@,
    {
        DirEntry { name: self.name.clone(), is_dir: self.is_dir }
    }
}

/// A file or a folder of the workspace, identified by its path.
#[derive(Clone, Debug)]
pub struct Node {
    pub path: NodePath,
    pub is_dir: bool,
}

/// A node: its path and whether it is a folder.
pub type NodeModel = (PathModel, bool);

impl View for Node {
    type V = NodeModel;

    open spec fn view(&self) -> NodeModel {
        (self.path@, self.is_dir)
    }
}

pub open spec fn opt_node(o: Option<Node>) -> Option<NodeModel> {
    match o {
        Some(n) => Some(n@),
        None => None,
    }
}

impl Node {
    pub fn file(path: NodePath) -> (r: Node)
        ensures
            r@ == (path@, false),
    {
        Node { path, is_dir: false }
    }

    pub fn directory(path: NodePath) -> (r: Node)
        ensures
            r@ == (path@, true),
    {
        Node { path, is_dir: true }
    }

    pub fn clone_node(&self) -> (r: Node)
        ensures
            r@ == self@,
    {
        Node { path: self.path.clone_path(), is_dir: self.is_dir }
    }
}

} // verus!
