//! The explorer's file tree. Nodes are kept in the order they were added:
//! a directory is followed by its whole subtree, one level deeper, before
//! its next sibling. The explorer shows the nodes whose ancestors are all
//! expanded directories, one row each, in that order.
use vstd::prelude::*;
use crate::text::{chars_of, to_string};

verus! {

/// What a file tree node stands for.
#[derive(Clone, Copy, Debug, PartialEq, Eq, Structural)]
pub enum FileKind {
    File,
    Directory,
}

/// A node of the file tree.
#[derive(Debug)]
pub struct FileNode {
    pub name: String,
    pub kind: FileKind,
    /// 0 for the entries of the opened folder.
    pub depth: u8,
    pub is_expanded: bool,
}

/// The file tree of the opened folder.
#[derive(Debug)]
pub struct FileTree {
    pub nodes: Vec<FileNode>,
}

/// An expanded directory: its children are shown.
pub open spec fn is_open(n: FileNode) -> bool {
    n.kind == FileKind::Directory && n.is_expanded
}

/// Every node strictly between `a` and `j` is deeper than `a`: the subtree
/// of `a` reaches at least up to `j - 1`.
pub open spec fn reaches(ns: Seq<FileNode>, a: int, j: int) -> bool {
    &&& 0 <= a < j
    &&& forall|m: int| a < m < j ==> (#[trigger] ns[m]).depth > ns[a].depth
}

/// `a` is an ancestor of `j`.
pub open spec fn is_ancestor(ns: Seq<FileNode>, a: int, j: int) -> bool {
    reaches(ns, a, j) && ns[a].depth < ns[j].depth
}

/// Node `j` is shown: all its ancestors are expanded directories.
pub open spec fn is_visible(ns: Seq<FileNode>, j: int) -> bool {
    forall|a: int| #[trigger] is_ancestor(ns, a, j) ==> is_open(ns[a])
}

/// How many of the nodes before `j` are shown.
pub open spec fn visible_before(ns: Seq<FileNode>, j: int) -> nat
    decreases j,
{
    if j <= 0 {
        0
    } else {
        visible_before(ns, j - 1) + if is_visible(ns, j - 1) {
            1nat
        } else {
            0nat
        }
    }
}

/// The first child of `p` named `name`, looking from `k` on: the children
/// of `p` are the nodes one level deeper in the run of deeper nodes that
/// follows it.
pub open spec fn named_child_from(ns: Seq<FileNode>, p: int, k: int, name: Seq<char>) -> Option<int>
    decreases ns.len() - k,
{
    if k < 0 || k >= ns.len() || ns[k].depth <= ns[p].depth {
        None
    } else if ns[k].depth == ns[p].depth + 1 && ns[k].name@ == name {
        Some(k)
    } else {
        named_child_from(ns, p, k + 1, name)
    }
}

/// The node reached from `p` by following the names `comps` down the tree.
pub open spec fn follow(ns: Seq<FileNode>, p: int, comps: Seq<Seq<char>>) -> Option<int>
    decreases comps.len(),
{
    if comps.len() == 0 {
        None
    } else {
        match named_child_from(ns, p, p + 1, comps[0]) {
            None => None,
            Some(k) => if comps.len() == 1 {
                Some(k)
            } else {
                follow(ns, k, comps.drop_first())
            },
        }
    }
}

/// The last node at or before `a` that is shallower than depth `d`.
pub open spec fn last_shallower(ns: Seq<FileNode>, d: int, a: int) -> Option<int>
    decreases a + 1,
{
    if a < 0 {
        None
    } else if ns[a].depth < d {
        Some(a)
    } else {
        last_shallower(ns, d, a - 1)
    }
}

/// The names from the outermost ancestor of `j` down to `j` itself.
pub open spec fn path_names(ns: Seq<FileNode>, j: int) -> Seq<Seq<char>>
    decreases j,
{
    if j < 0 {
        Seq::empty()
    } else {
        match last_shallower(ns, ns[j].depth as int, j - 1) {
            Some(p) => if 0 <= p < j {
                path_names(ns, p).push(ns[j].name@)
            } else {
                seq![ns[j].name@]
            },
            None => seq![ns[j].name@],
        }
    }
}

proof fn lemma_last_shallower_bound(ns: Seq<FileNode>, d: int, a: int)
    ensures
        last_shallower(ns, d, a) matches Some(p) ==> 0 <= p <= a && ns[p].depth < d,
    decreases a + 1,
{
    if a >= 0 && ns[a].depth >= d {
        lemma_last_shallower_bound(ns, d, a - 1);
    }
}

/// An optional index as a mathematical integer.
pub open spec fn as_index(r: Option<usize>) -> Option<int> {
    match r {
        Some(k) => Some(k as int),
        None => None,
    }
}

/// What a click on a row of the tree does.
#[derive(Clone, Copy, Debug, PartialEq, Eq, Structural)]
pub enum TreeClick {
    /// No node is shown on that row.
    Missed,
    /// The directory node was expanded or collapsed.
    Toggled(usize),
    /// The file node is to be opened.
    OpenFile(usize),
}

impl FileTree {
    /// An empty tree.
    pub fn new() -> (r: Self)
        ensures
            r.nodes@.len() == 0,
    {
        FileTree { nodes: Vec::new() }
    }

    /// Number of nodes.
    pub fn len(&self) -> (r: usize)
        ensures
            r == self.nodes@.len(),
    {
        self.nodes.len()
    }

    /// Appends a collapsed node and returns its index.
    pub fn add_node(&mut self, name: &str, kind: FileKind, depth: u8) -> (r: usize)
        ensures
            r == old(self).nodes@.len(),
            final(self).nodes@.len() == old(self).nodes@.len() + 1,
            forall|k: int| 0 <= k < r ==> final(self).nodes@[k] == old(self).nodes@[k],
            final(self).nodes@[r as int].name@ == name@,
            final(self).nodes@[r as int].kind == kind,
            final(self).nodes@[r as int].depth == depth,
            !final(self).nodes@[r as int].is_expanded,
    {
        self.nodes.push(FileNode { name: to_string(name), kind, depth, is_expanded: false });
        self.nodes.len() - 1
    }

    /// The node shown on row `row` (rows count from 0 at the top).
    pub fn visible_node_at(&self, row: usize) -> (r: Option<usize>)
        ensures
            r matches Some(j) ==> j < self.nodes@.len() && is_visible(self.nodes@, j as int)
                && visible_before(self.nodes@, j as int) == row,
            r is None ==> visible_before(self.nodes@, self.nodes@.len() as int) <= row,
    {
        let ghost ns = self.nodes@;
        let mut count: usize = 0;
        let mut hidden_depth: Option<u8> = None;
        let ghost mut c: int = 0;
        let mut j: usize = 0;
        while j < self.nodes.len()
            invariant
                ns == self.nodes@,
                j <= ns.len(),
                count == visible_before(ns, j as int),
                count <= row,
                hidden_depth is None ==> forall|a: int| #[trigger] reaches(ns, a, j as int) ==> is_open(ns[a])
                    && is_visible(ns, a),
                hidden_depth matches Some(h) ==> {
                    &&& reaches(ns, c, j as int)
                    &&& ns[c].depth == h
                    &&& is_visible(ns, c)
                    &&& !is_open(ns[c])
                    &&& forall|a: int| #[trigger] reaches(ns, a, j as int) && ns[a].depth < h
                        ==> is_open(ns[a]) && is_visible(ns, a)
                },
            decreases ns.len() - j,
        {
            let d = self.nodes[j].depth;
            let ghost ji = j as int;
            let ghost old_hidden = hidden_depth;
            let shown = match hidden_depth {
                Some(h) => d <= h,
                None => true,
            };
            proof {
                if shown {
                    assert forall|a: int| #[trigger] is_ancestor(ns, a, ji) implies is_open(ns[a]) by {
                        assert(reaches(ns, a, ji));
                    }
                } else {
                    assert(is_ancestor(ns, c, ji));
                }
                assert forall|a: int| #[trigger] reaches(ns, a, ji + 1) && a < ji implies reaches(
                    ns,
                    a,
                    ji,
                ) && ns[a].depth < d by {
                    assert forall|m: int| a < m < ji implies (#[trigger] ns[m]).depth > ns[a].depth by {
                        assert(a < m < ji + 1);
                    }
                    assert(a < ji < ji + 1);
                }
                assert(reaches(ns, ji, ji + 1));
            }
            assert(shown == is_visible(ns, ji));
            if shown {
                if count == row {
                    return Some(j);
                }
                count = count + 1;
                let opened = self.nodes[j].kind == FileKind::Directory && self.nodes[j].is_expanded;
                if opened {
                    hidden_depth = None;
                    proof {
                        assert forall|a: int| #[trigger] reaches(ns, a, ji + 1) implies is_open(ns[a])
                            && is_visible(ns, a) by {
                            if a < ji {
                                assert(reaches(ns, a, ji) && ns[a].depth < d);
                            }
                        }
                    }
                } else {
                    hidden_depth = Some(d);
                    proof {
                        c = ji;
                        assert forall|a: int| #[trigger] reaches(ns, a, ji + 1) && ns[a].depth < d
                            implies is_open(ns[a]) && is_visible(ns, a) by {
                            if a < ji {
                                assert(reaches(ns, a, ji) && ns[a].depth < d);
                            }
                        }
                    }
                }
            } else {
                proof {
                    let h = old_hidden->0;
                    assert(reaches(ns, c, ji + 1)) by {
                        assert forall|m: int| c < m < ji + 1 implies (#[trigger] ns[m]).depth > ns[c].depth by {
                            if m < ji {
                                assert(c < m < ji);
                            }
                        }
                    }
                    assert forall|a: int| #[trigger] reaches(ns, a, ji + 1) && ns[a].depth < h implies is_open(
                        ns[a],
                    ) && is_visible(ns, a) by {
                        if a < ji {
                            assert(reaches(ns, a, ji) && ns[a].depth < d);
                        }
                    }
                }
            }
            assert(count == visible_before(ns, ji + 1));
            j = j + 1;
        }
        None
    }

    /// Expands or collapses directory node `j`; other nodes, and file
    /// nodes, stay as they are.
    pub fn toggle_expanded(&mut self, j: usize)
        ensures
            final(self).nodes@.len() == old(self).nodes@.len(),
            forall|k: int|
                0 <= k < old(self).nodes@.len() && k != j ==> final(self).nodes@[k] == old(
                    self,
                ).nodes@[k],
            j < old(self).nodes@.len() ==> {
                let (a, b) = (old(self).nodes@[j as int], final(self).nodes@[j as int]);
                &&& b.name == a.name
                &&& b.kind == a.kind
                &&& b.depth == a.depth
                &&& b.is_expanded == (if a.kind == FileKind::Directory {
                    !a.is_expanded
                } else {
                    a.is_expanded
                })
            },
    {
        if j < self.nodes.len() && self.nodes[j].kind == FileKind::Directory {
            let flipped = !self.nodes[j].is_expanded;
            self.nodes[j].is_expanded = flipped;
        }
    }

    /// A click on row `row`: a directory is expanded or collapsed, a file
    /// is to be opened.
    pub fn click_row(&mut self, row: usize) -> (r: TreeClick)
        ensures
            final(self).nodes@.len() == old(self).nodes@.len(),
            r == TreeClick::Missed ==> visible_before(old(self).nodes@, old(self).nodes@.len() as int)
                <= row && final(self).nodes@ == old(self).nodes@,
            r matches TreeClick::OpenFile(j) ==> j < old(self).nodes@.len() && is_visible(
                old(self).nodes@,
                j as int,
            ) && visible_before(old(self).nodes@, j as int) == row && old(self).nodes@[j as int].kind
                == FileKind::File && final(self).nodes@ == old(self).nodes@,
            r matches TreeClick::Toggled(j) ==> {
                &&& j < old(self).nodes@.len()
                &&& is_visible(old(self).nodes@, j as int)
                &&& visible_before(old(self).nodes@, j as int) == row
                &&& old(self).nodes@[j as int].kind == FileKind::Directory
                &&& final(self).nodes@[j as int].is_expanded == !old(self).nodes@[j as int].is_expanded
                &&& final(self).nodes@[j as int].name == old(self).nodes@[j as int].name
                &&& final(self).nodes@[j as int].kind == old(self).nodes@[j as int].kind
                &&& final(self).nodes@[j as int].depth == old(self).nodes@[j as int].depth
                &&& forall|k: int|
                    0 <= k < old(self).nodes@.len() && k != j ==> final(self).nodes@[k] == old(
                        self,
                    ).nodes@[k]
            },
    {
        match self.visible_node_at(row) {
            None => TreeClick::Missed,
            Some(j) => {
                if self.nodes[j].kind == FileKind::Directory {
                    self.toggle_expanded(j);
                    TreeClick::Toggled(j)
                } else {
                    TreeClick::OpenFile(j)
                }
            },
        }
    }

    /// The first child of `p` named `name`.
    fn named_child(&self, p: usize, name: &str) -> (r: Option<usize>)
        requires
            p < self.nodes@.len(),
        ensures
            as_index(r) == named_child_from(self.nodes@, p as int, p + 1, name@),
            r matches Some(k) ==> p < k < self.nodes@.len(),
    {
        let ghost ns = self.nodes@;
        let target = chars_of(name);
        let pd = self.nodes[p].depth;
        let n = self.nodes.len();
        let mut k = p + 1;
        while k < self.nodes.len() && self.nodes[k].depth > pd
            invariant
                ns == self.nodes@,
                p < k <= ns.len(),
                pd == ns[p as int].depth,
                target@ == name@,
                named_child_from(ns, p as int, p + 1, name@) == named_child_from(
                    ns,
                    p as int,
                    k as int,
                    name@,
                ),
            decreases ns.len() - k,
        {
            if self.nodes[k].depth as u16 == pd as u16 + 1 {
                let here = chars_of(self.nodes[k].name.as_str());
                if here.len() == target.len() {
                    let mut i: usize = 0;
                    while i < here.len() && here[i] == target[i]
                        invariant
                            i <= here@.len() == target@.len(),
                            forall|t: int| 0 <= t < i ==> here@[t] == target@[t],
                        decreases here@.len() - i,
                    {
                        i = i + 1;
                    }
                    if i == here.len() {
                        assert(here@ =~= target@);
                        return Some(k);
                    }
                    assert(here@[i as int] != target@[i as int]);
                }
            }
            k = k + 1;
        }
        None
    }

    /// The node at the relative path `components` below the opened folder:
    /// the names are followed down from the first top-level node.
    pub fn find_node_by_path(&self, components: &Vec<String>) -> (r: Option<usize>)
        ensures
            as_index(r) == (if self.nodes@.len() == 0 {
                None
            } else {
                follow(
                    self.nodes@,
                    0,
                    components@.map_values(|s: String| s@),
                )
            }),
    {
        if self.nodes.len() == 0 {
            return None;
        }
        let ghost comps = components@.map_values(|s: String| s@);
        if components.len() == 0 {
            return None;
        }
        let mut current: usize = 0;
        let mut i: usize = 0;
        assert(comps.skip(0) =~= comps);
        while i < components.len()
            invariant
                0 < components@.len(),
                comps == components@.map_values(|s: String| s@),
                i < components@.len(),
                current < self.nodes@.len(),
                follow(self.nodes@, 0, comps) == follow(self.nodes@, current as int, comps.skip(i as int)),
            decreases components@.len() - i,
        {
            let ghost rest = comps.skip(i as int);
            assert(rest[0] == components@[i as int]@);
            match self.named_child(current, components[i].as_str()) {
                None => {
                    return None;
                },
                Some(k) => {
                    if i + 1 == components.len() {
                        assert(rest.len() == 1);
                        return Some(k);
                    }
                    assert(rest.drop_first() =~= comps.skip(i + 1));
                    current = k;
                },
            }
            i = i + 1;
        }
        None
    }

    /// The names on the way from the top of the tree down to node `j`.
    pub fn node_path(&self, j: usize) -> (r: Vec<String>)
        requires
            j < self.nodes@.len(),
        ensures
            r@.map_values(|s: String| s@) == path_names(self.nodes@, j as int),
        decreases j,
    {
        let d = self.nodes[j].depth;
        let mut a = j;
        while a > 0 && self.nodes[a - 1].depth >= d
            invariant
                a <= j < self.nodes@.len(),
                d == self.nodes@[j as int].depth,
                last_shallower(self.nodes@, d as int, j - 1) == last_shallower(
                    self.nodes@,
                    d as int,
                    a - 1,
                ),
            decreases a,
        {
            a = a - 1;
        }
        proof {
            lemma_last_shallower_bound(self.nodes@, d as int, j - 1);
        }
        if a == 0 {
            let mut r = Vec::new();
            r.push(to_string(self.nodes[j].name.as_str()));
            assert(r@.map_values(|s: String| s@) =~= seq![self.nodes@[j as int].name@]);
            r
        } else {
            let p = a - 1;
            let mut r = self.node_path(p);
            let ghost before = r@;
            r.push(to_string(self.nodes[j].name.as_str()));
            assert(r@.map_values(|s: String| s@) =~= before.map_values(|s: String| s@).push(
                self.nodes@[j as int].name@,
            ));
            r
        }
    }
}

/// A row is shown for at most one node.
pub proof fn lemma_rows_are_distinct(ns: Seq<FileNode>, i: int, j: int)
    requires
        0 <= i < j <= ns.len(),
        is_visible(ns, i),
    ensures
        visible_before(ns, i) < visible_before(ns, j),
    decreases j - i,
{
    if j > i + 1 {
        lemma_rows_are_distinct(ns, i, j - 1);
    }
}

/// Collapsing a directory hides its whole subtree.
pub proof fn lemma_collapsed_hides_subtree(ns: Seq<FileNode>, a: int, j: int)
    requires
        is_ancestor(ns, a, j),
        !is_open(ns[a]),
    ensures
        !is_visible(ns, j),
{
}

/// The top-level nodes are always shown.
pub proof fn lemma_top_level_shown(ns: Seq<FileNode>, j: int)
    requires
        0 <= j < ns.len(),
        ns[j].depth == 0,
    ensures
        is_visible(ns, j),
{
}

} // verus!
