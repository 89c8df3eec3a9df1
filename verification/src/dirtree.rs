//! The tree that `jgit tree` prints: a root and nested nodes, each named,
//! where no two children of one node share a name.  A node is identified by
//! its path, the names from the root down to it; the tree is the sequence of
//! these paths in the order the nodes were made, which is also the order in
//! which siblings are shown.
use vstd::prelude::*;
use crate::text::views;
use termtree::Tree;

verus! {

/// The names from the root down to a node.
pub type NodePath = Seq<Seq<char>>;

/// The prefixes `c[..k]` of `c`, for `k` from `i + 1` up to `c.len()`, that
/// `nodes` does not hold yet: the nodes that `add_path` makes, in order.
pub open spec fn missing_prefixes(nodes: Seq<NodePath>, c: NodePath, i: nat) -> Seq<NodePath>
    decreases c.len() - i,
{
    if i >= c.len() {
        seq![]
    } else {
        let p = c.take(i as int + 1);
        if nodes.contains(p) {
            missing_prefixes(nodes, c, i + 1)
        } else {
            seq![p] + missing_prefixes(nodes, c, i + 1)
        }
    }
}

/// One line of a drawn tree: the depth of a node below the top, and its name.
pub type OutlineItem = (nat, Seq<char>);

/// Every item one level deeper.
pub open spec fn shift(o: Seq<OutlineItem>) -> Seq<OutlineItem> {
    o.map_values(|e: OutlineItem| ((e.0 + 1) as nat, e.1))
}

#[verifier::external_type_specification]
#[verifier::external_body]
#[verifier::reject_recursive_types(D)]
pub struct ExTermTree<D: std::fmt::Display>(Tree<D>);

/// What a `termtree::Tree` holds: its nodes in the order `Display` draws them
/// (each node, then the trees of its leaves in order), each with its depth
/// below the top and the text of its root.
pub uninterp spec fn tree_outline(t: Tree<String>) -> Seq<OutlineItem>;

/// Whether every node of a `termtree::Tree` keeps the default drawing: one
/// line per root, and the default glyphs.
pub uninterp spec fn tree_plain(t: Tree<String>) -> bool;

/// The text that `termtree`'s `Display` draws for a plain tree with the given outline.
pub uninterp spec fn tree_text(outline: Seq<OutlineItem>) -> Seq<char>;

/// `termtree::Tree::new`: a tree of one node, with the default drawing.
#[verifier::external_body]
fn tree_node(root: String) -> (t: Tree<String>)
    ensures
        tree_outline(t) == seq![(0nat, root@)],
        tree_plain(t),
{
    Tree::new(root)
}

/// `termtree::Tree::push`: adds `leaf` as the last leaf of `t`, so that it is
/// drawn after everything `t` held, one level deeper.
#[verifier::external_body]
fn tree_push(t: &mut Tree<String>, leaf: Tree<String>)
    ensures
        tree_outline(*final(t)) == tree_outline(*old(t)) + shift(tree_outline(leaf)),
        tree_plain(*final(t)) == (tree_plain(*old(t)) && tree_plain(leaf)),
{
    t.push(leaf);
}

/// `termtree::Tree`'s `Display`, through `to_string`.
#[verifier::external_body]
fn tree_render(t: &Tree<String>) -> (s: String)
    ensures
        tree_plain(*t) ==> s@ == tree_text(tree_outline(*t)),
{
    t.to_string()
}

/// Node `k` hangs directly below node `j`: its path is one name longer and begins with `j`'s.
pub open spec fn is_child(nodes: Seq<NodePath>, j: int, k: int) -> bool {
    nodes[k].len() == nodes[j].len() + 1 && nodes[k].take(nodes[j].len() as int) == nodes[j]
}

/// The name shown for node `j`: `root` for the root, the last name of its path otherwise.
pub open spec fn node_label(nodes: Seq<NodePath>, root: Seq<char>, j: int) -> Seq<char> {
    if j == 0 {
        root
    } else {
        nodes[j].last()
    }
}

/// The outline of node `j` and what hangs below it.
pub open spec fn node_outline(nodes: Seq<NodePath>, root: Seq<char>, j: int) -> Seq<OutlineItem>
    decreases nodes.len() - j, nodes.len() + 1,
{
    if 0 <= j < nodes.len() {
        seq![(0nat, node_label(nodes, root, j))] + kids_outline(nodes, root, j, j + 1)
    } else {
        seq![]
    }
}

/// The outlines, one level deeper, of the children of node `j` among the nodes
/// from `k` on, in the order they were made.
pub open spec fn kids_outline(nodes: Seq<NodePath>, root: Seq<char>, j: int, k: int) -> Seq<
    OutlineItem,
>
    decreases nodes.len() - j, nodes.len() - k,
{
    if 0 <= j < k < nodes.len() {
        (if is_child(nodes, j, k) {
            shift(node_outline(nodes, root, k))
        } else {
            seq![]
        }) + kids_outline(nodes, root, j, k + 1)
    } else {
        seq![]
    }
}

/// The outline of a tree whose root is shown as `root` and whose nodes were made
/// in the order of `nodes`: the root, then below it the subtrees of its children
/// in the order they were made.
pub open spec fn outline(root: Seq<char>, nodes: Seq<NodePath>) -> Seq<OutlineItem> {
    node_outline(nodes, root, 0)
}

/// A tree of names.
pub struct DirTree {
    labels: Vec<String>,
    parents: Vec<usize>,
    nodes: Ghost<Seq<NodePath>>,
}

impl View for DirTree {
    type V = Seq<NodePath>;

    /// The paths of the nodes in the order they were made; the root's path is empty.
    closed spec fn view(&self) -> Seq<NodePath> {
        self.nodes@
    }
}

impl DirTree {
    /// The arrays agree with the paths, every node but the root hangs below an
    /// earlier node, and no two nodes share a path.
    pub closed spec fn wf(&self) -> bool {
        let n = self.labels@.len();
        &&& self.parents@.len() == n
        &&& self.nodes@.len() == n
        &&& n >= 1
        &&& self.nodes@[0] == Seq::<Seq<char>>::empty()
        &&& forall|j: int|
            1 <= j < n ==> #[trigger] self.parents@[j] < j && self.nodes@[j]
                == self.nodes@[self.parents@[j] as int].push(self.labels@[j]@)
        &&& forall|i: int, j: int|
            0 <= i < n && 0 <= j < n && i != j ==> #[trigger] self.nodes@[i] != #[trigger] self.nodes@[j]
    }

    /// The name shown for the root.
    pub closed spec fn root_label(&self) -> Seq<char> {
        self.labels@[0]@
    }

    /// A tree that holds its root alone.
    pub fn new(root: String) -> (t: DirTree)
        ensures
            t.wf(),
            t@ == seq![Seq::<Seq<char>>::empty()],
            t.root_label() == root@,
    {
        let mut labels: Vec<String> = Vec::new();
        labels.push(root);
        let mut parents: Vec<usize> = Vec::new();
        parents.push(0);
        let ghost first: Seq<NodePath> = seq![Seq::<Seq<char>>::empty()];
        DirTree { labels, parents, nodes: Ghost(first) }
    }

    /// The number of nodes, the root included.
    pub fn len(&self) -> (n: usize)
        requires
            self.wf(),
        ensures
            n == self@.len(),
    {
        self.labels.len()
    }

    /// The first child of `node` named `name`.
    fn find_child(&self, node: usize, name: &String) -> (r: Option<usize>)
        requires
            self.wf(),
            node < self@.len(),
        ensures
            match r {
                Some(k) => k < self@.len() && self@[k as int] == self@[node as int].push(name@),
                None => !self@.contains(self@[node as int].push(name@)),
            },
    {
        let n = self.labels.len();
        let mut k: usize = 1;
        while k < n
            invariant
                self.wf(),
                n == self@.len(),
                node < n,
                1 <= k <= n,
                forall|j: int|
                    1 <= j < k ==> #[trigger] self@[j] != self@[node as int].push(name@),
            decreases n - k,
        {
            if self.parents[k] == node && self.labels[k] == *name {
                return Some(k);
            }
            proof {
                let p = self@[node as int].push(name@);
                if self@[k as int] == p {
                    let q = self.parents@[k as int] as int;
                    assert(self@[k as int] == self@[q].push(self.labels@[k as int]@));
                    assert(self@[k as int].drop_last() =~= self@[q]);
                    assert(p.drop_last() =~= self@[node as int]);
                    assert(self@[k as int].last() == self.labels@[k as int]@);
                    assert(q == node as int);
                }
            }
            k = k + 1;
        }
        proof {
            let p = self@[node as int].push(name@);
            assert(self@[0] != p) by {
                assert(self@[0].len() == 0);
            }
            assert forall|j: int| 0 <= j < n implies self@[j] != p by {
                if j >= 1 {
                    assert(self@[j] != p);
                }
            }
        }
        None
    }

    /// Makes the nodes on the path `comps` below the root that are not there
    /// yet, reusing the ones that are (`termtree` leaves found by name).
    pub fn add_path(&mut self, comps: &Vec<String>)
        requires
            old(self).wf(),
        ensures
            final(self).wf(),
            final(self)@ == old(self)@ + missing_prefixes(old(self)@, views(comps@), 0),
            final(self).root_label() == old(self).root_label(),
    {
        let ghost c = views(comps@);
        let ghost start = self@;
        let ghost mut mid: Seq<NodePath> = seq![];
        let mut node: usize = 0;
        let mut i: usize = 0;
        proof {
            assert(c.take(0) =~= Seq::<Seq<char>>::empty());
        }
        while i < comps.len()
            invariant
                self.wf(),
                c == views(comps@),
                i <= comps@.len(),
                node < self@.len(),
                self@[node as int] == c.take(i as int),
                self@ == start + mid,
                mid + missing_prefixes(start, c, i as nat) == missing_prefixes(start, c, 0),
                forall|j: int| 0 <= j < mid.len() ==> (#[trigger] mid[j]).len() <= i,
                self.root_label() == old(self).root_label(),
            decreases comps@.len() - i,
        {
            let ghost p = c.take(i as int + 1);
            proof {
                assert(p =~= c.take(i as int).push(comps@[i as int]@));
                assert(!mid.contains(p)) by {
                    if mid.contains(p) {
                        let j = choose|j: int| 0 <= j < mid.len() && mid[j] == p;
                        assert(mid[j].len() <= i);
                    }
                }
                assert(self@.contains(p) <==> start.contains(p)) by {
                    if start.contains(p) {
                        let j = choose|j: int| 0 <= j < start.len() && start[j] == p;
                        assert(self@[j] == p);
                    }
                    if self@.contains(p) {
                        let j = choose|j: int| 0 <= j < self@.len() && self@[j] == p;
                        if j >= start.len() {
                            assert(mid[j - start.len()] == p);
                        }
                    }
                }
            }
            match self.find_child(node, &comps[i]) {
                Some(k) => {
                    node = k;
                    proof {
                        assert(missing_prefixes(start, c, i as nat) == missing_prefixes(
                            start,
                            c,
                            (i + 1) as nat,
                        ));
                    }
                },
                None => {
                    let n = self.labels.len();
                    let ghost before = self@;
                    let name = comps[i].clone();
                    self.labels.push(name);
                    self.parents.push(node);
                    proof {
                        self.nodes@ = self.nodes@.push(p);
                        mid = mid.push(p);
                        assert(self@ =~= start + mid);
                        assert(missing_prefixes(start, c, i as nat) == seq![p] + missing_prefixes(
                            start,
                            c,
                            (i + 1) as nat,
                        ));
                        assert(mid + missing_prefixes(start, c, (i + 1) as nat) =~= mid.drop_last()
                            + missing_prefixes(start, c, i as nat));
                        assert forall|j: int| 1 <= j < self.labels@.len() implies #[trigger] self.parents@[j]
                            < j && self.nodes@[j] == self.nodes@[self.parents@[j] as int].push(
                            self.labels@[j]@,
                        ) by {
                            if j < n {
                                assert(self.nodes@[j] == before[j]);
                            }
                        }
                        assert forall|a: int, b: int|
                            0 <= a < self.labels@.len() && 0 <= b < self.labels@.len() && a
                                != b implies #[trigger] self.nodes@[a] != #[trigger] self.nodes@[b] by {
                            if a == n {
                                assert(!before.contains(p));
                                assert(before[b] == self.nodes@[b]);
                            } else if b == n {
                                assert(!before.contains(p));
                                assert(before[a] == self.nodes@[a]);
                            }
                        }
                    }
                    node = n;
                },
            }
            i = i + 1;
        }
        proof {
            assert(missing_prefixes(start, c, i as nat) =~= Seq::<NodePath>::empty());
            assert(mid + Seq::<NodePath>::empty() =~= mid);
        }
    }

    /// The `termtree::Tree` of node `j` and everything below it.
    fn build(&self, j: usize) -> (t: Tree<String>)
        requires
            self.wf(),
            j < self@.len(),
        ensures
            tree_plain(t),
            tree_outline(t) == node_outline(self@, self.root_label(), j as int),
        decreases self@.len() - j,
    {
        let n = self.labels.len();
        let mut t = tree_node(self.labels[j].clone());
        let mut k = j + 1;
        let ghost nodes = self@;
        let ghost root = self.root_label();
        proof {
            if j > 0 {
                let p = self.parents@[j as int] as int;
                assert(nodes[j as int] == nodes[p].push(self.labels@[j as int]@));
            }
            assert(node_label(nodes, root, j as int) == self.labels@[j as int]@);
            assert(tree_outline(t) + kids_outline(nodes, root, j as int, k as int) == node_outline(
                nodes,
                root,
                j as int,
            ));
        }
        while k < n
            invariant
                self.wf(),
                n == self@.len(),
                j < k <= n,
                tree_plain(t),
                nodes == self@,
                root == self.root_label(),
                tree_outline(t) + kids_outline(nodes, root, j as int, k as int) == node_outline(
                    nodes,
                    root,
                    j as int,
                ),
            decreases n - k,
        {
            let ghost before = tree_outline(t);
            proof {
                let p = self.parents@[k as int] as int;
                assert(nodes[k as int] == nodes[p].push(self.labels@[k as int]@));
                assert(nodes[k as int].take(nodes[p].len() as int) =~= nodes[p]);
                if is_child(nodes, j as int, k as int) {
                    assert(nodes[j as int] == nodes[p]);
                }
                assert(is_child(nodes, j as int, k as int) <==> p == j);
                assert(node_label(nodes, root, k as int) == self.labels@[k as int]@);
            }
            if self.parents[k] == j {
                let leaf = self.build(k);
                tree_push(&mut t, leaf);
                proof {
                    assert(before + kids_outline(nodes, root, j as int, k as int) =~= tree_outline(t)
                        + kids_outline(nodes, root, j as int, k + 1));
                }
            } else {
                proof {
                    assert(kids_outline(nodes, root, j as int, k as int) =~= kids_outline(
                        nodes,
                        root,
                        j as int,
                        k + 1,
                    ));
                }
            }
            k = k + 1;
        }
        proof {
            assert(tree_outline(t) + Seq::<OutlineItem>::empty() =~= tree_outline(t));
        }
        t
    }

    /// The tree drawn by `termtree`: the root's name on the first line, then each
    /// node below it on a line of its own after the glyphs that show its place.
    pub fn render(&self) -> (s: String)
        requires
            self.wf(),
        ensures
            s@ == tree_text(outline(self.root_label(), self@)),
    {
        let t = self.build(0);
        tree_render(&t)
    }
}

/// Every prefix `c[..k]` with `i < k` is held by `nodes` or made by `add_path`.
pub proof fn lemma_missing_holds(nodes: Seq<NodePath>, c: NodePath, i: nat, k: int)
    requires
        i < k <= c.len(),
    ensures
        nodes.contains(c.take(k)) || missing_prefixes(nodes, c, i).contains(c.take(k)),
    decreases k - i,
{
    let p = c.take(i as int + 1);
    let rest = missing_prefixes(nodes, c, i + 1);
    if i + 1 == k {
        if !nodes.contains(p) {
            assert((seq![p] + rest)[0] == p);
        }
    } else {
        lemma_missing_holds(nodes, c, i + 1, k);
        if rest.contains(c.take(k)) && !nodes.contains(p) {
            let j = choose|j: int| 0 <= j < rest.len() && rest[j] == c.take(k);
            assert((seq![p] + rest)[j + 1] == c.take(k));
        }
    }
}

/// Law: once `add_path(c)` has run, the tree holds the node of every prefix of
/// `c`: the root, each directory on the way, and `c` itself.
pub proof fn law_add_path_holds_path(t: DirTree, c: NodePath, k: int)
    requires
        t.wf(),
        0 <= k <= c.len(),
    ensures
        (t@ + missing_prefixes(t@, c, 0)).contains(c.take(k)),
{
    let all = t@ + missing_prefixes(t@, c, 0);
    if k == 0 {
        assert(c.take(0) =~= t@[0]);
        assert(all[0] == t@[0]);
    } else {
        lemma_missing_holds(t@, c, 0, k);
        if t@.contains(c.take(k)) {
            let j = choose|j: int| 0 <= j < t@.len() && t@[j] == c.take(k);
            assert(all[j] == c.take(k));
        } else {
            let m = missing_prefixes(t@, c, 0);
            let j = choose|j: int| 0 <= j < m.len() && m[j] == c.take(k);
            assert(all[t@.len() + j] == c.take(k));
        }
    }
}

proof fn lemma_none_missing(nodes: Seq<NodePath>, c: NodePath, i: nat)
    requires
        forall|k: int| i < k <= c.len() ==> nodes.contains(#[trigger] c.take(k)),
    ensures
        missing_prefixes(nodes, c, i) == Seq::<NodePath>::empty(),
    decreases c.len() - i,
{
    if i < c.len() {
        assert(nodes.contains(c.take(i as int + 1)));
        lemma_none_missing(nodes, c, i + 1);
    }
}

/// Law: adding the same path a second time adds nothing.
pub proof fn law_add_path_idempotent(t: DirTree, c: NodePath)
    requires
        t.wf(),
    ensures
        missing_prefixes(t@ + missing_prefixes(t@, c, 0), c, 0) == Seq::<NodePath>::empty(),
{
    let all = t@ + missing_prefixes(t@, c, 0);
    assert forall|k: int| 0 < k <= c.len() implies all.contains(#[trigger] c.take(k)) by {
        law_add_path_holds_path(t, c, k);
    }
    lemma_none_missing(all, c, 0);
}

} // verus!
