//! Tree snapshots and transactional updates.
//!
//! A `Tree` is a root id plus a mapping from id to `Node`, reachable from the
//! root. Its invariant: every id referenced as a child, as the root or as the
//! focus target resolves to a node present in the tree. A `TreeUpdate` is a
//! delta: a set of nodes to replace or insert by id, optionally a new root id
//! and optionally a new focus id. Applying an update is transactional: either
//! the whole merged tree is accepted, or the update is rejected as malformed.

use vstd::prelude::*;

use crate::node::{copy_node, Node, NodeV};

verus! {

/// A transactional delta to merge into a tree.
///
/// Each node replaces the node with the same id, or is inserted. `root` set
/// replaces the root id; `focus` set replaces the focus target.
#[derive(Debug)]
pub struct TreeUpdate {
    pub nodes: Vec<Node>,
    pub root: Option<u64>,
    pub focus: Option<u64>,
}

/// The mathematical value of a `TreeUpdate`.
#[verifier::ext_equal]
pub ghost struct TreeUpdateV {
    pub nodes: Seq<NodeV>,
    pub root: Option<u64>,
    pub focus: Option<u64>,
}

/// The node values of a sequence of nodes.
pub open spec fn views(s: Seq<Node>) -> Seq<NodeV> {
    s.map_values(|n: Node| n@)
}

impl View for TreeUpdate {
    type V = TreeUpdateV;

    open spec fn view(&self) -> TreeUpdateV {
        TreeUpdateV { nodes: views(self.nodes@), root: self.root, focus: self.focus }
    }
}

/// A full snapshot: a root id, a focus target and the nodes.
#[derive(Debug)]
pub struct Tree {
    root: u64,
    focus: Option<u64>,
    nodes: Vec<Node>,
}

/// The mathematical value of a `Tree`.
#[verifier::ext_equal]
pub ghost struct TreeV {
    pub root: u64,
    pub focus: Option<u64>,
    pub nodes: Seq<NodeV>,
}

impl View for Tree {
    type V = TreeV;

    closed spec fn view(&self) -> TreeV {
        TreeV { root: self.root, focus: self.focus, nodes: views(self.nodes@) }
    }
}

/// Why an update was rejected.
#[derive(Clone, Copy, Debug, PartialEq, Eq, Structural)]
pub enum TreeUpdateError {
    /// The update defines no root and there is no prior tree to take one from.
    MissingRoot,
    /// The root, the focus target or a child id does not resolve to a node of
    /// the merged tree.
    DanglingReference,
}

/// `m` extended with the nodes of `s`, keyed by id, later nodes winning.
pub open spec fn merged_map(m: Map<u64, NodeV>, s: Seq<NodeV>) -> Map<u64, NodeV>
    decreases s.len(),
{
    if s.len() == 0 {
        m
    } else {
        merged_map(m, s.drop_last()).insert(s.last().id, s.last())
    }
}

/// The id-to-node mapping of a node sequence.
pub open spec fn node_map(s: Seq<NodeV>) -> Map<u64, NodeV> {
    merged_map(Map::<u64, NodeV>::empty(), s)
}

/// Whether no two nodes of `s` share an id.
pub open spec fn ids_unique(s: Seq<NodeV>) -> bool {
    forall|i: int, j: int| 0 <= i < j < s.len() ==> s[i].id != s[j].id
}

/// Whether every id of `ids` is a key of `m`.
pub open spec fn all_in(m: Map<u64, NodeV>, ids: Seq<u64>) -> bool {
    forall|j: int| 0 <= j < ids.len() ==> m.contains_key(#[trigger] ids[j])
}

/// Whether every child id mentioned by a node of `m` is a key of `m`.
pub open spec fn children_resolve(m: Map<u64, NodeV>) -> bool {
    forall|id: u64| #[trigger] m.contains_key(id) ==> all_in(m, m[id].children)
}

impl TreeV {
    /// The id-to-node mapping of this tree.
    pub open spec fn map(self) -> Map<u64, NodeV> {
        node_map(self.nodes)
    }

    /// The tree invariant: ids are unique, and the root, the focus target and
    /// every child id resolve to a node of the tree.
    pub open spec fn wf(self) -> bool {
        &&& ids_unique(self.nodes)
        &&& self.map().contains_key(self.root)
        &&& (match self.focus {
            Some(f) => self.map().contains_key(f),
            None => true,
        })
        &&& children_resolve(self.map())
    }
}

/// The node mapping that an update starts from: the prior tree's, or empty.
pub open spec fn base_map(base: Option<TreeV>) -> Map<u64, NodeV> {
    match base {
        Some(b) => node_map(b.nodes),
        None => Map::<u64, NodeV>::empty(),
    }
}

/// Whether the update or the prior tree defines a root id.
pub open spec fn root_defined(base: Option<TreeV>, u: TreeUpdateV) -> bool {
    u.root is Some || base is Some
}

/// The root id after applying `u` to `base`.
pub open spec fn new_root(base: Option<TreeV>, u: TreeUpdateV) -> u64 {
    match u.root {
        Some(r) => r,
        None => match base {
            Some(b) => b.root,
            None => arbitrary(),
        },
    }
}

/// The focus target after applying `u` to `base`.
pub open spec fn new_focus(base: Option<TreeV>, u: TreeUpdateV) -> Option<u64> {
    match u.focus {
        Some(f) => Some(f),
        None => match base {
            Some(b) => b.focus,
            None => None,
        },
    }
}

/// Whether applying `u` to `base` is accepted: a root is defined, and the
/// root, the focus target and every child id resolve in the merged mapping.
pub open spec fn update_ok(base: Option<TreeV>, u: TreeUpdateV) -> bool {
    let m = merged_map(base_map(base), u.nodes);
    &&& root_defined(base, u)
    &&& m.contains_key(new_root(base, u))
    &&& (match new_focus(base, u) {
        Some(f) => m.contains_key(f),
        None => true,
    })
    &&& children_resolve(m)
}

/// Whether `t` is the tree that applying `u` to `base` yields: the id-wise
/// replace-or-insert of the update's nodes, under the new root and focus.
pub open spec fn spec_applied(base: Option<TreeV>, u: TreeUpdateV, t: TreeV) -> bool {
    &&& node_map(t.nodes) == merged_map(base_map(base), u.nodes)
    &&& ids_unique(t.nodes)
    &&& t.root == new_root(base, u)
    &&& t.focus == new_focus(base, u)
}

/// With unique ids, the mapping of `s` binds each node's id to that node.
pub proof fn lemma_node_map_index(s: Seq<NodeV>, i: int)
    requires
        ids_unique(s),
        0 <= i < s.len(),
    ensures
        node_map(s).contains_key(s[i].id),
        node_map(s)[s[i].id] == s[i],
    decreases s.len(),
{
    if i == s.len() - 1 {
        assert(node_map(s) == merged_map(Map::<u64, NodeV>::empty(), s.drop_last()).insert(
            s.last().id,
            s.last(),
        ));
    } else {
        assert(ids_unique(s.drop_last()));
        lemma_node_map_index(s.drop_last(), i);
        assert(s.drop_last()[i] == s[i]);
        assert(s.last().id != s[i].id);
    }
}

/// Replacing the node at `i` by one with the same id updates the mapping at
/// that id and keeps the ids unique.
pub proof fn lemma_update_at(s: Seq<NodeV>, i: int, n: NodeV)
    requires
        ids_unique(s),
        0 <= i < s.len(),
        s[i].id == n.id,
    ensures
        node_map(s.update(i, n)) == node_map(s).insert(n.id, n),
        ids_unique(s.update(i, n)),
    decreases s.len(),
{
    let su = s.update(i, n);
    assert forall|a: int, b: int| 0 <= a < b < su.len() implies su[a].id != su[b].id by {
        assert(s[a].id != s[b].id);
    }
    if i == s.len() - 1 {
        assert(su.drop_last() =~= s.drop_last());
        assert(su.last() == n);
        assert(node_map(su) == merged_map(Map::<u64, NodeV>::empty(), s.drop_last()).insert(
            n.id,
            n,
        ));
        assert(node_map(s.update(i, n)) =~= node_map(s).insert(n.id, n));
    } else {
        assert(ids_unique(s.drop_last()));
        assert(s.drop_last()[i] == s[i]);
        lemma_update_at(s.drop_last(), i, n);
        assert(su.drop_last() =~= s.drop_last().update(i, n));
        assert(su.last() == s.last());
        assert(node_map(su) == node_map(s.drop_last()).insert(n.id, n).insert(
            s.last().id,
            s.last(),
        ));
        assert(s.last().id != n.id);
        assert(node_map(s.update(i, n)) =~= node_map(s).insert(n.id, n));
    }
}

/// The keys of a node sequence's mapping are exactly its nodes' ids.
pub proof fn lemma_node_map_contains(s: Seq<NodeV>)
    ensures
        forall|id: u64|
            node_map(s).contains_key(id) <==> exists|i: int| 0 <= i < s.len() && s[i].id == id,
    decreases s.len(),
{
    if s.len() > 0 {
        lemma_node_map_contains(s.drop_last());
        assert forall|id: u64| node_map(s).contains_key(id) implies exists|i: int|
            0 <= i < s.len() && s[i].id == id by {
            if id == s.last().id {
                assert(s[s.len() - 1].id == id);
            } else {
                assert(node_map(s.drop_last()).contains_key(id));
                let i = choose|i: int|
                    0 <= i < s.drop_last().len() && s.drop_last()[i].id == id;
                assert(s[i].id == id);
            }
        }
        assert forall|id: u64| (exists|i: int| 0 <= i < s.len() && s[i].id == id) implies node_map(
            s,
        ).contains_key(id) by {
            let i = choose|i: int| 0 <= i < s.len() && s[i].id == id;
            if i < s.len() - 1 {
                assert(s.drop_last()[i].id == id);
                assert(node_map(s.drop_last()).contains_key(id));
            }
        }
    }
}

/// The index of the first node of `nodes` with the given id.
pub fn find_index(nodes: &Vec<Node>, id: u64) -> (r: Option<usize>)
    ensures
        match r {
            Some(i) => i < nodes@.len() && views(nodes@)[i as int].id == id,
            None => forall|i: int| 0 <= i < views(nodes@).len() ==> views(nodes@)[i].id != id,
        },
{
    let mut i: usize = 0;
    while i < nodes.len()
        invariant
            i <= nodes@.len(),
            forall|j: int| 0 <= j < i ==> views(nodes@)[j].id != id,
        decreases nodes@.len() - i,
    {
        if nodes[i].id == id {
            return Some(i);
        }
        i = i + 1;
    }
    None
}

/// Whether some node of `nodes` carries the given id.
pub fn contains_id(nodes: &Vec<Node>, id: u64) -> (r: bool)
    ensures
        r == node_map(views(nodes@)).contains_key(id),
{
    proof {
        lemma_node_map_contains(views(nodes@));
    }
    match find_index(nodes, id) {
        Some(_) => true,
        None => false,
    }
}

/// Replaces the node of `nodes` with `n`'s id, or appends `n`.
fn upsert(nodes: &mut Vec<Node>, n: Node)
    requires
        ids_unique(views(old(nodes)@)),
    ensures
        ids_unique(views(final(nodes)@)),
        node_map(views(final(nodes)@)) == node_map(views(old(nodes)@)).insert(n@.id, n@),
        views(final(nodes)@).len() <= views(old(nodes)@).len() + 1,
{
    let ghost s = views(nodes@);
    match find_index(nodes, n.id) {
        Some(i) => {
            let ghost nv = n@;
            nodes[i] = n;
            proof {
                assert(views(nodes@) =~= s.update(i as int, nv));
                lemma_update_at(s, i as int, nv);
            }
        },
        None => {
            let ghost nv = n@;
            nodes.push(n);
            proof {
                let sp = views(nodes@);
                assert(sp =~= s.push(nv));
                assert(sp.drop_last() =~= s);
                assert(node_map(sp) == node_map(s).insert(nv.id, nv));
                assert forall|a: int, b: int| 0 <= a < b < sp.len() implies sp[a].id != sp[b].id by {
                    if b < sp.len() - 1 {
                        assert(s[a].id != s[b].id);
                    }
                }
            }
        },
    }
}

/// A copy of `nodes` with the same node values.
fn copy_nodes(nodes: &Vec<Node>) -> (r: Vec<Node>)
    ensures
        views(r@) == views(nodes@),
{
    let mut r: Vec<Node> = Vec::new();
    let mut i: usize = 0;
    while i < nodes.len()
        invariant
            i <= nodes@.len(),
            r@.len() == i,
            forall|j: int| 0 <= j < i ==> views(r@)[j] == views(nodes@)[j],
        decreases nodes@.len() - i,
    {
        let c = copy_node(&nodes[i]);
        let ghost cv = c@;
        proof {
            assert(cv == views(nodes@)[i as int]);
        }
        r.push(c);
        i = i + 1;
    }
    proof {
        assert(views(r@) =~= views(nodes@));
    }
    r
}

impl Tree {
    /// The root node's id.
    pub fn root_id(&self) -> (r: u64)
        ensures
            r == self@.root,
    {
        self.root
    }

    /// The id of the focused node, if any element of the tree has the focus.
    pub fn focus_id(&self) -> (r: Option<u64>)
        ensures
            r == self@.focus,
    {
        self.focus
    }

    /// How many nodes the tree holds.
    pub fn node_count(&self) -> (r: usize)
        ensures
            r == self@.nodes.len(),
    {
        self.nodes.len()
    }

    /// The nodes of the snapshot, in storage order.
    pub fn node_list(&self) -> (r: &Vec<Node>)
        ensures
            views(r@) == self@.nodes,
    {
        &self.nodes
    }

    /// The node with the given id, if the tree holds one.
    pub fn get_node(&self, id: u64) -> (r: Option<&Node>)
        requires
            self@.wf(),
        ensures
            match r {
                Some(n) => self@.map().contains_key(id) && n@ == self@.map()[id],
                None => !self@.map().contains_key(id),
            },
    {
        proof {
            lemma_node_map_contains(views(self.nodes@));
        }
        match find_index(&self.nodes, id) {
            Some(i) => {
                proof {
                    lemma_node_map_index(views(self.nodes@), i as int);
                }
                Some(&self.nodes[i])
            },
            None => None,
        }
    }

    /// Builds the first snapshot from an update, which must define a root.
    ///
    /// Returns the tree exactly when the update is accepted; a rejected
    /// update leaves no partial state behind.
    pub fn from_update(u: &TreeUpdate) -> (r: Result<Tree, TreeUpdateError>)
        ensures
            match r {
                Ok(t) => update_ok(None, u@) && t@.wf() && spec_applied(None, u@, t@),
                Err(TreeUpdateError::MissingRoot) => !root_defined(None, u@),
                Err(TreeUpdateError::DanglingReference) => root_defined(None, u@) && !update_ok(
                    None,
                    u@,
                ),
            },
    {
        apply_to(None, u)
    }

    /// Applies an update to this snapshot, yielding the merged snapshot.
    ///
    /// The merge is id-wise replace-or-insert and transactional: the new tree
    /// is returned exactly when every referenced id resolves in it, and a
    /// rejected update leaves no partial state behind.
    pub fn apply(&self, u: &TreeUpdate) -> (r: Result<Tree, TreeUpdateError>)
        requires
            self@.wf(),
        ensures
            match r {
                Ok(t) => update_ok(Some(self@), u@) && t@.wf() && spec_applied(
                    Some(self@),
                    u@,
                    t@,
                ),
                Err(TreeUpdateError::MissingRoot) => false,
                Err(TreeUpdateError::DanglingReference) => !update_ok(Some(self@), u@),
            },
    {
        apply_to(Some(self), u)
    }
}

/// The tree value that `base` stands for.
pub open spec fn base_view(base: Option<&Tree>) -> Option<TreeV> {
    match base {
        Some(t) => Some(t@),
        None => None,
    }
}

/// Applies `u` to the prior snapshot `base`, or to nothing.
#[verifier::loop_isolation(false)]
fn apply_to(base: Option<&Tree>, u: &TreeUpdate) -> (r: Result<Tree, TreeUpdateError>)
    requires
        match base {
            Some(t) => t@.wf(),
            None => true,
        },
    ensures
        match r {
            Ok(t) => update_ok(base_view(base), u@) && t@.wf() && spec_applied(
                base_view(base),
                u@,
                t@,
            ),
            Err(TreeUpdateError::MissingRoot) => !root_defined(base_view(base), u@),
            Err(TreeUpdateError::DanglingReference) => root_defined(base_view(base), u@)
                && !update_ok(base_view(base), u@),
        },
{
    let ghost bv = base_view(base);
    let ghost bm = base_map(bv);
    let ghost uv: TreeUpdateV = u@;

    // The root id after the update; without one the update is malformed.
    let root: u64 = match u.root {
        Some(r) => r,
        None => match base {
            Some(t) => t.root,
            None => {
                return Err(TreeUpdateError::MissingRoot);
            },
        },
    };
    let focus: Option<u64> = match u.focus {
        Some(f) => Some(f),
        None => match base {
            Some(t) => t.focus,
            None => None,
        },
    };
    proof {
        assert(root_defined(bv, uv));
        assert(root == new_root(bv, uv));
        assert(focus == new_focus(bv, uv));
    }

    // Merge: id-wise replace-or-insert, later update nodes winning.
    let mut nodes: Vec<Node> = match base {
        Some(t) => copy_nodes(&t.nodes),
        None => Vec::new(),
    };
    proof {
        assert(node_map(views(nodes@)) == bm);
        assert(ids_unique(views(nodes@))) by {
            match bv {
                Some(b) => assert(views(nodes@) == b.nodes),
                None => assert(views(nodes@) =~= Seq::<NodeV>::empty()),
            }
        }
        assert(uv.nodes.take(0) =~= Seq::<NodeV>::empty());
    }
    let mut i: usize = 0;
    while i < u.nodes.len()
        invariant
            i <= u.nodes@.len(),
            uv == u@,
            uv.nodes.len() == u.nodes@.len(),
            ids_unique(views(nodes@)),
            node_map(views(nodes@)) == merged_map(bm, uv.nodes.take(i as int)),
        decreases u.nodes@.len() - i,
    {
        upsert(&mut nodes, copy_node(&u.nodes[i]));
        proof {
            let taken = uv.nodes.take(i + 1 as int);
            assert(taken.drop_last() =~= uv.nodes.take(i as int));
            assert(taken.last() == uv.nodes[i as int]);
            assert(node_map(views(nodes@)) == merged_map(bm, taken));
        }
        i = i + 1;
    }
    proof {
        assert(uv.nodes.take(uv.nodes.len() as int) =~= uv.nodes);
    }
    let ghost m = merged_map(bm, uv.nodes);
    let ghost sv = views(nodes@);

    // Validate: root, focus target and every child id must resolve.
    if !contains_id(&nodes, root) {
        return Err(TreeUpdateError::DanglingReference);
    }
    if let Some(f) = focus {
        if !contains_id(&nodes, f) {
            return Err(TreeUpdateError::DanglingReference);
        }
    }
    let mut i: usize = 0;
    while i < nodes.len()
        invariant
            i <= nodes@.len(),
            sv == views(nodes@),
            ids_unique(sv),
            node_map(sv) == m,
            forall|k: int, j: int|
                0 <= k < i && 0 <= j < sv[k].children.len() ==> m.contains_key(
                    #[trigger] sv[k].children[j],
                ),
        decreases nodes@.len() - i,
    {
        let node = &nodes[i];
        let mut j: usize = 0;
        while j < node.children.len()
            invariant
                i < nodes@.len(),
                sv == views(nodes@),
                ids_unique(sv),
                node_map(sv) == m,
                node == nodes@[i as int],
                j <= node.children@.len(),
                forall|jj: int|
                    0 <= jj < j ==> m.contains_key(#[trigger] sv[i as int].children[jj]),
            decreases node.children@.len() - j,
        {
            let child = node.children[j];
            proof {
                assert(sv[i as int].children[j as int] == child);
            }
            if !contains_id(&nodes, child) {
                proof {
                    lemma_node_map_index(sv, i as int);
                    assert(m.contains_key(sv[i as int].id));
                    assert(m[sv[i as int].id] == sv[i as int]);
                    assert(!all_in(m, sv[i as int].children));
                    assert(!children_resolve(m));
                }
                return Err(TreeUpdateError::DanglingReference);
            }
            j = j + 1;
        }
        i = i + 1;
    }
    proof {
        lemma_node_map_contains(sv);
        assert forall|id: u64| #[trigger] m.contains_key(id) implies all_in(m, m[id].children) by {
            let k = choose|k: int| 0 <= k < sv.len() && sv[k].id == id;
            lemma_node_map_index(sv, k);
            assert(m[id] == sv[k]);
        }
        assert(children_resolve(m));
        assert(update_ok(bv, uv));
    }
    let t = Tree { root, focus, nodes };
    proof {
        assert(t@.nodes == sv);
        assert(spec_applied(bv, uv, t@));
        assert(t@.wf());
    }
    Ok(t)
}

/// The first node of `s`, in storage order, whose bounds contain `(x, y)`.
pub open spec fn spec_hit(s: Seq<NodeV>, x: i64, y: i64) -> Option<u64>
    decreases s.len(),
{
    if s.len() == 0 {
        None
    } else if (match s[0].bounds {
        Some(b) => b.spec_contains(x, y),
        None => false,
    }) {
        Some(s[0].id)
    } else {
        spec_hit(s.drop_first(), x, y)
    }
}

impl Tree {
    /// The first node, in storage order, whose bounds contain the point.
    #[verifier::loop_isolation(false)]
    pub fn node_at_point(&self, x: i64, y: i64) -> (r: Option<u64>)
        ensures
            r == spec_hit(self@.nodes, x, y),
    {
        let ghost sv = views(self.nodes@);
        proof {
            assert(sv.skip(0) =~= sv);
        }
        let mut i: usize = 0;
        while i < self.nodes.len()
            invariant
                i <= sv.len(),
                spec_hit(sv, x, y) == spec_hit(sv.skip(i as int), x, y),
            decreases sv.len() - i,
        {
            let hit: bool = match &self.nodes[i].bounds {
                Some(b) => b.contains(x, y),
                None => false,
            };
            proof {
                assert(sv.skip(i as int)[0] == sv[i as int]);
                assert(sv.skip(i as int).drop_first() =~= sv.skip(i + 1 as int));
            }
            if hit {
                return Some(self.nodes[i].id);
            }
            i = i + 1;
        }
        proof {
            assert(sv.skip(sv.len() as int) =~= Seq::<NodeV>::empty());
        }
        None
    }
}

/// Law: a tree produced by accepting an update is well formed. Applying any
/// update whose referenced ids all resolve in the merged tree yields a tree
/// that satisfies the tree invariant; every other update is rejected whole.
pub proof fn lemma_apply_preserves_invariant(base: Option<TreeV>, u: TreeUpdateV, t: TreeV)
    requires
        update_ok(base, u),
        spec_applied(base, u, t),
    ensures
        t.wf(),
{
}

} // verus!
