//! Comparing two tree snapshots.
//!
//! The transition from one snapshot to the next is described by the minimal
//! set of notifications: one per node added, removed or changed, plus a root
//! change and a focus change where those occur. The notification vocabulary
//! is the `Event` enum; delivery is the queued-events object's concern.

use vstd::prelude::*;

use crate::node::{node_eq, NodeV};
use crate::tree::{
    base_map, base_view, contains_id, lemma_node_map_index, node_map, Tree, TreeV,
};

verus! {

/// One native notification derived from a tree transition.
#[derive(Clone, Copy, Debug, PartialEq, Eq)]
pub enum Event {
    /// A node with this id is new in the tree.
    Added(u64),
    /// The node with this id changed while keeping its id.
    Updated(u64),
    /// The node with this id left the tree.
    Removed(u64),
    /// The root is now the node with this id.
    RootChanged(u64),
    /// The focus target is now this node, or nothing.
    FocusChanged(Option<u64>),
}

/// The notification that one node of the new tree contributes, given the old
/// tree's mapping: added when its id is new, updated when the value changed.
pub open spec fn node_event(old_m: Map<u64, NodeV>, n: NodeV) -> Seq<Event> {
    if !old_m.contains_key(n.id) {
        seq![Event::Added(n.id)]
    } else if old_m[n.id] != n {
        seq![Event::Updated(n.id)]
    } else {
        Seq::<Event>::empty()
    }
}

/// The added/updated notifications of the new tree's nodes, in node order.
pub open spec fn node_events(old_m: Map<u64, NodeV>, s: Seq<NodeV>) -> Seq<Event>
    decreases s.len(),
{
    if s.len() == 0 {
        Seq::<Event>::empty()
    } else {
        node_events(old_m, s.drop_last()) + node_event(old_m, s.last())
    }
}

/// The removal notifications of the old tree's nodes, in node order: one per
/// node whose id is absent from the new tree's mapping.
pub open spec fn removal_events(new_m: Map<u64, NodeV>, s: Seq<NodeV>) -> Seq<Event>
    decreases s.len(),
{
    if s.len() == 0 {
        Seq::<Event>::empty()
    } else {
        removal_events(new_m, s.drop_last()) + (if new_m.contains_key(s.last().id) {
            Seq::<Event>::empty()
        } else {
            seq![Event::Removed(s.last().id)]
        })
    }
}

/// The nodes of the prior snapshot, or none.
pub open spec fn old_nodes(base: Option<TreeV>) -> Seq<NodeV> {
    match base {
        Some(b) => b.nodes,
        None => Seq::<NodeV>::empty(),
    }
}

/// The focus target of the prior snapshot, or none.
pub open spec fn old_focus(base: Option<TreeV>) -> Option<u64> {
    match base {
        Some(b) => b.focus,
        None => None,
    }
}

/// The root-change notification, where the root differs from the prior
/// snapshot's or there was no prior snapshot.
pub open spec fn root_event(base: Option<TreeV>, new: TreeV) -> Seq<Event> {
    match base {
        Some(b) => if b.root == new.root {
            Seq::<Event>::empty()
        } else {
            seq![Event::RootChanged(new.root)]
        },
        None => seq![Event::RootChanged(new.root)],
    }
}

/// The focus-change notification, where the focus target differs from the
/// prior snapshot's.
pub open spec fn focus_event(base: Option<TreeV>, new: TreeV) -> Seq<Event> {
    if old_focus(base) == new.focus {
        Seq::<Event>::empty()
    } else {
        seq![Event::FocusChanged(new.focus)]
    }
}

/// All notifications of the transition from `base` to `new`: added/updated
/// nodes in new-tree order, then removed nodes in old-tree order, then the
/// root change, then the focus change.
pub open spec fn diff_events(base: Option<TreeV>, new: TreeV) -> Seq<Event> {
    node_events(base_map(base), new.nodes) + removal_events(node_map(new.nodes), old_nodes(base))
        + root_event(base, new) + focus_event(base, new)
}

/// Computes the notifications of the transition from `base` to `new`.
#[verifier::loop_isolation(false)]
pub fn diff(base: Option<&Tree>, new: &Tree) -> (r: Vec<Event>)
    requires
        match base {
            Some(t) => t@.wf(),
            None => true,
        },
        new@.wf(),
    ensures
        r@ == diff_events(base_view(base), new@),
{
    let ghost bv = base_view(base);
    let ghost bm = base_map(bv);
    let ghost nv: TreeV = new@;
    let mut r: Vec<Event> = Vec::new();

    // Added and updated nodes, in new-tree order.
    let new_nodes = new.node_list();
    proof {
        assert(nv.nodes.take(0) =~= Seq::<NodeV>::empty());
    }
    let mut i: usize = 0;
    while i < new_nodes.len()
        invariant
            i <= new_nodes@.len(),
            r@ == node_events(bm, nv.nodes.take(i as int)),
        decreases new_nodes@.len() - i,
    {
        let n = &new_nodes[i];
        let previous: Option<&crate::node::Node> = match base {
            Some(t) => t.get_node(n.id),
            None => None,
        };
        match previous {
            None => {
                r.push(Event::Added(n.id));
            },
            Some(o) => {
                if !node_eq(o, n) {
                    r.push(Event::Updated(n.id));
                }
            },
        }
        proof {
            let taken = nv.nodes.take(i + 1 as int);
            assert(taken.drop_last() =~= nv.nodes.take(i as int));
            assert(taken.last() == nv.nodes[i as int]);
            assert(r@ =~= node_events(bm, taken));
        }
        i = i + 1;
    }
    proof {
        assert(nv.nodes.take(nv.nodes.len() as int) =~= nv.nodes);
    }
    let ghost added_updated = node_events(bm, nv.nodes);

    // Removed nodes, in old-tree order.
    proof {
        assert(old_nodes(bv).take(0) =~= Seq::<NodeV>::empty());
        assert(r@ =~= added_updated + removal_events(node_map(nv.nodes), old_nodes(bv).take(0)));
    }
    if let Some(t) = base {
        let base_nodes = t.node_list();
        let mut j: usize = 0;
        while j < base_nodes.len()
            invariant
                j <= base_nodes@.len(),
                r@ == added_updated + removal_events(node_map(nv.nodes), old_nodes(bv).take(j as int)),
            decreases base_nodes@.len() - j,
        {
            let o = &base_nodes[j];
            if !contains_id(new_nodes, o.id) {
                r.push(Event::Removed(o.id));
            }
            proof {
                let taken = old_nodes(bv).take(j + 1 as int);
                assert(taken.drop_last() =~= old_nodes(bv).take(j as int));
                assert(taken.last() == old_nodes(bv)[j as int]);
                assert(r@ =~= added_updated + removal_events(node_map(nv.nodes), taken));
            }
            j = j + 1;
        }
    }
    proof {
        assert(old_nodes(bv).take(old_nodes(bv).len() as int) =~= old_nodes(bv));
    }
    let ghost removed = removal_events(node_map(nv.nodes), old_nodes(bv));

    // Root change.
    let root_same: bool = match base {
        Some(t) => t.root_id() == new.root_id(),
        None => false,
    };
    if !root_same {
        r.push(Event::RootChanged(new.root_id()));
    }
    proof {
        assert(r@ =~= added_updated + removed + root_event(bv, nv));
    }

    // Focus change.
    let focus_same: bool = match base {
        Some(t) => match (t.focus_id(), new.focus_id()) {
            (Option::None, Option::None) => true,
            (Option::Some(a), Option::Some(b)) => a == b,
            _ => false,
        },
        None => match new.focus_id() {
            Option::None => true,
            Option::Some(_) => false,
        },
    };
    if !focus_same {
        r.push(Event::FocusChanged(new.focus_id()));
    }
    proof {
        assert(r@ =~= added_updated + removed + root_event(bv, nv) + focus_event(bv, nv));
    }
    r
}

/// Nodes that all keep their old value contribute no notification.
pub proof fn lemma_node_events_none(m: Map<u64, NodeV>, s: Seq<NodeV>)
    requires
        forall|i: int|
            0 <= i < s.len() ==> m.contains_key(#[trigger] s[i].id) && m[s[i].id] == s[i],
    ensures
        node_events(m, s) == Seq::<Event>::empty(),
    decreases s.len(),
{
    if s.len() > 0 {
        assert forall|i: int| 0 <= i < s.drop_last().len() implies m.contains_key(
            #[trigger] s.drop_last()[i].id,
        ) && m[s.drop_last()[i].id] == s.drop_last()[i] by {
            assert(s.drop_last()[i] == s[i]);
        }
        lemma_node_events_none(m, s.drop_last());
        assert(s[s.len() - 1] == s.last());
        assert(node_event(m, s.last()) =~= Seq::<Event>::empty());
        assert(node_events(m, s) =~= Seq::<Event>::empty());
    }
}

/// When exactly one node changed its value, keeping its id, the new tree's
/// nodes contribute exactly one update notification, naming that node.
pub proof fn lemma_node_events_one_changed(m: Map<u64, NodeV>, s: Seq<NodeV>, k: int)
    requires
        0 <= k < s.len(),
        forall|i: int|
            0 <= i < s.len() && i != k ==> m.contains_key(#[trigger] s[i].id) && m[s[i].id]
                == s[i],
        m.contains_key(s[k].id),
        m[s[k].id] != s[k],
    ensures
        node_events(m, s) == seq![Event::Updated(s[k].id)],
    decreases s.len(),
{
    if k == s.len() - 1 {
        assert forall|i: int| 0 <= i < s.drop_last().len() implies m.contains_key(
            #[trigger] s.drop_last()[i].id,
        ) && m[s.drop_last()[i].id] == s.drop_last()[i] by {
            assert(s.drop_last()[i] == s[i]);
        }
        lemma_node_events_none(m, s.drop_last());
        assert(s.last() == s[k]);
        assert(node_event(m, s.last()) =~= seq![Event::Updated(s[k].id)]);
        assert(node_events(m, s) =~= seq![Event::Updated(s[k].id)]);
    } else {
        assert forall|i: int| 0 <= i < s.drop_last().len() && i != k implies m.contains_key(
            #[trigger] s.drop_last()[i].id,
        ) && m[s.drop_last()[i].id] == s.drop_last()[i] by {
            assert(s.drop_last()[i] == s[i]);
        }
        assert(s.drop_last()[k] == s[k]);
        lemma_node_events_one_changed(m, s.drop_last(), k);
        assert(s[s.len() - 1] == s.last());
        assert(node_event(m, s.last()) =~= Seq::<Event>::empty());
        assert(node_events(m, s) =~= seq![Event::Updated(s[k].id)]);
    }
}

/// Old nodes whose ids all survive into the new tree contribute no removal.
pub proof fn lemma_removals_none(new_m: Map<u64, NodeV>, s: Seq<NodeV>)
    requires
        forall|i: int| 0 <= i < s.len() ==> new_m.contains_key(#[trigger] s[i].id),
    ensures
        removal_events(new_m, s) == Seq::<Event>::empty(),
    decreases s.len(),
{
    if s.len() > 0 {
        assert forall|i: int| 0 <= i < s.drop_last().len() implies new_m.contains_key(
            #[trigger] s.drop_last()[i].id,
        ) by {
            assert(s.drop_last()[i] == s[i]);
        }
        lemma_removals_none(new_m, s.drop_last());
        assert(s[s.len() - 1] == s.last());
        assert(removal_events(new_m, s) =~= Seq::<Event>::empty());
    }
}

/// Law (diff correctness): when two well-formed trees agree on root, focus
/// and every node but one, and that one node keeps everything but its text,
/// the notifications of the transition name exactly that node as updated and
/// nothing else.
pub proof fn lemma_diff_single_text_change(a: TreeV, b: TreeV, k: int)
    requires
        a.wf(),
        b.wf(),
        a.nodes.len() == b.nodes.len(),
        0 <= k < a.nodes.len(),
        forall|i: int| 0 <= i < a.nodes.len() && i != k ==> a.nodes[i] == #[trigger] b.nodes[i],
        b.nodes[k].id == a.nodes[k].id,
        b.nodes[k].role == a.nodes[k].role,
        b.nodes[k].actions == a.nodes[k].actions,
        b.nodes[k].bounds == a.nodes[k].bounds,
        b.nodes[k].children == a.nodes[k].children,
        b.nodes[k].text != a.nodes[k].text,
        b.root == a.root,
        b.focus == a.focus,
    ensures
        diff_events(Some(a), b) == seq![Event::Updated(a.nodes[k].id)],
{
    let am = node_map(a.nodes);
    let bm = node_map(b.nodes);

    // Every new node but the changed one keeps its old value in the old map.
    assert forall|i: int| 0 <= i < b.nodes.len() && i != k implies am.contains_key(
        #[trigger] b.nodes[i].id,
    ) && am[b.nodes[i].id] == b.nodes[i] by {
        lemma_node_map_index(a.nodes, i);
        assert(a.nodes[i] == b.nodes[i]);
    }
    lemma_node_map_index(a.nodes, k);
    assert(am.contains_key(b.nodes[k].id));
    assert(am[b.nodes[k].id] == a.nodes[k]);
    assert(a.nodes[k] != b.nodes[k]);
    lemma_node_events_one_changed(am, b.nodes, k);

    // Every old node's id survives, so nothing is removed.
    assert forall|i: int| 0 <= i < a.nodes.len() implies bm.contains_key(
        #[trigger] a.nodes[i].id,
    ) by {
        lemma_node_map_index(b.nodes, i);
        if i != k {
            assert(a.nodes[i] == b.nodes[i]);
        }
        assert(b.nodes[i].id == a.nodes[i].id);
    }
    lemma_removals_none(bm, a.nodes);

    assert(base_map(Some(a)) == am);
    assert(diff_events(Some(a), b) =~= seq![Event::Updated(a.nodes[k].id)]);
}

} // verus!
