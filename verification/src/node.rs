//! The tree snapshot model's node: one semantic UI element.
//!
//! Nodes are immutable once part of a published snapshot; a changed element is
//! represented by a new `Node` value carrying the same id.

use vstd::prelude::*;

use crate::geometry::Rect;

verus! {

/// The semantic role of a node.
#[derive(Clone, Copy, Debug, PartialEq, Eq, Structural)]
pub enum Role {
    Unknown,
    Window,
    Button,
    CheckBox,
    Label,
    TextInput,
    List,
    ListItem,
    Group,
}

/// An action that a node can support and that the native assistive-technology
/// stack can request on it.
#[derive(Clone, Copy, Debug, PartialEq, Eq, Structural)]
pub enum Action {
    Click,
    Focus,
    Blur,
    Increment,
    Decrement,
    ScrollIntoView,
}

/// The bit that stands for `a` in a node's action set.
pub open spec fn spec_action_bit(a: Action) -> u32 {
    match a {
        Action::Click => 1u32,
        Action::Focus => 2u32,
        Action::Blur => 4u32,
        Action::Increment => 8u32,
        Action::Decrement => 16u32,
        Action::ScrollIntoView => 32u32,
    }
}

/// The bit that stands for `a` in a node's action set.
#[verifier::when_used_as_spec(spec_action_bit)]
pub fn action_bit(a: Action) -> (r: u32)
    ensures
        r == spec_action_bit(a),
{
    match a {
        Action::Click => 1u32,
        Action::Focus => 2u32,
        Action::Blur => 4u32,
        Action::Increment => 8u32,
        Action::Decrement => 16u32,
        Action::ScrollIntoView => 32u32,
    }
}

/// One semantic UI element of an accessibility tree.
///
/// `id` is opaque and unique within a tree. `actions` is a set of
/// `action_bit` bits. `text` is the textual content as UTF-8 bytes, empty
/// when the node has none. `children` lists the ids of the node's children
/// in order.
#[derive(Debug)]
pub struct Node {
    pub id: u64,
    pub role: Role,
    pub actions: u32,
    pub text: Vec<u8>,
    pub bounds: Option<Rect>,
    pub children: Vec<u64>,
}

/// The mathematical value of a `Node`.
#[verifier::ext_equal]
pub ghost struct NodeV {
    pub id: u64,
    pub role: Role,
    pub actions: u32,
    pub text: Seq<u8>,
    pub bounds: Option<Rect>,
    pub children: Seq<u64>,
}

impl View for Node {
    type V = NodeV;

    open spec fn view(&self) -> NodeV {
        NodeV {
            id: self.id,
            role: self.role,
            actions: self.actions,
            text: self.text@,
            bounds: self.bounds,
            children: self.children@,
        }
    }
}

impl NodeV {
    /// Whether this node supports the action `a`.
    pub open spec fn spec_supports_action(self, a: Action) -> bool {
        self.actions & spec_action_bit(a) != 0
    }
}

impl Node {
    /// A node with the given id and role, no actions, no text, no bounds and
    /// no children.
    pub fn new(id: u64, role: Role) -> (r: Node)
        ensures
            r@ == (NodeV {
                id,
                role,
                actions: 0u32,
                text: Seq::<u8>::empty(),
                bounds: None::<Rect>,
                children: Seq::<u64>::empty(),
            }),
    {
        let r = Node { id, role, actions: 0, text: Vec::new(), bounds: None, children: Vec::new() };
        proof {
            assert(r@ =~= NodeV {
                id,
                role,
                actions: 0u32,
                text: Seq::<u8>::empty(),
                bounds: None::<Rect>,
                children: Seq::<u64>::empty(),
            });
        }
        r
    }

    /// Whether this node supports the action `a`.
    pub fn supports_action(&self, a: Action) -> (r: bool)
        ensures
            r == self@.spec_supports_action(a),
    {
        self.actions & action_bit(a) != 0
    }
}

/// A copy of `v` with the same contents.
pub fn copy_bytes(v: &Vec<u8>) -> (r: Vec<u8>)
    ensures
        r@ == v@,
{
    let mut r: Vec<u8> = Vec::new();
    let mut i: usize = 0;
    while i < v.len()
        invariant
            i <= v.len(),
            r@ == v@.take(i as int),
        decreases v.len() - i,
    {
        r.push(v[i]);
        proof {
            assert(v@.take(i + 1 as int) =~= v@.take(i as int).push(v@[i as int]));
        }
        i = i + 1;
    }
    proof {
        assert(v@.take(v@.len() as int) =~= v@);
    }
    r
}

/// A copy of `v` with the same contents.
pub fn copy_ids(v: &Vec<u64>) -> (r: Vec<u64>)
    ensures
        r@ == v@,
{
    let mut r: Vec<u64> = Vec::new();
    let mut i: usize = 0;
    while i < v.len()
        invariant
            i <= v.len(),
            r@ == v@.take(i as int),
        decreases v.len() - i,
    {
        r.push(v[i]);
        proof {
            assert(v@.take(i + 1 as int) =~= v@.take(i as int).push(v@[i as int]));
        }
        i = i + 1;
    }
    proof {
        assert(v@.take(v@.len() as int) =~= v@);
    }
    r
}

/// A node with the same value as `n`.
pub fn copy_node(n: &Node) -> (r: Node)
    ensures
        r@ == n@,
{
    let r = Node {
        id: n.id,
        role: n.role,
        actions: n.actions,
        text: copy_bytes(&n.text),
        bounds: n.bounds,
        children: copy_ids(&n.children),
    };
    proof {
        assert(r@ =~= n@);
    }
    r
}

/// Whether `a` and `b` are equal bytewise.
pub fn bytes_eq(a: &Vec<u8>, b: &Vec<u8>) -> (r: bool)
    ensures
        r == (a@ == b@),
{
    if a.len() != b.len() {
        return false;
    }
    let mut i: usize = 0;
    while i < a.len()
        invariant
            a@.len() == b@.len(),
            i <= a.len(),
            forall|j: int| 0 <= j < i ==> a@[j] == b@[j],
        decreases a.len() - i,
    {
        if a[i] != b[i] {
            return false;
        }
        i = i + 1;
    }
    proof {
        assert(a@ =~= b@);
    }
    true
}

/// Whether `a` and `b` hold the same ids in the same order.
pub fn ids_eq(a: &Vec<u64>, b: &Vec<u64>) -> (r: bool)
    ensures
        r == (a@ == b@),
{
    if a.len() != b.len() {
        return false;
    }
    let mut i: usize = 0;
    while i < a.len()
        invariant
            a@.len() == b@.len(),
            i <= a.len(),
            forall|j: int| 0 <= j < i ==> a@[j] == b@[j],
        decreases a.len() - i,
    {
        if a[i] != b[i] {
            return false;
        }
        i = i + 1;
    }
    proof {
        assert(a@ =~= b@);
    }
    true
}

/// Whether `a` and `b` are the same node value, field for field.
pub fn node_eq(a: &Node, b: &Node) -> (r: bool)
    ensures
        r == (a@ == b@),
{
    if a.id != b.id {
        return false;
    }
    if a.role != b.role {
        return false;
    }
    if a.actions != b.actions {
        return false;
    }
    if !bytes_eq(&a.text, &b.text) {
        return false;
    }
    let bounds_same = match (&a.bounds, &b.bounds) {
        (Option::None, Option::None) => true,
        (Option::Some(x), Option::Some(y)) => *x == *y,
        _ => false,
    };
    if !bounds_same {
        return false;
    }
    if !ids_eq(&a.children, &b.children) {
        return false;
    }
    proof {
        assert(a@ =~= b@);
    }
    true
}

} // verus!
