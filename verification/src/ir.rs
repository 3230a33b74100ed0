//! The compile-time intermediate representation: an identifier-addressed,
//! immutable-once-built tree of typed nodes.
//!
//! Nodes live in an arena ordered by identifier: the node with id `i` sits
//! at index `i`, ids are issued monotonically, and a child's id is always
//! greater than its parent's, so the tree is acyclic by construction.

use vstd::prelude::*;

use crate::property_type::spec_infer;
use crate::property_type::PropertyType;
use crate::text::chars_to_string;
use crate::text::eq_range;
use crate::text::sub_chars;
use crate::text::spec_trim;
use crate::text::str_to_chars;
use crate::text::trim_range;

verus! {

broadcast use vstd::std_specs::vec::group_vec_axioms, vstd::seq::group_seq_axioms;

/// A method signature recorded for a class description.
#[derive(Debug, Clone)]
pub struct MethodSig {
    pub name: String,
    pub params: Vec<String>,
}

/// A signal declaration recorded for a class description.
#[derive(Debug, Clone)]
pub struct SignalDecl {
    pub name: String,
    pub params: Vec<String>,
}

/// A property declaration with an optional default, kept as literal text.
#[derive(Debug, Clone)]
pub struct PropertyDecl {
    pub name: String,
    pub default: Option<String>,
}

/// A class description: properties, methods, signals, and an optional base.
#[derive(Debug, Clone)]
pub struct ClassDecl {
    pub name: String,
    pub properties: Vec<PropertyDecl>,
    pub methods: Vec<MethodSig>,
    pub signals: Vec<SignalDecl>,
    pub base: Option<String>,
}

/// An opaque node identifier: monotonically allocated, never reused.
#[derive(Debug, Copy, Clone, PartialEq, Eq, Hash, Structural)]
pub struct NodeId(pub u32);

/// A property with its literal text and inferred type.
#[derive(Debug)]
pub struct TypedProperty {
    pub value: String,
    pub prop_type: PropertyType,
}

/// One node of the lowered tree.
#[derive(Debug)]
pub struct NodeIR {
    pub id: NodeId,
    pub name: String,
    pub class_name: String,
    pub properties: Vec<(String, TypedProperty)>,
    pub parent: Option<NodeId>,
    pub children: Vec<NodeId>,
}

// ---------------------------------------------------------------------------
// Models
// ---------------------------------------------------------------------------

#[verifier::ext_equal]
pub struct TypedPropView {
    pub value: Seq<char>,
    pub prop_type: PropertyType,
}

#[verifier::ext_equal]
pub struct NodeView {
    pub id: int,
    pub name: Seq<char>,
    pub class_name: Seq<char>,
    pub properties: Seq<(Seq<char>, TypedPropView)>,
    pub parent: Option<int>,
    pub children: Seq<int>,
}

#[verifier::ext_equal]
pub struct SceneView {
    pub nodes: Seq<NodeView>,
    pub root: Option<int>,
    pub next: int,
}

impl View for TypedProperty {
    type V = TypedPropView;

    open spec fn view(&self) -> TypedPropView {
        TypedPropView { value: self.value@, prop_type: self.prop_type }
    }
}

pub open spec fn props_view(ps: Seq<(String, TypedProperty)>) -> Seq<(Seq<char>, TypedPropView)> {
    Seq::new(ps.len(), |i: int| (ps[i].0@, ps[i].1@))
}

impl View for NodeIR {
    type V = NodeView;

    open spec fn view(&self) -> NodeView {
        NodeView {
            id: self.id.0 as int,
            name: self.name@,
            class_name: self.class_name@,
            properties: props_view(self.properties@),
            parent: match self.parent {
                Some(p) => Some(p.0 as int),
                None => None,
            },
            children: Seq::new(self.children@.len(), |i: int| self.children@[i].0 as int),
        }
    }
}

/// Property keys of one node are unique.
pub open spec fn keys_unique(ps: Seq<(Seq<char>, TypedPropView)>) -> bool {
    forall|a: int, b: int| 0 <= a < b < ps.len() ==> (#[trigger] ps[a]).0 != (#[trigger] ps[b]).0
}

/// A node's links are consistent: its parent (if any) has a smaller id, and
/// each of its children is a valid node whose id is greater and whose
/// parent pointer names this node.
pub open spec fn node_links_ok(s: SceneView, i: int) -> bool {
    let n = s.nodes[i];
    &&& (match n.parent {
        Some(p) => 0 <= p < i,
        None => true,
    })
    &&& forall|k: int|
        0 <= k < n.children.len() ==> i < #[trigger] n.children[k] < s.nodes.len()
            && s.nodes[n.children[k]].parent == Some(i)
}

/// A children list holds no id twice.
pub open spec fn children_distinct(cs: Seq<int>) -> bool {
    forall|a: int, b: int| 0 <= a < b < cs.len() ==> cs[a] != cs[b]
}

/// The scene invariant: the node with id `i` sits at arena index `i`, the
/// id counter never falls behind the arena (ids reserved and then burned
/// stay unused), the root is the first node added, links are coherent with
/// no id listed twice among one node's children, and property keys are
/// unique within each node.
pub open spec fn scene_wf(s: SceneView) -> bool {
    &&& s.nodes.len() <= s.next
    &&& s.next < 0xffff_ffff
    &&& forall|i: int| 0 <= i < s.nodes.len() ==> (#[trigger] s.nodes[i]).id == i
    &&& (s.root == (if s.nodes.len() == 0 {
        None::<int>
    } else {
        Some(0int)
    }))
    &&& forall|i: int| 0 <= i < s.nodes.len() ==> node_links_ok(s, i)
    &&& forall|i: int| 0 <= i < s.nodes.len() ==> children_distinct((#[trigger] s.nodes[i]).children)
    &&& forall|i: int| 0 <= i < s.nodes.len() ==> keys_unique((#[trigger] s.nodes[i]).properties)
}

/// Every parented node is recorded in its parent's children list.
pub open spec fn parents_linked(s: SceneView) -> bool {
    forall|j: int| 0 <= j < s.nodes.len() ==> match (#[trigger] s.nodes[j]).parent {
        Some(p) => 0 <= p < s.nodes.len() && s.nodes[p].children.contains(j),
        None => true,
    }
}

/// In a well-formed scene the children lists partition the child ids: one
/// id occurs in at most one list, and only once there. So with every
/// non-root node parented and recorded under its parent, each occurs in
/// exactly one children list.
pub proof fn lemma_children_unique(s: SceneView, p1: int, k1: int, p2: int, k2: int)
    requires
        scene_wf(s),
        0 <= p1 < s.nodes.len(),
        0 <= k1 < s.nodes[p1].children.len(),
        0 <= p2 < s.nodes.len(),
        0 <= k2 < s.nodes[p2].children.len(),
        s.nodes[p1].children[k1] == s.nodes[p2].children[k2],
    ensures
        p1 == p2,
        k1 == k2,
{
    assert(node_links_ok(s, p1));
    assert(node_links_ok(s, p2));
    assert(children_distinct(s.nodes[p1].children));
}

impl NodeIR {
    /// A fresh node with no properties, parent, or children.
    pub fn new(id: NodeId, name: String, class_name: String) -> (r: NodeIR)
        ensures
            r@ == (NodeView {
                id: id.0 as int,
                name: name@,
                class_name: class_name@,
                properties: Seq::<(Seq<char>, TypedPropView)>::empty(),
                parent: None,
                children: Seq::<int>::empty(),
            }),
    {
        let r = NodeIR {
            id,
            name,
            class_name,
            properties: Vec::new(),
            parent: None,
            children: Vec::new(),
        };
        proof {
            assert(props_view(r.properties@) =~= Seq::<(Seq<char>, TypedPropView)>::empty());
            assert(Seq::new(r.children@.len(), |i: int| r.children@[i].0 as int)
                =~= Seq::<int>::empty());
        }
        r
    }

    /// Look up a property by key, returning the sole entry under it.
    pub fn get_property(&self, key: &str) -> (r: Option<&TypedProperty>)
        ensures
            match r {
                Some(tp) => exists|j: int|
                    0 <= j < self@.properties.len() && #[trigger] self@.properties[j]
                        == (key@, tp@),
                None => forall|j: int|
                    0 <= j < self@.properties.len() ==> (#[trigger] self@.properties[j]).0 != key@,
            },
    {
        let mut i: usize = 0;
        while i < self.properties.len()
            invariant
                i <= self.properties@.len(),
                forall|j: int| 0 <= j < i ==> (#[trigger] props_view(self.properties@)[j]).0 != key@,
            decreases self.properties@.len() - i,
        {
            if crate::text::str_eq(self.properties[i].0.as_str(), key) {
                proof {
                    assert(self@.properties[i as int] == (key@, self.properties@[i as int].1@));
                }
                return Some(&self.properties[i].1);
            }
            i += 1;
        }
        None
    }
}

// ---------------------------------------------------------------------------
// Property list update
// ---------------------------------------------------------------------------

/// The index of the first entry under `key`, or a negative value.
pub open spec fn find_key(ps: Seq<(Seq<char>, TypedPropView)>, key: Seq<char>) -> int
    decreases ps.len(),
{
    if ps.len() == 0 {
        -1
    } else if ps[0].0 == key {
        0
    } else {
        let r = find_key(ps.drop_first(), key);
        if r < 0 {
            -1
        } else {
            r + 1
        }
    }
}

proof fn lemma_find_key(ps: Seq<(Seq<char>, TypedPropView)>, key: Seq<char>)
    ensures
        ({
            let j = find_key(ps, key);
            &&& (j == -1 ==> forall|i: int| 0 <= i < ps.len() ==> (#[trigger] ps[i]).0 != key)
            &&& (j != -1 ==> 0 <= j < ps.len() && ps[j].0 == key && forall|i: int|
                0 <= i < j ==> (#[trigger] ps[i]).0 != key)
        }),
    decreases ps.len(),
{
    if ps.len() > 0 && ps[0].0 != key {
        lemma_find_key(ps.drop_first(), key);
        assert(forall|i: int| 1 <= i < ps.len() ==> ps.drop_first()[i - 1] == #[trigger] ps[i]);
    }
}

/// Replace the entry under `key` in place, or append a new one.
pub open spec fn spec_set_prop(
    ps: Seq<(Seq<char>, TypedPropView)>,
    key: Seq<char>,
    tp: TypedPropView,
) -> Seq<(Seq<char>, TypedPropView)> {
    let j = find_key(ps, key);
    if j < 0 {
        ps.push((key, tp))
    } else {
        ps.update(j, (key, tp))
    }
}

/// A node with one more child id.
pub open spec fn node_with_child(n: NodeView, c: int) -> NodeView {
    NodeView { children: n.children.push(c), ..n }
}

/// A node re-parented.
pub open spec fn node_with_parent(n: NodeView, p: int) -> NodeView {
    NodeView { parent: Some(p), ..n }
}

/// A node with its property list replaced.
pub open spec fn node_with_props(n: NodeView, ps: Seq<(Seq<char>, TypedPropView)>) -> NodeView {
    NodeView { properties: ps, ..n }
}

fn clone_ids(v: &Vec<NodeId>) -> (r: Vec<NodeId>)
    ensures
        r@ == v@,
{
    let mut out: Vec<NodeId> = Vec::new();
    let mut i: usize = 0;
    while i < v.len()
        invariant
            i <= v@.len(),
            out@ == v@.subrange(0, i as int),
        decreases v@.len() - i,
    {
        out.push(v[i]);
        proof {
            assert(v@.subrange(0, i as int).push(v@[i as int]) =~= v@.subrange(0, i + 1 as int));
        }
        i += 1;
    }
    proof {
        assert(v@.subrange(0, v@.len() as int) =~= v@);
    }
    out
}

fn clone_props(v: &Vec<(String, TypedProperty)>) -> (r: Vec<(String, TypedProperty)>)
    ensures
        props_view(r@) == props_view(v@),
{
    let mut out: Vec<(String, TypedProperty)> = Vec::new();
    let mut i: usize = 0;
    while i < v.len()
        invariant
            i <= v@.len(),
            out@.len() == i,
            forall|j: int| 0 <= j < i ==> #[trigger] out@[j].0@ == v@[j].0@ && out@[j].1@ == v@[j].1@,
        decreases v@.len() - i,
    {
        let key = v[i].0.clone();
        let tp = TypedProperty { value: v[i].1.value.clone(), prop_type: v[i].1.prop_type };
        out.push((key, tp));
        i += 1;
    }
    proof {
        assert(props_view(out@) =~= props_view(v@));
    }
    out
}

fn find_prop_index(ps: &Vec<(String, TypedProperty)>, key: &str) -> (r: Option<usize>)
    ensures
        match r {
            Some(i) => i < ps@.len() && find_key(props_view(ps@), key@) == i as int,
            None => find_key(props_view(ps@), key@) == -1,
        },
{
    let mut i: usize = 0;
    while i < ps.len()
        invariant
            i <= ps@.len(),
            forall|j: int| 0 <= j < i ==> (#[trigger] props_view(ps@)[j]).0 != key@,
        decreases ps@.len() - i,
    {
        if crate::text::str_eq(ps[i].0.as_str(), key) {
            proof {
                lemma_find_key(props_view(ps@), key@);
                assert(props_view(ps@)[i as int].0 == key@);
            }
            return Some(i);
        }
        i += 1;
    }
    proof {
        lemma_find_key(props_view(ps@), key@);
    }
    None
}

// ---------------------------------------------------------------------------
// Paths
// ---------------------------------------------------------------------------

/// The absolute path text of a node: each ancestor's name from the root
/// down, preceded by a slash.
pub open spec fn spec_node_path(s: SceneView, id: int) -> Seq<char>
    decreases id,
{
    if 0 <= id < s.nodes.len() {
        match s.nodes[id].parent {
            Some(p) => if 0 <= p < id {
                spec_node_path(s, p) + seq!['/'] + s.nodes[id].name
            } else {
                seq!['/'] + s.nodes[id].name
            },
            None => seq!['/'] + s.nodes[id].name,
        }
    } else {
        Seq::empty()
    }
}

/// The end of a run of non-slash characters starting at `pos`.
pub open spec fn spec_seg_end(s: Seq<char>, pos: int) -> int
    decreases s.len() - pos,
{
    if 0 <= pos < s.len() && s[pos] != '/' {
        spec_seg_end(s, pos + 1)
    } else {
        pos
    }
}

/// The non-empty segments of `s` from `pos` on, split at slashes.
pub open spec fn spec_split_slashes(s: Seq<char>, pos: int) -> Seq<Seq<char>>
    decreases s.len() - pos,
{
    if !(0 <= pos < s.len()) {
        Seq::empty()
    } else if s[pos] == '/' {
        spec_split_slashes(s, pos + 1)
    } else {
        let e = spec_seg_end(s, pos);
        if pos < e <= s.len() {
            seq![s.subrange(pos, e)] + spec_split_slashes(s, e)
        } else {
            Seq::empty()
        }
    }
}

/// The views of collected segment ranges of `t`.
pub open spec fn seg_views(t: Seq<char>, segs: Seq<(usize, usize)>) -> Seq<Seq<char>> {
    Seq::new(segs.len(), |j: int| t.subrange(segs[j].0 as int, segs[j].1 as int))
}

/// The first child of `cur` (from the `k`-th entry on) whose name matches.
pub open spec fn spec_find_child(s: SceneView, cur: int, name: Seq<char>, k: int) -> Option<int>
    decreases (if 0 <= cur < s.nodes.len() {
        s.nodes[cur].children.len() as int
    } else {
        0
    }) - k,
{
    if !(0 <= cur < s.nodes.len()) {
        None
    } else if !(0 <= k < s.nodes[cur].children.len()) {
        None
    } else {
        let c = s.nodes[cur].children[k];
        if 0 <= c < s.nodes.len() && s.nodes[c].name == name {
            Some(c)
        } else {
            spec_find_child(s, cur, name, k + 1)
        }
    }
}

/// Walk the remaining path segments down from `cur`.
pub open spec fn spec_walk_path(s: SceneView, cur: int, parts: Seq<Seq<char>>, idx: int) -> Option<
    int,
>
    decreases parts.len() - idx,
{
    if idx >= parts.len() {
        Some(cur)
    } else {
        match spec_find_child(s, cur, parts[idx], 0) {
            None => None,
            Some(c) => spec_walk_path(s, c, parts, idx + 1),
        }
    }
}

/// Resolve a slash-separated path of node names against a scene.
pub open spec fn spec_find_by_path(s: SceneView, path: Seq<char>) -> Option<int> {
    if path.len() == 0 {
        None
    } else {
        let t = spec_trim(path);
        let parts = spec_split_slashes(t, 0);
        match s.root {
            None => None,
            Some(r) => if !(0 <= r < s.nodes.len()) {
                None
            } else if parts.len() == 0 {
                None
            } else if s.nodes[r].name != parts[0] {
                None
            } else {
                spec_walk_path(s, r, parts, 1)
            },
        }
    }
}

// ---------------------------------------------------------------------------
// The scene arena
// ---------------------------------------------------------------------------

/// The lowered scene: an arena of nodes addressed by id, with the root set
/// to the first node added.
#[derive(Debug)]
pub struct SceneIR {
    nodes: Vec<NodeIR>,
    root: Option<NodeId>,
    next_id: u32,
}

impl View for SceneIR {
    type V = SceneView;

    closed spec fn view(&self) -> SceneView {
        SceneView {
            nodes: Seq::new(self.nodes@.len(), |i: int| self.nodes@[i]@),
            root: match self.root {
                Some(r) => Some(r.0 as int),
                None => None,
            },
            next: self.next_id as int,
        }
    }
}

impl SceneIR {
    /// An empty scene.
    pub fn new() -> (r: SceneIR)
        ensures
            r@.nodes.len() == 0,
            r@.root is None,
            r@.next == 0,
            scene_wf(r@),
    {
        let r = SceneIR { nodes: Vec::new(), root: None, next_id: 0 };
        proof {
            assert(r@.nodes =~= Seq::<NodeView>::empty());
        }
        r
    }

    /// Allocate a fresh id: the counter's current value, which is then
    /// advanced. Across any sequence of calls the returned ids are strictly
    /// increasing — never reused or renumbered. An id reserved here and not
    /// given to the node `add_node` creates next is simply burned: the
    /// arena stores the node with id `i` at index `i`, so `add_node` asks
    /// that no reservation be outstanding.
    pub fn alloc_id(&mut self) -> (r: NodeId)
        requires
            scene_wf(old(self)@),
            old(self)@.next + 1 < 0xffff_ffff,
        ensures
            scene_wf(final(self)@),
            r.0 as int == old(self)@.next,
            final(self)@.next == old(self)@.next + 1,
            final(self)@.nodes == old(self)@.nodes,
            final(self)@.root == old(self)@.root,
    {
        let id = NodeId(self.next_id);
        self.next_id = self.next_id + 1;
        proof {
            assert(self@.nodes =~= old(self)@.nodes);
            assert forall|i: int| 0 <= i < self@.nodes.len() implies node_links_ok(self@, i) by {
                assert(node_links_ok(old(self)@, i));
            }
        }
        id
    }

    /// Append a fresh node under the next allocated id; the first node
    /// added becomes the root. The id counter must be in step with the
    /// arena: no id reserved by `alloc_id` may be outstanding.
    pub fn add_node(&mut self, name: String, class_name: String) -> (r: NodeId)
        requires
            scene_wf(old(self)@),
            old(self)@.next == old(self)@.nodes.len(),
            old(self)@.nodes.len() + 1 < 0xffff_ffff,
        ensures
            scene_wf(final(self)@),
            r.0 as int == old(self)@.nodes.len(),
            final(self)@.next == old(self)@.next + 1,
            final(self)@.nodes == old(self)@.nodes.push(
                NodeView {
                    id: old(self)@.nodes.len() as int,
                    name: name@,
                    class_name: class_name@,
                    properties: Seq::<(Seq<char>, TypedPropView)>::empty(),
                    parent: None,
                    children: Seq::<int>::empty(),
                },
            ),
            final(self)@.root == (if old(self)@.nodes.len() == 0 {
                Some(0int)
            } else {
                old(self)@.root
            }),
    {
        let id = self.alloc_id();
        let node = NodeIR::new(id, name, class_name);
        if self.root.is_none() {
            self.root = Some(id);
        }
        self.nodes.push(node);
        proof {
            let sv = self@;
            let ov = old(self)@;
            assert(sv.nodes =~= ov.nodes.push(sv.nodes.last()));
            assert forall|i: int| 0 <= i < sv.nodes.len() implies node_links_ok(sv, i) by {
                assert(node_links_ok(ov, i) || i == ov.nodes.len());
                if i < ov.nodes.len() {
                    assert(sv.nodes[i] == ov.nodes[i]);
                }
            }
        }
        id
    }

    /// Link `child` under `parent`: the child id is recorded on the parent
    /// and the parent id on the child. The link is made exactly when both
    /// ids name nodes, the child's id is greater than the parent's, and the
    /// child has no parent yet; otherwise the scene is left unchanged.
    pub fn add_child(&mut self, parent: NodeId, child: NodeId)
        requires
            scene_wf(old(self)@),
        ensures
            scene_wf(final(self)@),
            final(self)@.root == old(self)@.root,
            final(self)@.next == old(self)@.next,
            ({
                let s = old(self)@;
                let linkable = parent.0 < s.nodes.len() && child.0 < s.nodes.len() && parent.0
                    < child.0 && s.nodes[child.0 as int].parent is None;
                if linkable {
                    final(self)@.nodes == s.nodes.update(
                        parent.0 as int,
                        node_with_child(s.nodes[parent.0 as int], child.0 as int),
                    ).update(
                        child.0 as int,
                        node_with_parent(s.nodes[child.0 as int], parent.0 as int),
                    )
                } else {
                    final(self)@.nodes == s.nodes
                }
            }),
    {
        let p_idx = parent.0 as usize;
        let c_idx = child.0 as usize;
        if !(p_idx < self.nodes.len() && c_idx < self.nodes.len() && p_idx < c_idx
            && self.nodes[c_idx].parent.is_none()) {
            return ;
        }
        let ghost ov = self@;
        // rebuild the parent with the child appended
        let new_p = {
            let old_p = &self.nodes[p_idx];
            let mut children = clone_ids(&old_p.children);
            children.push(child);
            NodeIR {
                id: old_p.id,
                name: old_p.name.clone(),
                class_name: old_p.class_name.clone(),
                properties: clone_props(&old_p.properties),
                parent: old_p.parent,
                children,
            }
        };
        self.nodes.set(p_idx, new_p);
        // rebuild the child with its parent set
        let new_c = {
            let old_c = &self.nodes[c_idx];
            NodeIR {
                id: old_c.id,
                name: old_c.name.clone(),
                class_name: old_c.class_name.clone(),
                properties: clone_props(&old_c.properties),
                parent: Some(parent),
                children: clone_ids(&old_c.children),
            }
        };
        self.nodes.set(c_idx, new_c);
        proof {
            let sv = self@;
            let pi = parent.0 as int;
            let ci = child.0 as int;
            assert(sv.nodes[pi] =~= node_with_child(ov.nodes[pi], ci));
            assert(sv.nodes[ci] =~= node_with_parent(ov.nodes[ci], pi));
            assert(sv.nodes =~= ov.nodes.update(pi, node_with_child(ov.nodes[pi], ci)).update(
                ci,
                node_with_parent(ov.nodes[ci], pi),
            ));
            assert forall|i: int| 0 <= i < sv.nodes.len() implies node_links_ok(sv, i) by {
                assert(node_links_ok(ov, i));
                if i == pi {
                    assert forall|k: int| 0 <= k < sv.nodes[i].children.len() implies i
                        < #[trigger] sv.nodes[i].children[k] < sv.nodes.len()
                        && sv.nodes[sv.nodes[i].children[k]].parent == Some(i) by {
                        if k < ov.nodes[pi].children.len() {
                            assert(ov.nodes[pi].children[k] != ci);
                        }
                    }
                } else {
                    assert forall|k: int| 0 <= k < sv.nodes[i].children.len() implies i
                        < #[trigger] sv.nodes[i].children[k] < sv.nodes.len()
                        && sv.nodes[sv.nodes[i].children[k]].parent == Some(i) by {
                        assert(sv.nodes[i].children[k] == ov.nodes[i].children[k]);
                        assert(ov.nodes[i].children[k] != ci);
                    }
                }
            }
            assert forall|i: int| 0 <= i < sv.nodes.len() implies keys_unique(
                (#[trigger] sv.nodes[i]).properties,
            ) by {
                assert(keys_unique(ov.nodes[i].properties));
                assert(sv.nodes[i].properties == ov.nodes[i].properties);
            }
            assert forall|i: int| 0 <= i < sv.nodes.len() implies children_distinct(
                (#[trigger] sv.nodes[i]).children,
            ) by {
                assert(children_distinct(ov.nodes[i].children));
                assert(node_links_ok(ov, i));
                if i == pi {
                    assert forall|a: int, b: int|
                        0 <= a < b < sv.nodes[i].children.len() implies sv.nodes[i].children[a]
                        != sv.nodes[i].children[b] by {
                        if b == ov.nodes[pi].children.len() {
                            // an old entry equal to the new child would have
                            // given it a parent already
                            if ov.nodes[pi].children[a] == ci {
                                assert(ov.nodes[ci].parent == Some(pi));
                            }
                        }
                    }
                } else {
                    assert(sv.nodes[i].children == ov.nodes[i].children);
                }
            }
        }
    }

    /// Set a property on a node, replacing any entry under the same key in
    /// place; the type is inferred from the literal text. An id that names
    /// no node leaves the scene unchanged.
    pub fn set_property(&mut self, node: NodeId, key: &str, value: &str)
        requires
            scene_wf(old(self)@),
        ensures
            scene_wf(final(self)@),
            final(self)@.root == old(self)@.root,
            final(self)@.next == old(self)@.next,
            ({
                let s = old(self)@;
                let tp = TypedPropView { value: value@, prop_type: spec_infer(value@) };
                if node.0 < s.nodes.len() {
                    final(self)@.nodes == s.nodes.update(
                        node.0 as int,
                        node_with_props(
                            s.nodes[node.0 as int],
                            spec_set_prop(s.nodes[node.0 as int].properties, key@, tp),
                        ),
                    )
                } else {
                    final(self)@.nodes == s.nodes
                }
            }),
    {
        let prop_type = PropertyType::infer(value);
        self.set_typed_property(node, key, value, prop_type)
    }

    /// Set a property on a node with an already-inferred type, replacing
    /// any entry under the same key in place. An id that names no node
    /// leaves the scene unchanged.
    pub fn set_typed_property(&mut self, node: NodeId, key: &str, value: &str,
        prop_type: PropertyType)
        requires
            scene_wf(old(self)@),
        ensures
            scene_wf(final(self)@),
            final(self)@.root == old(self)@.root,
            final(self)@.next == old(self)@.next,
            ({
                let s = old(self)@;
                let tp = TypedPropView { value: value@, prop_type };
                if node.0 < s.nodes.len() {
                    final(self)@.nodes == s.nodes.update(
                        node.0 as int,
                        node_with_props(
                            s.nodes[node.0 as int],
                            spec_set_prop(s.nodes[node.0 as int].properties, key@, tp),
                        ),
                    )
                } else {
                    final(self)@.nodes == s.nodes
                }
            }),
    {
        let n_idx = node.0 as usize;
        if !(n_idx < self.nodes.len()) {
            return ;
        }
        let ghost ov = self@;
        let ghost tp = TypedPropView { value: value@, prop_type };
        proof {
            lemma_find_key(ov.nodes[node.0 as int].properties, key@);
        }
        // find the entry under this key, if any
        let found: Option<usize> = find_prop_index(&self.nodes[n_idx].properties, key);
        let new_node = {
            let old_n = &self.nodes[n_idx];
            let mut props = clone_props(&old_n.properties);
            let pair = (String::from_str(key), TypedProperty {
                value: String::from_str(value),
                prop_type,
            });
            match found {
                Some(i) => {
                    props.set(i, pair);
                    proof {
                        assert(props_view(props@) =~= ov.nodes[node.0 as int].properties.update(
                            i as int,
                            (key@, tp),
                        ));
                    }
                },
                None => {
                    props.push(pair);
                    proof {
                        assert(props_view(props@) =~= ov.nodes[node.0 as int].properties.push(
                            (key@, tp),
                        ));
                    }
                },
            }
            NodeIR {
                id: old_n.id,
                name: old_n.name.clone(),
                class_name: old_n.class_name.clone(),
                properties: props,
                parent: old_n.parent,
                children: clone_ids(&old_n.children),
            }
        };
        self.nodes.set(n_idx, new_node);
        proof {
            let sv = self@;
            let ni = node.0 as int;
            assert(sv.nodes[ni] =~= node_with_props(
                ov.nodes[ni],
                spec_set_prop(ov.nodes[ni].properties, key@, tp),
            ));
            assert(sv.nodes =~= ov.nodes.update(
                ni,
                node_with_props(ov.nodes[ni], spec_set_prop(ov.nodes[ni].properties, key@, tp)),
            ));
            assert forall|i: int| 0 <= i < sv.nodes.len() implies node_links_ok(sv, i) by {
                assert(node_links_ok(ov, i));
                assert(sv.nodes[i].children == ov.nodes[i].children);
                assert forall|k: int| 0 <= k < sv.nodes[i].children.len() implies i
                    < #[trigger] sv.nodes[i].children[k] < sv.nodes.len()
                    && sv.nodes[sv.nodes[i].children[k]].parent == Some(i) by {
                    assert(ov.nodes[i].children[k] == sv.nodes[i].children[k]);
                    assert(sv.nodes[ov.nodes[i].children[k]].parent == ov.nodes[ov.nodes[i].children[k]].parent);
                }
            }
            assert forall|i: int| 0 <= i < sv.nodes.len() implies keys_unique(
                (#[trigger] sv.nodes[i]).properties,
            ) by {
                assert(keys_unique(ov.nodes[i].properties));
                if i == ni {
                    let ps = ov.nodes[ni].properties;
                    let j = find_key(ps, key@);
                    if j < 0 {
                        assert forall|a: int, b: int|
                            0 <= a < b < sv.nodes[i].properties.len() implies (
                        #[trigger] sv.nodes[i].properties[a]).0 != (
                        #[trigger] sv.nodes[i].properties[b]).0 by {
                            if b == ps.len() {
                                assert(sv.nodes[i].properties[a] == ps[a]);
                            }
                        }
                    }
                }
            }
        }
    }

    fn path_chars(&self, idx: usize) -> (r: Vec<char>)
        requires
            scene_wf(self@),
            idx < self@.nodes.len(),
        ensures
            r@ == spec_node_path(self@, idx as int),
        decreases idx,
    {
        proof {
            assert(node_links_ok(self@, idx as int));
        }
        let mut prefix: Vec<char> = match self.nodes[idx].parent {
            Some(p) => {
                proof {
                    assert(self@.nodes[idx as int].parent == Some(p.0 as int));
                }
                self.path_chars(p.0 as usize)
            },
            None => Vec::new(),
        };
        prefix.push('/');
        let ghost base = prefix@;
        let name_chars = str_to_chars(self.nodes[idx].name.as_str());
        let mut k: usize = 0;
        while k < name_chars.len()
            invariant
                k <= name_chars@.len(),
                prefix@ == base + name_chars@.subrange(0, k as int),
            decreases name_chars@.len() - k,
        {
            prefix.push(name_chars[k]);
            proof {
                assert((base + name_chars@.subrange(0, k as int)).push(name_chars@[k as int])
                    =~= base + name_chars@.subrange(0, k + 1 as int));
            }
            k += 1;
        }
        proof {
            assert(name_chars@.subrange(0, name_chars@.len() as int) =~= name_chars@);
            assert(prefix@ =~= spec_node_path(self@, idx as int));
        }
        prefix
    }

    /// The absolute path of a node: the names from the root down, each
    /// preceded by a slash.
    pub fn get_path(&self, node: NodeId) -> (r: Option<String>)
        requires
            scene_wf(self@),
        ensures
            match r {
                Some(p) => node.0 < self@.nodes.len() && p@ == spec_node_path(
                    self@,
                    node.0 as int,
                ),
                None => node.0 >= self@.nodes.len(),
            },
    {
        let idx = node.0 as usize;
        if idx < self.nodes.len() {
            let chars = self.path_chars(idx);
            Some(chars_to_string(&chars))
        } else {
            None
        }
    }

    /// Find the first child of `cur` whose name equals `tv[slo..shi]`, in
    /// declaration order.
    fn find_child(&self, cur: NodeId, tv: &Vec<char>, slo: usize, shi: usize) -> (r: Option<
        NodeId,
    >)
        requires
            scene_wf(self@),
            cur.0 < self@.nodes.len(),
            slo <= shi <= tv@.len(),
        ensures
            match r {
                Some(c) => spec_find_child(
                    self@,
                    cur.0 as int,
                    tv@.subrange(slo as int, shi as int),
                    0,
                ) == Some(c.0 as int) && c.0 < self@.nodes.len(),
                None => spec_find_child(
                    self@,
                    cur.0 as int,
                    tv@.subrange(slo as int, shi as int),
                    0,
                ) is None,
            },
    {
        let ghost name = tv@.subrange(slo as int, shi as int);
        let node = &self.nodes[cur.0 as usize];
        let mut k: usize = 0;
        while k < node.children.len()
            invariant
                scene_wf(self@),
                cur.0 < self@.nodes.len(),
                slo <= shi <= tv@.len(),
                name == tv@.subrange(slo as int, shi as int),
                *node == self.nodes@[cur.0 as int],
                k <= node.children@.len(),
                spec_find_child(self@, cur.0 as int, name, 0) == spec_find_child(
                    self@,
                    cur.0 as int,
                    name,
                    k as int,
                ),
            decreases node.children@.len() - k,
        {
            let cid = node.children[k];
            proof {
                assert(node_links_ok(self@, cur.0 as int));
                assert(self@.nodes[cur.0 as int].children[k as int] == cid.0 as int);
            }
            if eq_range(tv, slo, shi, self.nodes[cid.0 as usize].name.as_str()) {
                return Some(cid);
            }
            k += 1;
        }
        None
    }

    /// Resolve a slash-separated path of node names from the root, matching
    /// each segment against children in declaration order. An empty path,
    /// or one with no segments after trimming, resolves to nothing.
    pub fn find_by_path(&self, path: &str) -> (r: Option<NodeId>)
        requires
            scene_wf(self@),
        ensures
            match r {
                Some(id) => spec_find_by_path(self@, path@) == Some(id.0 as int),
                None => spec_find_by_path(self@, path@) is None,
            },
    {
        let v = str_to_chars(path);
        if v.len() == 0 {
            return None;
        }
        let (lo, hi) = trim_range(&v, 0, v.len());
        proof {
            assert(v@.subrange(0, v@.len() as int) =~= v@);
        }
        let tv = sub_chars(&v, lo, hi);
        // collect the non-empty segments between slashes
        let mut segs: Vec<(usize, usize)> = Vec::new();
        let mut i: usize = 0;
        proof {
            assert(seg_views(tv@, segs@) =~= Seq::<Seq<char>>::empty());
        }
        while i < tv.len()
            invariant
                i <= tv@.len(),
                forall|j: int| 0 <= j < segs@.len() ==> (#[trigger] segs@[j]).0 <= segs@[j].1
                    && segs@[j].1 <= tv@.len(),
                spec_split_slashes(tv@, 0) == seg_views(tv@, segs@) + spec_split_slashes(
                    tv@,
                    i as int,
                ),
            decreases tv@.len() - i,
        {
            if tv[i] == '/' {
                i += 1;
            } else {
                let start = i;
                while i < tv.len() && tv[i] != '/'
                    invariant
                        start <= i <= tv@.len(),
                        spec_seg_end(tv@, start as int) == spec_seg_end(tv@, i as int),
                    decreases tv@.len() - i,
                {
                    i += 1;
                }
                proof {
                    assert(spec_seg_end(tv@, start as int) == i as int);
                }
                let ghost segs0 = segs@;
                segs.push((start, i));
                proof {
                    assert(seg_views(tv@, segs@) =~= seg_views(tv@, segs0).push(
                        tv@.subrange(start as int, i as int),
                    ));
                    assert(seg_views(tv@, segs0) + (seq![tv@.subrange(start as int, i as int)]
                        + spec_split_slashes(tv@, i as int)) =~= seg_views(tv@, segs@)
                        + spec_split_slashes(tv@, i as int));
                }
            }
        }
        let ghost parts = spec_split_slashes(tv@, 0);
        proof {
            assert(parts =~= seg_views(tv@, segs@));
        }
        if segs.len() == 0 {
            return None;
        }
        let root_id = match self.root() {
            Some(r) => r,
            None => {
                return None;
            },
        };
        let (s0, e0) = (segs[0].0, segs[0].1);
        proof {
            assert(parts[0] == tv@.subrange(s0 as int, e0 as int));
        }
        if !eq_range(&tv, s0, e0, self.nodes[root_id.0 as usize].name.as_str()) {
            return None;
        }
        let mut current: NodeId = root_id;
        let mut idx: usize = 1;
        while idx < segs.len()
            invariant
                scene_wf(self@),
                1 <= idx <= segs@.len(),
                current.0 < self@.nodes.len(),
                path@.len() > 0,
                tv@ == spec_trim(path@),
                parts == spec_split_slashes(tv@, 0),
                self@.root == Some(root_id.0 as int),
                root_id.0 < self@.nodes.len(),
                self@.nodes[root_id.0 as int].name == parts[0],
                parts.len() >= 1,
                parts.len() == segs@.len(),
                forall|j: int| 0 <= j < segs@.len() ==> (#[trigger] segs@[j]).0 <= segs@[j].1
                    && segs@[j].1 <= tv@.len(),
                forall|j: int| 0 <= j < segs@.len() ==> #[trigger] parts[j] == tv@.subrange(
                    segs@[j].0 as int,
                    segs@[j].1 as int,
                ),
                spec_walk_path(self@, root_id.0 as int, parts, 1) == spec_walk_path(
                    self@,
                    current.0 as int,
                    parts,
                    idx as int,
                ),
            decreases segs@.len() - idx,
        {
            let (slo, shi) = (segs[idx].0, segs[idx].1);
            match self.find_child(current, &tv, slo, shi) {
                Some(c) => {
                    current = c;
                    idx += 1;
                },
                None => {
                    return None;
                },
            }
        }
        Some(current)
    }

    /// The number of nodes in the scene.
    pub fn len(&self) -> (r: usize)
        ensures
            r as int == self@.nodes.len(),
    {
        self.nodes.len()
    }

    /// The root node's id, if any node exists.
    pub fn root(&self) -> (r: Option<NodeId>)
        ensures
            match r {
                Some(id) => self@.root == Some(id.0 as int),
                None => self@.root is None,
            },
    {
        self.root
    }

    /// Borrow the node with the given id.
    pub fn get_node(&self, id: NodeId) -> (r: Option<&NodeIR>)
        ensures
            match r {
                Some(n) => id.0 < self@.nodes.len() && n@ == self@.nodes[id.0 as int],
                None => id.0 >= self@.nodes.len(),
            },
    {
        let idx = id.0 as usize;
        if idx < self.nodes.len() {
            Some(&self.nodes[idx])
        } else {
            None
        }
    }
}

} // verus!
