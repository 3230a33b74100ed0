//! Lowering of a parsed scene file into the intermediate representation:
//! one pre-order traversal that allocates ids, renders property values to
//! canonical literal text, classifies them, and links children to parents.

use vstd::prelude::*;

use crate::ast::lemma_decls_view_index;
use crate::ast::lemma_properties_view_index;
use crate::ast::lemma_values_view_index;
use crate::ast::values_view;
use crate::ast::GemDecl;
use crate::ast::GemDeclView;
use crate::ast::GemFile;
use crate::ast::GemFileView;
use crate::ast::PropertyView;
use crate::ast::Value;
use crate::ast::ValueView;
use crate::ir::node_with_child;
use crate::ir::node_with_parent;
use crate::ir::node_with_props;
use crate::ir::parents_linked;
use crate::ir::scene_wf;
use crate::ir::spec_set_prop;
use crate::ir::NodeId;
use crate::ir::NodeView;
use crate::ir::SceneIR;
use crate::ir::SceneView;
use crate::ir::TypedPropView;
use crate::property_type::spec_infer;
use crate::property_type::PropertyType;
use crate::text::append_chars;
use crate::text::chars_to_string;
use crate::text::i64_to_dec_chars;
use crate::text::spec_int_str;
use crate::text::str_to_chars;

verus! {

broadcast use vstd::std_specs::vec::group_vec_axioms, vstd::seq::group_seq_axioms;

// ---------------------------------------------------------------------------
// Canonical literal text
// ---------------------------------------------------------------------------

/// A string with every double quote preceded by a backslash.
pub open spec fn escape_quotes(s: Seq<char>) -> Seq<char>
    decreases s.len(),
{
    if s.len() == 0 {
        Seq::empty()
    } else {
        (if s[0] == '"' {
            seq!['\\', '"']
        } else {
            seq![s[0]]
        }) + escape_quotes(s.drop_first())
    }
}

/// The canonical literal text of a value: numbers keep their textual form,
/// strings are requoted with embedded quotes escaped, tuples and directives
/// render recursively.
pub open spec fn spec_value_text(v: ValueView) -> Seq<char>
    decreases v, 0int, 1int,
{
    match v {
        ValueView::Number(s) => s,
        ValueView::Integer(i) => spec_int_str(i as int),
        ValueView::String(s) => seq!['"'] + escape_quotes(s) + seq!['"'],
        ValueView::Bool(b) => if b {
            "true"@
        } else {
            "false"@
        },
        ValueView::Tuple(vs) => seq!['('] + spec_values_join(vs, 0) + seq![')'],
        ValueView::Directive(segs) => seq!['#'] + spec_segs_join(segs, 0),
        ValueView::Ident(s) => s,
    }
}

/// Tuple elements from `k` on, joined by a comma and a space.
pub open spec fn spec_values_join(vs: Seq<ValueView>, k: int) -> Seq<char>
    decreases vs, vs.len() - k, 2int,
{
    if !(0 <= k < vs.len()) {
        Seq::empty()
    } else if k == vs.len() - 1 {
        spec_value_text(vs[k])
    } else {
        spec_value_text(vs[k]) + ", "@ + spec_values_join(vs, k + 1)
    }
}

/// Directive segments from `k` on, joined by colons.
pub open spec fn spec_segs_join(segs: Seq<Seq<char>>, k: int) -> Seq<char>
    decreases segs.len() - k,
{
    if !(0 <= k < segs.len()) {
        Seq::empty()
    } else if k == segs.len() - 1 {
        segs[k]
    } else {
        segs[k] + seq![':'] + spec_segs_join(segs, k + 1)
    }
}

// ---------------------------------------------------------------------------
// Counting declarations
// ---------------------------------------------------------------------------

/// The number of declarations in a subtree: itself and all descendants.
pub open spec fn decl_count(d: GemDeclView) -> nat
    decreases d, 0int, 0int,
{
    1 + decls_count(d.children, 0)
}

/// The number of declarations in `ds[i..]`, descendants included.
pub open spec fn decls_count(ds: Seq<GemDeclView>, i: int) -> nat
    decreases ds, ds.len() - i, 1int,
{
    if !(0 <= i < ds.len()) {
        0
    } else {
        decl_count(ds[i]) + decls_count(ds, i + 1)
    }
}

// ---------------------------------------------------------------------------
// The lowering model
// ---------------------------------------------------------------------------

/// A scene with one fresh node appended; the first node becomes the root.
pub open spec fn spec_add_node(s: SceneView, name: Seq<char>, class: Seq<char>) -> SceneView {
    SceneView {
        nodes: s.nodes.push(
            NodeView {
                id: s.nodes.len() as int,
                name,
                class_name: class,
                properties: Seq::empty(),
                parent: None,
                children: Seq::empty(),
            },
        ),
        root: if s.nodes.len() == 0 {
            Some(0int)
        } else {
            s.root
        },
        next: s.next + 1,
    }
}

/// A scene with one property set on a node, as `set_typed_property` does.
pub open spec fn scene_set_prop(s: SceneView, id: int, key: Seq<char>, tp: TypedPropView)
    -> SceneView {
    if 0 <= id < s.nodes.len() {
        SceneView {
            nodes: s.nodes.update(
                id,
                node_with_props(s.nodes[id], spec_set_prop(s.nodes[id].properties, key, tp)),
            ),
            ..s
        }
    } else {
        s
    }
}

/// A scene with a child linked under a parent, as `add_child` does.
pub open spec fn spec_link(s: SceneView, parent: int, child: int) -> SceneView {
    let linkable = 0 <= parent < s.nodes.len() && 0 <= child < s.nodes.len() && parent < child
        && s.nodes[child].parent is None;
    if linkable {
        SceneView {
            nodes: s.nodes.update(parent, node_with_child(s.nodes[parent], child)).update(
                child,
                node_with_parent(s.nodes[child], parent),
            ),
            ..s
        }
    } else {
        s
    }
}

/// Set each property of a declaration on node `id`, in declaration order:
/// the value is rendered to canonical text and classified by that text.
pub open spec fn spec_lower_props(
    s: SceneView,
    id: int,
    props: Seq<PropertyView>,
    i: int,
) -> SceneView
    decreases props.len() - i,
{
    if !(0 <= i < props.len()) {
        s
    } else {
        let text = spec_value_text(props[i].value);
        let tp = TypedPropView { value: text, prop_type: spec_infer(text) };
        spec_lower_props(scene_set_prop(s, id, props[i].key, tp), id, props, i + 1)
    }
}

/// Lower one declaration: allocate its node, set its properties, link it to
/// its parent, then lower its children in order.
pub open spec fn spec_lower_decl(s: SceneView, d: GemDeclView, parent: Option<int>) -> SceneView
    decreases d, 0int, 0int,
{
    let id = s.nodes.len() as int;
    let s1 = spec_add_node(s, d.name, d.gem_type);
    let s2 = spec_lower_props(s1, id, d.properties, 0);
    let s3 = match parent {
        Some(p) => spec_link(s2, p, id),
        None => s2,
    };
    spec_lower_children(s3, d.children, id, 0)
}

/// Lower the declarations `ds[i..]` as children of `parent`, in order.
pub open spec fn spec_lower_children(
    s: SceneView,
    ds: Seq<GemDeclView>,
    parent: int,
    i: int,
) -> SceneView
    decreases ds, ds.len() - i, 1int,
{
    if !(0 <= i < ds.len()) {
        s
    } else {
        spec_lower_children(spec_lower_decl(s, ds[i], Some(parent)), ds, parent, i + 1)
    }
}

/// The lowering of a whole scene file, starting from an empty scene.
pub open spec fn spec_transform(f: GemFileView) -> SceneView {
    spec_lower_decl(SceneView { nodes: Seq::empty(), root: None, next: 0 }, f.root, None)
}

// ---------------------------------------------------------------------------
// Facts about the lowering
// ---------------------------------------------------------------------------

/// Backlinks survive any step that leaves every node's parent and children
/// untouched.
proof fn lemma_parents_linked_same_links(s: SceneView, r: SceneView)
    requires
        r.nodes.len() == s.nodes.len(),
        forall|j: int|
            0 <= j < s.nodes.len() ==> (#[trigger] r.nodes[j]).parent == s.nodes[j].parent
                && r.nodes[j].children == s.nodes[j].children,
        parents_linked(s),
    ensures
        parents_linked(r),
{
    assert forall|j: int| 0 <= j < r.nodes.len() implies match (#[trigger] r.nodes[j]).parent {
        Some(p) => 0 <= p < r.nodes.len() && r.nodes[p].children.contains(j),
        None => true,
    } by {
        match s.nodes[j].parent {
            Some(p) => {
                assert(s.nodes[p].children.contains(j));
                assert(r.nodes[p].children == s.nodes[p].children);
            },
            None => (),
        }
    }
}

proof fn lemma_lower_props_facts(s: SceneView, id: int, props: Seq<PropertyView>, i: int)
    ensures
        ({
            let r = spec_lower_props(s, id, props, i);
            &&& r.nodes.len() == s.nodes.len()
            &&& r.root == s.root
            &&& r.next == s.next
            &&& forall|j: int|
                0 <= j < s.nodes.len() ==> (#[trigger] r.nodes[j]).parent == s.nodes[j].parent
                    && r.nodes[j].children == s.nodes[j].children
        }),
    decreases props.len() - i,
{
    if 0 <= i < props.len() {
        let text = spec_value_text(props[i].value);
        let tp = TypedPropView { value: text, prop_type: spec_infer(text) };
        lemma_lower_props_facts(scene_set_prop(s, id, props[i].key, tp), id, props, i + 1);
    }
}

/// Lowering a declaration adds exactly its subtree's node count, keeps the
/// root (setting it when the scene was empty), leaves existing nodes'
/// parents alone, and parents every new node except, when no parent is
/// given, the subtree's own root.
proof fn lemma_lower_decl_facts(s: SceneView, d: GemDeclView, parent: Option<int>)
    requires
        parent matches Some(p) ==> 0 <= p < s.nodes.len(),
    ensures
        ({
            let r = spec_lower_decl(s, d, parent);
            &&& r.nodes.len() == s.nodes.len() + decl_count(d)
            &&& (s.next == s.nodes.len() ==> r.next == r.nodes.len())
            &&& (parents_linked(s) ==> parents_linked(r))
            &&& r.root == (if s.nodes.len() == 0 {
                Some(0int)
            } else {
                s.root
            })
            &&& forall|j: int|
                0 <= j < s.nodes.len() ==> (#[trigger] r.nodes[j]).parent == s.nodes[j].parent
            &&& (match parent {
                Some(_) => forall|j: int|
                    s.nodes.len() <= j < r.nodes.len() ==> (#[trigger] r.nodes[j]).parent is Some,
                None => r.nodes[s.nodes.len() as int].parent is None && forall|j: int|
                    s.nodes.len() < j < r.nodes.len() ==> (#[trigger] r.nodes[j]).parent is Some,
            })
        }),
    decreases d, 0int, 0int,
{
    let id = s.nodes.len() as int;
    let s1 = spec_add_node(s, d.name, d.gem_type);
    lemma_lower_props_facts(s1, id, d.properties, 0);
    let s2 = spec_lower_props(s1, id, d.properties, 0);
    let s3 = match parent {
        Some(p) => spec_link(s2, p, id),
        None => s2,
    };
    if parents_linked(s) {
        // the fresh node is parentless, so backlinks carry into s1
        assert forall|j: int| 0 <= j < s1.nodes.len() implies match (
        #[trigger] s1.nodes[j]).parent {
            Some(p) => 0 <= p < s1.nodes.len() && s1.nodes[p].children.contains(j),
            None => true,
        } by {
            if j < s.nodes.len() {
                match s.nodes[j].parent {
                    Some(p) => {
                        assert(s.nodes[p].children.contains(j));
                        assert(s1.nodes[p].children == s.nodes[p].children);
                    },
                    None => (),
                }
            }
        }
        lemma_parents_linked_same_links(s1, s2);
        // the link, when taken, records the new node under its parent
        assert forall|j: int| 0 <= j < s3.nodes.len() implies match (
        #[trigger] s3.nodes[j]).parent {
            Some(p) => 0 <= p < s3.nodes.len() && s3.nodes[p].children.contains(j),
            None => true,
        } by {
            match parent {
                Some(pp) => {
                    let linkable = 0 <= pp < s2.nodes.len() && 0 <= id < s2.nodes.len() && pp
                        < id && s2.nodes[id].parent is None;
                    if linkable {
                        if j == id {
                            assert(s3.nodes[pp].children == s2.nodes[pp].children.push(id));
                            assert(s3.nodes[pp].children.last() == id);
                            assert(s3.nodes[pp].children.contains(id));
                        } else {
                            match s2.nodes[j].parent {
                                Some(p) => {
                                    assert(s2.nodes[p].children.contains(j));
                                    let k = choose|k: int|
                                        0 <= k < s2.nodes[p].children.len()
                                            && s2.nodes[p].children[k] == j;
                                    if p == pp {
                                        assert(s3.nodes[pp].children[k] == j);
                                        assert(s3.nodes[pp].children.contains(j));
                                    } else {
                                        assert(s3.nodes[p].children == s2.nodes[p].children);
                                    }
                                },
                                None => (),
                            }
                        }
                    } else {
                        match s2.nodes[j].parent {
                            Some(p) => {
                                assert(s2.nodes[p].children.contains(j));
                            },
                            None => (),
                        }
                    }
                },
                None => {
                    match s2.nodes[j].parent {
                        Some(p) => {
                            assert(s2.nodes[p].children.contains(j));
                        },
                        None => (),
                    }
                },
            }
        }
    }
    lemma_lower_children_facts(s3, d.children, id, 0);
}

proof fn lemma_lower_children_facts(s: SceneView, ds: Seq<GemDeclView>, parent: int, i: int)
    requires
        0 <= parent < s.nodes.len(),
    ensures
        ({
            let r = spec_lower_children(s, ds, parent, i);
            &&& r.nodes.len() == s.nodes.len() + decls_count(ds, i)
            &&& (s.next == s.nodes.len() ==> r.next == r.nodes.len())
            &&& (parents_linked(s) ==> parents_linked(r))
            &&& r.root == s.root
            &&& forall|j: int|
                0 <= j < s.nodes.len() ==> (#[trigger] r.nodes[j]).parent == s.nodes[j].parent
            &&& forall|j: int|
                s.nodes.len() <= j < r.nodes.len() ==> (#[trigger] r.nodes[j]).parent is Some
        }),
    decreases ds, ds.len() - i, 1int,
{
    if 0 <= i < ds.len() {
        lemma_lower_decl_facts(s, ds[i], Some(parent));
        lemma_lower_children_facts(spec_lower_decl(s, ds[i], Some(parent)), ds, parent, i + 1);
    }
}

proof fn lemma_escape_push(s: Seq<char>, c: char)
    ensures
        escape_quotes(s.push(c)) == escape_quotes(s) + (if c == '"' {
            seq!['\\', '"']
        } else {
            seq![c]
        }),
    decreases s.len(),
{
    let piece: Seq<char> = if c == '"' {
        seq!['\\', '"']
    } else {
        seq![c]
    };
    reveal_with_fuel(escape_quotes, 3);
    if s.len() == 0 {
        assert(s.push(c)[0] == c);
        assert(s.push(c).drop_first() =~= Seq::<char>::empty());
        assert(escape_quotes(s.push(c)) =~= escape_quotes(s) + piece);
    } else {
        assert(s.push(c)[0] == s[0]);
        assert(s.push(c).drop_first() =~= s.drop_first().push(c));
        lemma_escape_push(s.drop_first(), c);
        let head: Seq<char> = if s[0] == '"' {
            seq!['\\', '"']
        } else {
            seq![s[0]]
        };
        assert(escape_quotes(s.push(c)) == head + (escape_quotes(s.drop_first()) + piece));
        assert(head + (escape_quotes(s.drop_first()) + piece) =~= (head + escape_quotes(
            s.drop_first(),
        )) + piece);
    }
}

// ---------------------------------------------------------------------------
// Rendering values to canonical text
// ---------------------------------------------------------------------------

/// Render one value to its canonical literal text, as characters.
fn value_chars(v: &Value) -> (r: Vec<char>)
    ensures
        r@ == spec_value_text(v@),
    decreases *v, 0int, 0int,
{
    match v {
        Value::Number(s) => str_to_chars(s.as_str()),
        Value::Integer(i) => i64_to_dec_chars(*i),
        Value::String(s) => {
            let mut out: Vec<char> = Vec::new();
            out.push('"');
            let cs = str_to_chars(s.as_str());
            let mut k: usize = 0;
            proof {
                assert(s@.subrange(0, 0) =~= Seq::<char>::empty());
            }
            while k < cs.len()
                invariant
                    k <= cs@.len(),
                    cs@ == s@,
                    out@ == seq!['"'] + escape_quotes(s@.subrange(0, k as int)),
                decreases cs@.len() - k,
            {
                proof {
                    lemma_escape_push(s@.subrange(0, k as int), s@[k as int]);
                    assert(s@.subrange(0, k as int).push(s@[k as int]) =~= s@.subrange(
                        0,
                        k + 1 as int,
                    ));
                }
                if cs[k] == '"' {
                    out.push('\\');
                    out.push('"');
                    proof {
                        assert(out@ =~= seq!['"'] + escape_quotes(s@.subrange(0, k + 1 as int)));
                    }
                } else {
                    out.push(cs[k]);
                    proof {
                        assert(out@ =~= seq!['"'] + escape_quotes(s@.subrange(0, k + 1 as int)));
                    }
                }
                k += 1;
            }
            out.push('"');
            proof {
                assert(s@.subrange(0, s@.len() as int) =~= s@);
                assert(out@ =~= seq!['"'] + escape_quotes(s@) + seq!['"']);
            }
            out
        },
        Value::Bool(b) => {
            if *b {
                str_to_chars("true")
            } else {
                str_to_chars("false")
            }
        },
        Value::Tuple(vs) => {
            let mut out: Vec<char> = Vec::new();
            out.push('(');
            let joined = values_join_chars(vs, 0);
            append_chars(&mut out, &joined);
            out.push(')');
            proof {
                assert(out@ =~= seq!['('] + spec_values_join(values_view(vs@), 0) + seq![')']);
            }
            out
        },
        Value::Directive(segs) => {
            let mut out: Vec<char> = Vec::new();
            out.push('#');
            let joined = segs_join_chars(segs, 0);
            append_chars(&mut out, &joined);
            proof {
                assert(out@ =~= seq!['#'] + spec_segs_join(crate::ast::strings_view(segs@), 0));
            }
            out
        },
        Value::Ident(s) => str_to_chars(s.as_str()),
    }
}

/// Render the tuple elements `vs[k..]` joined by a comma and a space.
fn values_join_chars(vs: &Vec<Value>, k: usize) -> (r: Vec<char>)
    requires
        k <= vs@.len(),
    ensures
        r@ == spec_values_join(values_view(vs@), k as int),
    decreases *vs, vs@.len() - k, 1int,
{
    proof {
        crate::ast::lemma_values_view_len(vs@);
    }
    if k >= vs.len() {
        let r: Vec<char> = Vec::new();
        proof {
            assert(r@ =~= spec_values_join(values_view(vs@), k as int));
        }
        return r;
    }
    let mut out = value_chars(&vs[k]);
    proof {
        lemma_values_view_index(vs@, k as int);
    }
    if k + 1 < vs.len() {
        out.push(',');
        out.push(' ');
        let rest = values_join_chars(vs, k + 1);
        append_chars(&mut out, &rest);
        proof {
            reveal_strlit(", ");
            assert(", "@ =~= seq![',', ' ']);
            assert(out@ =~= spec_values_join(values_view(vs@), k as int));
        }
    } else {
        proof {
            assert(out@ =~= spec_values_join(values_view(vs@), k as int));
        }
    }
    out
}

/// Render the directive segments `segs[k..]` joined by colons.
fn segs_join_chars(segs: &Vec<String>, k: usize) -> (r: Vec<char>)
    requires
        k <= segs@.len(),
    ensures
        r@ == spec_segs_join(crate::ast::strings_view(segs@), k as int),
    decreases segs@.len() - k,
{
    if k >= segs.len() {
        let r: Vec<char> = Vec::new();
        proof {
            assert(r@ =~= spec_segs_join(crate::ast::strings_view(segs@), k as int));
        }
        return r;
    }
    let mut out = str_to_chars(segs[k].as_str());
    if k + 1 < segs.len() {
        out.push(':');
        let rest = segs_join_chars(segs, k + 1);
        append_chars(&mut out, &rest);
        proof {
            assert(out@ =~= spec_segs_join(crate::ast::strings_view(segs@), k as int));
        }
    } else {
        proof {
            assert(out@ =~= spec_segs_join(crate::ast::strings_view(segs@), k as int));
        }
    }
    out
}

/// Lowering any scene file yields as many nodes as the file has
/// declarations, rooted at the outermost declaration's id, with that root
/// the only node without a parent.
pub proof fn lemma_transform_round_trip(f: GemFileView)
    ensures
        spec_transform(f).nodes.len() == decl_count(f.root),
        spec_transform(f).root == Some(0int),
        spec_transform(f).nodes[0].parent is None,
        parents_linked(spec_transform(f)),
        forall|j: int|
            1 <= j < spec_transform(f).nodes.len() ==> (#[trigger] spec_transform(
                f,
            ).nodes[j]).parent is Some,
{
    let s0 = SceneView { nodes: Seq::empty(), root: None, next: 0 };
    lemma_lower_decl_facts(s0, f.root, None);
}

// ---------------------------------------------------------------------------
// The transformer
// ---------------------------------------------------------------------------

/// Lower one declaration into the scene, as the lowering model prescribes.
#[verifier::rlimit(60)]
fn transform_gem_decl(scene: &mut SceneIR, decl: &GemDecl, parent: Option<NodeId>) -> (r: Result<
    NodeId,
    String,
>)
    requires
        scene_wf(old(scene)@),
        old(scene)@.next == old(scene)@.nodes.len(),
        old(scene)@.nodes.len() + decl_count(decl@) < 0xffff_ffff,
        parent matches Some(p) ==> p.0 < old(scene)@.nodes.len(),
    ensures
        scene_wf(final(scene)@),
        final(scene)@.next == final(scene)@.nodes.len(),
        final(scene)@ == spec_lower_decl(
            old(scene)@,
            decl@,
            match parent {
                Some(p) => Some(p.0 as int),
                None => None,
            },
        ),
        r matches Ok(id) && id.0 as int == old(scene)@.nodes.len(),
    decreases *decl, 0int, 0int,
{
    let ghost s0 = old(scene)@;
    let ghost pv = decl@.properties;
    let ghost cv = decl@.children;
    let node_id = scene.add_node(decl.name.clone(), decl.gem_type.clone());
    let ghost s1 = scene@;
    proof {
        assert(s1 =~= spec_add_node(s0, decl@.name, decl@.gem_type));
        crate::ast::lemma_properties_view_len(decl.properties@);
        crate::ast::lemma_decls_view_len(decl.children@);
    }
    // properties, with inferred types, in declaration order
    let mut i: usize = 0;
    while i < decl.properties.len()
        invariant
            scene_wf(scene@),
            i <= decl.properties@.len(),
            pv == decl@.properties,
            pv.len() == decl.properties@.len(),
            node_id.0 as int == s0.nodes.len(),
            scene@.nodes.len() == s1.nodes.len(),
            scene@.next == s1.next,
            s1.nodes.len() == s0.nodes.len() + 1,
            spec_lower_props(s1, node_id.0 as int, pv, 0) == spec_lower_props(
                scene@,
                node_id.0 as int,
                pv,
                i as int,
            ),
        decreases decl.properties@.len() - i,
    {
        let text_chars = value_chars(&decl.properties[i].value);
        let value_str = chars_to_string(&text_chars);
        let prop_type = PropertyType::infer(value_str.as_str());
        let ghost before = scene@;
        proof {
            lemma_properties_view_index(decl.properties@, i as int);
        }
        scene.set_typed_property(
            node_id,
            decl.properties[i].key.as_str(),
            value_str.as_str(),
            prop_type,
        );
        proof {
            let text = spec_value_text(pv[i as int].value);
            let tp = TypedPropView { value: text, prop_type: spec_infer(text) };
            assert(scene@ =~= scene_set_prop(before, node_id.0 as int, pv[i as int].key, tp));
        }
        i += 1;
    }
    proof {
        assert(scene@ == spec_lower_props(s1, node_id.0 as int, pv, 0));
        lemma_lower_props_facts(s1, node_id.0 as int, pv, 0);
    }
    let ghost s2 = scene@;
    // link to the parent, if any
    match parent {
        Some(p) => {
            scene.add_child(p, node_id);
            proof {
                assert(scene@ =~= spec_link(s2, p.0 as int, node_id.0 as int));
            }
        },
        None => (),
    }
    let ghost s3 = scene@;
    // children, in declaration order
    let mut k: usize = 0;
    while k < decl.children.len()
        invariant
            scene_wf(scene@),
            k <= decl.children@.len(),
            cv == decl@.children,
            cv.len() == decl.children@.len(),
            node_id.0 as int == s0.nodes.len(),
            node_id.0 < scene@.nodes.len(),
            scene@.next == scene@.nodes.len(),
            spec_lower_children(s3, cv, node_id.0 as int, 0) == spec_lower_children(
                scene@,
                cv,
                node_id.0 as int,
                k as int,
            ),
            scene@.nodes.len() + decls_count(cv, k as int) == s3.nodes.len() + decls_count(cv, 0),
            s3.nodes.len() + decls_count(cv, 0) < 0xffff_ffff,
        decreases *decl, 0int, decl.children@.len() - k + 1,
    {
        proof {
            lemma_decls_view_index(decl.children@, k as int);
        }
        let ghost before = scene@;
        match transform_gem_decl(scene, &decl.children[k], Some(node_id)) {
            Ok(_) => (),
            Err(e) => {
                proof {
                    assert(false);
                }
                return Err(e);
            },
        }
        proof {
            lemma_lower_decl_facts(before, cv[k as int], Some(node_id.0 as int));
        }
        k += 1;
    }
    proof {
        assert(scene@ == spec_lower_children(s3, cv, node_id.0 as int, 0));
        assert(scene@ == spec_lower_decl(
            s0,
            decl@,
            match parent {
                Some(p) => Some(p.0 as int),
                None => None::<int>,
            },
        ));
    }
    Ok(node_id)
}

/// Lowers a parsed scene file into the identifier-addressed tree.
pub struct Transformer {
    scene: SceneIR,
}

impl View for Transformer {
    type V = SceneView;

    closed spec fn view(&self) -> SceneView {
        self.scene@
    }
}

impl Transformer {
    /// A transformer over a fresh, empty scene.
    pub fn new() -> (r: Transformer)
        ensures
            r@.nodes.len() == 0,
            r@.root is None,
            r@.next == 0,
            scene_wf(r@),
    {
        Transformer { scene: SceneIR::new() }
    }

    /// Lower a scene file: one pre-order traversal that allocates ids,
    /// renders and classifies properties, and links children under their
    /// parents. The result has one node per declaration, is rooted at the
    /// outermost declaration's node, and satisfies the scene invariants,
    /// with the root the only node without a parent.
    pub fn transform(self, ast: &GemFile) -> (r: Result<SceneIR, String>)
        requires
            scene_wf(self@),
            self@.next == self@.nodes.len(),
            self@.nodes.len() + decl_count(ast@.root) < 0xffff_ffff,
        ensures
            r matches Ok(ir) && ir@ == spec_lower_decl(self@, ast@.root, None) && scene_wf(ir@),
            self@.nodes.len() == 0 ==> (r matches Ok(ir) && ir@.nodes.len() == decl_count(
                ast@.root,
            ) && ir@.root == Some(0int) && ir@.nodes[0].parent is None && parents_linked(ir@)
                && forall|j: int|
                1 <= j < ir@.nodes.len() ==> (#[trigger] ir@.nodes[j]).parent is Some),
    {
        let mut t = self;
        proof {
            lemma_lower_decl_facts(t@, ast@.root, None);
        }
        match transform_gem_decl(&mut t.scene, &ast.root, None) {
            Ok(_) => Ok(t.scene),
            Err(e) => Err(e),
        }
    }
}

} // verus!
