//! Code generation: a deterministic rendering of a lowered scene as target
//! source text. The output is a pure function of the tree: one construction
//! statement per node in pre-order, one property assignment per typed
//! property in stored order, and one attachment call per parent-child edge
//! in declaration order, each emitted after the child's own subtree.

use vstd::prelude::*;

use crate::ir::scene_wf;
use crate::ir::node_links_ok;
use crate::ir::NodeId;
use crate::ir::NodeView;
use crate::ir::SceneIR;
use crate::ir::SceneView;
use crate::ir::TypedPropView;
use crate::property_type::spec_to_rust_const;
use crate::text::append_str;
use crate::text::chars_to_string;

verus! {

broadcast use vstd::std_specs::vec::group_vec_axioms, vstd::seq::group_seq_axioms;

/// The variable name a node is bound to: its scene name under a prefix.
pub open spec fn spec_node_var(name: Seq<char>) -> Seq<char> {
    "node_"@ + name
}

/// The construction statement for one node.
pub open spec fn spec_construct_line(n: NodeView) -> Seq<char> {
    "let "@ + spec_node_var(n.name) + " = object_new(\""@ + n.class_name + "\");\n"@
}

/// One property assignment statement.
pub open spec fn spec_prop_line(name: Seq<char>, key: Seq<char>, tp: TypedPropView) -> Seq<char> {
    spec_node_var(name) + ".set_property(\""@ + key + "\", "@ + spec_to_rust_const(
        tp.prop_type,
        tp.value,
    ) + ");\n"@
}

/// The property assignments of a node from entry `k` on, in stored order.
pub open spec fn spec_prop_lines(
    name: Seq<char>,
    props: Seq<(Seq<char>, TypedPropView)>,
    k: int,
) -> Seq<char>
    decreases props.len() - k,
{
    if !(0 <= k < props.len()) {
        Seq::empty()
    } else {
        spec_prop_line(name, props[k].0, props[k].1) + spec_prop_lines(name, props, k + 1)
    }
}

/// One structural attachment statement.
pub open spec fn spec_attach_line(parent: Seq<char>, child: Seq<char>) -> Seq<char> {
    "add_child(&"@ + spec_node_var(parent) + ", &"@ + spec_node_var(child) + ");\n"@
}

/// The text for one node: its construction, its properties, then each
/// child's subtree followed by the child's attachment.
pub open spec fn spec_gen_node(s: SceneView, id: int) -> Seq<char>
    decreases s.nodes.len() - id, (if 0 <= id < s.nodes.len() {
        s.nodes[id].children.len() as int
    } else {
        0
    }) + 1,
{
    if !(0 <= id < s.nodes.len()) {
        Seq::empty()
    } else {
        let n = s.nodes[id];
        spec_construct_line(n) + spec_prop_lines(n.name, n.properties, 0) + spec_gen_children(
            s,
            id,
            0,
        )
    }
}

/// The subtrees and attachments of the children of `id` from entry `k` on.
pub open spec fn spec_gen_children(s: SceneView, id: int, k: int) -> Seq<char>
    decreases s.nodes.len() - id, (if 0 <= id < s.nodes.len() {
        s.nodes[id].children.len() as int
    } else {
        0
    }) - k,
{
    if !(0 <= id < s.nodes.len()) {
        Seq::empty()
    } else if !(0 <= k < s.nodes[id].children.len()) {
        Seq::empty()
    } else {
        let c = s.nodes[id].children[k];
        (if id < c < s.nodes.len() {
            spec_gen_node(s, c) + spec_attach_line(s.nodes[id].name, s.nodes[c].name)
        } else {
            Seq::empty()
        }) + spec_gen_children(s, id, k + 1)
    }
}

/// The generated text for a scene: the root's subtree, or nothing for an
/// empty scene.
pub open spec fn spec_generate(s: SceneView) -> Seq<char> {
    match s.root {
        Some(r) => spec_gen_node(s, r),
        None => Seq::empty(),
    }
}

fn gen_node_chars(ir: &SceneIR, id: NodeId, out: &mut Vec<char>)
    requires
        scene_wf(ir@),
        id.0 < ir@.nodes.len(),
    ensures
        final(out)@ == old(out)@ + spec_gen_node(ir@, id.0 as int),
    decreases ir@.nodes.len() - id.0, ir@.nodes[id.0 as int].children.len() + 1,
{
    let ghost base = out@;
    let n = match ir.get_node(id) {
        Some(n) => n,
        None => {
            proof {
                assert(false);
            }
            return ;
        },
    };
    // construction
    append_str(out, "let ");
    append_str(out, "node_");
    append_str(out, n.name.as_str());
    append_str(out, " = object_new(\"");
    append_str(out, n.class_name.as_str());
    append_str(out, "\");\n");
    proof {
        assert(out@ =~= base + spec_construct_line(ir@.nodes[id.0 as int]));
    }
    // properties
    let ghost nv = ir@.nodes[id.0 as int];
    let ghost base2 = out@;
    let mut i: usize = 0;
    while i < n.properties.len()
        invariant
            scene_wf(ir@),
            id.0 < ir@.nodes.len(),
            nv == ir@.nodes[id.0 as int],
            n@ == nv,
            i <= n.properties@.len(),
            nv.properties.len() == n.properties@.len(),
            base2 + spec_prop_lines(nv.name, nv.properties, 0) == out@ + spec_prop_lines(
                nv.name,
                nv.properties,
                i as int,
            ),
        decreases n.properties@.len() - i,
    {
        let ghost before = out@;
        let const_text = n.properties[i].1.prop_type.parse_to_rust_const(
            n.properties[i].1.value.as_str(),
        );
        append_str(out, "node_");
        append_str(out, n.name.as_str());
        append_str(out, ".set_property(\"");
        append_str(out, n.properties[i].0.as_str());
        append_str(out, "\", ");
        append_str(out, const_text.as_str());
        append_str(out, ");\n");
        proof {
            assert(nv.properties[i as int] == (n.properties@[i as int].0@, n.properties@[i as int].1@));
            assert(out@ =~= before + spec_prop_line(
                nv.name,
                nv.properties[i as int].0,
                nv.properties[i as int].1,
            ));
            assert(before + (spec_prop_line(nv.name, nv.properties[i as int].0, nv.properties[i as int].1)
                + spec_prop_lines(nv.name, nv.properties, i + 1)) =~= out@ + spec_prop_lines(
                nv.name,
                nv.properties,
                i + 1,
            ));
        }
        i += 1;
    }
    proof {
        assert(out@ + spec_prop_lines(nv.name, nv.properties, nv.properties.len() as int) =~= out@);
        assert(out@ =~= base + spec_construct_line(nv) + spec_prop_lines(nv.name, nv.properties, 0));
    }
    gen_children_chars(ir, id, 0, out);
    proof {
        assert(out@ =~= base + spec_gen_node(ir@, id.0 as int));
    }
}

fn gen_children_chars(ir: &SceneIR, id: NodeId, k0: usize, out: &mut Vec<char>)
    requires
        scene_wf(ir@),
        id.0 < ir@.nodes.len(),
        k0 <= ir@.nodes[id.0 as int].children.len(),
    ensures
        final(out)@ == old(out)@ + spec_gen_children(ir@, id.0 as int, k0 as int),
    decreases ir@.nodes.len() - id.0, ir@.nodes[id.0 as int].children.len() - k0,
{
    let ghost base = out@;
    let n = match ir.get_node(id) {
        Some(n) => n,
        None => {
            proof {
                assert(false);
            }
            return ;
        },
    };
    if k0 >= n.children.len() {
        proof {
            assert(out@ =~= base + spec_gen_children(ir@, id.0 as int, k0 as int));
        }
        return ;
    }
    let cid = n.children[k0];
    proof {
        assert(node_links_ok(ir@, id.0 as int));
        assert(ir@.nodes[id.0 as int].children[k0 as int] == cid.0 as int);
    }
    gen_node_chars(ir, cid, out);
    let n2 = match ir.get_node(id) {
        Some(n2) => n2,
        None => {
            proof {
                assert(false);
            }
            return ;
        },
    };
    let c2 = match ir.get_node(cid) {
        Some(c2) => c2,
        None => {
            proof {
                assert(false);
            }
            return ;
        },
    };
    append_str(out, "add_child(&");
    append_str(out, "node_");
    append_str(out, n2.name.as_str());
    append_str(out, ", &");
    append_str(out, "node_");
    append_str(out, c2.name.as_str());
    append_str(out, ");\n");
    proof {
        assert(out@ =~= base + (spec_gen_node(ir@, cid.0 as int) + spec_attach_line(
            ir@.nodes[id.0 as int].name,
            ir@.nodes[cid.0 as int].name,
        )));
    }
    gen_children_chars(ir, id, k0 + 1, out);
    proof {
        assert(out@ =~= base + spec_gen_children(ir@, id.0 as int, k0 as int));
    }
}

/// The code generator. Generation is deterministic: the output is pinned as
/// a function of the scene alone, so the same scene always yields
/// byte-identical text.
pub struct RustCodegen {}

impl RustCodegen {
    pub fn new() -> RustCodegen {
        RustCodegen {  }
    }

    /// Emit the target source text for a scene.
    pub fn generate(&self, ir: &SceneIR) -> (r: String)
        requires
            scene_wf(ir@),
        ensures
            r@ == spec_generate(ir@),
    {
        match ir.root() {
            Some(root_id) => {
                let mut out: Vec<char> = Vec::new();
                gen_node_chars(ir, root_id, &mut out);
                proof {
                    assert(Seq::<char>::empty() + spec_gen_node(ir@, root_id.0 as int)
                        =~= spec_gen_node(ir@, root_id.0 as int));
                }
                chars_to_string(&out)
            },
            None => String::new(),
        }
    }
}

} // verus!
