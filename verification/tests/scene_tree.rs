use gemc::ast::GemDecl;
use gemc::ast::GemFile;
use gemc::ast::Property;
use gemc::ast::Value;
use gemc::ir::NodeId;
use gemc::ir::NodeIR;
use gemc::ir::SceneIR;
use gemc::pipeline::lex_source;
use gemc::pipeline::parse_scene;
use gemc::property_type::PropertyType;
use gemc::transformer::Transformer;

#[test]
fn transform_simple_scene() {
    let ast = GemFile {
        root: GemDecl {
            name: String::from("Root"),
            gem_type: String::from("Gem"),
            properties: vec![Property {
                key: String::from("position"),
                value: Value::Tuple(vec![Value::Integer(0), Value::Integer(0)]),
            }],
            children: vec![GemDecl {
                name: String::from("Child"),
                gem_type: String::from("Sprite"),
                properties: vec![],
                children: vec![],
            }],
        },
    };

    let transformer = Transformer::new();
    let scene = transformer.transform(&ast).unwrap();

    assert_eq!(scene.len(), 2);
    assert!(scene.root().is_some());

    let root_id = scene.root().unwrap();
    let root = scene.get_node(root_id).unwrap();
    assert_eq!(root.name, "Root");
    assert_eq!(root.class_name, "Gem");
    assert_eq!(root.children.len(), 1);

    let child_id = root.children[0];
    let child = scene.get_node(child_id).unwrap();
    assert_eq!(child.name, "Child");
    assert_eq!(child.class_name, "Sprite");
}

#[test]
fn transform_two_node_scene_from_text() {
    // the documented two-node scenario, checked through the whole front end
    let ast = parse_scene(lex_source("Root : Gem { position: (0, 0) Child : Sprite {} }").unwrap())
        .unwrap();
    let scene = Transformer::new().transform(&ast).unwrap();
    assert_eq!(scene.len(), 2);
    let root_id = scene.root().unwrap();
    assert_eq!(root_id, NodeId(0));
    let root = scene.get_node(root_id).unwrap();
    assert_eq!(root.parent, None);
    assert_eq!(root.children, vec![NodeId(1)]);
    let tp = root.get_property("position").unwrap();
    assert_eq!(tp.value, "(0, 0)");
    assert_eq!(tp.prop_type, PropertyType::Vec2);
    let child = scene.get_node(NodeId(1)).unwrap();
    assert_eq!(child.parent, Some(NodeId(0)));
    assert!(child.children.is_empty());
}

#[test]
fn transform_counts_all_declarations() {
    let ast = parse_scene(
        lex_source("A : Gem { B : Gem { C : Gem {} } D : Gem {} }").unwrap(),
    )
    .unwrap();
    let scene = Transformer::new().transform(&ast).unwrap();
    assert_eq!(scene.len(), 4);
    // every node but the root has a parent
    let mut orphans = 0;
    for i in 0..4u32 {
        if scene.get_node(NodeId(i)).unwrap().parent.is_none() {
            orphans += 1;
        }
    }
    assert_eq!(orphans, 1);
    assert!(scene.get_node(NodeId(0)).unwrap().parent.is_none());
    // pre-order ids: A=0, B=1, C=2, D=3
    assert_eq!(scene.get_node(NodeId(0)).unwrap().children, vec![NodeId(1), NodeId(3)]);
    assert_eq!(scene.get_node(NodeId(1)).unwrap().children, vec![NodeId(2)]);
}

#[test]
fn scene_building_and_paths() {
    let mut scene = SceneIR::new();
    assert_eq!(scene.len(), 0);
    assert!(scene.root().is_none());
    let a = scene.add_node(String::from("Root"), String::from("Gem"));
    let b = scene.add_node(String::from("Child"), String::from("Sprite"));
    assert_eq!(a, NodeId(0));
    assert_eq!(b, NodeId(1));
    scene.add_child(a, b);
    assert_eq!(scene.get_path(a), Some(String::from("/Root")));
    assert_eq!(scene.get_path(b), Some(String::from("/Root/Child")));
    assert_eq!(scene.get_path(NodeId(9)), None);
    assert_eq!(scene.find_by_path("/Root/Child"), Some(b));
    assert_eq!(scene.find_by_path("Root"), Some(a));
    assert_eq!(scene.find_by_path("  /Root  "), Some(a));
    assert_eq!(scene.find_by_path("/Root/Missing"), None);
    assert_eq!(scene.find_by_path("/Other"), None);
    assert_eq!(scene.find_by_path(""), None);
    // paths with no segments resolve to nothing
    assert_eq!(scene.find_by_path("///"), None);
    assert_eq!(scene.find_by_path("   "), None);
    assert_eq!(scene.find_by_path(" / / "), None);
}

#[test]
fn alloc_id_allocates_monotonically() {
    // ids are issued strictly increasing and never reused
    let mut scene = SceneIR::new();
    let a = scene.add_node(String::from("Root"), String::from("Gem"));
    assert_eq!(a, NodeId(0));
    assert_eq!(scene.alloc_id(), NodeId(1));
    assert_eq!(scene.alloc_id(), NodeId(2));
    // a reserved id is burned: no node is stored under it
    assert!(scene.get_node(NodeId(1)).is_none());
    assert_eq!(scene.len(), 1);
}

#[test]
fn set_property_replaces_in_place() {
    let mut scene = SceneIR::new();
    let a = scene.add_node(String::from("Root"), String::from("Gem"));
    scene.set_property(a, "x", "3.14");
    {
        let n = scene.get_node(a).unwrap();
        let tp = n.get_property("x").unwrap();
        assert_eq!(tp.value, "3.14");
        assert_eq!(tp.prop_type, PropertyType::Float);
    }
    scene.set_property(a, "x", "42");
    scene.set_typed_property(a, "y", "7", PropertyType::Int);
    let n = scene.get_node(a).unwrap();
    assert_eq!(n.properties.len(), 2);
    assert_eq!(n.get_property("x").unwrap().value, "42");
    assert_eq!(n.get_property("x").unwrap().prop_type, PropertyType::Int);
    assert_eq!(n.get_property("y").unwrap().value, "7");
    assert!(n.get_property("z").is_none());
}

#[test]
fn find_by_path_matches_first_child() {
    // two siblings share a name: the first in declaration order wins
    let mut scene = SceneIR::new();
    let root = scene.add_node(String::from("Root"), String::from("Gem"));
    let first = scene.add_node(String::from("Twin"), String::from("Gem"));
    let second = scene.add_node(String::from("Twin"), String::from("Gem"));
    scene.add_child(root, first);
    scene.add_child(root, second);
    assert_eq!(scene.find_by_path("/Root/Twin"), Some(first));
}

#[test]
fn each_non_root_node_is_listed_exactly_once() {
    // every non-root node occurs in exactly one children list; the root in
    // none
    let ast = parse_scene(
        lex_source("A : Gem { B : Gem { C : Gem {} } D : Gem {} }").unwrap(),
    )
    .unwrap();
    let scene = Transformer::new().transform(&ast).unwrap();
    for target in 0..4u32 {
        let mut occurrences = 0;
        for i in 0..4u32 {
            let n = scene.get_node(NodeId(i)).unwrap();
            occurrences += n.children.iter().filter(|c| c.0 == target).count();
        }
        assert_eq!(occurrences, if target == 0 { 0 } else { 1 });
    }
}

#[test]
fn node_ir_new_is_empty() {
    let n = NodeIR::new(NodeId(3), String::from("N"), String::from("Gem"));
    assert_eq!(n.id, NodeId(3));
    assert_eq!(n.name, "N");
    assert_eq!(n.class_name, "Gem");
    assert!(n.properties.is_empty());
    assert!(n.parent.is_none());
    assert!(n.children.is_empty());
}

#[test]
fn transform_renders_canonical_text() {
    let ast = parse_scene(
        lex_source(
            "Root : Gem { a: \"x\\\"y\" b: (1, 2.5, ok) c: #p:q }",
        )
        .unwrap(),
    )
    .unwrap();
    let scene = Transformer::new().transform(&ast).unwrap();
    let n = scene.get_node(NodeId(0)).unwrap();
    // strings requote and escape embedded quotes
    assert_eq!(n.get_property("a").unwrap().value, "\"x\\\"y\"");
    // tuples rejoin with a comma and a space, keeping float text
    assert_eq!(n.get_property("b").unwrap().value, "(1, 2.5, ok)");
    assert_eq!(n.get_property("b").unwrap().prop_type, PropertyType::Vec3);
    // directives rejoin with colons
    assert_eq!(n.get_property("c").unwrap().value, "#p:q");
    assert_eq!(n.get_property("c").unwrap().prop_type, PropertyType::SceneRef);
}
