use gemc::codegen::RustCodegen;
use gemc::pipeline::compile_scene;
use gemc::pipeline::lex_source;
use gemc::pipeline::parse_scene;
use gemc::transformer::Transformer;

#[test]
fn generate_two_node_scene() {
    let ast = parse_scene(lex_source("Root : Gem { position: (0, 0) Child : Sprite {} }").unwrap())
        .unwrap();
    let scene = Transformer::new().transform(&ast).unwrap();
    let text = RustCodegen::new().generate(&scene);
    assert_eq!(
        text,
        "let node_Root = object_new(\"Gem\");\n\
         node_Root.set_property(\"position\", (0, 0));\n\
         let node_Child = object_new(\"Sprite\");\n\
         add_child(&node_Root, &node_Child);\n"
    );
}

#[test]
fn generate_is_deterministic() {
    // the same scene always yields byte-identical text
    let ast = parse_scene(
        lex_source("A : Gem { n: 1 B : Gem { s: \"x\" } C : Gem {} }").unwrap(),
    )
    .unwrap();
    let scene = Transformer::new().transform(&ast).unwrap();
    let gen = RustCodegen::new();
    let once = gen.generate(&scene);
    let twice = gen.generate(&scene);
    assert_eq!(once, twice);
    assert_eq!(once.as_bytes(), twice.as_bytes());
}

#[test]
fn generate_quotes_string_like_properties() {
    let ast = parse_scene(lex_source("Root : Gem { title: \"hi\" link: #a:b }").unwrap()).unwrap();
    let scene = Transformer::new().transform(&ast).unwrap();
    let text = RustCodegen::new().generate(&scene);
    assert_eq!(
        text,
        "let node_Root = object_new(\"Gem\");\n\
         node_Root.set_property(\"title\", \"hi\");\n\
         node_Root.set_property(\"link\", \"#a:b\");\n"
    );
}

#[test]
fn compile_scene_end_to_end() {
    let result = compile_scene("Root : Gem { position: (0, 0) Child : Sprite {} }").unwrap();
    assert_eq!(result.ast.root.name, "Root");
    assert_eq!(result.ir.len(), 2);
    assert_eq!(
        result.generated,
        "let node_Root = object_new(\"Gem\");\n\
         node_Root.set_property(\"position\", (0, 0));\n\
         let node_Child = object_new(\"Sprite\");\n\
         add_child(&node_Root, &node_Child);\n"
    );
}

#[test]
fn compile_scene_surfaces_lex_error() {
    let err = compile_scene("Root : Gem { @ }").unwrap_err();
    assert_eq!(err, "LexError, Unexpected character: '@', Line: 1, Column: 18");
}

#[test]
fn compile_scene_surfaces_parse_error() {
    let err = compile_scene("Root").unwrap_err();
    assert_eq!(err, "Expected Colon, got None");
    let err = compile_scene("root : Gem {}").unwrap_err();
    assert_eq!(err, "Expected Gem name (Uppercase identifier)");
}

#[test]
fn compile_empty_scene_is_an_error() {
    assert_eq!(
        compile_scene("").unwrap_err(),
        "Expected Gem name (Uppercase identifier)"
    );
}
