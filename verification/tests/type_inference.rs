use gemc::property_type::PropertyType;

#[test]
fn test_type_inference() {
    assert_eq!(PropertyType::infer("\"hello\""), PropertyType::String);
    assert_eq!(PropertyType::infer("42"), PropertyType::Int);
    assert_eq!(PropertyType::infer("3.14"), PropertyType::Float);
    assert_eq!(PropertyType::infer("true"), PropertyType::Bool);
    assert_eq!(PropertyType::infer("(100, 200)"), PropertyType::Vec2);
    assert_eq!(PropertyType::infer("(1, 2, 3)"), PropertyType::Vec3);
    assert_eq!(
        PropertyType::infer("(255, 128, 0, 255)"),
        PropertyType::Color
    );
    assert_eq!(
        PropertyType::infer("#example:scene"),
        PropertyType::SceneRef
    );
}

#[test]
fn infer_trims_whitespace() {
    assert_eq!(PropertyType::infer("  42  "), PropertyType::Int);
    assert_eq!(PropertyType::infer("\t#a:b\n"), PropertyType::SceneRef);
    assert_eq!(PropertyType::infer("  (1, 2)  "), PropertyType::Vec2);
}

#[test]
fn infer_decision_order() {
    // a parenthesized text is classified by arity before quote matching
    assert_eq!(PropertyType::infer("(\"a\", \"b\")"), PropertyType::Vec2);
    // one or five parts fall back to String
    assert_eq!(PropertyType::infer("(1)"), PropertyType::String);
    assert_eq!(PropertyType::infer("(1, 2, 3, 4, 5)"), PropertyType::String);
    // float needs a decimal point: exponent-only numerals are not integers
    assert_eq!(PropertyType::infer("1e5"), PropertyType::String);
    assert_eq!(PropertyType::infer("-3.5"), PropertyType::Float);
    assert_eq!(PropertyType::infer("+42"), PropertyType::Int);
    assert_eq!(PropertyType::infer("false"), PropertyType::Bool);
    // out-of-range integers are not Int
    assert_eq!(
        PropertyType::infer("99999999999999999999"),
        PropertyType::String
    );
    assert_eq!(
        PropertyType::infer("-9223372036854775808"),
        PropertyType::Int
    );
    // arbitrary identifiers fall back to String
    assert_eq!(PropertyType::infer("something"), PropertyType::String);
    assert_eq!(PropertyType::infer(""), PropertyType::String);
}

#[test]
fn rust_type_names() {
    assert_eq!(PropertyType::Int.to_rust_type(), "i32");
    assert_eq!(PropertyType::Float.to_rust_type(), "f32");
    assert_eq!(PropertyType::Bool.to_rust_type(), "bool");
    assert_eq!(PropertyType::String.to_rust_type(), "&'static str");
    assert_eq!(PropertyType::Vec2.to_rust_type(), "(i32, i32)");
    assert_eq!(PropertyType::Vec3.to_rust_type(), "(i32, i32, i32)");
    assert_eq!(PropertyType::Color.to_rust_type(), "(u8, u8, u8, u8)");
    assert_eq!(PropertyType::SceneRef.to_rust_type(), "&'static str");
    assert_eq!(PropertyType::String.to_rust_type_mut(), "String");
    assert_eq!(PropertyType::SceneRef.to_rust_type_mut(), "String");
    assert_eq!(PropertyType::Int.to_rust_type_mut(), "i32");
}

#[test]
fn rust_const_rendering() {
    assert_eq!(
        PropertyType::String.parse_to_rust_const("\"hi\""),
        "\"hi\""
    );
    assert_eq!(PropertyType::String.parse_to_rust_const("hi"), "\"hi\"");
    assert_eq!(
        PropertyType::SceneRef.parse_to_rust_const("#a:b"),
        "\"#a:b\""
    );
    assert_eq!(
        PropertyType::Vec2.parse_to_rust_const(" (1, 2) "),
        "(1, 2)"
    );
    assert_eq!(PropertyType::Int.parse_to_rust_const(" 7 "), "7");
    assert_eq!(PropertyType::Bool.parse_to_rust_const("true"), "true");
}
