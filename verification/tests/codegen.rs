use foxglove::codegen::{camel_case_to_constant_case, descriptor_base_name};

#[test]
fn test_camel_case_to_constant_case() {
    let cases = [
        ("A", "A"),
        ("a", "A"),
        ("Abc", "ABC"),
        ("abc", "ABC"),
        ("ABC", "ABC"),
        ("AbcDef", "ABC_DEF"),
        ("abcDef", "ABC_DEF"),
        ("abcdef", "ABCDEF"),
        ("AbcDEF", "ABC_DEF"),
        ("ABCDef", "ABC_DEF"),
        ("ABCDEF", "ABCDEF"),
    ];
    for (input, output) in cases {
        assert_eq!(camel_case_to_constant_case(input), output);
    }
}

#[test]
fn test_camel_case_empty_and_digits() {
    assert_eq!(camel_case_to_constant_case(""), "");
    assert_eq!(camel_case_to_constant_case("Vector2"), "VECTOR2");
    assert_eq!(camel_case_to_constant_case("Point2Channel"), "POINT2_CHANNEL");
}

#[test]
fn test_descriptor_base_name() {
    assert_eq!(descriptor_base_name("foxglove/Log.proto"), Some("Log".to_string()));
    assert_eq!(
        descriptor_base_name("foxglove/SceneUpdate.proto"),
        Some("SceneUpdate".to_string())
    );
    assert_eq!(descriptor_base_name("foxglove/KeyValuePairPrimitive.proto"), None);
    assert_eq!(descriptor_base_name("google/protobuf/Duration.proto"), None);
    assert_eq!(descriptor_base_name("foxglove/Log.txt"), None);
    assert_eq!(descriptor_base_name("foxglove/"), None);
}

#[test]
fn test_fix_doc_lines() {
    let input = vec![
        "/// Example".to_string(),
        "/// ```".to_string(),
        "///  P = \\[0 b 0\\]".to_string(),
        "/// ```".to_string(),
        "///  outside blocks, lines are left alone \\".to_string(),
    ];
    let fixed = foxglove::codegen::fix_doc_lines(input);
    assert_eq!(
        fixed,
        vec![
            "/// Example".to_string(),
            "/// ```text".to_string(),
            "/// P = [0 b 0]".to_string(),
            "/// ```".to_string(),
            "///  outside blocks, lines are left alone \\".to_string(),
        ]
    );
}

#[test]
fn test_fix_doc_lines_indented_fence() {
    let input = vec![
        "    /// ```".to_string(),
        "    ///  in".to_string(),
        "    /// ```".to_string(),
    ];
    let fixed = foxglove::codegen::fix_doc_lines(input);
    assert_eq!(fixed[0], "    /// ```text");
    assert_eq!(fixed[1], "    /// in");
    assert_eq!(fixed[2], "    /// ```");
}
