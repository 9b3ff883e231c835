//! What a unit declares before a position.

use crc::c_declaration_env::{build_c_declaration_environment, DeclarationMoveBlock};
use crc::syntax::{SyntaxNode, SyntaxUnit};

fn node(source: &str, kind: &str, start: usize, text: &str, children: Vec<SyntaxNode>) -> SyntaxNode {
    let end = start + text.len();
    assert_eq!(&source[start..end], text);
    SyntaxNode { kind: kind.to_owned(), text: text.to_owned(), start_byte: start, end_byte: end, children }
}

fn find(source: &str, text: &str) -> usize {
    source.find(text).expect("text occurs")
}

/// A `typedef int Name;` at the given text.
fn alias(source: &str, text: &str, name: &str) -> SyntaxNode {
    let start = find(source, text);
    let at = start + find(text, name);
    node(
        source,
        "type_definition",
        start,
        text,
        vec![
            node(source, "primitive_type", start + 8, "int", vec![]),
            node(source, "type_identifier", at, name, vec![]),
        ],
    )
}

fn async_function(source: &str, text: &str, body: Vec<SyntaxNode>) -> SyntaxNode {
    let start = find(source, text);
    let at = start + find(text, "{");
    node(
        source,
        "function_definition",
        start,
        text,
        vec![node(source, "compound_statement", at, &source[at..start + text.len()], body)],
    )
}

fn words(list: &[&str]) -> Vec<String> {
    list.iter().map(|word| (*word).to_owned()).collect()
}

#[test]
fn classifies_type_and_preprocessor_visibility_barriers() {
    let source = r#"
typedef int EarlyValue;
__async int parent(void) { return 0; }

typedef int LaterValue;
typedef int UnusedValue;
EarlyValue file_value;

__async int typed_child(LaterValue value) { return value; }
__async int early_child(EarlyValue value) { return value + file_value; }

#define CHILD_VALUE int
__async int macro_child(CHILD_VALUE value) { return value; }

__async int local_child(int value) {
    typedef int LocalValue;
    LocalValue held = value;
    __yield held;
    return held;
}
"#;
    let local_text = &source[find(source, "__async int local_child")..source.len() - 1];
    let unit = SyntaxUnit {
        source: source.to_owned(),
        root: SyntaxNode {
            kind: "translation_unit".to_owned(),
            text: source.to_owned(),
            start_byte: 0,
            end_byte: source.len(),
            children: vec![
                alias(source, "typedef int EarlyValue;", "EarlyValue"),
                async_function(source, "__async int parent(void) { return 0; }", vec![]),
                alias(source, "typedef int LaterValue;", "LaterValue"),
                alias(source, "typedef int UnusedValue;", "UnusedValue"),
                node(
                    source,
                    "declaration",
                    find(source, "EarlyValue file_value;"),
                    "EarlyValue file_value;",
                    vec![],
                ),
                async_function(
                    source,
                    "__async int typed_child(LaterValue value) { return value; }",
                    vec![],
                ),
                async_function(
                    source,
                    "__async int early_child(EarlyValue value) { return value + file_value; }",
                    vec![],
                ),
                node(
                    source,
                    "preproc_def",
                    find(source, "#define CHILD_VALUE int\n"),
                    "#define CHILD_VALUE int\n",
                    vec![],
                ),
                async_function(
                    source,
                    "__async int macro_child(CHILD_VALUE value) { return value; }",
                    vec![],
                ),
                async_function(
                    source,
                    local_text,
                    vec![alias(source, "typedef int LocalValue;", "LocalValue")],
                ),
            ],
        },
    };
    let environment = build_c_declaration_environment(&unit);
    let parent = find(source, "__async int parent");
    let typed_child = find(source, "__async int typed_child");
    let macro_child = find(source, "__async int macro_child");
    let early_child = find(source, "__async int early_child");

    assert!(environment.declares("LaterValue"));
    assert_eq!(
        environment.classify_move(&words(&["LaterValue"]), typed_child, parent),
        Some(DeclarationMoveBlock::TypeNotVisible)
    );
    assert_eq!(environment.classify_move(&words(&["int"]), typed_child, parent), None);
    assert_eq!(environment.classify_move(&words(&["EarlyValue"]), early_child, parent), None);
    assert_eq!(
        environment.classify_move(&words(&["CHILD_VALUE"]), macro_child, typed_child),
        Some(DeclarationMoveBlock::PreprocessorBoundary)
    );
    assert_eq!(environment.classify_move(&words(&["LaterValue"]), parent, typed_child), None);
    assert_eq!(
        environment.classify_visibility_at(&words(&["LaterValue"]), parent),
        Some(DeclarationMoveBlock::TypeNotVisible)
    );
    assert_eq!(environment.classify_visibility_at(&words(&["LaterValue"]), typed_child), None);
    let local_start = find(source, "__async int local_child");
    assert!(environment.contains_local_context_type(
        &words(&["LocalValue"]),
        local_start,
        local_start + local_text.len()
    ));
    assert!(!environment.contains_local_context_type(&words(&["LocalValue"]), parent, macro_child));
    assert!(!environment.declares("LocalValue"));
    assert!(!environment.has_packing_barrier());
}

#[test]
fn detects_packing_as_a_layout_barrier() {
    let source = "#pragma pack(push, 1)\ntypedef struct Packed { char value; } Packed;\n#pragma pack(pop)\n";
    let unit = SyntaxUnit {
        source: source.to_owned(),
        root: SyntaxNode {
            kind: "translation_unit".to_owned(),
            text: source.to_owned(),
            start_byte: 0,
            end_byte: source.len(),
            children: vec![],
        },
    };
    let environment = build_c_declaration_environment(&unit);
    assert!(environment.has_packing_barrier());
}

#[test]
fn attributes_and_aligned_declarations_are_layout_barriers() {
    for (source, packed) in [
        ("struct A { char c; } __attribute__((PACKED));", true),
        ("struct A { char c; } __attribute__((unused));", false),
        ("_Pragma(\"pack(1)\")", true),
        ("__declspec(align(8)) int x;", true),
        ("# Pragma  pack(1)", true),
        ("int packed;", false),
        ("", false),
    ] {
        let unit = SyntaxUnit {
            source: source.to_owned(),
            root: SyntaxNode {
                kind: "translation_unit".to_owned(),
                text: source.to_owned(),
                start_byte: 0,
                end_byte: source.len(),
                children: vec![],
            },
        };
        assert_eq!(
            build_c_declaration_environment(&unit).has_packing_barrier(),
            packed,
            "{source}"
        );
    }
}

#[test]
fn tags_are_declared_by_definitions_only() {
    let source = "struct Point { int x; } origin; struct Other *link;";
    let definition = "struct Point { int x; }";
    let unit = SyntaxUnit {
        source: source.to_owned(),
        root: SyntaxNode {
            kind: "translation_unit".to_owned(),
            text: source.to_owned(),
            start_byte: 0,
            end_byte: source.len(),
            children: vec![
                node(
                    source,
                    "declaration",
                    0,
                    "struct Point { int x; } origin;",
                    vec![node(
                        source,
                        "struct_specifier",
                        0,
                        definition,
                        vec![
                            node(source, "type_identifier", 7, "Point", vec![]),
                            node(source, "field_declaration_list", 13, "{ int x; }", vec![]),
                        ],
                    )],
                ),
                node(
                    source,
                    "declaration",
                    32,
                    "struct Other *link;",
                    vec![node(
                        source,
                        "struct_specifier",
                        32,
                        "struct Other",
                        vec![node(source, "type_identifier", 39, "Other", vec![])],
                    )],
                ),
            ],
        },
    };
    let environment = build_c_declaration_environment(&unit);
    assert!(environment.declares("Point"));
    assert!(!environment.declares("Other"));
}

#[test]
fn moves_are_allowed_where_types_stay_visible() {
    let source = "typedef int First;\nint a;\ntypedef int Second;\nint b;\n";
    let unit = SyntaxUnit {
        source: source.to_owned(),
        root: SyntaxNode {
            kind: "translation_unit".to_owned(),
            text: source.to_owned(),
            start_byte: 0,
            end_byte: source.len(),
            children: vec![
                alias(source, "typedef int First;", "First"),
                alias(source, "typedef int Second;", "Second"),
            ],
        },
    };
    let environment = build_c_declaration_environment(&unit);
    let (a, b) = (find(source, "int a;"), find(source, "int b;"));
    let hidden = Some(DeclarationMoveBlock::TypeNotVisible);
    assert_eq!(environment.classify_move(&words(&["First"]), b, a), None);
    assert_eq!(environment.classify_visibility_at(&words(&["First"]), a), None);
    assert_eq!(environment.classify_move(&words(&["Second"]), b, a), hidden);
    assert_eq!(environment.classify_visibility_at(&words(&["Second"]), a), hidden);
    assert_eq!(environment.classify_move(&words(&["Second"]), a, b), None);
    assert_eq!(environment.classify_visibility_at(&words(&["Second"]), b), None);
}
