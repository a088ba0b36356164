use mips_language_server::document::Document;
use mips_language_server::hover::{NodeKind, classify_node_kind, hover, hover_content};
use mips_language_server::language_definitions::{
    Directive, Instruction, LanguageDefinitions, Registers,
};
use mips_language_server::lang::Dialect;
use mips_language_server::tree::Position;

fn defs() -> LanguageDefinitions {
    LanguageDefinitions {
        instructions: vec![(
            "add".to_string(),
            Instruction { variants: vec![], description: "add instruction docs".to_string() },
        )],
        directives: vec![(
            "data".to_string(),
            Directive { description: "data section".to_string(), dialects: vec![Dialect::GAS] },
        )],
        registers: Registers {
            numeric: vec![("$2".to_string(), "numeric two".to_string())],
            common: vec![("$v0".to_string(), "return value 0".to_string())],
            float: vec![("$f2".to_string(), "float two".to_string())],
        },
    }
}

#[test]
fn classify_collapses_directive_family() {
    assert_eq!(classify_node_kind("opcode"), NodeKind::Opcode);
    assert_eq!(classify_node_kind("instruction_mnemonic"), NodeKind::Opcode);
    assert_eq!(classify_node_kind("macro_mnemonic"), NodeKind::Directive);
    assert_eq!(classify_node_kind("numeric_mnemonic"), NodeKind::Directive);
    assert_eq!(classify_node_kind("integer_mnemonic"), NodeKind::Directive);
    assert_eq!(classify_node_kind("float_mnemonic"), NodeKind::Directive);
    assert_eq!(classify_node_kind("string_mnemonic"), NodeKind::Directive);
    assert_eq!(classify_node_kind("control_mnemonic"), NodeKind::Directive);
    assert_eq!(classify_node_kind("register"), NodeKind::Register);
    assert_eq!(classify_node_kind("comment"), NodeKind::Other);
}

#[test]
fn opcode_lookup_uses_exact_mnemonic() {
    let d = defs();
    assert_eq!(hover_content(&d, NodeKind::Opcode, "add").unwrap(), "add instruction docs");
    assert!(hover_content(&d, NodeKind::Opcode, "addx").is_none());
    assert!(hover_content(&d, NodeKind::Opcode, "ad").is_none());
}

#[test]
fn directive_lookup_strips_marker() {
    let d = defs();
    assert_eq!(hover_content(&d, NodeKind::Directive, ".data").unwrap(), "data section");
    assert!(hover_content(&d, NodeKind::Directive, ".word").is_none());
    assert!(hover_content(&d, NodeKind::Directive, "").is_none());
}

/// Scenario: hover over a register-classified node whose text is `$f2`
/// returns the float table's description, never the numeric or common one.
#[test]
fn register_lookup_respects_disjoint_tables() {
    let d = defs();
    assert_eq!(hover_content(&d, NodeKind::Register, "$f2").unwrap(), "float two");
    assert_eq!(hover_content(&d, NodeKind::Register, "$2").unwrap(), "numeric two");
    assert_eq!(hover_content(&d, NodeKind::Register, "$v0").unwrap(), "return value 0");
    assert!(hover_content(&d, NodeKind::Register, "$nope").is_none());
}

#[test]
fn unrecognized_kind_yields_nothing() {
    let d = defs();
    assert!(hover_content(&d, NodeKind::Other, "add").is_none());
}

#[test]
fn hover_resolves_opcode_through_the_tree() {
    let d = defs();
    let doc = Document::open(b"add $t0, $t1, $t2\n".to_vec(), 1);
    let content = hover(&d, &doc, Position { line: 0, character: 1 });
    assert_eq!(content.unwrap(), "add instruction docs");
}

#[test]
fn hover_resolves_register_through_the_tree() {
    let d = defs();
    let doc = Document::open(b"add $f2, $t1, $t2\n".to_vec(), 1);
    let content = hover(&d, &doc, Position { line: 0, character: 5 });
    assert_eq!(content.unwrap(), "float two");
}

#[test]
fn hover_resolves_directive_through_the_tree() {
    let d = defs();
    let doc = Document::open(b".data\nx: .word 1\n".to_vec(), 1);
    let content = hover(&d, &doc, Position { line: 0, character: 2 });
    assert_eq!(content.unwrap(), "data section");
}

#[test]
fn hover_without_match_yields_nothing() {
    let d = defs();
    let doc = Document::open(b"nop\n".to_vec(), 1);
    assert!(hover(&d, &doc, Position { line: 0, character: 0 }).is_none());
}
