use mips_language_server::completion::{CompletionKind, get_completions};
use mips_language_server::document::Document;
use mips_language_server::language_definitions::{
    Directive, Instruction, LanguageDefinitions, Registers,
};
use mips_language_server::lang::Dialect;
use mips_language_server::tree::Position;

fn defs() -> LanguageDefinitions {
    let instruction = |desc: &str| Instruction { variants: vec![], description: desc.to_string() };
    let directive = |desc: &str| Directive { description: desc.to_string(), dialects: vec![Dialect::GAS] };
    LanguageDefinitions {
        instructions: vec![
            ("add".to_string(), instruction("add docs")),
            ("cmp.eq.s".to_string(), instruction("cmp eq docs")),
            ("cmp.lt.s".to_string(), instruction("cmp lt docs")),
        ],
        directives: vec![
            ("data".to_string(), directive("data section")),
            ("text".to_string(), directive("text section")),
        ],
        registers: Registers {
            numeric: vec![("$0".to_string(), "numeric zero".to_string())],
            common: vec![
                ("$t0".to_string(), "temporary 0".to_string()),
                ("$zero".to_string(), "hard zero".to_string()),
            ],
            float: vec![("$f0".to_string(), "float 0".to_string())],
        },
    }
}

fn doc(text: &str) -> Document {
    Document::open(text.as_bytes().to_vec(), 1)
}

fn pos(line: u32, character: u32) -> Position {
    Position { line, character }
}

/// Scenario: text `add $t0, $t1, $t2`, cursor after `$t` — register mode,
/// lookahead sees `t`, candidates equal the common table only, marked
/// incomplete.
#[test]
fn register_mode_common_table_after_second_letter() {
    let d = doc("add $t0, $t1, $t2\n");
    let list = get_completions(&defs(), &d, pos(0, 6)).unwrap();
    assert!(list.is_incomplete);
    let labels: Vec<&str> = list.items.iter().map(|i| i.label.as_str()).collect();
    assert_eq!(labels, vec!["$t0", "$zero"]);
    assert_eq!(list.items[0].detail, "MIPS register: $t0");
    assert_eq!(list.items[0].completion_type, "register");
    assert_eq!(list.items[0].documentation, "temporary 0");
    assert_eq!(list.items[0].kind, CompletionKind::Value);
    assert_eq!(list.items[0].new_text, "$t0");
    assert_eq!(list.items[0].range.start, pos(0, 4));
    assert_eq!(list.items[0].range.end, pos(0, 6));
}

#[test]
fn register_mode_union_after_lone_prefix() {
    let d = doc("add $\n");
    let list = get_completions(&defs(), &d, pos(0, 5)).unwrap();
    assert!(list.is_incomplete);
    let labels: Vec<&str> = list.items.iter().map(|i| i.label.as_str()).collect();
    // Float aliases not shadowed by the common table, then the common table.
    assert_eq!(labels, vec!["$f0", "$t0", "$zero"]);
}

#[test]
fn register_union_lets_common_shadow_float() {
    let mut d = defs();
    // The same alias in both tables: the union offers it once, from the
    // common table.
    d.registers.float.push(("$zero".to_string(), "shadowed float zero".to_string()));
    let doc = doc("add $\n");
    let list = get_completions(&d, &doc, pos(0, 5)).unwrap();
    let labels: Vec<&str> = list.items.iter().map(|i| i.label.as_str()).collect();
    assert_eq!(labels, vec!["$f0", "$t0", "$zero"]);
    let zero = list.items.iter().find(|i| i.label == "$zero").unwrap();
    assert_eq!(zero.documentation, "hard zero");
}

#[test]
fn register_mode_numeric_after_digit() {
    let d = doc("add $0\n");
    let list = get_completions(&defs(), &d, pos(0, 6)).unwrap();
    assert!(list.is_incomplete);
    let labels: Vec<&str> = list.items.iter().map(|i| i.label.as_str()).collect();
    assert_eq!(labels, vec!["$0"]);
    assert_eq!(list.items[0].documentation, "numeric zero");
}

#[test]
fn register_mode_float_after_marker_letter() {
    let d = doc("add $f2\n");
    let list = get_completions(&defs(), &d, pos(0, 7)).unwrap();
    assert!(list.is_incomplete);
    let labels: Vec<&str> = list.items.iter().map(|i| i.label.as_str()).collect();
    assert_eq!(labels, vec!["$f0"]);
}

#[test]
fn directive_mode_is_always_complete() {
    let d = doc(".dat\n");
    let list = get_completions(&defs(), &d, pos(0, 4)).unwrap();
    assert!(!list.is_incomplete);
    let labels: Vec<&str> = list.items.iter().map(|i| i.label.as_str()).collect();
    assert_eq!(labels, vec![".data", ".text"]);
    assert_eq!(list.items[0].detail, "MIPS directive: .data");
    assert_eq!(list.items[0].completion_type, "directive");
    assert_eq!(list.items[0].documentation, "data section");
    assert_eq!(list.items[0].kind, CompletionKind::Keyword);
    assert_eq!(list.items[0].new_text, ".data");
    assert_eq!(list.items[0].range.start, pos(0, 0));
}

#[test]
fn instruction_mode_offers_all_without_separator() {
    let d = doc("ad\n");
    let list = get_completions(&defs(), &d, pos(0, 2)).unwrap();
    assert!(!list.is_incomplete);
    let labels: Vec<&str> = list.items.iter().map(|i| i.label.as_str()).collect();
    assert_eq!(labels, vec!["add", "cmp.eq.s", "cmp.lt.s"]);
    assert_eq!(list.items[0].detail, "MIPS instruction: add");
    assert_eq!(list.items[0].completion_type, "instruction");
    assert_eq!(list.items[0].documentation, "add docs");
}

#[test]
fn instruction_mode_narrows_after_separator() {
    let d = doc("cmp.e\n");
    let list = get_completions(&defs(), &d, pos(0, 5)).unwrap();
    assert!(!list.is_incomplete);
    let labels: Vec<&str> = list.items.iter().map(|i| i.label.as_str()).collect();
    assert_eq!(labels, vec!["cmp.eq.s", "cmp.lt.s"]);
}

#[test]
fn cursor_beyond_line_yields_empty_complete_result() {
    let d = doc("add\n");
    let list = get_completions(&defs(), &d, pos(0, 99)).unwrap();
    assert!(!list.is_incomplete);
    assert!(list.items.is_empty());
}

#[test]
fn missing_line_yields_no_response() {
    let d = doc("add\n");
    assert!(get_completions(&defs(), &d, pos(7, 0)).is_none());
}
