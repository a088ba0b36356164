use mips_language_server::lang::Dialect;
use mips_language_server::language_definitions::{
    Directive, InstructionVariant, LanguageDefinitions, RawDirective, RawInstructionVariant,
    Registers, build_instruction_hover_info, process_directives, process_instructions,
};
use mips_language_server::settings::{Settings, SettingsError};
use mips_language_server::version::{Version, VersionLabel};

fn raw_variant(
    dialects: &[&str],
    introduced: Option<&str>,
    deprecated: Option<&str>,
    pseudo: bool,
) -> RawInstructionVariant {
    RawInstructionVariant {
        description: "does something".to_string(),
        operands: vec!["rd".to_string(), "rs".to_string()],
        dialects: dialects.iter().map(|s| s.to_string()).collect(),
        introduced: introduced.map(|s| s.to_string()),
        deprecated: deprecated.map(|s| s.to_string()),
        mips32: false,
        pseudo,
    }
}

fn empty_registers() -> Registers {
    Registers { numeric: vec![], common: vec![], float: vec![] }
}

fn settings(dialect: Dialect, label: VersionLabel) -> Settings {
    Settings { dialect, version: Version::of(label) }
}

#[test]
fn variant_parse_fills_defaults() {
    let v = InstructionVariant::try_from(raw_variant(&["gas"], None, None, false)).unwrap();
    assert_eq!(v.introduced, VersionLabel::Mips1);
    assert_eq!(v.deprecated, None);
    assert_eq!(v.dialects, vec![Dialect::GAS]);
}

#[test]
fn variant_parse_rejects_bad_fields() {
    match InstructionVariant::try_from(raw_variant(&["nasm"], None, None, false)).unwrap_err() {
        SettingsError::UnknownDialect(s) => assert_eq!(s, "nasm"),
        _ => panic!("wrong error variant"),
    }
    match InstructionVariant::try_from(raw_variant(&[], Some("mips9"), None, false)).unwrap_err() {
        SettingsError::UnknownVersion(s) => assert_eq!(s, "mips9"),
        _ => panic!("wrong error variant"),
    }
}

#[test]
fn variant_version_gating() {
    let v = InstructionVariant::try_from(raw_variant(&[], Some("mips3"), Some("mips32r6"), false))
        .unwrap();
    assert!(!v.is_valid_for(&Version::of(VersionLabel::Mips1)));
    assert!(v.is_valid_for(&Version::of(VersionLabel::Mips3)));
    assert!(v.is_valid_for(&Version::of(VersionLabel::Mips64r5)));
    // Once the deprecation point is an ancestor, the variant is gone.
    assert!(!v.is_valid_for(&Version::of(VersionLabel::Mips32r6)));
}

/// Scenario: with Settings{dialect: GAS, version: mips1}, a variant declaring
/// `introduced: mips3` must be absent from the resulting table.
#[test]
fn knowledge_base_drops_too_new_variant() {
    let raw_instructions = vec![
        ("dmult".to_string(), vec![raw_variant(&["gas"], Some("mips3"), None, false)]),
        ("add".to_string(), vec![raw_variant(&["gas"], Some("mips1"), None, false)]),
    ];
    let s = settings(Dialect::GAS, VersionLabel::Mips1);
    let defs = LanguageDefinitions::new(raw_instructions, vec![], empty_registers(), &s);
    let names: Vec<&str> = defs.instructions.iter().map(|e| e.0.as_str()).collect();
    assert_eq!(names, vec!["add"]);
}

#[test]
fn knowledge_base_drops_deprecated_variant() {
    let raw_instructions = vec![(
        "old_op".to_string(),
        vec![raw_variant(&["gas"], Some("mips1"), Some("mips32r1"), false)],
    )];
    let s = settings(Dialect::GAS, VersionLabel::Mips32r2);
    let defs = LanguageDefinitions::new(raw_instructions, vec![], empty_registers(), &s);
    assert!(defs.instructions.is_empty());
}

#[test]
fn knowledge_base_respects_dialects() {
    let raw_instructions = vec![
        ("mars_only".to_string(), vec![raw_variant(&["mars"], None, None, false)]),
        ("gas_only".to_string(), vec![raw_variant(&["gas"], None, None, false)]),
    ];
    let s = settings(Dialect::GAS, VersionLabel::Mips64r6);
    let defs = LanguageDefinitions::new(raw_instructions, vec![], empty_registers(), &s);
    let names: Vec<&str> = defs.instructions.iter().map(|e| e.0.as_str()).collect();
    assert_eq!(names, vec!["gas_only"]);
}

#[test]
fn permissive_dialect_disables_version_gating() {
    let raw_instructions = vec![(
        "future_op".to_string(),
        vec![raw_variant(&["mars"], Some("mips64r6"), None, false)],
    )];
    let s = settings(Dialect::MARS, VersionLabel::Mips1);
    let defs = LanguageDefinitions::new(raw_instructions, vec![], empty_registers(), &s);
    assert_eq!(defs.instructions.len(), 1);
}

#[test]
fn unparsable_variant_is_dropped_not_the_mnemonic() {
    let raw_instructions = vec![(
        "add".to_string(),
        vec![
            raw_variant(&["nasm"], None, None, false),
            raw_variant(&["gas"], None, None, false),
        ],
    )];
    let s = settings(Dialect::Unspecified, VersionLabel::Mips64r6);
    let defs = LanguageDefinitions::new(raw_instructions, vec![], empty_registers(), &s);
    assert_eq!(defs.instructions.len(), 1);
    assert_eq!(defs.instructions[0].1.variants.len(), 1);
    assert_eq!(defs.instructions[0].1.variants[0].dialects, vec![Dialect::GAS]);
}

#[test]
fn mnemonic_with_no_surviving_variant_is_absent() {
    let raw_instructions = vec![(
        "ghost_op".to_string(),
        vec![raw_variant(&["spim"], None, None, false)],
    )];
    let s = settings(Dialect::GAS, VersionLabel::Mips64r6);
    let r = process_instructions(raw_instructions, &s).unwrap();
    assert!(r.is_empty());
}

#[test]
fn directives_filter_by_dialect_only() {
    let raw_directives = vec![
        (
            "data".to_string(),
            RawDirective { dialects: vec!["gas".to_string()], description: "data section".to_string() },
        ),
        (
            "ktext".to_string(),
            RawDirective { dialects: vec!["mars".to_string()], description: "kernel text".to_string() },
        ),
    ];
    let s = settings(Dialect::GAS, VersionLabel::Mips1);
    let dirs = process_directives(raw_directives, &s).unwrap();
    assert_eq!(dirs.len(), 1);
    assert_eq!(dirs[0].0, "data");
    assert_eq!(dirs[0].1.description, "data section");
}

#[test]
fn unparsable_directive_is_dropped() {
    let raw_directives = vec![(
        "weird".to_string(),
        RawDirective { dialects: vec!["nasm".to_string()], description: "x".to_string() },
    )];
    let s = settings(Dialect::Unspecified, VersionLabel::Mips1);
    let dirs = process_directives(raw_directives, &s).unwrap();
    assert!(dirs.is_empty());
}

#[test]
fn directive_try_from_parses_dialects() {
    let d = Directive::try_from(RawDirective {
        dialects: vec!["gas".to_string(), "mars".to_string()],
        description: "d".to_string(),
    })
    .unwrap();
    assert_eq!(d.dialects, vec![Dialect::GAS, Dialect::MARS]);
}

#[test]
fn hover_info_renders_real_variant() {
    let s = settings(Dialect::Unspecified, VersionLabel::Mips64r6);
    let variants = vec![InstructionVariant {
        description: "Add registers".to_string(),
        operands: vec!["rd".to_string(), "rs".to_string(), "rt".to_string()],
        dialects: vec![Dialect::GAS],
        introduced: VersionLabel::Mips1,
        deprecated: None,
        mips32: false,
        pseudo: false,
    }];
    let info = build_instruction_hover_info("add", &variants, &s);
    assert_eq!(
        info,
        "add\n### Variants:\n```asm\nadd rd, rs, rt\n```\nAdd registers\nIntroduced: Mips1; Assemblers: GAS\n\n"
    );
}

#[test]
fn hover_info_renders_deprecation_and_empty_dialects() {
    let s = settings(Dialect::Unspecified, VersionLabel::Mips64r6);
    let variants = vec![InstructionVariant {
        description: "Old multiply".to_string(),
        operands: vec![],
        dialects: vec![],
        introduced: VersionLabel::Mips1,
        deprecated: Some(VersionLabel::Mips32r6),
        mips32: false,
        pseudo: false,
    }];
    let info = build_instruction_hover_info("mult", &variants, &s);
    assert_eq!(
        info,
        "mult\n### Variants:\n```asm\nmult \n```\nOld multiply\nIntroduced: Mips1; Deprecated: Mips32r6; Assemblers: None\n\n"
    );
}

#[test]
fn hover_info_groups_pseudo_variants_last() {
    let s = settings(Dialect::Unspecified, VersionLabel::Mips64r6);
    let mk = |desc: &str, pseudo: bool| InstructionVariant {
        description: desc.to_string(),
        operands: vec!["rd".to_string()],
        dialects: vec![Dialect::MARS],
        introduced: VersionLabel::Mips1,
        deprecated: None,
        mips32: false,
        pseudo,
    };
    let variants = vec![mk("expanded", true), mk("native", false)];
    let info = build_instruction_hover_info("move", &variants, &s);
    assert_eq!(
        info,
        "move\n### Variants:\n```asm\nmove rd\n```\nnative\nIntroduced: Mips1; Assemblers: MARS\n\n\n### Pseudo Variants:\n```asm\nmove rd\n```\nexpanded\nIntroduced: Mips1; Assemblers: MARS\n\n"
    );
}

#[test]
fn registers_are_loaded_verbatim() {
    let registers = Registers {
        numeric: vec![("$0".to_string(), "zero register".to_string())],
        common: vec![("$zero".to_string(), "zero register".to_string())],
        float: vec![("$f0".to_string(), "float 0".to_string())],
    };
    let s = settings(Dialect::GAS, VersionLabel::Mips1);
    let defs = LanguageDefinitions::new(vec![], vec![], registers, &s);
    assert_eq!(defs.registers.numeric.len(), 1);
    assert_eq!(defs.registers.common[0].0, "$zero");
    assert_eq!(defs.registers.float[0].1, "float 0");
}
