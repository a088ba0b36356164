use mips_language_server::lang::Dialect;
use mips_language_server::language_definitions::{InstructionVariant, RawInstructionVariant};
use mips_language_server::settings::{RawSettings, Settings, SettingsError};
use mips_language_server::version::{Version, VersionLabel};

fn raw(dialect: Option<&str>, version: Option<&str>) -> RawSettings {
    RawSettings {
        dialect: dialect.map(|s| s.to_string()),
        version: version.map(|s| s.to_string()),
        isa: None,
        revision: None,
    }
}

#[test]
fn settings_default_without_options() {
    let s = Settings::new(None).unwrap();
    assert_eq!(s.dialect, Dialect::Unspecified);
    assert_eq!(s.version.label(), VersionLabel::Mips64r6);
}

#[test]
fn settings_default_with_empty_options() {
    let s = Settings::new(Some(raw(None, None))).unwrap();
    assert_eq!(s.dialect, Dialect::Unspecified);
    assert_eq!(s.version.label(), VersionLabel::Mips64r6);
}

#[test]
fn settings_take_dialect_and_version() {
    let s = Settings::new(Some(raw(Some("gas"), Some("mips1")))).unwrap();
    assert_eq!(s.dialect, Dialect::GAS);
    assert_eq!(s.version.label(), VersionLabel::Mips1);
}

#[test]
fn settings_reject_unknown_dialect() {
    match Settings::new(Some(raw(Some("nasm"), None))).unwrap_err() {
        SettingsError::UnknownDialect(s) => assert_eq!(s, "nasm"),
        _ => panic!("wrong error variant"),
    }
}

#[test]
fn settings_reject_unknown_version() {
    match Settings::new(Some(raw(Some("gas"), Some("mips9")))).unwrap_err() {
        SettingsError::UnknownVersion(s) => assert_eq!(s, "mips9"),
        _ => panic!("wrong error variant"),
    }
}

#[test]
fn allows_dialects_wildcard_and_membership() {
    let unspecified = Settings::new(None).unwrap();
    assert!(unspecified.allows_dialects(&[Dialect::GAS]));
    assert!(unspecified.allows_dialects(&[]));

    let gas = Settings::new(Some(raw(Some("gas"), None))).unwrap();
    assert!(gas.allows_dialects(&[Dialect::GAS, Dialect::MARS]));
    assert!(!gas.allows_dialects(&[Dialect::MARS, Dialect::SPIM]));
    assert!(!gas.allows_dialects(&[]));
}

#[test]
fn permissive_dialects_allow_any_version() {
    let variant = InstructionVariant::try_from(RawInstructionVariant {
        description: "test".to_string(),
        operands: vec![],
        dialects: vec![],
        introduced: None,
        deprecated: None,
        mips32: false,
        pseudo: false,
    })
    .unwrap();
    let mars = Settings { dialect: Dialect::MARS, version: Version::of(VersionLabel::Mips1) };
    let spim = Settings { dialect: Dialect::SPIM, version: Version::of(VersionLabel::Mips1) };
    let gas = Settings { dialect: Dialect::GAS, version: Version::of(VersionLabel::Mips1) };
    assert!(mars.allow_any_version(&variant));
    assert!(spim.allow_any_version(&variant));
    assert!(!gas.allow_any_version(&variant));
}
