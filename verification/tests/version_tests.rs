use mips_language_server::lang::{Dialect, ISA};
use mips_language_server::settings::SettingsError;
use mips_language_server::version::{Version, VersionLabel};

#[test]
fn version_label_parse_exact_names() {
    assert_eq!(VersionLabel::parse("mips1").unwrap(), VersionLabel::Mips1);
    assert_eq!(VersionLabel::parse("mips32r6").unwrap(), VersionLabel::Mips32r6);
    assert_eq!(VersionLabel::parse("mips64r2").unwrap(), VersionLabel::Mips64r2);
}

#[test]
fn version_label_parse_rejects_unknown() {
    let err = VersionLabel::parse("mips7").unwrap_err();
    match err {
        SettingsError::UnknownVersion(s) => assert_eq!(s, "mips7"),
        _ => panic!("wrong error variant"),
    }
}

#[test]
fn version_label_parse_rejects_roman_spelling() {
    // Roman numerals are accepted only by the lattice-node parser.
    assert!(VersionLabel::parse("mipsiii").is_err());
}

#[test]
fn version_parse_numeral_and_roman() {
    assert_eq!(Version::parse("mips3").unwrap().label(), VersionLabel::Mips3);
    assert_eq!(Version::parse("mipsiii").unwrap().label(), VersionLabel::Mips3);
    assert_eq!(Version::parse("mipsiv").unwrap().label(), VersionLabel::Mips4);
}

#[test]
fn version_parse_case_insensitive_and_space_stripped() {
    assert_eq!(Version::parse("MIPS 3").unwrap().label(), VersionLabel::Mips3);
    assert_eq!(Version::parse("Mips III").unwrap().label(), VersionLabel::Mips3);
    assert_eq!(Version::parse("MIPS64 R6").unwrap().label(), VersionLabel::Mips64r6);
}

#[test]
fn version_parse_rejects_unknown() {
    let err = Version::parse("powerpc").unwrap_err();
    match err {
        SettingsError::UnknownVersion(s) => assert_eq!(s, "powerpc"),
        _ => panic!("wrong error variant"),
    }
}

#[test]
fn ancestors_include_self_and_base() {
    let v = Version::of(VersionLabel::Mips3);
    assert!(v.has_ancestor(VersionLabel::Mips3));
    assert!(v.has_ancestor(VersionLabel::Mips1));
    assert!(v.has_ancestor(VersionLabel::Mips2));
    assert!(!v.has_ancestor(VersionLabel::Mips4));
}

#[test]
fn ancestors_follow_width_tracks() {
    // The 32-bit track does not inherit from mips3..mips5.
    let v32 = Version::of(VersionLabel::Mips32r2);
    assert!(v32.has_ancestor(VersionLabel::Mips32r1));
    assert!(!v32.has_ancestor(VersionLabel::Mips3));
    // The 64-bit track inherits both the base sequence and the 32-bit steps.
    let v64 = Version::of(VersionLabel::Mips64r2);
    assert!(v64.has_ancestor(VersionLabel::Mips5));
    assert!(v64.has_ancestor(VersionLabel::Mips32r2));
    assert!(!v64.has_ancestor(VersionLabel::Mips32r3));
    // The most recent 64-bit revision inherits everything.
    let top = Version::of(VersionLabel::Mips64r6);
    assert!(top.has_ancestor(VersionLabel::Mips32r6));
    assert!(top.has_ancestor(VersionLabel::Mips64r5));
}

#[test]
fn label_names_render_like_their_variants() {
    assert_eq!(VersionLabel::Mips1.name(), "Mips1");
    assert_eq!(VersionLabel::Mips32r5.name(), "Mips32r5");
}

#[test]
fn dialect_parse_and_name() {
    assert_eq!(Dialect::parse("gas").unwrap(), Dialect::GAS);
    assert_eq!(Dialect::parse("mars").unwrap(), Dialect::MARS);
    assert_eq!(Dialect::parse("spim").unwrap(), Dialect::SPIM);
    assert_eq!(Dialect::parse("unspecified").unwrap(), Dialect::Unspecified);
    assert_eq!(Dialect::GAS.name(), "GAS");
    assert_eq!(Dialect::Unspecified.name(), "Unspecified");
}

#[test]
fn dialect_parse_rejects_unknown() {
    match Dialect::parse("nasm").unwrap_err() {
        SettingsError::UnknownDialect(s) => assert_eq!(s, "nasm"),
        _ => panic!("wrong error variant"),
    }
}

#[test]
fn isa_parse_names() {
    assert_eq!(ISA::parse("mips32").unwrap(), ISA::MIPS32);
    assert_eq!(ISA::parse("mips64").unwrap(), ISA::MIPS64);
    match ISA::parse("arm").unwrap_err() {
        SettingsError::UnknownISA(s) => assert_eq!(s, "arm"),
        _ => panic!("wrong error variant"),
    }
}

#[test]
fn settings_error_messages() {
    assert_eq!(
        SettingsError::UnknownDialect("nasm".to_string()).message(),
        "unknown dialect: `nasm`"
    );
    assert_eq!(
        SettingsError::UnknownVersion("mips9".to_string()).message(),
        "unknown version: `mips9`"
    );
    assert_eq!(SettingsError::InvalidRevision(42).message(), "invalid revision: 42");
    assert_eq!(SettingsError::InvalidRevision(0).message(), "invalid revision: 0");
    assert_eq!(SettingsError::InvalidRevision(1007).message(), "invalid revision: 1007");
    assert_eq!(
        SettingsError::InvalidSyntax.message(),
        "failed to parse initialization options"
    );
}
