//! Active configuration: the assembler dialect and the target ISA version.

use vstd::prelude::*;
use vstd::string::*;

use crate::lang::Dialect;
use crate::lang::spec_parse_dialect;
use crate::language_definitions::InstructionVariant;
use crate::text::decimal_string;
use crate::text::spec_decimal;
use crate::version::Version;
use crate::version::VersionLabel;
use crate::version::spec_normalize;
use crate::version::spec_parse_version;

verus! {

/// Failures while interpreting editor-supplied configuration.
#[derive(Debug)]
pub enum SettingsError {
    UnknownDialect(String),
    UnknownISA(String),
    UnknownVersion(String),
    InvalidRevision(u32),
    InvalidSyntax,
}

/// The diagnostic text of a configuration failure.
pub open spec fn spec_settings_error_message(e: SettingsError) -> Seq<char> {
    match e {
        SettingsError::UnknownDialect(d) => "unknown dialect: `"@ + d@ + "`"@,
        SettingsError::UnknownISA(i) => "unknown ISA: `"@ + i@ + "`"@,
        SettingsError::UnknownVersion(v) => "unknown version: `"@ + v@ + "`"@,
        SettingsError::InvalidRevision(r) => "invalid revision: "@ + spec_decimal(r as int),
        SettingsError::InvalidSyntax => "failed to parse initialization options"@,
    }
}

impl SettingsError {
    /// Render the failure for logging or a protocol error payload.
    pub fn message(&self) -> (r: String)
        ensures
            r@ == spec_settings_error_message(*self),
    {
        match self {
            SettingsError::UnknownDialect(d) => {
                let r = String::from_str("unknown dialect: `").concat(d.as_str()).concat("`");
                proof {
                    assert(r@ =~= spec_settings_error_message(*self));
                }
                r
            },
            SettingsError::UnknownISA(i) => {
                let r = String::from_str("unknown ISA: `").concat(i.as_str()).concat("`");
                proof {
                    assert(r@ =~= spec_settings_error_message(*self));
                }
                r
            },
            SettingsError::UnknownVersion(v) => {
                let r = String::from_str("unknown version: `").concat(v.as_str()).concat("`");
                proof {
                    assert(r@ =~= spec_settings_error_message(*self));
                }
                r
            },
            SettingsError::InvalidRevision(n) => {
                let digits = decimal_string(*n);
                let r = String::from_str("invalid revision: ").concat(digits.as_str());
                proof {
                    assert(r@ =~= spec_settings_error_message(*self));
                }
                r
            },
            SettingsError::InvalidSyntax => String::from_str(
                "failed to parse initialization options",
            ),
        }
    }
}

/// Configuration exactly as the editor sends it, before validation.
pub struct RawSettings {
    pub dialect: Option<String>,
    pub version: Option<String>,
    pub isa: Option<String>,
    pub revision: Option<u32>,
}

/// The validated active configuration.
#[derive(Debug)]
pub struct Settings {
    pub dialect: Dialect,
    pub version: Version,
}

/// The dialect a raw configuration selects, if it parses; absent fields fall
/// back to the wildcard dialect.
pub open spec fn spec_dialect_choice(raw: RawSettings) -> Option<Dialect> {
    match raw.dialect {
        Option::None => Some(Dialect::Unspecified),
        Option::Some(d) => spec_parse_dialect(d@),
    }
}

/// The version label a raw configuration selects, if it parses; absent fields
/// fall back to the most recent 64-bit revision.
pub open spec fn spec_version_choice(raw: RawSettings) -> Option<VersionLabel> {
    match raw.version {
        Option::None => Some(VersionLabel::Mips64r6),
        Option::Some(v) => spec_parse_version(spec_normalize(v@)),
    }
}

/// Whether a dialect disables version gating entirely.
pub open spec fn spec_permissive_dialect(d: Dialect) -> bool {
    d == Dialect::MARS || d == Dialect::SPIM
}

/// Whether the active dialect `active` accepts an item restricted to
/// `dialects` (the wildcard accepts everything).
pub open spec fn spec_allows_dialects(active: Dialect, dialects: Seq<Dialect>) -> bool {
    active == Dialect::Unspecified || dialects.contains(active)
}

impl Settings {
    /// Validate editor-supplied configuration, falling back to the defaults
    /// (wildcard dialect, most recent 64-bit revision) for absent fields.
    pub fn new(options: Option<RawSettings>) -> (r: Result<Settings, SettingsError>)
        ensures
            options is None ==> (r matches Ok(s) && s.dialect == Dialect::Unspecified
                && s.version.spec_label() == VersionLabel::Mips64r6),
            options matches Some(raw) ==> (r is Ok <==> spec_dialect_choice(raw) is Some
                && spec_version_choice(raw) is Some),
            options matches Some(raw) ==> (r matches Ok(s) ==> (Some(s.dialect)
                == spec_dialect_choice(raw) && Some(s.version.spec_label()) == spec_version_choice(
                raw,
            ))),
            options matches Some(raw) ==> (spec_dialect_choice(raw) is None ==> (r matches Err(e)
                && e matches SettingsError::UnknownDialect(t) && raw.dialect matches Some(d) && t@
                == d@)),
            options matches Some(raw) ==> ((spec_dialect_choice(raw) is Some
                && spec_version_choice(raw) is None) ==> (r matches Err(e)
                && e matches SettingsError::UnknownVersion(t) && raw.version matches Some(v) && t@
                == v@)),
    {
        let mut settings = Settings {
            dialect: Dialect::Unspecified,
            version: Version::of(VersionLabel::Mips64r6),
        };
        let raw = match options {
            Option::None => {
                return Ok(settings);
            },
            Option::Some(raw) => raw,
        };
        if let Option::Some(d) = &raw.dialect {
            match Dialect::parse(d.as_str()) {
                Ok(dialect) => {
                    settings.dialect = dialect;
                },
                Err(e) => {
                    return Err(e);
                },
            }
        }
        if let Option::Some(v) = &raw.version {
            match Version::parse(v.as_str()) {
                Ok(version) => {
                    settings.version = version;
                },
                Err(e) => {
                    return Err(e);
                },
            }
        }
        Ok(settings)
    }

    /// Whether the active dialect accepts an item restricted to `dialects`.
    pub fn allows_dialects(&self, dialects: &[Dialect]) -> (r: bool)
        ensures
            r == spec_allows_dialects(self.dialect, dialects@),
    {
        if self.dialect == Dialect::Unspecified {
            return true;
        }
        let n = dialects.len();
        let mut i: usize = 0;
        while i < n
            invariant
                n == dialects@.len(),
                i <= n,
                forall|j: int| 0 <= j < i ==> dialects@[j] != self.dialect,
            decreases n - i,
        {
            if dialects[i] == self.dialect {
                return true;
            }
            i += 1;
        }
        false
    }

    /// Whether the active dialect disables version gating for a variant
    /// (dialect-specific policy of the two permissive dialects; the variant
    /// itself does not take part in the decision).
    pub fn allow_any_version(&self, v: &InstructionVariant) -> (r: bool)
        ensures
            r == spec_permissive_dialect(self.dialect),
    {
        self.dialect == Dialect::MARS || self.dialect == Dialect::SPIM
    }
}

} // verus!
