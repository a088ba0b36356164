//! Assembler dialects and coarse ISA families.

use vstd::prelude::*;
use vstd::string::*;

use crate::settings::SettingsError;
use crate::text::str_eq;

verus! {

/// An assembler syntax/semantics profile; `Unspecified` is the wildcard that
/// matches everything.
#[derive(Debug, Clone, Copy, PartialEq, Eq, Hash, Structural)]
pub enum Dialect {
    GAS,
    MARS,
    SPIM,
    Unspecified,
}

/// A coarse instruction-set family, as named in raw configuration.
#[derive(Debug, Clone, Copy, PartialEq, Eq, Hash, Structural)]
pub enum ISA {
    MIPS1,
    MIPS2,
    MIPS3,
    MIPS4,
    MIPS5,
    MIPS32,
    MIPS64,
}

/// The display spelling of a dialect.
pub open spec fn spec_dialect_name(d: Dialect) -> Seq<char> {
    match d {
        Dialect::GAS => "GAS"@,
        Dialect::MARS => "MARS"@,
        Dialect::SPIM => "SPIM"@,
        Dialect::Unspecified => "Unspecified"@,
    }
}

/// The dialect named by a configuration string.
pub open spec fn spec_parse_dialect(s: Seq<char>) -> Option<Dialect> {
    if s == "gas"@ {
        Some(Dialect::GAS)
    } else if s == "mars"@ {
        Some(Dialect::MARS)
    } else if s == "spim"@ {
        Some(Dialect::SPIM)
    } else if s == "unspecified"@ {
        Some(Dialect::Unspecified)
    } else {
        None
    }
}

/// The ISA family named by a configuration string.
pub open spec fn spec_parse_isa(s: Seq<char>) -> Option<ISA> {
    if s == "mips1"@ {
        Some(ISA::MIPS1)
    } else if s == "mips2"@ {
        Some(ISA::MIPS2)
    } else if s == "mips3"@ {
        Some(ISA::MIPS3)
    } else if s == "mips4"@ {
        Some(ISA::MIPS4)
    } else if s == "mips5"@ {
        Some(ISA::MIPS5)
    } else if s == "mips32"@ {
        Some(ISA::MIPS32)
    } else if s == "mips64"@ {
        Some(ISA::MIPS64)
    } else {
        None
    }
}

impl Dialect {
    /// Resolve a configuration dialect string.
    pub fn parse(s: &str) -> (r: Result<Dialect, SettingsError>)
        ensures
            r matches Ok(d) ==> spec_parse_dialect(s@) == Some(d),
            r is Err ==> spec_parse_dialect(s@) is None,
            r matches Err(e) ==> e matches SettingsError::UnknownDialect(t) && t@ == s@,
    {
        if str_eq(s, "gas") {
            Ok(Dialect::GAS)
        } else if str_eq(s, "mars") {
            Ok(Dialect::MARS)
        } else if str_eq(s, "spim") {
            Ok(Dialect::SPIM)
        } else if str_eq(s, "unspecified") {
            Ok(Dialect::Unspecified)
        } else {
            Err(SettingsError::UnknownDialect(s.to_owned()))
        }
    }

    /// The display spelling, as used in rendered documentation.
    pub fn name(&self) -> (r: String)
        ensures
            r@ == spec_dialect_name(*self),
    {
        match self {
            Dialect::GAS => String::from_str("GAS"),
            Dialect::MARS => String::from_str("MARS"),
            Dialect::SPIM => String::from_str("SPIM"),
            Dialect::Unspecified => String::from_str("Unspecified"),
        }
    }
}

impl ISA {
    /// Resolve a configuration ISA string.
    pub fn parse(s: &str) -> (r: Result<ISA, SettingsError>)
        ensures
            r matches Ok(i) ==> spec_parse_isa(s@) == Some(i),
            r is Err ==> spec_parse_isa(s@) is None,
            r matches Err(e) ==> e matches SettingsError::UnknownISA(t) && t@ == s@,
    {
        if str_eq(s, "mips1") {
            Ok(ISA::MIPS1)
        } else if str_eq(s, "mips2") {
            Ok(ISA::MIPS2)
        } else if str_eq(s, "mips3") {
            Ok(ISA::MIPS3)
        } else if str_eq(s, "mips4") {
            Ok(ISA::MIPS4)
        } else if str_eq(s, "mips5") {
            Ok(ISA::MIPS5)
        } else if str_eq(s, "mips32") {
            Ok(ISA::MIPS32)
        } else if str_eq(s, "mips64") {
            Ok(ISA::MIPS64)
        } else {
            Err(SettingsError::UnknownISA(s.to_owned()))
        }
    }
}

} // verus!
