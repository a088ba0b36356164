//! The ISA version lattice.
//!
//! Each version owns a fixed ancestor set (itself included); compatibility
//! questions are answered by membership in that set. The lattice is a static
//! table: it never changes at runtime.

use vstd::prelude::*;
use vstd::string::*;

use crate::settings::SettingsError;
use crate::text::chars_eq_str;
use crate::text::str_eq;

verus! {

/// A point in the ISA evolution lattice.
#[derive(Debug, Clone, Copy, PartialEq, Eq, Hash, Structural)]
pub enum VersionLabel {
    Mips1,
    Mips2,
    Mips3,
    Mips4,
    Mips5,
    Mips32r1,
    Mips32r2,
    Mips32r3,
    Mips32r5,
    Mips32r6,
    Mips64r1,
    Mips64r2,
    Mips64r3,
    Mips64r5,
    Mips64r6,
}

/// The fixed ancestor relation of the lattice: whether `ancestor` is in the
/// ancestor set of `label` (every label is its own ancestor).
pub open spec fn is_ancestor(label: VersionLabel, ancestor: VersionLabel) -> bool {
    match label {
        VersionLabel::Mips1 => ancestor == VersionLabel::Mips1,
        VersionLabel::Mips2 => ancestor == VersionLabel::Mips1 || ancestor == VersionLabel::Mips2,
        VersionLabel::Mips3 => ancestor == VersionLabel::Mips1 || ancestor == VersionLabel::Mips2
            || ancestor == VersionLabel::Mips3,
        VersionLabel::Mips4 => ancestor == VersionLabel::Mips1 || ancestor == VersionLabel::Mips2
            || ancestor == VersionLabel::Mips3 || ancestor == VersionLabel::Mips4,
        VersionLabel::Mips5 => ancestor == VersionLabel::Mips1 || ancestor == VersionLabel::Mips2
            || ancestor == VersionLabel::Mips3 || ancestor == VersionLabel::Mips4
            || ancestor == VersionLabel::Mips5,
        VersionLabel::Mips32r1 => ancestor == VersionLabel::Mips1 || ancestor
            == VersionLabel::Mips2 || ancestor == VersionLabel::Mips32r1,
        VersionLabel::Mips32r2 => ancestor == VersionLabel::Mips1 || ancestor
            == VersionLabel::Mips2 || ancestor == VersionLabel::Mips32r1 || ancestor
            == VersionLabel::Mips32r2,
        VersionLabel::Mips32r3 => ancestor == VersionLabel::Mips1 || ancestor
            == VersionLabel::Mips2 || ancestor == VersionLabel::Mips32r1 || ancestor
            == VersionLabel::Mips32r2 || ancestor == VersionLabel::Mips32r3,
        VersionLabel::Mips32r5 => ancestor == VersionLabel::Mips1 || ancestor
            == VersionLabel::Mips2 || ancestor == VersionLabel::Mips32r1 || ancestor
            == VersionLabel::Mips32r2 || ancestor == VersionLabel::Mips32r3 || ancestor
            == VersionLabel::Mips32r5,
        VersionLabel::Mips32r6 => ancestor == VersionLabel::Mips1 || ancestor
            == VersionLabel::Mips2 || ancestor == VersionLabel::Mips32r1 || ancestor
            == VersionLabel::Mips32r2 || ancestor == VersionLabel::Mips32r3 || ancestor
            == VersionLabel::Mips32r5 || ancestor == VersionLabel::Mips32r6,
        VersionLabel::Mips64r1 => ancestor == VersionLabel::Mips1 || ancestor
            == VersionLabel::Mips2 || ancestor == VersionLabel::Mips3 || ancestor
            == VersionLabel::Mips4 || ancestor == VersionLabel::Mips5 || ancestor
            == VersionLabel::Mips32r1 || ancestor == VersionLabel::Mips64r1,
        VersionLabel::Mips64r2 => ancestor == VersionLabel::Mips1 || ancestor
            == VersionLabel::Mips2 || ancestor == VersionLabel::Mips3 || ancestor
            == VersionLabel::Mips4 || ancestor == VersionLabel::Mips5 || ancestor
            == VersionLabel::Mips32r1 || ancestor == VersionLabel::Mips32r2 || ancestor
            == VersionLabel::Mips64r1 || ancestor == VersionLabel::Mips64r2,
        VersionLabel::Mips64r3 => ancestor == VersionLabel::Mips1 || ancestor
            == VersionLabel::Mips2 || ancestor == VersionLabel::Mips3 || ancestor
            == VersionLabel::Mips4 || ancestor == VersionLabel::Mips5 || ancestor
            == VersionLabel::Mips32r1 || ancestor == VersionLabel::Mips32r2 || ancestor
            == VersionLabel::Mips32r3 || ancestor == VersionLabel::Mips64r1 || ancestor
            == VersionLabel::Mips64r2 || ancestor == VersionLabel::Mips64r3,
        VersionLabel::Mips64r5 => ancestor == VersionLabel::Mips1 || ancestor
            == VersionLabel::Mips2 || ancestor == VersionLabel::Mips3 || ancestor
            == VersionLabel::Mips4 || ancestor == VersionLabel::Mips5 || ancestor
            == VersionLabel::Mips32r1 || ancestor == VersionLabel::Mips32r2 || ancestor
            == VersionLabel::Mips32r3 || ancestor == VersionLabel::Mips32r5 || ancestor
            == VersionLabel::Mips64r1 || ancestor == VersionLabel::Mips64r2 || ancestor
            == VersionLabel::Mips64r3 || ancestor == VersionLabel::Mips64r5,
        VersionLabel::Mips64r6 => true,
    }
}

/// The spelling of a label, as shown in rendered documentation.
pub open spec fn spec_label_name(label: VersionLabel) -> Seq<char> {
    match label {
        VersionLabel::Mips1 => "Mips1"@,
        VersionLabel::Mips2 => "Mips2"@,
        VersionLabel::Mips3 => "Mips3"@,
        VersionLabel::Mips4 => "Mips4"@,
        VersionLabel::Mips5 => "Mips5"@,
        VersionLabel::Mips32r1 => "Mips32r1"@,
        VersionLabel::Mips32r2 => "Mips32r2"@,
        VersionLabel::Mips32r3 => "Mips32r3"@,
        VersionLabel::Mips32r5 => "Mips32r5"@,
        VersionLabel::Mips32r6 => "Mips32r6"@,
        VersionLabel::Mips64r1 => "Mips64r1"@,
        VersionLabel::Mips64r2 => "Mips64r2"@,
        VersionLabel::Mips64r3 => "Mips64r3"@,
        VersionLabel::Mips64r5 => "Mips64r5"@,
        VersionLabel::Mips64r6 => "Mips64r6"@,
    }
}

/// The label named by `s`, for the exact spellings the raw definitions use.
pub open spec fn spec_parse_label(s: Seq<char>) -> Option<VersionLabel> {
    if s == "mips1"@ {
        Some(VersionLabel::Mips1)
    } else if s == "mips2"@ {
        Some(VersionLabel::Mips2)
    } else if s == "mips3"@ {
        Some(VersionLabel::Mips3)
    } else if s == "mips4"@ {
        Some(VersionLabel::Mips4)
    } else if s == "mips5"@ {
        Some(VersionLabel::Mips5)
    } else if s == "mips32r1"@ {
        Some(VersionLabel::Mips32r1)
    } else if s == "mips32r2"@ {
        Some(VersionLabel::Mips32r2)
    } else if s == "mips32r3"@ {
        Some(VersionLabel::Mips32r3)
    } else if s == "mips32r5"@ {
        Some(VersionLabel::Mips32r5)
    } else if s == "mips32r6"@ {
        Some(VersionLabel::Mips32r6)
    } else if s == "mips64r1"@ {
        Some(VersionLabel::Mips64r1)
    } else if s == "mips64r2"@ {
        Some(VersionLabel::Mips64r2)
    } else if s == "mips64r3"@ {
        Some(VersionLabel::Mips64r3)
    } else if s == "mips64r5"@ {
        Some(VersionLabel::Mips64r5)
    } else if s == "mips64r6"@ {
        Some(VersionLabel::Mips64r6)
    } else {
        None
    }
}

impl VersionLabel {
    /// Resolve an exact (already lower-case) label name.
    pub fn parse(s: &str) -> (r: Result<VersionLabel, SettingsError>)
        ensures
            r matches Ok(l) ==> spec_parse_label(s@) == Some(l),
            r is Err ==> spec_parse_label(s@) is None,
            r matches Err(e) ==> e matches SettingsError::UnknownVersion(t) && t@ == s@,
    {
        if str_eq(s, "mips1") {
            Ok(VersionLabel::Mips1)
        } else if str_eq(s, "mips2") {
            Ok(VersionLabel::Mips2)
        } else if str_eq(s, "mips3") {
            Ok(VersionLabel::Mips3)
        } else if str_eq(s, "mips4") {
            Ok(VersionLabel::Mips4)
        } else if str_eq(s, "mips5") {
            Ok(VersionLabel::Mips5)
        } else if str_eq(s, "mips32r1") {
            Ok(VersionLabel::Mips32r1)
        } else if str_eq(s, "mips32r2") {
            Ok(VersionLabel::Mips32r2)
        } else if str_eq(s, "mips32r3") {
            Ok(VersionLabel::Mips32r3)
        } else if str_eq(s, "mips32r5") {
            Ok(VersionLabel::Mips32r5)
        } else if str_eq(s, "mips32r6") {
            Ok(VersionLabel::Mips32r6)
        } else if str_eq(s, "mips64r1") {
            Ok(VersionLabel::Mips64r1)
        } else if str_eq(s, "mips64r2") {
            Ok(VersionLabel::Mips64r2)
        } else if str_eq(s, "mips64r3") {
            Ok(VersionLabel::Mips64r3)
        } else if str_eq(s, "mips64r5") {
            Ok(VersionLabel::Mips64r5)
        } else if str_eq(s, "mips64r6") {
            Ok(VersionLabel::Mips64r6)
        } else {
            Err(SettingsError::UnknownVersion(s.to_owned()))
        }
    }

    /// The spelling of the label, as shown in rendered documentation.
    pub fn name(&self) -> (r: String)
        ensures
            r@ == spec_label_name(*self),
    {
        match self {
            VersionLabel::Mips1 => String::from_str("Mips1"),
            VersionLabel::Mips2 => String::from_str("Mips2"),
            VersionLabel::Mips3 => String::from_str("Mips3"),
            VersionLabel::Mips4 => String::from_str("Mips4"),
            VersionLabel::Mips5 => String::from_str("Mips5"),
            VersionLabel::Mips32r1 => String::from_str("Mips32r1"),
            VersionLabel::Mips32r2 => String::from_str("Mips32r2"),
            VersionLabel::Mips32r3 => String::from_str("Mips32r3"),
            VersionLabel::Mips32r5 => String::from_str("Mips32r5"),
            VersionLabel::Mips32r6 => String::from_str("Mips32r6"),
            VersionLabel::Mips64r1 => String::from_str("Mips64r1"),
            VersionLabel::Mips64r2 => String::from_str("Mips64r2"),
            VersionLabel::Mips64r3 => String::from_str("Mips64r3"),
            VersionLabel::Mips64r5 => String::from_str("Mips64r5"),
            VersionLabel::Mips64r6 => String::from_str("Mips64r6"),
        }
    }
}

/// A named lattice node. The ancestor set is the fixed table `is_ancestor`;
/// the node itself only carries its label.
#[derive(Debug, Clone, Copy, PartialEq, Eq, Structural)]
pub struct Version {
    label: VersionLabel,
}

/// ASCII lower-casing of a single character.
pub open spec fn lower_char(c: char) -> char {
    if 'A' <= c && c <= 'Z' {
        (((c as u8) + 32) as char)
    } else {
        c
    }
}

/// How one character contributes to a normalized version name: spaces are
/// dropped, everything else is lower-cased.
pub open spec fn normalize_char(c: char) -> Seq<char> {
    if c == ' ' {
        Seq::empty()
    } else {
        seq![lower_char(c)]
    }
}

/// A version name with spaces removed and ASCII letters lower-cased.
pub open spec fn spec_normalize(s: Seq<char>) -> Seq<char>
    decreases s.len(),
{
    if s.len() == 0 {
        Seq::empty()
    } else {
        spec_normalize(s.drop_last()) + normalize_char(s.last())
    }
}

/// The lattice node named by a normalized version name, accepting both the
/// numeral and the roman-numeral spellings of the first five revisions.
pub open spec fn spec_parse_version(s: Seq<char>) -> Option<VersionLabel> {
    if s == "mips1"@ || s == "mipsi"@ {
        Some(VersionLabel::Mips1)
    } else if s == "mips2"@ || s == "mipsii"@ {
        Some(VersionLabel::Mips2)
    } else if s == "mips3"@ || s == "mipsiii"@ {
        Some(VersionLabel::Mips3)
    } else if s == "mips4"@ || s == "mipsiv"@ {
        Some(VersionLabel::Mips4)
    } else if s == "mips5"@ || s == "mipsv"@ {
        Some(VersionLabel::Mips5)
    } else if s == "mips32r1"@ {
        Some(VersionLabel::Mips32r1)
    } else if s == "mips32r2"@ {
        Some(VersionLabel::Mips32r2)
    } else if s == "mips32r3"@ {
        Some(VersionLabel::Mips32r3)
    } else if s == "mips32r5"@ {
        Some(VersionLabel::Mips32r5)
    } else if s == "mips32r6"@ {
        Some(VersionLabel::Mips32r6)
    } else if s == "mips64r1"@ {
        Some(VersionLabel::Mips64r1)
    } else if s == "mips64r2"@ {
        Some(VersionLabel::Mips64r2)
    } else if s == "mips64r3"@ {
        Some(VersionLabel::Mips64r3)
    } else if s == "mips64r5"@ {
        Some(VersionLabel::Mips64r5)
    } else if s == "mips64r6"@ {
        Some(VersionLabel::Mips64r6)
    } else {
        None
    }
}

/// Normalize a version name: drop spaces, lower-case ASCII letters.
fn normalize(s: &str) -> (v: Vec<char>)
    ensures
        v@ == spec_normalize(s@),
{
    let n = s.unicode_len();
    let mut v: Vec<char> = Vec::new();
    let mut i: usize = 0;
    while i < n
        invariant
            n == s@.len(),
            i <= n,
            v@ == spec_normalize(s@.subrange(0, i as int)),
        decreases n - i,
    {
        let c = s.get_char(i);
        if c != ' ' {
            let lc: char = if 'A' <= c && c <= 'Z' {
                ((c as u8) + 32) as char
            } else {
                c
            };
            v.push(lc);
        }
        proof {
            let pre = s@.subrange(0, i + 1);
            assert(pre.drop_last() =~= s@.subrange(0, i as int));
            assert(pre.last() == s@[i as int]);
            assert(v@ =~= spec_normalize(pre));
        }
        i += 1;
    }
    proof {
        assert(s@.subrange(0, n as int) =~= s@);
    }
    v
}

impl Version {
    /// The lattice node for a given label.
    pub fn of(label: VersionLabel) -> (v: Version)
        ensures
            v.spec_label() == label,
    {
        Version { label }
    }

    /// The label this node is named after.
    pub closed spec fn spec_label(self) -> VersionLabel {
        self.label
    }

    pub fn label(&self) -> (l: VersionLabel)
        ensures
            l == self.spec_label(),
    {
        self.label
    }

    /// Ancestor-set membership: whether `ancestor` is backward-compatible
    /// ground for this version.
    pub fn has_ancestor(&self, ancestor: VersionLabel) -> (r: bool)
        ensures
            r == is_ancestor(self.spec_label(), ancestor),
    {
        match self.label {
            VersionLabel::Mips1 => ancestor == VersionLabel::Mips1,
            VersionLabel::Mips2 => ancestor == VersionLabel::Mips1 || ancestor
                == VersionLabel::Mips2,
            VersionLabel::Mips3 => ancestor == VersionLabel::Mips1 || ancestor
                == VersionLabel::Mips2 || ancestor == VersionLabel::Mips3,
            VersionLabel::Mips4 => ancestor == VersionLabel::Mips1 || ancestor
                == VersionLabel::Mips2 || ancestor == VersionLabel::Mips3 || ancestor
                == VersionLabel::Mips4,
            VersionLabel::Mips5 => ancestor == VersionLabel::Mips1 || ancestor
                == VersionLabel::Mips2 || ancestor == VersionLabel::Mips3 || ancestor
                == VersionLabel::Mips4 || ancestor == VersionLabel::Mips5,
            VersionLabel::Mips32r1 => ancestor == VersionLabel::Mips1 || ancestor
                == VersionLabel::Mips2 || ancestor == VersionLabel::Mips32r1,
            VersionLabel::Mips32r2 => ancestor == VersionLabel::Mips1 || ancestor
                == VersionLabel::Mips2 || ancestor == VersionLabel::Mips32r1 || ancestor
                == VersionLabel::Mips32r2,
            VersionLabel::Mips32r3 => ancestor == VersionLabel::Mips1 || ancestor
                == VersionLabel::Mips2 || ancestor == VersionLabel::Mips32r1 || ancestor
                == VersionLabel::Mips32r2 || ancestor == VersionLabel::Mips32r3,
            VersionLabel::Mips32r5 => ancestor == VersionLabel::Mips1 || ancestor
                == VersionLabel::Mips2 || ancestor == VersionLabel::Mips32r1 || ancestor
                == VersionLabel::Mips32r2 || ancestor == VersionLabel::Mips32r3 || ancestor
                == VersionLabel::Mips32r5,
            VersionLabel::Mips32r6 => ancestor == VersionLabel::Mips1 || ancestor
                == VersionLabel::Mips2 || ancestor == VersionLabel::Mips32r1 || ancestor
                == VersionLabel::Mips32r2 || ancestor == VersionLabel::Mips32r3 || ancestor
                == VersionLabel::Mips32r5 || ancestor == VersionLabel::Mips32r6,
            VersionLabel::Mips64r1 => ancestor == VersionLabel::Mips1 || ancestor
                == VersionLabel::Mips2 || ancestor == VersionLabel::Mips3 || ancestor
                == VersionLabel::Mips4 || ancestor == VersionLabel::Mips5 || ancestor
                == VersionLabel::Mips32r1 || ancestor == VersionLabel::Mips64r1,
            VersionLabel::Mips64r2 => ancestor == VersionLabel::Mips1 || ancestor
                == VersionLabel::Mips2 || ancestor == VersionLabel::Mips3 || ancestor
                == VersionLabel::Mips4 || ancestor == VersionLabel::Mips5 || ancestor
                == VersionLabel::Mips32r1 || ancestor == VersionLabel::Mips32r2 || ancestor
                == VersionLabel::Mips64r1 || ancestor == VersionLabel::Mips64r2,
            VersionLabel::Mips64r3 => ancestor == VersionLabel::Mips1 || ancestor
                == VersionLabel::Mips2 || ancestor == VersionLabel::Mips3 || ancestor
                == VersionLabel::Mips4 || ancestor == VersionLabel::Mips5 || ancestor
                == VersionLabel::Mips32r1 || ancestor == VersionLabel::Mips32r2 || ancestor
                == VersionLabel::Mips32r3 || ancestor == VersionLabel::Mips64r1 || ancestor
                == VersionLabel::Mips64r2 || ancestor == VersionLabel::Mips64r3,
            VersionLabel::Mips64r5 => ancestor == VersionLabel::Mips1 || ancestor
                == VersionLabel::Mips2 || ancestor == VersionLabel::Mips3 || ancestor
                == VersionLabel::Mips4 || ancestor == VersionLabel::Mips5 || ancestor
                == VersionLabel::Mips32r1 || ancestor == VersionLabel::Mips32r2 || ancestor
                == VersionLabel::Mips32r3 || ancestor == VersionLabel::Mips32r5 || ancestor
                == VersionLabel::Mips64r1 || ancestor == VersionLabel::Mips64r2 || ancestor
                == VersionLabel::Mips64r3 || ancestor == VersionLabel::Mips64r5,
            VersionLabel::Mips64r6 => true,
        }
    }

    /// Resolve a case-insensitive, space-stripped version name (numeral or
    /// roman-numeral spelling) to its lattice node.
    pub fn parse(s: &str) -> (r: Result<Version, SettingsError>)
        ensures
            r matches Ok(v) ==> spec_parse_version(spec_normalize(s@)) == Some(v.spec_label()),
            r is Err ==> spec_parse_version(spec_normalize(s@)) is None,
            r matches Err(e) ==> e matches SettingsError::UnknownVersion(t) && t@ == s@,
    {
        let norm = normalize(s);
        if chars_eq_str(&norm, "mips1") || chars_eq_str(&norm, "mipsi") {
            Ok(Version::of(VersionLabel::Mips1))
        } else if chars_eq_str(&norm, "mips2") || chars_eq_str(&norm, "mipsii") {
            Ok(Version::of(VersionLabel::Mips2))
        } else if chars_eq_str(&norm, "mips3") || chars_eq_str(&norm, "mipsiii") {
            Ok(Version::of(VersionLabel::Mips3))
        } else if chars_eq_str(&norm, "mips4") || chars_eq_str(&norm, "mipsiv") {
            Ok(Version::of(VersionLabel::Mips4))
        } else if chars_eq_str(&norm, "mips5") || chars_eq_str(&norm, "mipsv") {
            Ok(Version::of(VersionLabel::Mips5))
        } else if chars_eq_str(&norm, "mips32r1") {
            Ok(Version::of(VersionLabel::Mips32r1))
        } else if chars_eq_str(&norm, "mips32r2") {
            Ok(Version::of(VersionLabel::Mips32r2))
        } else if chars_eq_str(&norm, "mips32r3") {
            Ok(Version::of(VersionLabel::Mips32r3))
        } else if chars_eq_str(&norm, "mips32r5") {
            Ok(Version::of(VersionLabel::Mips32r5))
        } else if chars_eq_str(&norm, "mips32r6") {
            Ok(Version::of(VersionLabel::Mips32r6))
        } else if chars_eq_str(&norm, "mips64r1") {
            Ok(Version::of(VersionLabel::Mips64r1))
        } else if chars_eq_str(&norm, "mips64r2") {
            Ok(Version::of(VersionLabel::Mips64r2))
        } else if chars_eq_str(&norm, "mips64r3") {
            Ok(Version::of(VersionLabel::Mips64r3))
        } else if chars_eq_str(&norm, "mips64r5") {
            Ok(Version::of(VersionLabel::Mips64r5))
        } else if chars_eq_str(&norm, "mips64r6") {
            Ok(Version::of(VersionLabel::Mips64r6))
        } else {
            Err(SettingsError::UnknownVersion(s.to_owned()))
        }
    }
}

} // verus!
