//! The knowledge base: raw declarative records and their filtered,
//! render-ready form under the active settings.

use vstd::prelude::*;
use vstd::string::*;

use crate::lang::Dialect;
use crate::lang::spec_parse_dialect;
use crate::settings::Settings;
use crate::settings::SettingsError;
use crate::settings::spec_allows_dialects;
use crate::settings::spec_permissive_dialect;
use crate::text::str_eq;
use crate::version::Version;
use crate::version::VersionLabel;
use crate::version::is_ancestor;
use crate::version::spec_parse_label;

verus! {

/// One raw instruction variant, exactly as the resource data spells it.
pub struct RawInstructionVariant {
    pub description: String,
    pub operands: Vec<String>,
    pub dialects: Vec<String>,
    pub introduced: Option<String>,
    pub deprecated: Option<String>,
    pub mips32: bool,
    pub pseudo: bool,
}

/// One parsed instruction variant.
#[derive(Debug)]
pub struct InstructionVariant {
    pub description: String,
    pub operands: Vec<String>,
    pub dialects: Vec<Dialect>,
    pub introduced: VersionLabel,
    pub deprecated: Option<VersionLabel>,
    pub mips32: bool,
    pub pseudo: bool,
}

/// The mathematical shape of a parsed variant.
#[verifier::ext_equal]
pub ghost struct VariantView {
    pub description: Seq<char>,
    pub operands: Seq<Seq<char>>,
    pub dialects: Seq<Dialect>,
    pub introduced: VersionLabel,
    pub deprecated: Option<VersionLabel>,
    pub mips32: bool,
    pub pseudo: bool,
}

impl View for InstructionVariant {
    type V = VariantView;

    open spec fn view(&self) -> VariantView {
        VariantView {
            description: self.description@,
            operands: self.operands.deep_view(),
            dialects: self.dialects@,
            introduced: self.introduced,
            deprecated: self.deprecated,
            mips32: self.mips32,
            pseudo: self.pseudo,
        }
    }
}

/// A visible instruction: its surviving variants and the aggregated rendered
/// description.
pub struct Instruction {
    pub variants: Vec<InstructionVariant>,
    pub description: String,
}

/// The mathematical shape of a visible instruction.
#[verifier::ext_equal]
pub ghost struct InstructionView {
    pub variants: Seq<VariantView>,
    pub description: Seq<char>,
}

impl View for Instruction {
    type V = InstructionView;

    open spec fn view(&self) -> InstructionView {
        InstructionView {
            variants: self.variants@.map_values(|v: InstructionVariant| v@),
            description: self.description@,
        }
    }
}

/// One raw directive record.
pub struct RawDirective {
    pub dialects: Vec<String>,
    pub description: String,
}

/// A visible directive.
pub struct Directive {
    pub description: String,
    pub dialects: Vec<Dialect>,
}

/// The mathematical shape of a visible directive.
#[verifier::ext_equal]
pub ghost struct DirectiveView {
    pub description: Seq<char>,
    pub dialects: Seq<Dialect>,
}

impl View for Directive {
    type V = DirectiveView;

    open spec fn view(&self) -> DirectiveView {
        DirectiveView { description: self.description@, dialects: self.dialects@ }
    }
}

/// Raw instruction records: a mnemonic with its raw variants.
pub type RawInstructions = Vec<(String, Vec<RawInstructionVariant>)>;

/// Visible instruction records, keyed by mnemonic.
pub type Instructions = Vec<(String, Instruction)>;

/// Raw directive records, keyed by mnemonic (without the marker character).
pub type RawDirectives = Vec<(String, RawDirective)>;

/// Visible directive records, keyed by mnemonic.
pub type Directives = Vec<(String, Directive)>;

/// The three disjoint register alias tables, loaded verbatim.
pub struct Registers {
    pub numeric: Vec<(String, String)>,
    pub common: Vec<(String, String)>,
    pub float: Vec<(String, String)>,
}

/// The aggregate read-only view the resolvers consult.
pub struct LanguageDefinitions {
    pub instructions: Instructions,
    pub directives: Directives,
    pub registers: Registers,
}

/// The version label a raw `introduced` field selects; an absent field means
/// the base revision.
pub open spec fn spec_introduced_choice(o: Option<String>) -> Option<VersionLabel> {
    match o {
        Option::None => Some(VersionLabel::Mips1),
        Option::Some(s) => spec_parse_label(s@),
    }
}

/// The deprecation label a raw `deprecated` field selects (`None` of the
/// outer option means the field did not parse).
pub open spec fn spec_deprecated_choice(o: Option<String>) -> Option<Option<VersionLabel>> {
    match o {
        Option::None => Some(Option::<VersionLabel>::None),
        Option::Some(s) => match spec_parse_label(s@) {
            Option::None => None,
            Option::Some(l) => Some(Some(l)),
        },
    }
}

/// Whether every raw dialect string of a record parses.
pub open spec fn spec_dialects_parse(ds: Seq<Seq<char>>) -> bool {
    forall|j: int| 0 <= j < ds.len() ==> spec_parse_dialect(ds[j]) is Some
}

/// Whether a variant is neither too new nor already deprecated for `target`.
pub open spec fn spec_valid_for(v: VariantView, target: VersionLabel) -> bool {
    is_ancestor(target, v.introduced) && !(v.deprecated matches Some(d) && is_ancestor(target, d))
}

/// Whether a variant survives filtering under the active dialect and target
/// version.
pub open spec fn spec_variant_survives(v: VariantView, dialect: Dialect, target: VersionLabel) -> bool {
    spec_allows_dialects(dialect, v.dialects) && (spec_permissive_dialect(dialect)
        || spec_valid_for(v, target))
}

impl InstructionVariant {
    /// Parse one raw variant; the first unparsable field fails the variant.
    pub fn try_from(raw: RawInstructionVariant) -> (r: Result<InstructionVariant, SettingsError>)
        ensures
            r is Ok <==> spec_dialects_parse(raw.dialects.deep_view()) && spec_introduced_choice(
                raw.introduced,
            ) is Some && spec_deprecated_choice(raw.deprecated) is Some,
            r matches Ok(v) ==> {
                &&& v@.description == raw.description@
                &&& v@.operands == raw.operands.deep_view()
                &&& v@.dialects.len() == raw.dialects@.len()
                &&& forall|j: int|
                    0 <= j < v@.dialects.len() ==> Some(v@.dialects[j])
                        == #[trigger] spec_parse_dialect(raw.dialects.deep_view()[j])
                &&& Some(v@.introduced) == spec_introduced_choice(raw.introduced)
                &&& Some(v@.deprecated) == spec_deprecated_choice(raw.deprecated)
                &&& v@.mips32 == raw.mips32
                &&& v@.pseudo == raw.pseudo
            },
            !spec_dialects_parse(raw.dialects.deep_view()) ==> (r matches Err(e)
                && e matches SettingsError::UnknownDialect(t) && exists|j: int|
                0 <= j < raw.dialects@.len() && spec_parse_dialect(raw.dialects.deep_view()[j])
                    is None && t@ == raw.dialects.deep_view()[j]),
            spec_dialects_parse(raw.dialects.deep_view()) && spec_introduced_choice(raw.introduced)
                is None ==> (r matches Err(e) && e matches SettingsError::UnknownVersion(t)
                && raw.introduced matches Some(s) && t@ == s@),
            spec_dialects_parse(raw.dialects.deep_view()) && spec_introduced_choice(raw.introduced)
                is Some && spec_deprecated_choice(raw.deprecated) is None ==> (r matches Err(e)
                && e matches SettingsError::UnknownVersion(t) && raw.deprecated matches Some(s)
                && t@ == s@),
    {
        let mut dialects: Vec<Dialect> = Vec::new();
        let n = raw.dialects.len();
        let mut i: usize = 0;
        while i < n
            invariant
                n == raw.dialects@.len(),
                i <= n,
                dialects@.len() == i,
                forall|j: int|
                    0 <= j < i ==> Some(dialects@[j]) == #[trigger] spec_parse_dialect(
                        raw.dialects.deep_view()[j],
                    ),
            decreases n - i,
        {
            match Dialect::parse(raw.dialects[i].as_str()) {
                Ok(d) => {
                    dialects.push(d);
                },
                Err(e) => {
                    proof {
                        assert(spec_parse_dialect(raw.dialects.deep_view()[i as int]) is None);
                    }
                    return Err(e);
                },
            }
            i += 1;
        }
        let introduced = match &raw.introduced {
            Option::None => VersionLabel::Mips1,
            Option::Some(s) => match VersionLabel::parse(s.as_str()) {
                Ok(l) => l,
                Err(e) => {
                    return Err(e);
                },
            },
        };
        let deprecated = match &raw.deprecated {
            Option::None => Option::<VersionLabel>::None,
            Option::Some(s) => match VersionLabel::parse(s.as_str()) {
                Ok(l) => Some(l),
                Err(e) => {
                    return Err(e);
                },
            },
        };
        Ok(
            InstructionVariant {
                description: raw.description,
                operands: raw.operands,
                dialects,
                introduced,
                deprecated,
                mips32: raw.mips32,
                pseudo: raw.pseudo,
            },
        )
    }

    /// Version gating for a target version: introduced must be an ancestor,
    /// and the deprecation point (if any) must not be.
    pub fn is_valid_for(&self, target: &Version) -> (r: bool)
        ensures
            r == spec_valid_for(self@, target.spec_label()),
    {
        if !target.has_ancestor(self.introduced) {
            return false;
        }
        if let Option::Some(d) = self.deprecated {
            if target.has_ancestor(d) {
                return false;
            }
        }
        true
    }
}

/// `parts` joined with the separator `sep`.
pub open spec fn spec_join(parts: Seq<Seq<char>>, sep: Seq<char>) -> Seq<char>
    decreases parts.len(),
{
    if parts.len() == 0 {
        Seq::empty()
    } else if parts.len() == 1 {
        parts[0]
    } else {
        spec_join(parts.drop_last(), sep) + sep + parts.last()
    }
}

/// Join the parts with a separator.
fn join_strings(parts: &Vec<String>, sep: &str) -> (r: String)
    ensures
        r@ == spec_join(parts.deep_view(), sep@),
{
    let mut r = String::new();
    let n = parts.len();
    let mut i: usize = 0;
    while i < n
        invariant
            n == parts@.len(),
            i <= n,
            r@ == spec_join(parts.deep_view().subrange(0, i as int), sep@),
        decreases n - i,
    {
        if i > 0 {
            r.append(sep);
        }
        r.append(parts[i].as_str());
        proof {
            let dv = parts.deep_view();
            let pre = dv.subrange(0, i + 1);
            assert(pre.drop_last() =~= dv.subrange(0, i as int));
            assert(pre.last() == dv[i as int]);
            assert(dv[i as int] == parts@[i as int]@);
            assert(r@ =~= spec_join(pre, sep@));
        }
        i += 1;
    }
    proof {
        assert(parts.deep_view().subrange(0, n as int) =~= parts.deep_view());
    }
    r
}

/// The deprecation note of a variant, empty when it was never deprecated.
pub open spec fn spec_deprecated_note(d: Option<VersionLabel>) -> Seq<char> {
    match d {
        Option::None => Seq::empty(),
        Option::Some(l) => "Deprecated: "@ + crate::version::spec_label_name(l) + "; "@,
    }
}

/// The display names of a variant's dialects.
pub open spec fn spec_dialect_names(ds: Seq<Dialect>) -> Seq<Seq<char>> {
    ds.map_values(|d: Dialect| crate::lang::spec_dialect_name(d))
}

/// The assembler list of a variant; a variant with no dialect restriction
/// shows "None".
pub open spec fn spec_assemblers_note(ds: Seq<Dialect>) -> Seq<char> {
    if ds.len() == 0 {
        "None"@
    } else {
        spec_join(spec_dialect_names(ds), ", "@)
    }
}

/// One variant rendered as a fenced code example followed by its description
/// and its lattice and dialect annotations.
pub open spec fn spec_render_variant(mnemonic: Seq<char>, v: VariantView) -> Seq<char> {
    "```asm\n"@ + mnemonic + " "@ + spec_join(v.operands, ", "@) + "\n```\n"@ + v.description
        + "\nIntroduced: "@ + crate::version::spec_label_name(v.introduced) + "; "@
        + spec_deprecated_note(v.deprecated) + "Assemblers: "@ + spec_assemblers_note(v.dialects)
        + "\n\n"@
}

/// The renderings of the variants of one group (real or pseudo), in order.
pub open spec fn spec_render_group(
    mnemonic: Seq<char>,
    variants: Seq<VariantView>,
    pseudo: bool,
) -> Seq<char>
    decreases variants.len(),
{
    if variants.len() == 0 {
        Seq::empty()
    } else {
        spec_render_group(mnemonic, variants.drop_last(), pseudo) + (if variants.last().pseudo
            == pseudo {
            spec_render_variant(mnemonic, variants.last())
        } else {
            Seq::empty()
        })
    }
}

/// Whether some variant belongs to the given group.
pub open spec fn spec_has_group(variants: Seq<VariantView>, pseudo: bool) -> bool {
    exists|i: int| 0 <= i < variants.len() && variants[i].pseudo == pseudo
}

/// The aggregated description of an instruction: the real-variant group
/// first, then the pseudo-variant group if any pseudo variants exist.
pub open spec fn spec_hover_info(mnemonic: Seq<char>, variants: Seq<VariantView>) -> Seq<char> {
    mnemonic + "\n"@ + (if spec_has_group(variants, false) {
        "### Variants:\n"@ + spec_render_group(mnemonic, variants, false)
    } else {
        Seq::empty()
    }) + (if spec_has_group(variants, true) {
        "\n"@ + "### Pseudo Variants:\n"@ + spec_render_group(mnemonic, variants, true)
    } else {
        Seq::empty()
    })
}

proof fn lemma_has_group_unsnoc(s: Seq<VariantView>, pseudo: bool)
    requires
        s.len() > 0,
    ensures
        spec_has_group(s, pseudo) == (spec_has_group(s.drop_last(), pseudo) || s.last().pseudo
            == pseudo),
{
    if spec_has_group(s, pseudo) {
        let k = choose|k: int| 0 <= k < s.len() && s[k].pseudo == pseudo;
        if k < s.len() - 1 {
            assert(s.drop_last()[k].pseudo == pseudo);
        }
    }
    if spec_has_group(s.drop_last(), pseudo) {
        let k = choose|k: int| 0 <= k < s.drop_last().len() && s.drop_last()[k].pseudo == pseudo;
        assert(s[k].pseudo == pseudo);
    }
    if s.last().pseudo == pseudo {
        assert(s[s.len() - 1].pseudo == pseudo);
    }
}

/// Render one variant.
fn render_variant(mnemonic: &str, v: &InstructionVariant) -> (r: String)
    ensures
        r@ == spec_render_variant(mnemonic@, v@),
{
    let mut r = String::from_str("```asm\n");
    r.append(mnemonic);
    r.append(" ");
    let ops = join_strings(&v.operands, ", ");
    r.append(ops.as_str());
    r.append("\n```\n");
    r.append(v.description.as_str());
    r.append("\nIntroduced: ");
    let iname = v.introduced.name();
    r.append(iname.as_str());
    r.append("; ");
    if let Option::Some(d) = v.deprecated {
        r.append("Deprecated: ");
        let dname = d.name();
        r.append(dname.as_str());
        r.append("; ");
    }
    r.append("Assemblers: ");
    if v.dialects.len() == 0 {
        r.append("None");
    } else {
        let mut names: Vec<String> = Vec::new();
        let n = v.dialects.len();
        let mut i: usize = 0;
        while i < n
            invariant
                n == v.dialects@.len(),
                i <= n,
                names@.len() == i,
                forall|k: int|
                    0 <= k < i ==> names@[k]@ == crate::lang::spec_dialect_name(
                        #[trigger] v.dialects@[k],
                    ),
            decreases n - i,
        {
            let dn = v.dialects[i].name();
            names.push(dn);
            i += 1;
        }
        proof {
            assert(names.deep_view() =~~= spec_dialect_names(v.dialects@));
        }
        let joined = join_strings(&names, ", ");
        r.append(joined.as_str());
    }
    r.append("\n\n");
    proof {
        assert(r@ =~= spec_render_variant(mnemonic@, v@));
    }
    r
}

/// The views of a vector of parsed variants.
pub open spec fn spec_variant_views(vs: Seq<InstructionVariant>) -> Seq<VariantView> {
    vs.map_values(|v: InstructionVariant| v@)
}

/// Synthesize the aggregated description of an instruction from its
/// surviving variants: real variants under their heading first, then pseudo
/// variants under theirs.
pub fn build_instruction_hover_info(
    mnemonic: &str,
    variants: &Vec<InstructionVariant>,
    settings: &Settings,
) -> (r: String)
    ensures
        r@ == spec_hover_info(mnemonic@, spec_variant_views(variants@)),
{
    let ghost views = spec_variant_views(variants@);
    let mut real_part = String::from_str("### Variants:\n");
    let mut pseudo_part = String::from_str("### Pseudo Variants:\n");
    let mut has_real = false;
    let mut has_pseudo = false;
    let n = variants.len();
    let mut i: usize = 0;
    while i < n
        invariant
            n == variants@.len(),
            i <= n,
            views == spec_variant_views(variants@),
            real_part@ == "### Variants:\n"@ + spec_render_group(
                mnemonic@,
                views.subrange(0, i as int),
                false,
            ),
            pseudo_part@ == "### Pseudo Variants:\n"@ + spec_render_group(
                mnemonic@,
                views.subrange(0, i as int),
                true,
            ),
            has_real == spec_has_group(views.subrange(0, i as int), false),
            has_pseudo == spec_has_group(views.subrange(0, i as int), true),
        decreases n - i,
    {
        let part = render_variant(mnemonic, &variants[i]);
        if variants[i].pseudo {
            has_pseudo = true;
            pseudo_part.append(part.as_str());
        } else {
            has_real = true;
            real_part.append(part.as_str());
        }
        proof {
            let pre = views.subrange(0, i + 1);
            assert(pre.drop_last() =~= views.subrange(0, i as int));
            assert(pre.last() == views[i as int]);
            assert(views[i as int] == variants@[i as int]@);
            lemma_has_group_unsnoc(pre, false);
            lemma_has_group_unsnoc(pre, true);
            assert(real_part@ =~= "### Variants:\n"@ + spec_render_group(mnemonic@, pre, false));
            assert(pseudo_part@ =~= "### Pseudo Variants:\n"@ + spec_render_group(mnemonic@, pre, true));
        }
        i += 1;
    }
    proof {
        assert(views.subrange(0, n as int) =~= views);
    }
    let mut info = mnemonic.to_owned();
    info.append("\n");
    if has_real {
        info.append(real_part.as_str());
    }
    if has_pseudo {
        info.append("\n");
    }
    if has_pseudo {
        info.append(pseudo_part.as_str());
    }
    proof {
        assert(info@ =~= spec_hover_info(mnemonic@, views));
    }
    info
}

impl Directive {
    /// Parse one raw directive; the first unparsable dialect fails it.
    pub fn try_from(raw: RawDirective) -> (r: Result<Directive, SettingsError>)
        ensures
            r is Ok <==> spec_dialects_parse(raw.dialects.deep_view()),
            r matches Ok(d) ==> {
                &&& d@.description == raw.description@
                &&& d@.dialects.len() == raw.dialects@.len()
                &&& forall|j: int|
                    0 <= j < d@.dialects.len() ==> Some(d@.dialects[j])
                        == #[trigger] spec_parse_dialect(raw.dialects.deep_view()[j])
            },
            r matches Err(e) ==> e matches SettingsError::UnknownDialect(t) && exists|j: int|
                0 <= j < raw.dialects@.len() && spec_parse_dialect(raw.dialects.deep_view()[j])
                    is None && t@ == raw.dialects.deep_view()[j],
    {
        let mut dialects: Vec<Dialect> = Vec::new();
        let n = raw.dialects.len();
        let mut i: usize = 0;
        while i < n
            invariant
                n == raw.dialects@.len(),
                i <= n,
                dialects@.len() == i,
                forall|j: int|
                    0 <= j < i ==> Some(dialects@[j]) == #[trigger] spec_parse_dialect(
                        raw.dialects.deep_view()[j],
                    ),
            decreases n - i,
        {
            match Dialect::parse(raw.dialects[i].as_str()) {
                Ok(d) => {
                    dialects.push(d);
                },
                Err(e) => {
                    proof {
                        assert(spec_parse_dialect(raw.dialects.deep_view()[i as int]) is None);
                    }
                    return Err(e);
                },
            }
            i += 1;
        }
        Ok(Directive { description: raw.description, dialects })
    }
}

/// The parsed form of a raw variant, if every field parses.
pub open spec fn spec_variant_parse(raw: RawInstructionVariant) -> Option<VariantView> {
    if spec_dialects_parse(raw.dialects.deep_view()) && spec_introduced_choice(raw.introduced)
        is Some && spec_deprecated_choice(raw.deprecated) is Some {
        Some(
            VariantView {
                description: raw.description@,
                operands: raw.operands.deep_view(),
                dialects: Seq::new(
                    raw.dialects@.len(),
                    |j: int| spec_parse_dialect(raw.dialects.deep_view()[j])->0,
                ),
                introduced: spec_introduced_choice(raw.introduced)->0,
                deprecated: spec_deprecated_choice(raw.deprecated)->0,
                mips32: raw.mips32,
                pseudo: raw.pseudo,
            },
        )
    } else {
        None
    }
}

/// The variants of one mnemonic that parse and survive filtering, in input
/// order.
pub open spec fn spec_surviving_variants(
    raws: Seq<RawInstructionVariant>,
    dialect: Dialect,
    target: VersionLabel,
) -> Seq<VariantView>
    decreases raws.len(),
{
    if raws.len() == 0 {
        Seq::empty()
    } else {
        spec_surviving_variants(raws.drop_last(), dialect, target) + (match spec_variant_parse(
            raws.last(),
        ) {
            Option::Some(v) => if spec_variant_survives(v, dialect, target) {
                seq![v]
            } else {
                Seq::empty()
            },
            Option::None => Seq::empty(),
        })
    }
}

/// Parse and filter the raw variants of one mnemonic: a variant that does
/// not parse is dropped, one whose dialects the settings reject is dropped,
/// and version gating applies unless the dialect is permissive.
fn filter_variants(raw_variants: Vec<RawInstructionVariant>, settings: &Settings) -> (r: Vec<
    InstructionVariant,
>)
    ensures
        spec_variant_views(r@) == spec_surviving_variants(
            raw_variants@,
            settings.dialect,
            settings.version.spec_label(),
        ),
{
    let ghost orig = raw_variants@;
    let ghost dialect = settings.dialect;
    let ghost target = settings.version.spec_label();
    let mut out: Vec<InstructionVariant> = Vec::new();
    let mut rest = raw_variants;
    while rest.len() > 0
        invariant
            rest@.len() <= orig.len(),
            rest@ == orig.subrange(orig.len() - rest@.len(), orig.len() as int),
            spec_variant_views(out@) == spec_surviving_variants(
                orig.subrange(0, orig.len() - rest@.len()),
                dialect,
                target,
            ),
            dialect == settings.dialect,
            target == settings.version.spec_label(),
        decreases rest@.len(),
    {
        let ghost k = orig.len() - rest@.len();
        let ghost out_pre = out@;
        let rv = rest.remove(0);
        proof {
            assert(rv == orig[k]);
            assert(rest@ =~= orig.subrange(k + 1, orig.len() as int));
        }
        match InstructionVariant::try_from(rv) {
            Ok(v) => {
                proof {
                    assert(spec_variant_parse(rv) is Some);
                    assert(spec_variant_parse(rv)->0.dialects =~= v@.dialects);
                    assert(spec_variant_parse(rv)->0 =~= v@);
                }
                if settings.allows_dialects(v.dialects.as_slice()) {
                    if settings.allow_any_version(&v) || v.is_valid_for(&settings.version) {
                        out.push(v);
                    }
                }
            },
            Err(_) => {
                proof {
                    assert(spec_variant_parse(rv) is None);
                }
            },
        }
        proof {
            let pre = orig.subrange(0, k + 1);
            assert(pre.drop_last() =~= orig.subrange(0, k));
            assert(pre.last() == orig[k]);
            assert(spec_variant_views(out@) =~= spec_surviving_variants(pre, dialect, target));
        }
    }
    proof {
        assert(orig.subrange(0, orig.len() as int) =~= orig);
    }
    out
}

/// The view of an association table keyed by strings.
pub open spec fn spec_table_view<T: View>(entries: Seq<(String, T)>) -> Seq<(Seq<char>, T::V)> {
    entries.map_values(|p: (String, T)| (p.0@, p.1@))
}

/// Well-formedness of an association table: its keys are pairwise distinct,
/// as the map-shaped raw resources guarantee. With distinct keys the
/// first-match lookup is the only match.
pub open spec fn spec_entry_keys_unique<T>(entries: Seq<(String, T)>) -> bool {
    forall|i: int, j: int|
        0 <= i < j < entries.len() ==> (#[trigger] entries[i]).0@ != (#[trigger] entries[j]).0@
}

/// The same well-formedness, over the view of a table.
pub open spec fn spec_view_keys_unique<V>(entries: Seq<(Seq<char>, V)>) -> bool {
    forall|i: int, j: int|
        0 <= i < j < entries.len() ==> (#[trigger] entries[i]).0 != (#[trigger] entries[j]).0
}

/// First-match lookup in an association table.
pub open spec fn spec_assoc_lookup<V>(entries: Seq<(Seq<char>, V)>, name: Seq<char>) -> Option<V>
    decreases entries.len(),
{
    if entries.len() == 0 {
        None
    } else if entries.first().0 == name {
        Some(entries.first().1)
    } else {
        spec_assoc_lookup(entries.drop_first(), name)
    }
}

proof fn lemma_assoc_lookup_skip<V>(entries: Seq<(Seq<char>, V)>, name: Seq<char>, i: int)
    requires
        0 <= i <= entries.len(),
        forall|j: int| 0 <= j < i ==> (#[trigger] entries[j]).0 != name,
    ensures
        spec_assoc_lookup(entries, name) == spec_assoc_lookup(
            entries.skip(i),
            name,
        ),
    decreases i,
{
    if i > 0 {
        lemma_assoc_lookup_skip(entries, name, i - 1);
        let s = entries.skip(i - 1);
        assert(s.first() == entries[i - 1]);
        assert(s.drop_first() =~= entries.skip(i));
    } else {
        assert(entries.skip(0) =~= entries);
    }
}

/// Look a name up in an association table; the first matching entry wins.
pub fn assoc_get<'a, T: View>(entries: &'a Vec<(String, T)>, name: &str) -> (r: Option<&'a T>)
    ensures
        r matches Some(t) ==> spec_assoc_lookup(spec_table_view(entries@), name@) == Some(t@),
        r is None ==> spec_assoc_lookup(spec_table_view(entries@), name@) is None,
{
    let ghost tv = spec_table_view(entries@);
    let n = entries.len();
    let mut i: usize = 0;
    while i < n
        invariant
            n == entries@.len(),
            i <= n,
            tv == spec_table_view(entries@),
            forall|j: int| 0 <= j < i ==> (#[trigger] tv[j]).0 != name@,
        decreases n - i,
    {
        if str_eq(entries[i].0.as_str(), name) {
            proof {
                lemma_assoc_lookup_skip(tv, name@, i as int);
                assert(tv.skip(i as int).first() == tv[i as int]);
            }
            return Some(&entries[i].1);
        }
        i += 1;
    }
    proof {
        lemma_assoc_lookup_skip(tv, name@, n as int);
        assert(tv.skip(n as int) =~= Seq::<(Seq<char>, T::V)>::empty());
    }
    None
}

/// The visible instruction table built from raw records: per mnemonic the
/// surviving variants with the aggregated description; a mnemonic with no
/// surviving variants is absent.
pub open spec fn spec_process_instructions(
    raws: Seq<(String, Vec<RawInstructionVariant>)>,
    dialect: Dialect,
    target: VersionLabel,
) -> Seq<(Seq<char>, InstructionView)>
    decreases raws.len(),
{
    if raws.len() == 0 {
        Seq::empty()
    } else {
        let done = spec_process_instructions(raws.drop_last(), dialect, target);
        let sv = spec_surviving_variants(raws.last().1@, dialect, target);
        done + if sv.len() == 0 {
            Seq::empty()
        } else {
            seq![
                (
                    raws.last().0@,
                    InstructionView {
                        variants: sv,
                        description: spec_hover_info(raws.last().0@, sv),
                    },
                ),
            ]
        }
    }
}

/// Build the visible instruction table for the active settings.
pub fn process_instructions(raw: RawInstructions, settings: &Settings) -> (r: Result<
    Instructions,
    SettingsError,
>)
    ensures
        r is Ok,
        r matches Ok(instrs) ==> spec_table_view(instrs@) == spec_process_instructions(
            raw@,
            settings.dialect,
            settings.version.spec_label(),
        ),
{
    let ghost orig = raw@;
    let ghost dialect = settings.dialect;
    let ghost target = settings.version.spec_label();
    let mut out: Instructions = Vec::new();
    let mut rest = raw;
    while rest.len() > 0
        invariant
            rest@.len() <= orig.len(),
            rest@ == orig.subrange(orig.len() - rest@.len(), orig.len() as int),
            spec_table_view(out@) == spec_process_instructions(
                orig.subrange(0, orig.len() - rest@.len()),
                dialect,
                target,
            ),
            dialect == settings.dialect,
            target == settings.version.spec_label(),
        decreases rest@.len(),
    {
        let ghost k = orig.len() - rest@.len();
        let entry = rest.remove(0);
        proof {
            assert(entry == orig[k]);
            assert(rest@ =~= orig.subrange(k + 1, orig.len() as int));
        }
        let (mnemonic, raw_variants) = entry;
        let survivors = filter_variants(raw_variants, settings);
        if survivors.len() > 0 {
            let info = build_instruction_hover_info(mnemonic.as_str(), &survivors, settings);
            out.push((mnemonic, Instruction { variants: survivors, description: info }));
        }
        proof {
            let pre = orig.subrange(0, k + 1);
            assert(pre.drop_last() =~= orig.subrange(0, k));
            assert(pre.last() == orig[k]);
            assert(spec_table_view(out@) =~= spec_process_instructions(pre, dialect, target));
        }
    }
    proof {
        assert(orig.subrange(0, orig.len() as int) =~= orig);
    }
    Ok(out)
}

/// The parsed form of a raw directive, if its dialects parse.
pub open spec fn spec_directive_parse(raw: RawDirective) -> Option<DirectiveView> {
    if spec_dialects_parse(raw.dialects.deep_view()) {
        Some(
            DirectiveView {
                description: raw.description@,
                dialects: Seq::new(
                    raw.dialects@.len(),
                    |j: int| spec_parse_dialect(raw.dialects.deep_view()[j])->0,
                ),
            },
        )
    } else {
        None
    }
}

/// The visible directive table: dialect-only filtering, no version gating.
pub open spec fn spec_process_directives(
    raws: Seq<(String, RawDirective)>,
    dialect: Dialect,
) -> Seq<(Seq<char>, DirectiveView)>
    decreases raws.len(),
{
    if raws.len() == 0 {
        Seq::empty()
    } else {
        let done = spec_process_directives(raws.drop_last(), dialect);
        done + match spec_directive_parse(raws.last().1) {
            Option::Some(d) => if spec_allows_dialects(dialect, d.dialects) {
                seq![(raws.last().0@, d)]
            } else {
                Seq::empty()
            },
            Option::None => Seq::empty(),
        }
    }
}

/// Build the visible directive table for the active settings.
pub fn process_directives(raw: RawDirectives, settings: &Settings) -> (r: Result<
    Directives,
    SettingsError,
>)
    ensures
        r is Ok,
        r matches Ok(dirs) ==> spec_table_view(dirs@) == spec_process_directives(
            raw@,
            settings.dialect,
        ),
{
    let ghost orig = raw@;
    let ghost dialect = settings.dialect;
    let mut out: Directives = Vec::new();
    let mut rest = raw;
    while rest.len() > 0
        invariant
            rest@.len() <= orig.len(),
            rest@ == orig.subrange(orig.len() - rest@.len(), orig.len() as int),
            spec_table_view(out@) == spec_process_directives(
                orig.subrange(0, orig.len() - rest@.len()),
                dialect,
            ),
            dialect == settings.dialect,
        decreases rest@.len(),
    {
        let ghost k = orig.len() - rest@.len();
        let entry = rest.remove(0);
        proof {
            assert(entry == orig[k]);
            assert(rest@ =~= orig.subrange(k + 1, orig.len() as int));
        }
        let (mnemonic, raw_directive) = entry;
        match Directive::try_from(raw_directive) {
            Ok(d) => {
                proof {
                    assert(spec_directive_parse(orig[k].1) is Some);
                    assert(spec_directive_parse(orig[k].1)->0.dialects =~= d@.dialects);
                    assert(spec_directive_parse(orig[k].1)->0 =~= d@);
                }
                if settings.allows_dialects(d.dialects.as_slice()) {
                    out.push((mnemonic, d));
                }
            },
            Err(_) => {
                proof {
                    assert(spec_directive_parse(orig[k].1) is None);
                }
            },
        }
        proof {
            let pre = orig.subrange(0, k + 1);
            assert(pre.drop_last() =~= orig.subrange(0, k));
            assert(pre.last() == orig[k]);
            assert(spec_table_view(out@) =~= spec_process_directives(pre, dialect));
        }
    }
    proof {
        assert(orig.subrange(0, orig.len() as int) =~= orig);
    }
    Ok(out)
}

proof fn lemma_process_instructions_key_from_raw(
    raws: Seq<(String, Vec<RawInstructionVariant>)>,
    dialect: Dialect,
    target: VersionLabel,
    i: int,
)
    requires
        0 <= i < spec_process_instructions(raws, dialect, target).len(),
    ensures
        exists|j: int|
            0 <= j < raws.len() && spec_process_instructions(raws, dialect, target)[i].0 == (
            #[trigger] raws[j]).0@,
    decreases raws.len(),
{
    let out = spec_process_instructions(raws, dialect, target);
    let done = spec_process_instructions(raws.drop_last(), dialect, target);
    if i < done.len() {
        lemma_process_instructions_key_from_raw(raws.drop_last(), dialect, target, i);
        let j = choose|j: int|
            0 <= j < raws.drop_last().len() && done[i].0 == (#[trigger] raws.drop_last()[j]).0@;
        assert(raws.drop_last()[j] == raws[j]);
        assert(0 <= j < raws.len() && out[i].0 == raws[j].0@);
    } else {
        assert(out[i].0 == raws[raws.len() - 1].0@);
    }
}

proof fn lemma_process_instructions_keys_unique(
    raws: Seq<(String, Vec<RawInstructionVariant>)>,
    dialect: Dialect,
    target: VersionLabel,
)
    requires
        spec_entry_keys_unique(raws),
    ensures
        spec_view_keys_unique(spec_process_instructions(raws, dialect, target)),
    decreases raws.len(),
{
    let out = spec_process_instructions(raws, dialect, target);
    if raws.len() > 0 {
        let prev = raws.drop_last();
        let done = spec_process_instructions(prev, dialect, target);
        assert forall|i: int, j: int| 0 <= i < j < prev.len() implies (#[trigger] prev[i]).0@ != (
        #[trigger] prev[j]).0@ by {
            assert(prev[i] == raws[i]);
            assert(prev[j] == raws[j]);
        }
        lemma_process_instructions_keys_unique(prev, dialect, target);
        if out.len() > done.len() {
            assert forall|i: int| 0 <= i < done.len() implies (#[trigger] done[i]).0 != out[out.len()
                - 1].0 by {
                lemma_process_instructions_key_from_raw(prev, dialect, target, i);
                let j = choose|j: int|
                    0 <= j < prev.len() && done[i].0 == (#[trigger] prev[j]).0@;
                assert(prev[j] == raws[j]);
                assert(raws[j].0@ != raws[raws.len() - 1].0@);
            }
        }
        assert forall|i: int, j: int| 0 <= i < j < out.len() implies (#[trigger] out[i]).0 != (
        #[trigger] out[j]).0 by {
            if j < done.len() {
                assert(done[i].0 != done[j].0);
            } else {
                assert(out[i] == done[i]);
            }
        }
    }
}

proof fn lemma_process_directives_key_from_raw(
    raws: Seq<(String, RawDirective)>,
    dialect: Dialect,
    i: int,
)
    requires
        0 <= i < spec_process_directives(raws, dialect).len(),
    ensures
        exists|j: int|
            0 <= j < raws.len() && spec_process_directives(raws, dialect)[i].0 == (
            #[trigger] raws[j]).0@,
    decreases raws.len(),
{
    let out = spec_process_directives(raws, dialect);
    let done = spec_process_directives(raws.drop_last(), dialect);
    if i < done.len() {
        lemma_process_directives_key_from_raw(raws.drop_last(), dialect, i);
        let j = choose|j: int|
            0 <= j < raws.drop_last().len() && done[i].0 == (#[trigger] raws.drop_last()[j]).0@;
        assert(raws.drop_last()[j] == raws[j]);
        assert(0 <= j < raws.len() && out[i].0 == raws[j].0@);
    } else {
        assert(out[i].0 == raws[raws.len() - 1].0@);
    }
}

proof fn lemma_process_directives_keys_unique(raws: Seq<(String, RawDirective)>, dialect: Dialect)
    requires
        spec_entry_keys_unique(raws),
    ensures
        spec_view_keys_unique(spec_process_directives(raws, dialect)),
    decreases raws.len(),
{
    let out = spec_process_directives(raws, dialect);
    if raws.len() > 0 {
        let prev = raws.drop_last();
        let done = spec_process_directives(prev, dialect);
        assert forall|i: int, j: int| 0 <= i < j < prev.len() implies (#[trigger] prev[i]).0@ != (
        #[trigger] prev[j]).0@ by {
            assert(prev[i] == raws[i]);
            assert(prev[j] == raws[j]);
        }
        lemma_process_directives_keys_unique(prev, dialect);
        if out.len() > done.len() {
            assert forall|i: int| 0 <= i < done.len() implies (#[trigger] done[i]).0 != out[out.len()
                - 1].0 by {
                lemma_process_directives_key_from_raw(prev, dialect, i);
                let j = choose|j: int|
                    0 <= j < prev.len() && done[i].0 == (#[trigger] prev[j]).0@;
                assert(prev[j] == raws[j]);
                assert(raws[j].0@ != raws[raws.len() - 1].0@);
            }
        }
        assert forall|i: int, j: int| 0 <= i < j < out.len() implies (#[trigger] out[i]).0 != (
        #[trigger] out[j]).0 by {
            if j < done.len() {
                assert(done[i].0 != done[j].0);
            } else {
                assert(out[i] == done[i]);
            }
        }
    }
}

proof fn lemma_view_keys_unique_transfers<T: View>(entries: Seq<(String, T)>)
    requires
        spec_view_keys_unique(spec_table_view(entries)),
    ensures
        spec_entry_keys_unique(entries),
{
    assert forall|i: int, j: int| 0 <= i < j < entries.len() implies (#[trigger] entries[i]).0@ != (
    #[trigger] entries[j]).0@ by {
        assert(spec_table_view(entries)[i].0 == entries[i].0@);
        assert(spec_table_view(entries)[j].0 == entries[j].0@);
        assert(spec_table_view(entries)[i].0 != spec_table_view(entries)[j].0);
    }
}

proof fn lemma_surviving_variant_survives(
    rvs: Seq<RawInstructionVariant>,
    dialect: Dialect,
    target: VersionLabel,
    j: int,
)
    requires
        0 <= j < spec_surviving_variants(rvs, dialect, target).len(),
    ensures
        spec_variant_survives(spec_surviving_variants(rvs, dialect, target)[j], dialect, target),
    decreases rvs.len(),
{
    let sv = spec_surviving_variants(rvs, dialect, target);
    let svp = spec_surviving_variants(rvs.drop_last(), dialect, target);
    if j < svp.len() {
        lemma_surviving_variant_survives(rvs.drop_last(), dialect, target, j);
    }
}

/// Every variant of every entry of the visible instruction table survives
/// the dialect and version filter.
pub proof fn lemma_processed_variants_survive(
    raws: Seq<(String, Vec<RawInstructionVariant>)>,
    dialect: Dialect,
    target: VersionLabel,
    i: int,
    j: int,
)
    requires
        0 <= i < spec_process_instructions(raws, dialect, target).len(),
        0 <= j < spec_process_instructions(raws, dialect, target)[i].1.variants.len(),
    ensures
        spec_variant_survives(
            spec_process_instructions(raws, dialect, target)[i].1.variants[j],
            dialect,
            target,
        ),
    decreases raws.len(),
{
    let out = spec_process_instructions(raws, dialect, target);
    let done = spec_process_instructions(raws.drop_last(), dialect, target);
    if i < done.len() {
        lemma_processed_variants_survive(raws.drop_last(), dialect, target, i, j);
    } else {
        lemma_surviving_variant_survives(raws.last().1@, dialect, target, j);
    }
}

/// Law: unless the active dialect is one of the two permissive ones, a
/// variant whose `introduced` label is not in the target version's ancestor
/// set never appears in the visible instruction table.
pub proof fn lemma_filtered_requires_introduced_ancestor(
    raws: Seq<(String, Vec<RawInstructionVariant>)>,
    dialect: Dialect,
    target: VersionLabel,
    i: int,
    j: int,
)
    requires
        !spec_permissive_dialect(dialect),
        0 <= i < spec_process_instructions(raws, dialect, target).len(),
        0 <= j < spec_process_instructions(raws, dialect, target)[i].1.variants.len(),
    ensures
        is_ancestor(target, spec_process_instructions(raws, dialect, target)[i].1.variants[j].introduced),
{
    lemma_processed_variants_survive(raws, dialect, target, i, j);
}

/// Law: unless the active dialect is one of the two permissive ones, a
/// variant whose deprecation label is in the target version's ancestor set
/// never appears in the visible instruction table.
pub proof fn lemma_filtered_excludes_deprecated(
    raws: Seq<(String, Vec<RawInstructionVariant>)>,
    dialect: Dialect,
    target: VersionLabel,
    i: int,
    j: int,
)
    requires
        !spec_permissive_dialect(dialect),
        0 <= i < spec_process_instructions(raws, dialect, target).len(),
        0 <= j < spec_process_instructions(raws, dialect, target)[i].1.variants.len(),
    ensures
        spec_process_instructions(raws, dialect, target)[i].1.variants[j].deprecated matches Some(
            d,
        ) ==> !is_ancestor(target, d),
{
    lemma_processed_variants_survive(raws, dialect, target, i, j);
}

/// Law: for a non-permissive active dialect, a variant appears in the
/// visible instruction table only if the dialect is the wildcard or the
/// variant's dialect set names it.
pub proof fn lemma_filtered_respects_dialect(
    raws: Seq<(String, Vec<RawInstructionVariant>)>,
    dialect: Dialect,
    target: VersionLabel,
    i: int,
    j: int,
)
    requires
        !spec_permissive_dialect(dialect),
        0 <= i < spec_process_instructions(raws, dialect, target).len(),
        0 <= j < spec_process_instructions(raws, dialect, target)[i].1.variants.len(),
    ensures
        dialect == Dialect::Unspecified || spec_process_instructions(
            raws,
            dialect,
            target,
        )[i].1.variants[j].dialects.contains(dialect),
{
    lemma_processed_variants_survive(raws, dialect, target, i, j);
}

impl LanguageDefinitions {
    /// Well-formedness of the aggregate: every table's keys are pairwise
    /// distinct, so a lookup has at most one possible match.
    pub open spec fn wf(&self) -> bool {
        &&& spec_entry_keys_unique(self.instructions@)
        &&& spec_entry_keys_unique(self.directives@)
        &&& spec_entry_keys_unique(self.registers.numeric@)
        &&& spec_entry_keys_unique(self.registers.common@)
        &&& spec_entry_keys_unique(self.registers.float@)
    }

    /// Build the aggregate knowledge base from raw records under the active
    /// settings. Registers are taken verbatim. Raw records with distinct
    /// mnemonics (which map-shaped resources guarantee) yield a well-formed
    /// aggregate.
    pub fn new(
        raw_instructions: RawInstructions,
        raw_directives: RawDirectives,
        registers: Registers,
        settings: &Settings,
    ) -> (r: LanguageDefinitions)
        ensures
            spec_table_view(r.instructions@) == spec_process_instructions(
                raw_instructions@,
                settings.dialect,
                settings.version.spec_label(),
            ),
            spec_table_view(r.directives@) == spec_process_directives(
                raw_directives@,
                settings.dialect,
            ),
            r.registers == registers,
            (spec_entry_keys_unique(raw_instructions@) && spec_entry_keys_unique(raw_directives@)
                && spec_entry_keys_unique(registers.numeric@) && spec_entry_keys_unique(
                registers.common@,
            ) && spec_entry_keys_unique(registers.float@)) ==> r.wf(),
    {
        let ghost raw_i = raw_instructions@;
        let ghost raw_d = raw_directives@;
        let instructions = match process_instructions(raw_instructions, settings) {
            Ok(i) => i,
            Err(_) => {
                proof {
                    assert(false);
                }
                Vec::new()
            },
        };
        let directives = match process_directives(raw_directives, settings) {
            Ok(d) => d,
            Err(_) => {
                proof {
                    assert(false);
                }
                Vec::new()
            },
        };
        proof {
            if spec_entry_keys_unique(raw_i) {
                lemma_process_instructions_keys_unique(
                    raw_i,
                    settings.dialect,
                    settings.version.spec_label(),
                );
                lemma_view_keys_unique_transfers(instructions@);
            }
            if spec_entry_keys_unique(raw_d) {
                lemma_process_directives_keys_unique(raw_d, settings.dialect);
                lemma_view_keys_unique_transfers(directives@);
            }
        }
        LanguageDefinitions { instructions, directives, registers }
    }
}

} // verus!
