//! The completion resolver: classify what is being typed at the cursor and
//! produce the correctly scoped candidate set.

use vstd::prelude::*;
use vstd::string::*;
use vstd::utf8::encode_utf8;

use crate::document::Document;
use crate::document::document_line;
use crate::document::spec_line_content;
use crate::language_definitions::DirectiveView;
use crate::language_definitions::InstructionView;
use crate::language_definitions::LanguageDefinitions;
use crate::language_definitions::Registers;
use crate::language_definitions::assoc_get;
use crate::language_definitions::spec_assoc_lookup;
use crate::language_definitions::spec_table_view;
use crate::tree::Position;
use crate::tree::TextRange;
use crate::tree::spec_line_start;

verus! {

/// The protocol classification tag of a candidate.
#[derive(Debug, Clone, Copy, PartialEq, Eq, Structural)]
pub enum CompletionKind {
    Keyword,
    Value,
}

/// One completion candidate.
pub struct CompletionItem {
    pub label: String,
    pub detail: String,
    pub completion_type: String,
    pub documentation: String,
    pub kind: CompletionKind,
    pub new_text: String,
    pub range: TextRange,
}

/// The mathematical shape of a candidate.
#[verifier::ext_equal]
pub ghost struct CompletionItemView {
    pub label: Seq<char>,
    pub detail: Seq<char>,
    pub completion_type: Seq<char>,
    pub documentation: Seq<char>,
    pub kind: CompletionKind,
    pub new_text: Seq<char>,
    pub range: TextRange,
}

impl View for CompletionItem {
    type V = CompletionItemView;

    open spec fn view(&self) -> CompletionItemView {
        CompletionItemView {
            label: self.label@,
            detail: self.detail@,
            completion_type: self.completion_type@,
            documentation: self.documentation@,
            kind: self.kind,
            new_text: self.new_text@,
            range: self.range,
        }
    }
}

/// A candidate list with its completeness flag.
pub struct CompletionList {
    pub items: Vec<CompletionItem>,
    pub is_incomplete: bool,
}

/// The mathematical shape of a candidate list.
#[verifier::ext_equal]
pub ghost struct CompletionListView {
    pub items: Seq<CompletionItemView>,
    pub is_incomplete: bool,
}

impl View for CompletionList {
    type V = CompletionListView;

    open spec fn view(&self) -> CompletionListView {
        CompletionListView {
            items: self.items@.map_values(|it: CompletionItem| it@),
            is_incomplete: self.is_incomplete,
        }
    }
}

/// Build one candidate; the expansion is both the label and the replacement
/// text.
pub fn completion_item(
    detail: String,
    completion_type: String,
    documentation: String,
    kind: CompletionKind,
    expansion: String,
    range: TextRange,
) -> (r: CompletionItem)
    ensures
        r@.label == expansion@,
        r@.detail == detail@,
        r@.completion_type == completion_type@,
        r@.documentation == documentation@,
        r@.kind == kind,
        r@.new_text == expansion@,
        r@.range == range,
{
    let label = expansion.clone();
    CompletionItem { label, detail, completion_type, documentation, kind, new_text: expansion, range }
}

/// Wrap candidates in a list, recording whether the set is complete.
pub fn completion_response(items: Vec<CompletionItem>, is_complete: bool) -> (r: CompletionList)
    ensures
        r.items == items,
        r.is_incomplete == !is_complete,
{
    CompletionList { items, is_incomplete: !is_complete }
}

/// The identifier charset of the prefix scan.
pub open spec fn spec_allowed_byte(b: u8) -> bool {
    (97 <= b && b <= 122) || (65 <= b && b <= 90) || (48 <= b && b <= 57) || b == 46 || b == 95
        || b == 36 || b == 37 || b == 92 || b == 64
}

/// The backward prefix scan from `idx`: while the preceding character is in
/// the identifier charset it is recorded and the scan moves left; a position
/// beyond the line is skipped without a record. The result is the start of
/// the replacement range and the last recorded character (the byte for a
/// space when none was recorded).
pub open spec fn spec_prefix_scan(line: Seq<u8>, idx: int, last: u8) -> (int, u8)
    decreases idx when idx >= 0
{
    if idx <= 0 {
        (0int, last)
    } else if idx - 1 < line.len() {
        if spec_allowed_byte(line[idx - 1]) {
            spec_prefix_scan(line, idx - 1, line[idx - 1])
        } else {
            (idx, last)
        }
    } else {
        spec_prefix_scan(line, idx - 1, last)
    }
}

/// Run the backward prefix scan from the cursor.
fn prefix_scan(line: &Vec<u8>, character: u32) -> (r: (u32, u8))
    ensures
        (r.0 as int, r.1) == spec_prefix_scan(line@, character as int, 32),
        r.0 <= character,
{
    let mut starting_index: u32 = character;
    let mut starting_char: u8 = 32;
    loop
        invariant
            starting_index <= character,
            spec_prefix_scan(line@, character as int, 32) == spec_prefix_scan(
                line@,
                starting_index as int,
                starting_char,
            ),
        decreases starting_index,
    {
        if starting_index == 0 {
            return (starting_index, starting_char);
        }
        let prev = (starting_index - 1) as usize;
        if prev < line.len() {
            let b = line[prev];
            let allowed = (97 <= b && b <= 122) || (65 <= b && b <= 90) || (48 <= b && b <= 57)
                || b == 46 || b == 95 || b == 36 || b == 37 || b == 92 || b == 64;
            if allowed {
                starting_char = b;
            } else {
                return (starting_index, starting_char);
            }
        }
        starting_index = starting_index - 1;
    }
}

/// One directive candidate: the mnemonic with its marker character back in
/// front, carrying the directive's description.
pub open spec fn spec_directive_item(
    entry: (Seq<char>, DirectiveView),
    range: TextRange,
) -> CompletionItemView {
    CompletionItemView {
        label: "."@ + entry.0,
        detail: "MIPS directive: ."@ + entry.0,
        completion_type: "directive"@,
        documentation: entry.1.description,
        kind: CompletionKind::Keyword,
        new_text: "."@ + entry.0,
        range,
    }
}

/// The directive candidates, one per visible directive, in table order.
pub open spec fn spec_directive_items(
    entries: Seq<(Seq<char>, DirectiveView)>,
    range: TextRange,
) -> Seq<CompletionItemView> {
    entries.map_values(|e: (Seq<char>, DirectiveView)| spec_directive_item(e, range))
}

/// Directive-mode completion: every visible directive, always complete.
pub fn complete_directive(definitions: &LanguageDefinitions, range: TextRange) -> (r:
    CompletionList)
    ensures
        r@.items == spec_directive_items(spec_table_view(definitions.directives@), range),
        r@.is_incomplete == false,
{
    let ghost tv = spec_table_view(definitions.directives@);
    let mut items: Vec<CompletionItem> = Vec::new();
    let n = definitions.directives.len();
    let mut i: usize = 0;
    while i < n
        invariant
            n == definitions.directives@.len(),
            i <= n,
            tv == spec_table_view(definitions.directives@),
            items@.len() == i,
            forall|k: int| 0 <= k < i ==> (#[trigger] items@[k])@ == spec_directive_item(
                tv[k],
                range,
            ),
        decreases n - i,
    {
        let mnemonic = &definitions.directives[i].0;
        let detail = String::from_str("MIPS directive: .").concat(mnemonic.as_str());
        let expansion = String::from_str(".").concat(mnemonic.as_str());
        let item = completion_item(
            detail,
            String::from_str("directive"),
            definitions.directives[i].1.description.clone(),
            CompletionKind::Keyword,
            expansion,
            range,
        );
        items.push(item);
        proof {
            assert(items@[i as int]@ =~= spec_directive_item(tv[i as int], range));
        }
        i += 1;
    }
    proof {
        assert(items@.map_values(|it: CompletionItem| it@) =~= spec_directive_items(tv, range));
    }
    completion_response(items, true)
}

/// One register candidate.
pub open spec fn spec_register_item(
    entry: (Seq<char>, Seq<char>),
    range: TextRange,
) -> CompletionItemView {
    CompletionItemView {
        label: entry.0,
        detail: "MIPS register: "@ + entry.0,
        completion_type: "register"@,
        documentation: entry.1,
        kind: CompletionKind::Value,
        new_text: entry.0,
        range,
    }
}

/// Register candidates for one alias table, in table order.
pub open spec fn spec_register_items(
    entries: Seq<(Seq<char>, Seq<char>)>,
    range: TextRange,
) -> Seq<CompletionItemView> {
    entries.map_values(|e: (Seq<char>, Seq<char>)| spec_register_item(e, range))
}

/// The float-table entries whose alias the common table does not also hold.
pub open spec fn spec_unshadowed_float(
    float: Seq<(Seq<char>, Seq<char>)>,
    common: Seq<(Seq<char>, Seq<char>)>,
) -> Seq<(Seq<char>, Seq<char>)>
    decreases float.len(),
{
    if float.len() == 0 {
        Seq::empty()
    } else {
        spec_unshadowed_float(float.drop_last(), common) + (if spec_assoc_lookup(
            common,
            float.last().0,
        ) is None {
            seq![float.last()]
        } else {
            Seq::empty()
        })
    }
}

/// The byte the register-mode lookahead inspects: the character immediately
/// following the register prefix, when the line has one.
pub open spec fn spec_lookahead(line: Seq<u8>, starting_index: int) -> Option<u8> {
    if 0 <= starting_index + 1 < line.len() {
        Some(line[starting_index + 1])
    } else {
        None
    }
}

/// The alias table register-mode completion offers, chosen by the lookahead:
/// the float/common union for a second prefix character or nothing, the
/// numeric table for a digit, the float table for the float marker letter,
/// and the common table otherwise.
pub open spec fn spec_register_choice(
    registers: Registers,
    line: Seq<u8>,
    starting_index: int,
) -> Seq<(Seq<char>, Seq<char>)> {
    let common = spec_table_view(registers.common@);
    let float = spec_table_view(registers.float@);
    match spec_lookahead(line, starting_index) {
        Option::None => spec_unshadowed_float(float, common) + common,
        Option::Some(b) => {
            if b == 36 {
                spec_unshadowed_float(float, common) + common
            } else if 48 <= b && b <= 57 {
                spec_table_view(registers.numeric@)
            } else if b == 102 {
                float
            } else {
                common
            }
        },
    }
}

/// Append register candidates for every entry of one table.
fn push_register_items(
    items: &mut Vec<CompletionItem>,
    table: &Vec<(String, String)>,
    range: TextRange,
)
    ensures
        final(items)@.map_values(|it: CompletionItem| it@) == old(items)@.map_values(
            |it: CompletionItem| it@,
        ) + spec_register_items(spec_table_view(table@), range),
{
    let ghost base_len = items@.len();
    let ghost base = items@;
    let ghost tv = spec_table_view(table@);
    let n = table.len();
    let mut i: usize = 0;
    while i < n
        invariant
            n == table@.len(),
            i <= n,
            tv == spec_table_view(table@),
            base == old(items)@,
            base_len == old(items)@.len(),
            items@.len() == base_len + i,
            forall|k: int| 0 <= k < base_len ==> items@[k] == base[k],
            forall|k: int|
                0 <= k < i ==> (#[trigger] items@[base_len + k])@ == spec_register_item(
                    tv[k],
                    range,
                ),
        decreases n - i,
    {
        let keyword = &table[i].0;
        let detail = String::from_str("MIPS register: ").concat(keyword.as_str());
        let item = completion_item(
            detail,
            String::from_str("register"),
            table[i].1.clone(),
            CompletionKind::Value,
            keyword.clone(),
            range,
        );
        items.push(item);
        proof {
            assert(items@[base_len + i]@ =~= spec_register_item(tv[i as int], range));
        }
        i += 1;
    }
    proof {
        let lhs = items@.map_values(|it: CompletionItem| it@);
        let rhs = base.map_values(|it: CompletionItem| it@) + spec_register_items(tv, range);
        assert forall|k: int| 0 <= k < lhs.len() implies lhs[k] == rhs[k] by {
            if k >= base_len {
                let j = k - base_len;
                assert(items@[base_len + j]@ == spec_register_item(tv[j], range));
            }
        }
        assert(lhs =~= rhs);
    }
}

/// The float-table entries whose alias the common table does not also hold,
/// as an alias table of their own.
fn unshadowed_float_table(float: &Vec<(String, String)>, common: &Vec<(String, String)>) -> (r:
    Vec<(String, String)>)
    ensures
        spec_table_view(r@) == spec_unshadowed_float(
            spec_table_view(float@),
            spec_table_view(common@),
        ),
{
    let ghost fv = spec_table_view(float@);
    let ghost cv = spec_table_view(common@);
    let mut out: Vec<(String, String)> = Vec::new();
    let n = float.len();
    let mut i: usize = 0;
    while i < n
        invariant
            n == float@.len(),
            i <= n,
            fv == spec_table_view(float@),
            cv == spec_table_view(common@),
            spec_table_view(out@) =~= spec_unshadowed_float(fv.subrange(0, i as int), cv),
        decreases n - i,
    {
        let keyword = &float[i].0;
        if assoc_get(common, keyword.as_str()).is_none() {
            out.push((keyword.clone(), float[i].1.clone()));
        }
        proof {
            let pre = fv.subrange(0, i + 1);
            assert(pre.drop_last() =~= fv.subrange(0, i as int));
            assert(pre.last() == fv[i as int]);
            assert(spec_table_view(out@) =~= spec_unshadowed_float(pre, cv));
        }
        i += 1;
    }
    proof {
        assert(fv.subrange(0, n as int) =~= fv);
    }
    out
}

/// Register-mode completion: the table chosen by the single-character
/// lookahead; always marked incomplete, since one more character could
/// invalidate the narrowing.
pub fn complete_register(
    definitions: &LanguageDefinitions,
    range: TextRange,
    line_content: &Vec<u8>,
    character: u32,
    starting_index: u32,
) -> (r: CompletionList)
    ensures
        r@.items == spec_register_items(
            spec_register_choice(definitions.registers, line_content@, starting_index as int),
            range,
        ),
        r@.is_incomplete == true,
{
    let mut items: Vec<CompletionItem> = Vec::new();
    let n = line_content.len();
    let next_index = (starting_index as usize).checked_add(1);
    let lookahead: Option<u8> = match next_index {
        Option::Some(ni) => {
            if ni < n {
                Some(line_content[ni])
            } else {
                None
            }
        },
        Option::None => None,
    };
    proof {
        assert(line_content@.len() == n);
        assert(lookahead == spec_lookahead(line_content@, starting_index as int));
    }
    let offer_union = match lookahead {
        Option::None => true,
        Option::Some(b) => b == 36,
    };
    if offer_union {
        let unshadowed = unshadowed_float_table(
            &definitions.registers.float,
            &definitions.registers.common,
        );
        push_register_items(&mut items, &unshadowed, range);
        push_register_items(&mut items, &definitions.registers.common, range);
        proof {
            assert(spec_register_items(
                spec_unshadowed_float(
                    spec_table_view(definitions.registers.float@),
                    spec_table_view(definitions.registers.common@),
                ),
                range,
            ) + spec_register_items(spec_table_view(definitions.registers.common@), range)
                =~= spec_register_items(
                spec_register_choice(definitions.registers, line_content@, starting_index as int),
                range,
            ));
        }
    } else {
        let b = match lookahead {
            Option::Some(b) => b,
            Option::None => 0,
        };
        if 48 <= b && b <= 57 {
            push_register_items(&mut items, &definitions.registers.numeric, range);
        } else if b == 102 {
            push_register_items(&mut items, &definitions.registers.float, range);
        } else {
            push_register_items(&mut items, &definitions.registers.common, range);
        }
    }
    // Narrowed by a single lookahead character: never complete.
    completion_response(items, false)
}

/// Whether the mnemonic's encoding starts with the typed byte prefix.
pub open spec fn spec_starts_with_bytes(m: Seq<char>, p: Seq<u8>) -> bool {
    let b = encode_utf8(m);
    p.len() <= b.len() && b.subrange(0, p.len() as int) == p
}

/// Whether an instruction is offered for the typed prefix: all of them when
/// no mnemonic-separator narrowing applies.
pub open spec fn spec_instruction_offered(m: Seq<char>, filter: Option<Seq<u8>>) -> bool {
    match filter {
        Option::None => true,
        Option::Some(p) => spec_starts_with_bytes(m, p),
    }
}

/// One instruction candidate.
pub open spec fn spec_instruction_item(
    entry: (Seq<char>, InstructionView),
    range: TextRange,
) -> CompletionItemView {
    CompletionItemView {
        label: entry.0,
        detail: "MIPS instruction: "@ + entry.0,
        completion_type: "instruction"@,
        documentation: entry.1.description,
        kind: CompletionKind::Keyword,
        new_text: entry.0,
        range,
    }
}

/// The instruction candidates that pass the separator narrowing, in table
/// order.
pub open spec fn spec_instruction_items(
    entries: Seq<(Seq<char>, InstructionView)>,
    filter: Option<Seq<u8>>,
    range: TextRange,
) -> Seq<CompletionItemView>
    decreases entries.len(),
{
    if entries.len() == 0 {
        Seq::empty()
    } else {
        spec_instruction_items(entries.drop_last(), filter, range) + (if spec_instruction_offered(
            entries.last().0,
            filter,
        ) {
            seq![spec_instruction_item(entries.last(), range)]
        } else {
            Seq::empty()
        })
    }
}

/// The index of the last mnemonic-separator byte of the typed prefix.
pub open spec fn spec_rfind_dot(t: Seq<u8>) -> Option<int>
    decreases t.len(),
{
    if t.len() == 0 {
        None
    } else if t.last() == 46 {
        Some(t.len() - 1)
    } else {
        spec_rfind_dot(t.drop_last())
    }
}

/// The semantic narrowing filter of instruction mode: the typed text up to
/// and including its last separator, when it has one.
pub open spec fn spec_instruction_filter(typed: Seq<u8>) -> Option<Seq<u8>> {
    match spec_rfind_dot(typed) {
        Option::None => None,
        Option::Some(i) => Some(typed.subrange(0, i + 1)),
    }
}

/// Whether the mnemonic starts with the byte prefix.
fn starts_with_bytes(m: &String, p: &Vec<u8>) -> (r: bool)
    ensures
        r == spec_starts_with_bytes(m@, p@),
{
    let mb = m.as_str().as_bytes();
    let np = p.len();
    if np > mb.len() {
        return false;
    }
    let mut i: usize = 0;
    while i < np
        invariant
            np == p@.len(),
            np <= mb@.len(),
            mb@ == encode_utf8(m@),
            i <= np,
            forall|j: int| 0 <= j < i ==> mb@[j] == p@[j],
        decreases np - i,
    {
        if mb[i] != p[i] {
            return false;
        }
        i += 1;
    }
    proof {
        assert(encode_utf8(m@).subrange(0, np as int) =~= p@);
    }
    true
}

/// Instruction-mode completion: the full visible instruction set, narrowed
/// to one separator-delimited family when the typed text contains a
/// separator; always complete. A cursor outside the typed range yields an
/// empty (complete) result.
pub fn complete_instruction(
    definitions: &LanguageDefinitions,
    range: TextRange,
    line_content: &Vec<u8>,
    character: u32,
    starting_index: u32,
) -> (r: CompletionList)
    ensures
        r@.is_incomplete == false,
        (character < starting_index || character as int > line_content@.len()) ==> r@.items
            == Seq::<CompletionItemView>::empty(),
        (starting_index <= character && character as int <= line_content@.len()) ==> r@.items
            == spec_instruction_items(
            spec_table_view(definitions.instructions@),
            spec_instruction_filter(
                line_content@.subrange(starting_index as int, character as int),
            ),
            range,
        ),
{
    let start = starting_index as usize;
    let cursor = character as usize;
    if cursor < start || cursor > line_content.len() {
        return completion_response(Vec::new(), true);
    }
    let ghost typed = line_content@.subrange(starting_index as int, character as int);

    // Locate the last separator of the typed prefix, scanning backward.
    let mut dot_end: usize = 0;
    let mut found = false;
    let mut j: usize = cursor;
    while j > start
        invariant_except_break
            !found,
            dot_end == 0,
        invariant
            start <= j <= cursor,
            cursor <= line_content@.len(),
            typed == line_content@.subrange(start as int, cursor as int),
            spec_rfind_dot(typed) == spec_rfind_dot(
                line_content@.subrange(start as int, j as int),
            ),
        ensures
            found ==> start < dot_end <= cursor && spec_rfind_dot(typed) == Some(
                dot_end - 1 - start,
            ),
            !found ==> spec_rfind_dot(typed) is None,
        decreases j,
    {
        proof {
            let pre = line_content@.subrange(start as int, j as int);
            assert(pre.last() == line_content@[j - 1]);
            assert(pre.drop_last() =~= line_content@.subrange(start as int, j - 1));
        }
        if line_content[j - 1] == 46 {
            found = true;
            dot_end = j;
            proof {
                let pre = line_content@.subrange(start as int, j as int);
                assert(pre.last() == 46);
                assert(spec_rfind_dot(pre) == Some(pre.len() - 1));
            }
            break ;
        }
        j -= 1;
    }
    let prefix: Option<Vec<u8>> = if found {
        let mut p: Vec<u8> = Vec::new();
        let mut k: usize = start;
        while k < dot_end
            invariant
                start <= k <= dot_end <= line_content@.len(),
                p@ == line_content@.subrange(start as int, k as int),
            decreases dot_end - k,
        {
            p.push(line_content[k]);
            proof {
                assert(p@ =~= line_content@.subrange(start as int, k + 1));
            }
            k += 1;
        }
        Some(p)
    } else {
        None
    };
    let ghost filter = spec_instruction_filter(typed);
    proof {
        match &prefix {
            Option::Some(p) => {
                assert(spec_rfind_dot(typed) == Some(dot_end - 1 - start));
                assert(typed.subrange(0, dot_end - start) =~= line_content@.subrange(
                    start as int,
                    dot_end as int,
                ));
                assert(filter == Some(p@));
            },
            Option::None => {
                assert(filter is None);
            },
        }
    }

    let ghost tv = spec_table_view(definitions.instructions@);
    let mut items: Vec<CompletionItem> = Vec::new();
    let n = definitions.instructions.len();
    let mut i: usize = 0;
    while i < n
        invariant
            n == definitions.instructions@.len(),
            i <= n,
            tv == spec_table_view(definitions.instructions@),
            prefix matches Some(p) ==> filter == Some(p@),
            prefix is None ==> filter is None,
            items@.map_values(|it: CompletionItem| it@) =~= spec_instruction_items(
                tv.subrange(0, i as int),
                filter,
                range,
            ),
        decreases n - i,
    {
        let mnemonic = &definitions.instructions[i].0;
        let offered = match &prefix {
            Option::Some(p) => starts_with_bytes(mnemonic, p),
            Option::None => true,
        };
        if offered {
            let detail = String::from_str("MIPS instruction: ").concat(mnemonic.as_str());
            let item = completion_item(
                detail,
                String::from_str("instruction"),
                definitions.instructions[i].1.description.clone(),
                CompletionKind::Keyword,
                mnemonic.clone(),
                range,
            );
            items.push(item);
        }
        proof {
            let pre = tv.subrange(0, i + 1);
            assert(pre.drop_last() =~= tv.subrange(0, i as int));
            assert(pre.last() == tv[i as int]);
            assert(items@.map_values(|it: CompletionItem| it@) =~= spec_instruction_items(
                pre,
                filter,
                range,
            ));
        }
        i += 1;
    }
    proof {
        assert(tv.subrange(0, n as int) =~= tv);
    }
    completion_response(items, true)
}

/// The candidate list for a cursor position on one line: the completion mode
/// is decided by the last recorded character of the backward prefix scan.
pub open spec fn spec_get_completions(
    definitions: LanguageDefinitions,
    line: Seq<u8>,
    pos: Position,
) -> CompletionListView {
    let scan = spec_prefix_scan(line, pos.character as int, 32);
    let range = TextRange {
        start: Position { line: pos.line, character: scan.0 as u32 },
        end: pos,
    };
    if scan.1 == 46 {
        CompletionListView {
            items: spec_directive_items(spec_table_view(definitions.directives@), range),
            is_incomplete: false,
        }
    } else if scan.1 == 36 {
        CompletionListView {
            items: spec_register_items(
                spec_register_choice(definitions.registers, line, scan.0),
                range,
            ),
            is_incomplete: true,
        }
    } else {
        CompletionListView {
            items: if pos.character as int <= line.len() {
                spec_instruction_items(
                    spec_table_view(definitions.instructions@),
                    spec_instruction_filter(line.subrange(scan.0, pos.character as int)),
                    range,
                )
            } else {
                Seq::empty()
            },
            is_incomplete: false,
        }
    }
}

/// Resolve completion at a position of a document: extract the current
/// line, scan the typed prefix, and dispatch on the completion mode.
/// `None` means the request named a line the document does not have.
pub fn get_completions(
    definitions: &LanguageDefinitions,
    doc: &Document,
    pos: Position,
) -> (r: Option<CompletionList>)
    ensures
        r is Some <==> spec_line_start(doc.text@, pos.line as nat) < doc.text@.len(),
        r matches Some(cl) ==> cl@ == spec_get_completions(
            *definitions,
            spec_line_content(doc.text@, pos.line as nat),
            pos,
        ),
{
    let line_content = match document_line(&doc.text, pos.line) {
        Option::Some(l) => l,
        Option::None => {
            return None;
        },
    };
    let (starting_index, starting_char) = prefix_scan(&line_content, pos.character);
    let range = TextRange {
        start: Position { line: pos.line, character: starting_index },
        end: pos,
    };
    if starting_char == 46 {
        Some(complete_directive(definitions, range))
    } else if starting_char == 36 {
        Some(complete_register(definitions, range, &line_content, pos.character, starting_index))
    } else {
        Some(
            complete_instruction(definitions, range, &line_content, pos.character, starting_index),
        )
    }
}

} // verus!
