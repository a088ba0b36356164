//! The hover resolver: classify the syntax node under the cursor and look
//! its text up in the knowledge base.

use vstd::prelude::*;
use vstd::string::*;

use crate::document::Document;
use crate::language_definitions::LanguageDefinitions;
use crate::language_definitions::assoc_get;
use crate::language_definitions::spec_assoc_lookup;
use crate::language_definitions::spec_table_view;
use crate::text::str_eq;
use crate::tree::Position;
use crate::tree::bytes_to_string;
use crate::tree::named_descendant_at;
use crate::tree::node_byte_range;
use crate::tree::node_kind;
use crate::tree::position_to_point;
use crate::tree::tree_root;

verus! {

/// The closed classification of a syntax node for lookup purposes.
#[derive(Debug, Clone, Copy, PartialEq, Eq, Structural)]
pub enum NodeKind {
    Opcode,
    Directive,
    Register,
    Other,
}

/// The classification a grammar node kind string collapses to: several
/// directive-family kinds share directive semantics. Both the current
/// grammar's kind names and their earlier spellings are recognized.
pub open spec fn spec_classify_node_kind(s: Seq<char>) -> NodeKind {
    if s == "opcode"@ || s == "instruction_mnemonic"@ {
        NodeKind::Opcode
    } else if s == "macro_mnemonic"@ || s == "numeric_mnemonic"@ || s == "integer_mnemonic"@ || s
        == "float_mnemonic"@ || s == "string_mnemonic"@ || s == "control_mnemonic"@ {
        NodeKind::Directive
    } else if s == "register"@ {
        NodeKind::Register
    } else {
        NodeKind::Other
    }
}

/// Classify a grammar node kind string, once per lookup.
pub fn classify_node_kind(s: &str) -> (r: NodeKind)
    ensures
        r == spec_classify_node_kind(s@),
{
    if str_eq(s, "opcode") || str_eq(s, "instruction_mnemonic") {
        NodeKind::Opcode
    } else if str_eq(s, "macro_mnemonic") || str_eq(s, "numeric_mnemonic") || str_eq(
        s,
        "integer_mnemonic",
    ) || str_eq(s, "float_mnemonic") || str_eq(s, "string_mnemonic") || str_eq(
        s,
        "control_mnemonic",
    ) {
        NodeKind::Directive
    } else if str_eq(s, "register") {
        NodeKind::Register
    } else {
        NodeKind::Other
    }
}

/// The hover text for a classified node: an opcode resolves against the
/// instruction table by exact mnemonic; a directive-family node drops its
/// marker character and resolves against the directive table; a register
/// resolves against the numeric, common and float tables in that order; an
/// unrecognized node yields nothing.
pub open spec fn spec_hover_content(
    definitions: LanguageDefinitions,
    kind: NodeKind,
    text: Seq<char>,
) -> Option<Seq<char>> {
    match kind {
        NodeKind::Opcode => match spec_assoc_lookup(
            spec_table_view(definitions.instructions@),
            text,
        ) {
            Option::Some(i) => Some(i.description),
            Option::None => None,
        },
        NodeKind::Directive => {
            if text.len() >= 1 {
                match spec_assoc_lookup(spec_table_view(definitions.directives@), text.skip(1)) {
                    Option::Some(d) => Some(d.description),
                    Option::None => None,
                }
            } else {
                None
            }
        },
        NodeKind::Register => match spec_assoc_lookup(
            spec_table_view(definitions.registers.numeric@),
            text,
        ) {
            Option::Some(d) => Some(d),
            Option::None => match spec_assoc_lookup(
                spec_table_view(definitions.registers.common@),
                text,
            ) {
                Option::Some(d) => Some(d),
                Option::None => match spec_assoc_lookup(
                    spec_table_view(definitions.registers.float@),
                    text,
                ) {
                    Option::Some(d) => Some(d),
                    Option::None => None,
                },
            },
        },
        NodeKind::Other => None,
    }
}

/// Look the text of a classified node up in the knowledge base.
pub fn hover_content(definitions: &LanguageDefinitions, kind: NodeKind, text: &str) -> (r: Option<
    String,
>)
    ensures
        r matches Some(s) ==> spec_hover_content(*definitions, kind, text@) == Some(s@),
        r is None <==> spec_hover_content(*definitions, kind, text@) is None,
{
    match kind {
        NodeKind::Opcode => {
            match assoc_get(&definitions.instructions, text) {
                Option::Some(instruction) => Some(instruction.description.clone()),
                Option::None => None,
            }
        },
        NodeKind::Directive => {
            let n = text.unicode_len();
            if n >= 1 {
                let stripped = text.substring_char(1, n);
                proof {
                    assert(stripped@ =~= text@.skip(1));
                }
                match assoc_get(&definitions.directives, stripped) {
                    Option::Some(directive) => Some(directive.description.clone()),
                    Option::None => None,
                }
            } else {
                None
            }
        },
        NodeKind::Register => {
            if let Option::Some(description) = assoc_get(&definitions.registers.numeric, text) {
                return Some(description.clone());
            }
            if let Option::Some(description) = assoc_get(&definitions.registers.common, text) {
                return Some(description.clone());
            }
            if let Option::Some(description) = assoc_get(&definitions.registers.float, text) {
                return Some(description.clone());
            }
            None
        },
        NodeKind::Other => None,
    }
}

/// Resolve hover at a position of a document: find the named node under the
/// cursor, classify its kind, extract its text, and look it up. The node and
/// its text come from the opaque syntax tree, so which node is found cannot
/// be pinned here; what holds of every outcome is that a returned string is
/// the description the knowledge base yields for some node classification
/// and some text sliced out of the document itself. `hover_content` carries
/// the exact lookup contract for whatever node was found.
pub fn hover(definitions: &LanguageDefinitions, doc: &Document, position: Position) -> (r: Option<
    String,
>)
    ensures
        r matches Some(s) ==> exists|k: NodeKind, t: Seq<char>|
            spec_hover_content(*definitions, k, t) == Some(s@) && exists|start: int, end: int|
                0 <= start <= end <= doc.text@.len() && vstd::utf8::encode_utf8(t)
                    == doc.text@.subrange(start, end),
{
    let point = position_to_point(&position);
    let root = tree_root(&doc.tree);
    let cursor_node = match named_descendant_at(&root, point) {
        Option::Some(node) => node,
        Option::None => {
            return None;
        },
    };
    let kind_name = node_kind(&cursor_node);
    let kind = classify_node_kind(kind_name);
    let (start, end) = node_byte_range(&cursor_node);
    if !(start <= end && end <= doc.text.len()) {
        return None;
    }
    let mut bytes: Vec<u8> = Vec::new();
    let mut i: usize = start;
    while i < end
        invariant
            start <= i <= end <= doc.text@.len(),
            bytes@ == doc.text@.subrange(start as int, i as int),
        decreases end - i,
    {
        bytes.push(doc.text[i]);
        proof {
            assert(bytes@ =~= doc.text@.subrange(start as int, i + 1));
        }
        i += 1;
    }
    let node_text = match bytes_to_string(bytes) {
        Option::Some(s) => s,
        Option::None => {
            return None;
        },
    };
    let r = hover_content(definitions, kind, node_text.as_str());
    proof {
        if let Option::Some(s) = &r {
            assert(spec_hover_content(*definitions, kind, node_text@) == Some(s@));
            assert(vstd::utf8::encode_utf8(node_text@) == doc.text@.subrange(
                start as int,
                end as int,
            ));
        }
    }
    r
}

} // verus!
