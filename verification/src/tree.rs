//! Positions, byte offsets, and the bridge to the syntax-tree parser.
//!
//! The parser itself is an opaque capability: parsing and tree navigation
//! happen behind trusted wrappers, and the tree produced by a from-scratch
//! parse of given bytes is named `tree_of`.

use vstd::prelude::*;
use vstd::utf8::encode_utf8;
use vstd::utf8::valid_utf8;

verus! {

/// A line/character position, as the editor protocol reports it.
#[derive(Debug, Clone, Copy, PartialEq, Eq, Structural)]
pub struct Position {
    pub line: u32,
    pub character: u32,
}

/// A half-open start/end position pair.
#[derive(Debug, Clone, Copy, PartialEq, Eq, Structural)]
pub struct TextRange {
    pub start: Position,
    pub end: Position,
}

/// A row/column point, as the parser counts it.
#[derive(Debug, Clone, Copy, PartialEq, Eq, Structural)]
pub struct Point {
    pub row: usize,
    pub column: usize,
}

pub fn position_to_point(position: &Position) -> (p: Point)
    ensures
        p.row == position.line,
        p.column == position.character,
{
    Point { row: position.line as usize, column: position.character as usize }
}

pub fn point_to_position(point: &Point) -> (p: Position)
    ensures
        p.line == point.row as u32,
        p.character == point.column as u32,
{
    Position { line: point.row as u32, character: point.column as u32 }
}

/// The index just after the first line break at or after `from`, or the end
/// of the text when no line break follows.
pub open spec fn spec_next_line_start(text: Seq<u8>, from: int) -> int
    decreases text.len() - from when 0 <= from <= text.len()
{
    if !(0 <= from < text.len()) {
        text.len() as int
    } else if text[from] == 10 {
        from + 1
    } else {
        spec_next_line_start(text, from + 1)
    }
}

/// The byte index where the given (zero-based) line starts; the end of the
/// text when the line does not exist.
pub open spec fn spec_line_start(text: Seq<u8>, line: nat) -> int
    decreases line,
{
    if line == 0 {
        0
    } else {
        spec_next_line_start(text, spec_line_start(text, (line - 1) as nat))
    }
}

proof fn lemma_next_line_start_bounds(text: Seq<u8>, from: int)
    requires
        0 <= from <= text.len(),
    ensures
        from <= spec_next_line_start(text, from) <= text.len(),
    decreases text.len() - from,
{
    if 0 <= from < text.len() && text[from] != 10 {
        lemma_next_line_start_bounds(text, from + 1);
    }
}

proof fn lemma_line_start_bounds(text: Seq<u8>, line: nat)
    ensures
        0 <= spec_line_start(text, line) <= text.len(),
    decreases line,
{
    if line > 0 {
        lemma_line_start_bounds(text, (line - 1) as nat);
        lemma_next_line_start_bounds(text, spec_line_start(text, (line - 1) as nat));
    }
}

proof fn lemma_line_start_stable(text: Seq<u8>, k: nat, m: nat)
    requires
        k <= m,
        spec_line_start(text, k) == text.len(),
    ensures
        spec_line_start(text, m) == text.len(),
    decreases m - k,
{
    if k < m {
        assert(spec_line_start(text, k + 1) == spec_next_line_start(text, text.len() as int));
        lemma_line_start_stable(text, k + 1, m);
    }
}

/// The byte offset a position denotes: the start of its line plus its
/// character offset, clamped at the machine limit.
pub open spec fn spec_byte_offset(text: Seq<u8>, position: Position) -> int {
    let off = spec_line_start(text, position.line as nat) + position.character;
    if off <= usize::MAX {
        off
    } else {
        usize::MAX as int
    }
}

/// The byte index where the given line starts (the end of the text when the
/// line does not exist).
pub fn line_start_index(text: &Vec<u8>, line: u32) -> (r: usize)
    ensures
        r == spec_line_start(text@, line as nat),
        r <= text@.len(),
{
    let n = text.len();
    let mut idx: usize = 0;
    let mut l: u32 = 0;
    while l < line
        invariant
            n == text@.len(),
            l <= line,
            idx == spec_line_start(text@, l as nat),
            0 <= idx <= n,
        decreases line - l,
    {
        if idx == n {
            proof {
                lemma_line_start_stable(text@, l as nat, line as nat);
            }
            l = line;
        } else {
            let ghost start_i = idx as int;
            while idx < n && text[idx] != 10
                invariant
                    n == text@.len(),
                    0 <= start_i <= idx <= n,
                    spec_next_line_start(text@, start_i) == spec_next_line_start(text@, idx as int),
                decreases n - idx,
            {
                idx += 1;
            }
            if idx < n {
                idx += 1;
            }
            proof {
                assert(idx == spec_next_line_start(text@, start_i));
            }
            l += 1;
        }
    }
    proof {
        lemma_line_start_bounds(text@, line as nat);
    }
    idx
}

/// Translate a line/character position into a byte offset against the
/// current text (the stored text must still reflect the pre-edit state when
/// this runs).
pub fn byte_offset(text: &Vec<u8>, position: Position) -> (r: usize)
    ensures
        r == spec_byte_offset(text@, position),
{
    let idx = line_start_index(text, position.line);
    idx.saturating_add(position.character as usize)
}

#[verifier::external_type_specification]
#[verifier::external_body]
pub struct ExTree(tree_sitter::Tree);

#[verifier::external_type_specification]
#[verifier::external_body]
pub struct ExNode<'a>(tree_sitter::Node<'a>);

/// The syntax tree that a from-scratch parse of the given bytes produces.
/// Parsing is deterministic: the same bytes give the same tree.
pub uninterp spec fn tree_of(text: Seq<u8>) -> tree_sitter::Tree;

/// The structural description of one edit, in bytes and in row/column
/// points, handed to the parser before an incremental reparse.
#[derive(Debug, Clone, Copy, PartialEq, Eq, Structural)]
pub struct EditDescriptor {
    pub start_byte: usize,
    pub old_end_byte: usize,
    pub new_end_byte: usize,
    pub start_position: Point,
    pub old_end_position: Point,
    pub new_end_position: Point,
}

/// Relies on tree_sitter::Parser::parse with the MIPS grammar assigned and no
/// old tree: the parse is a function of the input bytes alone, and a tree is
/// always produced (parse returns `None` only when no language is assigned,
/// and Parser::set_language accepts the grammar: its ABI version lies in the
/// supported range).
#[verifier::external_body]
pub fn parse_fresh(text: &Vec<u8>) -> (t: tree_sitter::Tree)
    ensures
        t == tree_of(text@),
{
    let mut parser = tree_sitter::Parser::new();
    parser.set_language(&tree_sitter_mips::LANGUAGE.into()).expect("grammar ABI mismatch");
    parser.parse(text, None).expect("no language assigned")
}

/// Relies on tree_sitter::Parser::parse with the MIPS grammar assigned and an
/// edited previous tree as a reuse hint: a tree for the new bytes is always
/// produced; nothing is assumed about its shape.
#[verifier::external_body]
pub fn parse_edited(text: &Vec<u8>, old_tree: &tree_sitter::Tree) -> (t: tree_sitter::Tree) {
    let mut parser = tree_sitter::Parser::new();
    parser.set_language(&tree_sitter_mips::LANGUAGE.into()).expect("grammar ABI mismatch");
    parser.parse(text, Some(old_tree)).expect("no language assigned")
}

/// Relies on tree_sitter::Tree::edit: marks the tree as edited so a later
/// parse can reuse unchanged subtrees; nothing is assumed about the result.
#[verifier::external_body]
pub fn tree_edit(tree: &mut tree_sitter::Tree, edit: &EditDescriptor) {
    let point = |p: Point| tree_sitter::Point { row: p.row, column: p.column };
    tree.edit(
        &tree_sitter::InputEdit {
            start_byte: edit.start_byte,
            old_end_byte: edit.old_end_byte,
            new_end_byte: edit.new_end_byte,
            start_position: point(edit.start_position),
            old_end_position: point(edit.old_end_position),
            new_end_position: point(edit.new_end_position),
        },
    );
}

/// Relies on tree_sitter::Tree::root_node; nothing is assumed about the node.
#[verifier::external_body]
pub fn tree_root<'a>(tree: &'a tree_sitter::Tree) -> (n: tree_sitter::Node<'a>) {
    tree.root_node()
}

/// Relies on tree_sitter::Node::named_descendant_for_point_range at a single
/// point; nothing is assumed about the node found.
#[verifier::external_body]
pub fn named_descendant_at<'a>(node: &tree_sitter::Node<'a>, point: Point) -> (r: Option<
    tree_sitter::Node<'a>,
>) {
    let p = tree_sitter::Point { row: point.row, column: point.column };
    node.named_descendant_for_point_range(p, p)
}

/// Relies on tree_sitter::Node::kind; nothing is assumed about the string.
#[verifier::external_body]
pub fn node_kind<'a>(node: &tree_sitter::Node<'a>) -> (k: &'a str) {
    node.kind()
}

/// Relies on tree_sitter::Node::byte_range; nothing is assumed about the
/// bounds.
#[verifier::external_body]
pub fn node_byte_range<'a>(node: &tree_sitter::Node<'a>) -> (r: (usize, usize)) {
    let range = node.byte_range();
    (range.start, range.end)
}

/// Relies on String::from_utf8: it succeeds exactly on valid UTF-8, and a
/// returned string holds exactly the given bytes.
#[verifier::external_body]
pub fn bytes_to_string(bytes: Vec<u8>) -> (r: Option<String>)
    ensures
        r matches Some(s) ==> encode_utf8(s@) == bytes@,
        r is Some <==> valid_utf8(bytes@),
{
    String::from_utf8(bytes).ok()
}

} // verus!
