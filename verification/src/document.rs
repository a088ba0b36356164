//! Per-document synchronization state: text, version counter, syntax tree.
//!
//! A document is created from a full text on open, and mutated by ordered
//! batches of change events. Stale notifications (version at or below the
//! stored one) are discarded; a change whose reported range does not fit the
//! stored text is dropped as corrupt, leaving the document in its last
//! consistent state.

use vstd::prelude::*;

use crate::tree::EditDescriptor;
use crate::tree::Point;
use crate::tree::Position;
use crate::tree::TextRange;
use crate::tree::byte_offset;
use crate::tree::line_start_index;
use crate::tree::parse_edited;
use crate::tree::parse_fresh;
use crate::tree::position_to_point;
use crate::tree::spec_byte_offset;
use crate::tree::spec_line_start;
use crate::tree::spec_next_line_start;
use crate::tree::tree_edit;
use crate::tree::tree_of;

verus! {

/// Failures of document synchronization and lookup.
#[derive(Debug, Clone, Copy, PartialEq, Eq, Structural)]
pub enum DocumentError {
    /// A request referenced a document that was never opened.
    DocumentNotFound,
    /// A change event's reported range does not fit the stored text.
    OffsetCorruption,
}

/// One change event: either a range with replacement text (incremental
/// form), or a full-text replacement when no range is supplied.
pub struct ContentChange {
    pub range: Option<TextRange>,
    pub text: Vec<u8>,
}

/// One open document: monotonically increasing version, full text, and the
/// current syntax tree.
pub struct Document {
    pub version: i32,
    pub text: Vec<u8>,
    pub tree: tree_sitter::Tree,
}

/// The mathematical shape of a document.
#[verifier::ext_equal]
pub ghost struct DocumentModel {
    pub version: int,
    pub text: Seq<u8>,
    pub tree: tree_sitter::Tree,
}

impl View for Document {
    type V = DocumentModel;

    open spec fn view(&self) -> DocumentModel {
        DocumentModel { version: self.version as int, text: self.text@, tree: self.tree }
    }
}

/// `text` with the bytes of `[start, end)` replaced by `insert`.
pub open spec fn spec_splice(text: Seq<u8>, start: int, end: int, insert: Seq<u8>) -> Seq<u8> {
    text.subrange(0, start) + insert + text.subrange(end, text.len() as int)
}

/// Whether an incremental change's computed byte range fits the stored text:
/// the end offset must be strictly below the text length and not precede the
/// start offset. A full-text change always applies.
pub open spec fn spec_change_applies(text: Seq<u8>, c: ContentChange) -> bool {
    match c.range {
        Option::None => true,
        Option::Some(rg) => {
            let start = spec_byte_offset(text, rg.start);
            let end = spec_byte_offset(text, rg.end);
            start <= end && end < text.len()
        },
    }
}

/// The text after one change event: spliced for a valid incremental change,
/// replaced for a full change, unchanged for a corrupt change.
pub open spec fn spec_apply_change_text(text: Seq<u8>, c: ContentChange) -> Seq<u8> {
    match c.range {
        Option::None => c.text@,
        Option::Some(rg) => {
            if spec_change_applies(text, c) {
                spec_splice(
                    text,
                    spec_byte_offset(text, rg.start),
                    spec_byte_offset(text, rg.end),
                    c.text@,
                )
            } else {
                text
            }
        },
    }
}

/// The text after a batch of change events, applied strictly in order.
pub open spec fn spec_apply_changes_text(text: Seq<u8>, cs: Seq<ContentChange>) -> Seq<u8>
    decreases cs.len(),
{
    if cs.len() == 0 {
        text
    } else {
        spec_apply_change_text(spec_apply_changes_text(text, cs.drop_last()), cs.last())
    }
}

/// Whether every change of a batch applies, each against the text the
/// previous ones produced.
pub open spec fn spec_all_changes_apply(text: Seq<u8>, cs: Seq<ContentChange>) -> bool
    decreases cs.len(),
{
    if cs.len() == 0 {
        true
    } else {
        spec_all_changes_apply(text, cs.drop_last()) && spec_change_applies(
            spec_apply_changes_text(text, cs.drop_last()),
            cs.last(),
        )
    }
}

/// A document after one full-text change notification: a stale version
/// leaves it untouched; a newer one replaces text and tree, the tree being
/// the from-scratch parse of the new text.
pub open spec fn spec_full_change_step(
    d: DocumentModel,
    version: int,
    text: Seq<u8>,
) -> DocumentModel {
    if version <= d.version {
        d
    } else {
        DocumentModel { version, text, tree: tree_of(text) }
    }
}

/// Law: after a full-text change notification is applied twice in a row with
/// advancing versions, the document's tree is exactly the tree a from-scratch
/// parse of that text yields, however often the second application was
/// discarded as stale.
pub proof fn lemma_full_change_idempotent(d: DocumentModel, v1: int, v2: int, text: Seq<u8>)
    requires
        v1 > d.version,
    ensures
        spec_full_change_step(spec_full_change_step(d, v1, text), v2, text).text == text,
        spec_full_change_step(spec_full_change_step(d, v1, text), v2, text).tree == tree_of(text),
{
}

/// The number of newlines in `s`.
pub open spec fn spec_newline_count(s: Seq<u8>) -> int
    decreases s.len(),
{
    if s.len() == 0 {
        0
    } else {
        spec_newline_count(s.drop_last()) + if s.last() == 10 {
            1int
        } else {
            0int
        }
    }
}

/// The number of lines of `s`, counting as the line iterator does: a
/// trailing newline closes the last line instead of opening a new one.
pub open spec fn spec_line_count(s: Seq<u8>) -> int {
    if s.len() == 0 {
        0
    } else {
        spec_newline_count(s) + if s.last() == 10 {
            0int
        } else {
            1int
        }
    }
}

/// The length of the tail of `s` after its last newline.
pub open spec fn spec_tail_line_len(s: Seq<u8>) -> int
    decreases s.len(),
{
    if s.len() == 0 {
        0
    } else if s.last() == 10 {
        0
    } else {
        1 + spec_tail_line_len(s.drop_last())
    }
}

/// `s` without one trailing line break (a newline, optionally preceded by a
/// carriage return).
pub open spec fn spec_strip_trailing_newline(s: Seq<u8>) -> Seq<u8> {
    if s.len() > 0 && s.last() == 10 {
        let t = s.drop_last();
        if t.len() > 0 && t.last() == 13 {
            t.drop_last()
        } else {
            t
        }
    } else {
        s
    }
}

/// The length of the last line of `s`, as the line iterator reports it.
pub open spec fn spec_last_line_len(s: Seq<u8>) -> int {
    spec_tail_line_len(spec_strip_trailing_newline(s))
}

proof fn lemma_newline_count_le(s: Seq<u8>)
    ensures
        0 <= spec_newline_count(s) <= s.len(),
    decreases s.len(),
{
    if s.len() > 0 {
        lemma_newline_count_le(s.drop_last());
    }
}

/// Count the lines of a replacement text.
fn count_lines(s: &Vec<u8>) -> (r: usize)
    ensures
        r == spec_line_count(s@),
{
    let n = s.len();
    let mut newlines: usize = 0;
    let mut i: usize = 0;
    while i < n
        invariant
            n == s@.len(),
            i <= n,
            newlines == spec_newline_count(s@.subrange(0, i as int)),
            newlines <= i,
        decreases n - i,
    {
        if s[i] == 10 {
            newlines += 1;
        }
        proof {
            let pre = s@.subrange(0, i + 1);
            assert(pre.drop_last() =~= s@.subrange(0, i as int));
            assert(pre.last() == s@[i as int]);
        }
        i += 1;
    }
    proof {
        assert(s@.subrange(0, n as int) =~= s@);
    }
    if n == 0 {
        0
    } else if s[n - 1] == 10 {
        proof {
            assert(s@.last() == s@[n - 1]);
        }
        newlines
    } else {
        proof {
            assert(s@.last() == s@[n - 1]);
            assert(s@.drop_last() =~= s@.subrange(0, n - 1));
            lemma_newline_count_le(s@.drop_last());
        }
        newlines + 1
    }
}

proof fn lemma_tail_line_len_scan(s: Seq<u8>, k: int, m: int)
    requires
        0 <= k <= m <= s.len(),
        forall|j: int| k <= j < m ==> s[j] != 10,
        k == 0 || s[k - 1] == 10,
    ensures
        spec_tail_line_len(s.subrange(0, m)) == m - k,
    decreases m - k,
{
    let pre = s.subrange(0, m);
    if m == k {
        if m == 0 {
        } else {
            assert(pre.last() == s[m - 1]);
            assert(s[m - 1] == 10);
        }
    } else {
        assert(pre.last() == s[m - 1]);
        assert(s[m - 1] != 10);
        assert(pre.drop_last() =~= s.subrange(0, m - 1));
        lemma_tail_line_len_scan(s, k, m - 1);
    }
}

/// The length of the last line of a replacement text.
fn last_line_len(s: &Vec<u8>) -> (r: usize)
    ensures
        r == spec_last_line_len(s@),
{
    let n = s.len();
    // Ignore one trailing line break, as the line iterator does.
    let m: usize = if n > 0 && s[n - 1] == 10 {
        if n > 1 && s[n - 2] == 13 {
            n - 2
        } else {
            n - 1
        }
    } else {
        n
    };
    proof {
        assert(s@.subrange(0, m as int) =~= spec_strip_trailing_newline(s@));
    }
    let mut k: usize = m;
    while k > 0 && s[k - 1] != 10
        invariant
            m <= s@.len(),
            0 <= k <= m,
            forall|j: int| k <= j < m ==> s@[j] != 10,
        decreases k,
    {
        k -= 1;
    }
    proof {
        lemma_tail_line_len_scan(s@, k as int, m as int);
    }
    m - k
}

/// `text` with the byte range `[start, end)` replaced by `insert`.
fn splice_bytes(text: &Vec<u8>, start: usize, end: usize, insert: &Vec<u8>) -> (r: Vec<u8>)
    requires
        start <= end <= text@.len(),
    ensures
        r@ == spec_splice(text@, start as int, end as int, insert@),
{
    let mut r: Vec<u8> = Vec::new();
    let mut i: usize = 0;
    while i < start
        invariant
            start <= end <= text@.len(),
            i <= start,
            r@ == text@.subrange(0, i as int),
        decreases start - i,
    {
        r.push(text[i]);
        proof {
            assert(r@ =~= text@.subrange(0, i + 1));
        }
        i += 1;
    }
    let mut j: usize = 0;
    let ni = insert.len();
    while j < ni
        invariant
            start <= end <= text@.len(),
            ni == insert@.len(),
            j <= ni,
            r@ == text@.subrange(0, start as int) + insert@.subrange(0, j as int),
        decreases ni - j,
    {
        r.push(insert[j]);
        proof {
            assert(r@ =~= text@.subrange(0, start as int) + insert@.subrange(0, j + 1));
        }
        j += 1;
    }
    proof {
        assert(insert@.subrange(0, ni as int) =~= insert@);
    }
    let mut k: usize = end;
    let nt = text.len();
    while k < nt
        invariant
            start <= end <= text@.len(),
            nt == text@.len(),
            end <= k <= nt,
            r@ == text@.subrange(0, start as int) + insert@ + text@.subrange(end as int, k as int),
        decreases nt - k,
    {
        r.push(text[k]);
        proof {
            assert(r@ =~= text@.subrange(0, start as int) + insert@ + text@.subrange(
                end as int,
                k + 1,
            ));
        }
        k += 1;
    }
    r
}

impl Document {
    /// Open a document: parse the full text from scratch and record the
    /// initial version.
    pub fn open(text: Vec<u8>, version: i32) -> (d: Document)
        ensures
            d.version == version,
            d.text@ == text@,
            d.tree == tree_of(text@),
    {
        let tree = parse_fresh(&text);
        Document { version, text, tree }
    }

    /// Apply one change event. An incremental change whose computed range
    /// does not fit the stored text is dropped as corrupt; the version is
    /// not touched here.
    pub fn apply_change(&mut self, change: ContentChange) -> (r: Result<(), DocumentError>)
        ensures
            final(self).version == old(self).version,
            final(self).text@ == spec_apply_change_text(old(self).text@, change),
            r is Ok <==> spec_change_applies(old(self).text@, change),
            r matches Err(e) ==> e == DocumentError::OffsetCorruption && *final(self) == *old(
                self,
            ),
            change.range is None ==> final(self).tree == tree_of(change.text@),
    {
        match &change.range {
            Option::None => {
                // Full replacement: discard the previous tree entirely.
                let tree = parse_fresh(&change.text);
                self.text = change.text;
                self.tree = tree;
                Ok(())
            },
            Option::Some(rg) => {
                // Translate positions against the pre-edit text, before any
                // mutation.
                let start_byte = byte_offset(&self.text, rg.start);
                let old_end_byte = byte_offset(&self.text, rg.end);
                if old_end_byte >= self.text.len() || start_byte > old_end_byte {
                    return Err(DocumentError::OffsetCorruption);
                }
                let new_text = splice_bytes(&self.text, start_byte, old_end_byte, &change.text);
                self.text = new_text;
                let new_end_byte = start_byte.saturating_add(change.text.len());
                let line_count = count_lines(&change.text);
                let new_end_position = if change.text.len() > 0 {
                    Position {
                        line: rg.start.line.saturating_add(line_count as u32),
                        character: last_line_len(&change.text) as u32,
                    }
                } else {
                    Position {
                        line: rg.start.line.saturating_add(line_count as u32),
                        character: rg.start.character,
                    }
                };
                let edit = EditDescriptor {
                    start_byte,
                    old_end_byte,
                    new_end_byte,
                    start_position: position_to_point(&rg.start),
                    old_end_position: position_to_point(&rg.end),
                    new_end_position: position_to_point(&new_end_position),
                };
                tree_edit(&mut self.tree, &edit);
                let tree = parse_edited(&self.text, &self.tree);
                self.tree = tree;
                Ok(())
            },
        }
    }

    /// Apply a change notification: a version at or below the stored one is
    /// discarded whole; otherwise the events are applied strictly in array
    /// order, a corrupt event is dropped, and the version advances. The
    /// result reports the first dropped event, if any.
    pub fn apply_changes(&mut self, version: i32, changes: Vec<ContentChange>) -> (r: Result<
        (),
        DocumentError,
    >)
        ensures
            version <= old(self).version ==> (*final(self) == *old(self) && r is Ok),
            version > old(self).version ==> {
                &&& final(self).version == version
                &&& final(self).text@ == spec_apply_changes_text(old(self).text@, changes@)
                &&& (r is Ok <==> spec_all_changes_apply(old(self).text@, changes@))
                &&& (changes@.len() > 0 && changes@.last().range is None) ==> final(self).tree
                    == tree_of(changes@.last().text@)
            },
            (version > old(self).version && changes@.len() == 1 && changes@[0].range is None)
                ==> final(self)@ == spec_full_change_step(old(self)@, version as int, changes@[0].text@),
            (version > old(self).version && changes@.len() == 1 && !spec_change_applies(
                old(self).text@,
                changes@[0],
            )) ==> final(self).tree == old(self).tree,
    {
        if version <= self.version {
            return Ok(());
        }
        let ghost orig = changes@;
        let ghost text0 = self.text@;
        let mut outcome: Result<(), DocumentError> = Ok(());
        let mut rest = changes;
        while rest.len() > 0
            invariant
                rest@.len() <= orig.len(),
                rest@ == orig.subrange(orig.len() - rest@.len(), orig.len() as int),
                self.text@ == spec_apply_changes_text(
                    text0,
                    orig.subrange(0, orig.len() - rest@.len()),
                ),
                outcome is Ok <==> spec_all_changes_apply(
                    text0,
                    orig.subrange(0, orig.len() - rest@.len()),
                ),
                outcome matches Err(e) ==> e == DocumentError::OffsetCorruption,
                self.version == old(self).version,
                orig.len() > rest@.len() && orig[orig.len() - rest@.len() - 1].range is None
                    ==> self.tree == tree_of(orig[orig.len() - rest@.len() - 1].text@),
                (orig.len() == 1 && !spec_change_applies(text0, orig[0])) ==> self.tree == old(
                    self,
                ).tree,
            decreases rest@.len(),
        {
            let ghost k = orig.len() - rest@.len();
            let change = rest.remove(0);
            proof {
                assert(change == orig[k]);
                assert(rest@ =~= orig.subrange(k + 1, orig.len() as int));
            }
            let step = self.apply_change(change);
            if outcome.is_ok() {
                if let Err(e) = step {
                    outcome = Err(e);
                }
            }
            proof {
                let pre = orig.subrange(0, k + 1);
                assert(pre.drop_last() =~= orig.subrange(0, k));
                assert(pre.last() == orig[k]);
            }
        }
        proof {
            assert(orig.subrange(0, orig.len() as int) =~= orig);
        }
        self.version = version;
        outcome
    }
}

/// The index of the first newline at or after `from`, or the end of the
/// text.
pub open spec fn spec_line_end(text: Seq<u8>, from: int) -> int
    decreases text.len() - from when 0 <= from <= text.len()
{
    if !(0 <= from < text.len()) {
        text.len() as int
    } else if text[from] == 10 {
        from
    } else {
        spec_line_end(text, from + 1)
    }
}

/// The content of the given line, without its line break.
pub open spec fn spec_line_content(text: Seq<u8>, line: nat) -> Seq<u8> {
    let s = spec_line_start(text, line);
    let e = spec_line_end(text, s);
    let trimmed = if e < text.len() && e > s && text[e - 1] == 13 {
        e - 1
    } else {
        e
    };
    text.subrange(s, trimmed)
}

/// The text of one line of a document, as the line iterator would hand it
/// out: `None` when the document has no such line.
pub fn document_line(text: &Vec<u8>, line: u32) -> (r: Option<Vec<u8>>)
    ensures
        r matches Some(l) ==> l@ == spec_line_content(text@, line as nat),
        r is Some <==> spec_line_start(text@, line as nat) < text@.len(),
{
    let n = text.len();
    let s = line_start_index(text, line);
    if s >= n {
        return None;
    }
    let mut e: usize = s;
    while e < n && text[e] != 10
        invariant
            n == text@.len(),
            s <= e <= n,
            spec_line_end(text@, s as int) == spec_line_end(text@, e as int),
        decreases n - e,
    {
        e += 1;
    }
    proof {
        assert(e == spec_line_end(text@, s as int));
    }
    let trimmed: usize = if e < n && e > s && text[e - 1] == 13 {
        e - 1
    } else {
        e
    };
    let mut out: Vec<u8> = Vec::new();
    let mut i: usize = s;
    while i < trimmed
        invariant
            s <= i <= trimmed <= n,
            n == text@.len(),
            out@ == text@.subrange(s as int, i as int),
        decreases trimmed - i,
    {
        out.push(text[i]);
        proof {
            assert(out@ =~= text@.subrange(s as int, i + 1));
        }
        i += 1;
    }
    Some(out)
}

} // verus!
