//! The mathematical model of the editor: ghost records for one open
//! document and for the whole session, the well-formedness invariants,
//! and the line/column arithmetic every contract is stated over.

use vstd::prelude::*;
use crate::undo::{SnapModel, push_capped, stack_wf};

verus! {

/// An interactive query-replace session in progress.
#[verifier::ext_equal]
pub ghost struct SessionModel {
    pub query: Seq<char>,
    pub replace_with: Seq<char>,
    pub search_from: nat,
    pub replaced_count: nat,
}

/// One open document: its text, cursor, history, and metadata.
#[verifier::ext_equal]
pub ghost struct BufModel {
    pub text: Seq<char>,
    pub cursor: nat,
    pub undo: Seq<SnapModel>,
    pub redo: Seq<SnapModel>,
    pub modified: bool,
    pub encoding: Seq<char>,
    pub line_ending: Seq<char>,
    pub file_path: Option<Seq<char>>,
    pub status: Option<Seq<char>>,
    pub session: Option<SessionModel>,
}

impl BufModel {
    /// The document invariant: the cursor stays inside the text, the
    /// history stacks are bounded, and an active session carries a
    /// non-empty query.
    pub open spec fn wf(self) -> bool {
        &&& self.cursor <= self.text.len()
        &&& stack_wf(self.undo)
        &&& stack_wf(self.redo)
        &&& (self.session matches Some(s) ==> s.query.len() > 0)
    }

    /// The snapshot of the current text and cursor.
    pub open spec fn snap(self) -> SnapModel {
        SnapModel { text: self.text, cursor: self.cursor }
    }

    /// The state after recording an undo checkpoint: the current
    /// snapshot is pushed and the redo history is discarded.
    pub open spec fn record(self) -> BufModel {
        BufModel {
            undo: push_capped(self.undo, self.snap()),
            redo: Seq::empty(),
            ..self
        }
    }

    /// A fresh scratch document.
    pub open spec fn init() -> BufModel {
        BufModel {
            text: Seq::empty(),
            cursor: 0,
            undo: Seq::empty(),
            redo: Seq::empty(),
            modified: false,
            encoding: "UTF-8"@,
            line_ending: "CRLF"@,
            file_path: None,
            status: None,
            session: None,
        }
    }
}

/// The whole editor session: the open documents, which one is current,
/// the shared kill ring, and the previously current document.
#[verifier::ext_equal]
pub ghost struct EdModel {
    pub buffers: Seq<BufModel>,
    pub current: nat,
    pub kill_ring: Seq<Seq<char>>,
    pub prev: nat,
}

/// The most entries the kill ring keeps.
pub const KILL_RING_DEPTH: usize = 10;

/// The kill ring holds at most ten entries and never an empty one.
pub open spec fn ring_wf(ring: Seq<Seq<char>>) -> bool {
    &&& ring.len() <= KILL_RING_DEPTH
    &&& forall|i: int| 0 <= i < ring.len() ==> (#[trigger] ring[i]).len() > 0
}

/// Pushing a fragment onto the kill ring: empty fragments are ignored;
/// otherwise the fragment goes in front and the ring is trimmed to its
/// depth.
pub open spec fn push_ring(ring: Seq<Seq<char>>, text: Seq<char>) -> Seq<Seq<char>> {
    if text.len() == 0 {
        ring
    } else {
        let grown = seq![text] + ring;
        if grown.len() <= KILL_RING_DEPTH {
            grown
        } else {
            grown.take(KILL_RING_DEPTH as int)
        }
    }
}

impl EdModel {
    /// The session invariant: at least one document is open, the
    /// current and previous indices are valid, every document is well
    /// formed, and the kill ring is bounded.
    pub open spec fn wf(self) -> bool {
        &&& self.buffers.len() > 0
        &&& self.current < self.buffers.len()
        &&& self.prev < self.buffers.len()
        &&& forall|i: int| 0 <= i < self.buffers.len() ==> (#[trigger] self.buffers[i]).wf()
        &&& ring_wf(self.kill_ring)
    }

    /// The current document.
    pub open spec fn cur(self) -> BufModel {
        self.buffers[self.current as int]
    }

    /// The session with the current document replaced.
    pub open spec fn with_cur(self, b: BufModel) -> EdModel {
        EdModel { buffers: self.buffers.update(self.current as int, b), ..self }
    }
}

/// Pushing onto the kill ring keeps it well formed.
pub proof fn lemma_push_ring_wf(ring: Seq<Seq<char>>, text: Seq<char>)
    requires
        ring_wf(ring),
    ensures
        ring_wf(push_ring(ring, text)),
{
    if text.len() > 0 {
        let r = push_ring(ring, text);
        assert forall|i: int| 0 <= i < r.len() implies (#[trigger] r[i]).len() > 0 by {
            if i > 0 {
                assert(r[i] == ring[i - 1]);
            }
        }
    }
}

// ------------------------------------------------------------------
// Line and column arithmetic.
//
// Lines and columns are 1-based; a column resets to 1 after each
// newline character.
// ------------------------------------------------------------------

/// How many newline characters a text holds.
pub open spec fn count_nl(t: Seq<char>) -> nat
    decreases t.len(),
{
    if t.len() == 0 {
        0
    } else {
        count_nl(t.drop_last()) + if t.last() == '\n' {
            1nat
        } else {
            0nat
        }
    }
}

pub proof fn lemma_count_nl_le(t: Seq<char>)
    ensures
        count_nl(t) <= t.len(),
    decreases t.len(),
{
    if t.len() > 0 {
        lemma_count_nl_le(t.drop_last());
    }
}

/// Counting newlines one character at a time.
pub proof fn lemma_count_nl_step(t: Seq<char>, i: int)
    requires
        0 <= i < t.len(),
    ensures
        count_nl(t.take(i + 1)) == count_nl(t.take(i)) + if t[i] == '\n' {
            1nat
        } else {
            0nat
        },
{
    assert(t.take(i + 1).drop_last() =~= t.take(i));
    assert(t.take(i + 1).last() == t[i]);
}

/// The first character offset of the line the given position lies on:
/// the greatest offset at or before it that starts the text or follows
/// a newline.
pub open spec fn line_start_before(t: Seq<char>, c: int) -> int
    decreases c,
{
    if c <= 0 {
        0
    } else if t[c - 1] == '\n' {
        c
    } else {
        line_start_before(t, c - 1)
    }
}

pub proof fn lemma_line_start_before_bounds(t: Seq<char>, c: int)
    requires
        0 <= c,
    ensures
        0 <= line_start_before(t, c) <= c,
    decreases c,
{
    if c > 0 && t[c - 1] != '\n' {
        lemma_line_start_before_bounds(t, c - 1);
    }
}

/// The 1-based line number of a character offset (offsets past the end
/// count as the end).
pub open spec fn line_at(t: Seq<char>, c: int) -> int {
    1 + count_nl(t.take(crate::text::clamp_to(t.len() as int, c))) as int
}

/// The 1-based column of a character offset.
pub open spec fn col_at(t: Seq<char>, c: int) -> int {
    let k = crate::text::clamp_to(t.len() as int, c);
    1 + k - line_start_before(t, k)
}

/// The offset of the first newline at or after `i`, if any.
pub open spec fn next_nl(t: Seq<char>, i: int) -> Option<int>
    decreases t.len() - i,
        when 0 <= i
{
    if i >= t.len() {
        None
    } else if t[i] == '\n' {
        Some(i)
    } else {
        next_nl(t, i + 1)
    }
}

pub proof fn lemma_next_nl_bounds(t: Seq<char>, i: int)
    requires
        0 <= i,
    ensures
        next_nl(t, i) matches Some(p) ==> i <= p < t.len() && t[p] == '\n',
    decreases t.len() - i,
{
    if i < t.len() && t[i] != '\n' {
        lemma_next_nl_bounds(t, i + 1);
    }
}

/// The offset one past the end of the line the given position lies on:
/// the next newline, or the end of the text.
pub open spec fn line_end_after(t: Seq<char>, c: int) -> int {
    match next_nl(t, c) {
        Some(p) => p,
        None => t.len() as int,
    }
}

/// The first character offset of the given 1-based line, if the text
/// has that many lines.
pub open spec fn start_of_line(t: Seq<char>, line: int) -> Option<int>
    decreases line,
{
    if line <= 0 {
        None
    } else if line == 1 {
        Some(0)
    } else {
        match start_of_line(t, line - 1) {
            None => None,
            Some(s) => match next_nl(t, s) {
                None => None,
                Some(p) => Some(p + 1),
            },
        }
    }
}


/// A line whose end has no further newline is the last line: no line
/// past it has a start.
pub proof fn lemma_no_line_past_last(t: Seq<char>, l1: int, l2: int)
    requires
        1 <= l1 < l2,
        start_of_line(t, l1) matches Some(s) && next_nl(t, s) is None,
    ensures
        start_of_line(t, l2) is None,
    decreases l2,
{
    if l2 - 1 > l1 {
        lemma_no_line_past_last(t, l1, l2 - 1);
    }
}

/// The character offset of a 1-based (line, column) position: the
/// requested column on that line, clamped to the line's length; no
/// offset when the line or column is out of range.
pub open spec fn cursor_of_line_col(t: Seq<char>, line: int, col: int) -> Option<int> {
    if line <= 0 || col <= 0 {
        None
    } else {
        match start_of_line(t, line) {
            None => None,
            Some(s) => Some(
                if s + col - 1 <= line_end_after(t, s) {
                    s + col - 1
                } else {
                    line_end_after(t, s)
                },
            ),
        }
    }
}


} // verus!
