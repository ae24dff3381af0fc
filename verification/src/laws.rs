//! The library's general guarantees, stated and proved over the model:
//! undo and redo invert mutations, every command keeps the cursor in
//! range, the kill ring stays bounded and ordered, and region kills
//! clamp their end.

use vstd::prelude::*;
use crate::edit::{insert_text_m, kill_region_m, region_cut};
use crate::model::{BufModel, EdModel, push_ring, ring_wf};
use crate::state::{redo_m, undo_m};
use crate::text::remove_seq;
use crate::undo::push_capped;

verus! {

/// A state reached from `m1` by an operation that first recorded an
/// undo checkpoint: its undo stack is `m1`'s with `m1`'s snapshot
/// pushed on top. Every mutating operation's contract has this shape.
pub open spec fn recorded_from(m1: BufModel, m2: BufModel) -> bool {
    m2.undo == push_capped(m1.undo, m1.snap())
}

/// Undo after any mutating operation restores the exact prior text
/// and cursor.
pub proof fn lemma_undo_restores(m1: BufModel, m2: BufModel)
    requires
        m1.wf(),
        recorded_from(m1, m2),
    ensures
        undo_m(m2).text == m1.text,
        undo_m(m2).cursor == m1.cursor,
{
    assert(push_capped(m1.undo, m1.snap()).last() == m1.snap());
}

/// Undo after inserting text restores the exact prior text and
/// cursor.
pub proof fn lemma_undo_after_insert(m: BufModel, t: Seq<char>)
    requires
        m.wf(),
        t.len() > 0,
    ensures
        undo_m(insert_text_m(m, t)).text == m.text,
        undo_m(insert_text_m(m, t)).cursor == m.cursor,
{
    lemma_undo_restores(m, insert_text_m(m, t));
}

/// Redo after an undo restores the exact text and cursor from before
/// the undo.
pub proof fn lemma_redo_after_undo(m: BufModel)
    requires
        m.wf(),
        m.undo.len() > 0,
    ensures
        redo_m(undo_m(m)).text == m.text,
        redo_m(undo_m(m)).cursor == m.cursor,
{
    assert(push_capped(m.redo, m.snap()).last() == m.snap());
}

/// A new edit discards the redo history, so a subsequent redo finds
/// nothing to do: it leaves text, cursor, and both stacks unchanged.
pub proof fn lemma_edit_blocks_redo(m: BufModel, t: Seq<char>)
    requires
        t.len() > 0,
    ensures
        insert_text_m(m, t).redo.len() == 0,
        redo_m(insert_text_m(m, t)).text == insert_text_m(m, t).text,
        redo_m(insert_text_m(m, t)).cursor == insert_text_m(m, t).cursor,
        redo_m(insert_text_m(m, t)).undo == insert_text_m(m, t).undo,
        redo_m(insert_text_m(m, t)).redo.len() == 0,
{
}

/// In a well-formed session the cursor of every document, the current
/// one included, lies between zero and its text length. Every command
/// of the library ensures well-formedness of the resulting session,
/// so this holds after any command.
pub proof fn lemma_wf_cursor_in_range(m: EdModel)
    requires
        m.wf(),
    ensures
        m.cur().cursor <= m.cur().text.len(),
        forall|i: int| 0 <= i < m.buffers.len() ==> (#[trigger] m.buffers[i]).cursor
            <= m.buffers[i].text.len(),
{
}

/// A fresh fragment lands in front of the kill ring: the newest entry
/// is first and the older entries keep their order behind it.
pub proof fn lemma_push_ring_order(ring: Seq<Seq<char>>, text: Seq<char>)
    requires
        text.len() > 0,
    ensures
        push_ring(ring, text).len() > 0,
        push_ring(ring, text)[0] == text,
        forall|i: int| 1 <= i < push_ring(ring, text).len() ==> push_ring(ring, text)[i]
            == ring[i - 1],
{
    let r = push_ring(ring, text);
    assert forall|i: int| 1 <= i < r.len() implies r[i] == ring[i - 1] by {
        assert(r[i] == (seq![text] + ring)[i]);
    }
}

/// The rings reached from `ring` by pushing each fragment in turn.
pub open spec fn push_ring_all(ring: Seq<Seq<char>>, texts: Seq<Seq<char>>) -> Seq<Seq<char>>
    decreases texts.len(),
{
    if texts.len() == 0 {
        ring
    } else {
        push_ring_all(push_ring(ring, texts[0]), texts.skip(1))
    }
}

/// After any sequence of kills and copies the ring holds at most ten
/// entries and no empty one.
pub proof fn lemma_ring_bound_any_sequence(ring: Seq<Seq<char>>, texts: Seq<Seq<char>>)
    requires
        ring_wf(ring),
    ensures
        ring_wf(push_ring_all(ring, texts)),
    decreases texts.len(),
{
    if texts.len() > 0 {
        crate::model::lemma_push_ring_wf(ring, texts[0]);
        lemma_ring_bound_any_sequence(push_ring(ring, texts[0]), texts.skip(1));
    }
}

/// Killing a region whose end lies beyond the buffer behaves exactly
/// as if the end were the buffer length: the same state results and
/// the same fragment goes to the kill ring.
pub proof fn lemma_kill_region_end_clamped(m: BufModel, start: int, end: int)
    requires
        end > m.text.len(),
    ensures
        kill_region_m(m, start, end) == kill_region_m(m, start, m.text.len() as int),
        region_cut(m, start, end) == region_cut(m, start, m.text.len() as int),
{
    let len = m.text.len() as int;
    assert(region_cut(m, start, end) == region_cut(m, start, len));
    if region_cut(m, start, end).len() != 0 {
        assert(remove_seq(m.text, start, crate::text::clamp_to(len, end)) == remove_seq(
            m.text,
            start,
            crate::text::clamp_to(len, len),
        ));
        assert(kill_region_m(m, start, end) =~= kill_region_m(m, start, len));
    }
}

} // verus!
