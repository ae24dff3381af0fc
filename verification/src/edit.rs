//! Editing operations: insertion, deletion, killing, copying, and
//! yanking. Every mutation records an undo checkpoint first; pure
//! reads do not.

use vstd::prelude::*;
use vstd::string::StringExecFns;
use crate::model::{BufModel, KILL_RING_DEPTH, line_end_after, push_ring};
use crate::state::BufferState;
use crate::text::{insert_seq, remove_seq};

verus! {

/// Pushes a fragment onto a kill ring vector: empty fragments are
/// ignored; otherwise the fragment goes in front and the ring is
/// trimmed to its depth.
pub fn push_kill_ring(kill_ring: &mut Vec<String>, text: String)
    ensures
        final(kill_ring).deep_view() == push_ring(old(kill_ring).deep_view(), text@),
{
    let ghost pre = old(kill_ring).deep_view();
    if text.as_str().is_empty() {
        return ;
    }
    kill_ring.insert(0, text);
    proof {
        assert(kill_ring.deep_view() =~= seq![text@] + pre);
    }
    if kill_ring.len() > KILL_RING_DEPTH {
        let ghost mid = kill_ring.deep_view();
        kill_ring.truncate(KILL_RING_DEPTH);
        proof {
            assert(kill_ring.deep_view() =~= mid.take(KILL_RING_DEPTH as int));
        }
    }
    proof {
        assert(final(kill_ring).deep_view() =~= push_ring(pre, text@));
    }
}

/// The state after inserting text at the cursor: a no-op when the text
/// is empty; otherwise an undo checkpoint is recorded, the text goes
/// in at the cursor, and the cursor moves past it.
pub open spec fn insert_text_m(m: BufModel, t: Seq<char>) -> BufModel {
    if t.len() == 0 {
        m
    } else {
        BufModel {
            text: insert_seq(m.text, m.cursor as int, t),
            cursor: (m.cursor + t.len()),
            modified: true,
            status: None,
            ..m.record()
        }
    }
}

/// The state after deleting the character at the cursor: a no-op at
/// the end of the buffer.
pub open spec fn delete_char_m(m: BufModel) -> BufModel {
    if m.cursor >= m.text.len() {
        m
    } else {
        BufModel {
            text: remove_seq(m.text, m.cursor as int, m.cursor + 1 as int),
            modified: true,
            status: None,
            ..m.record()
        }
    }
}

/// The state after deleting the character before the cursor: a no-op
/// at the start of the buffer.
pub open spec fn delete_backward_char_m(m: BufModel) -> BufModel {
    if m.cursor == 0 {
        m
    } else {
        BufModel {
            text: remove_seq(m.text, m.cursor - 1 as int, m.cursor as int),
            cursor: (m.cursor - 1) as nat,
            modified: true,
            status: None,
            ..m.record()
        }
    }
}

/// One past the end of the kill-line range: the end of the cursor's
/// line, including the trailing newline when there is one.
pub open spec fn kill_line_end(m: BufModel) -> int {
    let e0 = line_end_after(m.text, m.cursor as int);
    if e0 < m.text.len() {
        e0 + 1
    } else {
        e0
    }
}

/// What killing the line removes (empty at the end of the buffer).
pub open spec fn kill_line_cut(m: BufModel) -> Seq<char> {
    if m.cursor >= m.text.len() {
        Seq::empty()
    } else {
        m.text.subrange(m.cursor as int, kill_line_end(m))
    }
}

/// The state after killing from the cursor to the end of the line,
/// trailing newline included: a no-op at the end of the buffer.
pub open spec fn kill_line_m(m: BufModel) -> BufModel {
    if m.cursor >= m.text.len() {
        m
    } else {
        BufModel {
            text: remove_seq(m.text, m.cursor as int, kill_line_end(m)),
            modified: true,
            status: Some("Killed line"@),
            ..m.record()
        }
    }
}

/// What copying or killing the region `[start, end)` takes: the slice
/// with `end` clamped to the buffer; empty when the range is empty.
pub open spec fn region_cut(m: BufModel, start: int, end: int) -> Seq<char> {
    let e = crate::text::clamp_to(m.text.len() as int, end);
    if start >= end || start >= e {
        Seq::empty()
    } else {
        m.text.subrange(start, e)
    }
}

/// The state after copying a region: the buffer is untouched and no
/// undo checkpoint is recorded; an empty range is a complete no-op.
pub open spec fn copy_region_m(m: BufModel, start: int, end: int) -> BufModel {
    if region_cut(m, start, end).len() == 0 {
        m
    } else {
        BufModel { status: Some("Copied region"@), ..m }
    }
}

/// The state after killing a region: the slice is removed and the
/// cursor relocated to its start; an empty range is a complete no-op.
pub open spec fn kill_region_m(m: BufModel, start: int, end: int) -> BufModel {
    if region_cut(m, start, end).len() == 0 {
        m
    } else {
        let e = crate::text::clamp_to(m.text.len() as int, end);
        let text2 = remove_seq(m.text, start, e);
        BufModel {
            text: text2,
            cursor: (if start <= text2.len() {
                start
            } else {
                text2.len() as int
            }) as nat,
            modified: true,
            status: Some("Killed region"@),
            ..m.record()
        }
    }
}

/// The state after yanking: the most recent kill-ring entry is
/// inserted at the cursor; with an empty ring only a status is set.
pub open spec fn yank_m(m: BufModel, ring: Seq<Seq<char>>) -> BufModel {
    if ring.len() == 0 {
        BufModel { status: Some("Kill ring empty"@), ..m }
    } else {
        BufModel {
            text: insert_seq(m.text, m.cursor as int, ring[0]),
            cursor: (m.cursor + ring[0].len()),
            modified: true,
            status: Some("Yank"@),
            ..m.record()
        }
    }
}

/// The state after placing the cursor, clamped to the buffer.
pub open spec fn set_cursor_m(m: BufModel, n: int) -> BufModel {
    BufModel { cursor: crate::text::clamp_to(m.text.len() as int, n) as nat, ..m }
}

impl BufferState {
    /// Inserts text at the cursor and advances the cursor past it.
    pub fn insert_text(&mut self, text: &str)
        requires
            old(self)@.wf(),
        ensures
            final(self)@ == insert_text_m(old(self)@, text@),
            final(self)@.wf(),
    {
        if text.is_empty() {
            proof {
                assert(final(self)@ =~= insert_text_m(old(self)@, text@));
            }
            return ;
        }
        let n = text.unicode_len();
        self.record_undo_snapshot();
        self.buffer.insert_str(self.cursor, text);
        proof {
            assert(self.buffer@.len() == old(self)@.text.len() + n);
        }
        self.cursor = self.cursor + n;
        self.modified = true;
        self.status_message = None;
        proof {
            assert(final(self)@ =~= insert_text_m(old(self)@, text@));
            crate::undo::lemma_push_capped_wf(old(self)@.undo, old(self)@.snap());
        }
    }

    /// Deletes the character at the cursor; a no-op at the end.
    pub fn delete_char(&mut self)
        ensures
            final(self)@ == delete_char_m(old(self)@),
            old(self)@.wf() ==> final(self)@.wf(),
    {
        if self.cursor >= self.buffer.char_len() {
            proof {
                assert(final(self)@ =~= delete_char_m(old(self)@));
            }
            return ;
        }
        self.record_undo_snapshot();
        self.buffer.remove_range(self.cursor, self.cursor + 1);
        self.modified = true;
        self.status_message = None;
        proof {
            assert(final(self)@ =~= delete_char_m(old(self)@));
            if old(self)@.wf() {
                crate::undo::lemma_push_capped_wf(old(self)@.undo, old(self)@.snap());
            }
        }
    }

    /// Deletes the character before the cursor; a no-op at the start.
    pub fn delete_backward_char(&mut self)
        ensures
            final(self)@ == delete_backward_char_m(old(self)@),
            old(self)@.wf() ==> final(self)@.wf(),
    {
        if self.cursor == 0 {
            proof {
                assert(final(self)@ =~= delete_backward_char_m(old(self)@));
            }
            return ;
        }
        self.record_undo_snapshot();
        self.buffer.remove_range(self.cursor - 1, self.cursor);
        self.cursor = self.cursor - 1;
        self.modified = true;
        self.status_message = None;
        proof {
            assert(final(self)@ =~= delete_backward_char_m(old(self)@));
            if old(self)@.wf() {
                crate::undo::lemma_push_capped_wf(old(self)@.undo, old(self)@.snap());
            }
        }
    }

    /// Kills from the cursor to the end of the line, trailing newline
    /// included, pushing the removed text onto the kill ring.
    pub fn kill_line(&mut self, kill_ring: &mut Vec<String>)
        requires
            old(self)@.wf(),
        ensures
            final(self)@ == kill_line_m(old(self)@),
            final(kill_ring).deep_view() == push_ring(
                old(kill_ring).deep_view(),
                kill_line_cut(old(self)@),
            ),
            final(self)@.wf(),
    {
        let len = self.buffer.char_len();
        if self.cursor >= len {
            proof {
                assert(final(self)@ =~= kill_line_m(old(self)@));
            }
            return ;
        }
        let e0 = self.line_end_from(self.cursor);
        let e = if e0 < len {
            e0 + 1
        } else {
            e0
        };
        let killed_chars = self.buffer.slice_chars(self.cursor, e);
        let killed = crate::text::chars_to_string(&killed_chars);
        self.record_undo_snapshot();
        self.buffer.remove_range(self.cursor, e);
        push_kill_ring(kill_ring, killed);
        self.modified = true;
        self.status_message = Some(String::from_str("Killed line"));
        proof {
            assert(final(self)@ =~= kill_line_m(old(self)@));
            crate::undo::lemma_push_capped_wf(old(self)@.undo, old(self)@.snap());
        }
    }

    /// Copies the region onto the kill ring without touching the
    /// buffer or the undo history.
    pub fn copy_region(&mut self, start: usize, end: usize, kill_ring: &mut Vec<String>)
        requires
            old(self)@.wf(),
        ensures
            final(self)@ == copy_region_m(old(self)@, start as int, end as int),
            final(kill_ring).deep_view() == push_ring(
                old(kill_ring).deep_view(),
                region_cut(old(self)@, start as int, end as int),
            ),
            final(self)@.wf(),
    {
        if start >= end {
            proof {
                assert(final(self)@ =~= copy_region_m(old(self)@, start as int, end as int));
            }
            return ;
        }
        let len = self.buffer.char_len();
        let safe_end = if end <= len {
            end
        } else {
            len
        };
        if start >= safe_end {
            proof {
                assert(final(self)@ =~= copy_region_m(old(self)@, start as int, end as int));
            }
            return ;
        }
        let copied_chars = self.buffer.slice_chars(start, safe_end);
        let copied = crate::text::chars_to_string(&copied_chars);
        push_kill_ring(kill_ring, copied);
        self.status_message = Some(String::from_str("Copied region"));
        proof {
            assert(final(self)@ =~= copy_region_m(old(self)@, start as int, end as int));
        }
    }

    /// Removes the region, relocates the cursor to its start, and
    /// pushes the removed text onto the kill ring.
    pub fn kill_region(&mut self, start: usize, end: usize, kill_ring: &mut Vec<String>)
        requires
            old(self)@.wf(),
        ensures
            final(self)@ == kill_region_m(old(self)@, start as int, end as int),
            final(kill_ring).deep_view() == push_ring(
                old(kill_ring).deep_view(),
                region_cut(old(self)@, start as int, end as int),
            ),
            final(self)@.wf(),
    {
        if start >= end {
            proof {
                assert(final(self)@ =~= kill_region_m(old(self)@, start as int, end as int));
            }
            return ;
        }
        let len = self.buffer.char_len();
        let safe_end = if end <= len {
            end
        } else {
            len
        };
        if start >= safe_end {
            proof {
                assert(final(self)@ =~= kill_region_m(old(self)@, start as int, end as int));
            }
            return ;
        }
        let killed_chars = self.buffer.slice_chars(start, safe_end);
        let killed = crate::text::chars_to_string(&killed_chars);
        self.record_undo_snapshot();
        self.buffer.remove_range(start, safe_end);
        let new_len = self.buffer.char_len();
        self.cursor = if start <= new_len {
            start
        } else {
            new_len
        };
        push_kill_ring(kill_ring, killed);
        self.modified = true;
        self.status_message = Some(String::from_str("Killed region"));
        proof {
            assert(final(self)@ =~= kill_region_m(old(self)@, start as int, end as int));
            crate::undo::lemma_push_capped_wf(old(self)@.undo, old(self)@.snap());
        }
    }

    /// Inserts the most recent kill-ring entry at the cursor; with an
    /// empty ring only a status is set and nothing is recorded.
    pub fn yank(&mut self, kill_ring: &Vec<String>)
        requires
            old(self)@.wf(),
        ensures
            final(self)@ == yank_m(old(self)@, kill_ring.deep_view()),
            final(self)@.wf(),
    {
        if kill_ring.len() == 0 {
            self.status_message = Some(String::from_str("Kill ring empty"));
            proof {
                assert(final(self)@ =~= yank_m(old(self)@, kill_ring.deep_view()));
            }
            return ;
        }
        let text = kill_ring[0].clone();
        let n = text.as_str().unicode_len();
        self.record_undo_snapshot();
        self.buffer.insert_str(self.cursor, text.as_str());
        proof {
            assert(self.buffer@.len() == old(self)@.text.len() + n);
        }
        self.cursor = self.cursor + n;
        self.modified = true;
        self.status_message = Some(String::from_str("Yank"));
        proof {
            assert(final(self)@ =~= yank_m(old(self)@, kill_ring.deep_view()));
            crate::undo::lemma_push_capped_wf(old(self)@.undo, old(self)@.snap());
        }
    }

    /// Places the cursor, clamping to the buffer.
    pub fn set_cursor(&mut self, cursor: usize)
        ensures
            final(self)@ == set_cursor_m(old(self)@, cursor as int),
            old(self)@.wf() ==> final(self)@.wf(),
    {
        let len = self.buffer.char_len();
        self.cursor = if cursor <= len {
            cursor
        } else {
            len
        };
        proof {
            assert(final(self)@ =~= set_cursor_m(old(self)@, cursor as int));
        }
    }
}

} // verus!
