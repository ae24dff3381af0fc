//! Cursor movement: characters, lines, words, and buffer ends. All
//! moves are pure cursor transitions over the current text.

use vstd::prelude::*;
use crate::model::{
    BufModel, col_at, cursor_of_line_col, line_at, line_end_after, line_start_before,
    lemma_count_nl_le, lemma_line_start_before_bounds,
};
use crate::state::{BufferState, EditorState};

verus! {

/// What `char::is_alphanumeric` returns; the result depends on the
/// character alone.
pub uninterp spec fn is_alnum(c: char) -> bool;

/// Relies on `char::is_alphanumeric`: a pure classification of the
/// character.
pub assume_specification[ char::is_alphanumeric ](c: char) -> (r: bool)
    ensures
        r == is_alnum(c),
;

/// A word character: alphanumeric or underscore.
pub open spec fn is_word_char_spec(c: char) -> bool {
    is_alnum(c) || c == '_'
}

#[verifier::when_used_as_spec(is_word_char_spec)]
pub fn is_word_char(c: char) -> (r: bool)
    ensures
        r == is_word_char_spec(c),
{
    c.is_alphanumeric() || c == '_'
}

/// The first offset at or after `i` that does not hold a word
/// character (or the end of the text).
pub open spec fn skip_word(t: Seq<char>, i: int) -> int
    decreases t.len() - i,
        when 0 <= i <= t.len()
{
    if i >= t.len() || !is_word_char_spec(t[i]) {
        i
    } else {
        skip_word(t, i + 1)
    }
}


/// The first offset at or after `i` that holds a word character (or
/// the end of the text).
pub open spec fn skip_nonword(t: Seq<char>, i: int) -> int
    decreases t.len() - i,
        when 0 <= i <= t.len()
{
    if i >= t.len() || is_word_char_spec(t[i]) {
        i
    } else {
        skip_nonword(t, i + 1)
    }
}


/// Scanning backward from `p`, the nearest offset holding a word
/// character (or the start of the text).
pub open spec fn back_over_nonword(t: Seq<char>, p: int) -> int
    decreases p,
        when 0 <= p < t.len()
{
    if p <= 0 || is_word_char_spec(t[p]) {
        p
    } else {
        back_over_nonword(t, p - 1)
    }
}


/// Scanning backward from `p`, the start of the run of word
/// characters ending there.
pub open spec fn back_to_word_start(t: Seq<char>, p: int) -> int
    decreases p,
        when 0 <= p <= t.len()
{
    if p <= 0 || !is_word_char_spec(t[p - 1]) {
        p
    } else {
        back_to_word_start(t, p - 1)
    }
}


/// One character forward, stopping at the end of the buffer.
pub open spec fn move_forward_m(m: BufModel) -> BufModel {
    if m.cursor < m.text.len() {
        BufModel { cursor: m.cursor + 1, ..m }
    } else {
        m
    }
}

/// One character backward, stopping at the start of the buffer.
pub open spec fn move_backward_m(m: BufModel) -> BufModel {
    if m.cursor > 0 {
        BufModel { cursor: (m.cursor - 1) as nat, ..m }
    } else {
        m
    }
}

/// To the start of the cursor's line.
pub open spec fn move_line_start_m(m: BufModel) -> BufModel {
    BufModel { cursor: line_start_before(m.text, m.cursor as int) as nat, ..m }
}

/// To the end of the cursor's line (just before its newline).
pub open spec fn move_line_end_m(m: BufModel) -> BufModel {
    BufModel { cursor: line_end_after(m.text, m.cursor as int) as nat, ..m }
}

/// To the same column one line down, clamped to that line's length;
/// unchanged when there is no next line.
pub open spec fn move_next_line_m(m: BufModel) -> BufModel {
    let l = line_at(m.text, m.cursor as int);
    let c = col_at(m.text, m.cursor as int);
    match cursor_of_line_col(m.text, l + 1, c) {
        Some(p) => BufModel { cursor: p as nat, ..m },
        None => m,
    }
}

/// To the same column one line up, clamped to that line's length;
/// unchanged on the first line.
pub open spec fn move_previous_line_m(m: BufModel) -> BufModel {
    let l = line_at(m.text, m.cursor as int);
    let c = col_at(m.text, m.cursor as int);
    if l <= 1 {
        m
    } else {
        match cursor_of_line_col(m.text, l - 1, c) {
            Some(p) => BufModel { cursor: p as nat, ..m },
            None => m,
        }
    }
}

/// Forward over the current run of word characters, then over the
/// following run of non-word characters: to the start of the next
/// word.
pub open spec fn move_forward_word_m(m: BufModel) -> BufModel {
    BufModel {
        cursor: skip_nonword(m.text, skip_word(m.text, m.cursor as int)) as nat,
        ..m
    }
}

/// Backward over any trailing non-word run, then to the start of the
/// word before it; unchanged at the start or in an empty buffer.
pub open spec fn move_backward_word_m(m: BufModel) -> BufModel {
    if m.cursor == 0 || m.text.len() == 0 {
        m
    } else {
        BufModel {
            cursor: back_to_word_start(
                m.text,
                back_over_nonword(m.text, m.cursor - 1),
            ) as nat,
            ..m
        }
    }
}

pub open spec fn move_buffer_start_m(m: BufModel) -> BufModel {
    BufModel { cursor: 0, ..m }
}

pub open spec fn move_buffer_end_m(m: BufModel) -> BufModel {
    BufModel { cursor: m.text.len(), ..m }
}

impl BufferState {
    pub fn move_forward(&mut self)
        requires
            old(self)@.wf(),
        ensures
            final(self)@ == move_forward_m(old(self)@),
            final(self)@.wf(),
    {
        if self.cursor < self.buffer.char_len() {
            self.cursor = self.cursor + 1;
        }
        proof {
            assert(final(self)@ =~= move_forward_m(old(self)@));
        }
    }

    pub fn move_backward(&mut self)
        requires
            old(self)@.wf(),
        ensures
            final(self)@ == move_backward_m(old(self)@),
            final(self)@.wf(),
    {
        if self.cursor > 0 {
            self.cursor = self.cursor - 1;
        }
        proof {
            assert(final(self)@ =~= move_backward_m(old(self)@));
        }
    }

    pub fn move_to_line_start(&mut self)
        requires
            old(self)@.wf(),
        ensures
            final(self)@ == move_line_start_m(old(self)@),
            final(self)@.wf(),
    {
        let ghost t = self@.text;
        let start = self.cursor;
        let mut p = start;
        while p > 0 && self.buffer.char_at(p - 1) != '\n'
            invariant
                t == self@.text,
                p <= start <= t.len(),
                line_start_before(t, start as int) == line_start_before(t, p as int),
            decreases p,
        {
            p = p - 1;
        }
        self.cursor = p;
        proof {
            lemma_line_start_before_bounds(t, start as int);
            assert(final(self)@ =~= move_line_start_m(old(self)@));
        }
    }

    pub fn move_to_line_end(&mut self)
        requires
            old(self)@.wf(),
        ensures
            final(self)@ == move_line_end_m(old(self)@),
            final(self)@.wf(),
    {
        let p = self.line_end_from(self.cursor);
        self.cursor = p;
        proof {
            assert(final(self)@ =~= move_line_end_m(old(self)@));
        }
    }

    pub fn move_next_line(&mut self)
        requires
            old(self)@.wf(),
            old(self)@.text.len() + 2 <= usize::MAX,
        ensures
            final(self)@ == move_next_line_m(old(self)@),
            final(self)@.wf(),
    {
        let ghost t = self@.text;
        let lc = self.line_col();
        proof {
            lemma_count_nl_le(t.take(crate::text::clamp_to(t.len() as int, self@.cursor as int)));
        }
        let target = lc.0 + 1;
        match self.line_col_to_cursor(target, lc.1) {
            Some(p) => {
                self.cursor = p;
            },
            None => {},
        }
        proof {
            assert(final(self)@ =~= move_next_line_m(old(self)@));
        }
    }

    pub fn move_previous_line(&mut self)
        requires
            old(self)@.wf(),
            old(self)@.text.len() < usize::MAX,
        ensures
            final(self)@ == move_previous_line_m(old(self)@),
            final(self)@.wf(),
    {
        let lc = self.line_col();
        if lc.0 <= 1 {
            proof {
                assert(final(self)@ =~= move_previous_line_m(old(self)@));
            }
            return ;
        }
        let target = lc.0 - 1;
        match self.line_col_to_cursor(target, lc.1) {
            Some(p) => {
                self.cursor = p;
            },
            None => {},
        }
        proof {
            assert(final(self)@ =~= move_previous_line_m(old(self)@));
        }
    }

    pub fn move_forward_word(&mut self)
        requires
            old(self)@.wf(),
        ensures
            final(self)@ == move_forward_word_m(old(self)@),
            final(self)@.wf(),
    {
        let ghost t = self@.text;
        let len = self.buffer.char_len();
        let start = self.cursor;
        let mut p = start;
        while p < len && is_word_char(self.buffer.char_at(p))
            invariant
                t == self@.text,
                start <= p <= len,
                len == t.len(),
                skip_word(t, start as int) == skip_word(t, p as int),
            decreases len - p,
        {
            p = p + 1;
        }
        let ghost mid = p as int;
        while p < len && !is_word_char(self.buffer.char_at(p))
            invariant
                t == self@.text,
                mid <= p <= len,
                len == t.len(),
                skip_nonword(t, mid) == skip_nonword(t, p as int),
            decreases len - p,
        {
            p = p + 1;
        }
        self.cursor = p;
        proof {
            assert(final(self)@ =~= move_forward_word_m(old(self)@));
        }
    }

    pub fn move_backward_word(&mut self)
        requires
            old(self)@.wf(),
        ensures
            final(self)@ == move_backward_word_m(old(self)@),
            final(self)@.wf(),
    {
        let ghost t = self@.text;
        let len = self.buffer.char_len();
        if self.cursor == 0 || len == 0 {
            proof {
                assert(final(self)@ =~= move_backward_word_m(old(self)@));
            }
            return ;
        }
        let start = self.cursor - 1;
        let mut p = start;
        while p > 0 && !is_word_char(self.buffer.char_at(p))
            invariant
                t == self@.text,
                p <= start < len,
                len == t.len(),
                back_over_nonword(t, start as int) == back_over_nonword(t, p as int),
            decreases p,
        {
            p = p - 1;
        }
        let ghost mid = p as int;
        while p > 0 && is_word_char(self.buffer.char_at(p - 1))
            invariant
                t == self@.text,
                0 <= p <= mid < len,
                len == t.len(),
                back_to_word_start(t, mid) == back_to_word_start(t, p as int),
            decreases p,
        {
            p = p - 1;
        }
        self.cursor = p;
        proof {
            assert(final(self)@ =~= move_backward_word_m(old(self)@));
        }
    }

    pub fn move_to_buffer_start(&mut self)
        requires
            old(self)@.wf(),
        ensures
            final(self)@ == move_buffer_start_m(old(self)@),
            final(self)@.wf(),
    {
        self.cursor = 0;
        proof {
            assert(final(self)@ =~= move_buffer_start_m(old(self)@));
        }
    }

    pub fn move_to_buffer_end(&mut self)
        requires
            old(self)@.wf(),
        ensures
            final(self)@ == move_buffer_end_m(old(self)@),
            final(self)@.wf(),
    {
        self.cursor = self.buffer.char_len();
        proof {
            assert(final(self)@ =~= move_buffer_end_m(old(self)@));
        }
    }
}

impl EditorState {
    pub fn move_forward(&mut self)
        requires
            old(self)@.wf(),
        ensures
            final(self)@ == old(self)@.with_cur(move_forward_m(old(self)@.cur())),
            final(self)@.wf(),
    {
        let i = self.current_index;
        let b = &mut self.buffers[i];
        b.move_forward();
        proof {
            assert(final(self)@ =~= old(self)@.with_cur(move_forward_m(old(self)@.cur())));
        }
    }

    pub fn move_backward(&mut self)
        requires
            old(self)@.wf(),
        ensures
            final(self)@ == old(self)@.with_cur(move_backward_m(old(self)@.cur())),
            final(self)@.wf(),
    {
        let i = self.current_index;
        let b = &mut self.buffers[i];
        b.move_backward();
        proof {
            assert(final(self)@ =~= old(self)@.with_cur(move_backward_m(old(self)@.cur())));
        }
    }

    pub fn move_to_line_start(&mut self)
        requires
            old(self)@.wf(),
        ensures
            final(self)@ == old(self)@.with_cur(move_line_start_m(old(self)@.cur())),
            final(self)@.wf(),
    {
        let i = self.current_index;
        let b = &mut self.buffers[i];
        b.move_to_line_start();
        proof {
            assert(final(self)@ =~= old(self)@.with_cur(move_line_start_m(old(self)@.cur())));
        }
    }

    pub fn move_to_line_end(&mut self)
        requires
            old(self)@.wf(),
        ensures
            final(self)@ == old(self)@.with_cur(move_line_end_m(old(self)@.cur())),
            final(self)@.wf(),
    {
        let i = self.current_index;
        let b = &mut self.buffers[i];
        b.move_to_line_end();
        proof {
            assert(final(self)@ =~= old(self)@.with_cur(move_line_end_m(old(self)@.cur())));
        }
    }

    pub fn move_next_line(&mut self)
        requires
            old(self)@.wf(),
            old(self)@.cur().text.len() + 2 <= usize::MAX,
        ensures
            final(self)@ == old(self)@.with_cur(move_next_line_m(old(self)@.cur())),
            final(self)@.wf(),
    {
        let i = self.current_index;
        let b = &mut self.buffers[i];
        b.move_next_line();
        proof {
            assert(final(self)@ =~= old(self)@.with_cur(move_next_line_m(old(self)@.cur())));
        }
    }

    pub fn move_previous_line(&mut self)
        requires
            old(self)@.wf(),
            old(self)@.cur().text.len() < usize::MAX,
        ensures
            final(self)@ == old(self)@.with_cur(move_previous_line_m(old(self)@.cur())),
            final(self)@.wf(),
    {
        let i = self.current_index;
        let b = &mut self.buffers[i];
        b.move_previous_line();
        proof {
            assert(final(self)@ =~= old(self)@.with_cur(move_previous_line_m(old(self)@.cur())));
        }
    }

    pub fn move_forward_word(&mut self)
        requires
            old(self)@.wf(),
        ensures
            final(self)@ == old(self)@.with_cur(move_forward_word_m(old(self)@.cur())),
            final(self)@.wf(),
    {
        let i = self.current_index;
        let b = &mut self.buffers[i];
        b.move_forward_word();
        proof {
            assert(final(self)@ =~= old(self)@.with_cur(move_forward_word_m(old(self)@.cur())));
        }
    }

    pub fn move_backward_word(&mut self)
        requires
            old(self)@.wf(),
        ensures
            final(self)@ == old(self)@.with_cur(move_backward_word_m(old(self)@.cur())),
            final(self)@.wf(),
    {
        let i = self.current_index;
        let b = &mut self.buffers[i];
        b.move_backward_word();
        proof {
            assert(final(self)@ =~= old(self)@.with_cur(move_backward_word_m(old(self)@.cur())));
        }
    }

    pub fn move_to_buffer_start(&mut self)
        requires
            old(self)@.wf(),
        ensures
            final(self)@ == old(self)@.with_cur(move_buffer_start_m(old(self)@.cur())),
            final(self)@.wf(),
    {
        let i = self.current_index;
        let b = &mut self.buffers[i];
        b.move_to_buffer_start();
        proof {
            assert(final(self)@ =~= old(self)@.with_cur(move_buffer_start_m(old(self)@.cur())));
        }
    }

    pub fn move_to_buffer_end(&mut self)
        requires
            old(self)@.wf(),
        ensures
            final(self)@ == old(self)@.with_cur(move_buffer_end_m(old(self)@.cur())),
            final(self)@.wf(),
    {
        let i = self.current_index;
        let b = &mut self.buffers[i];
        b.move_to_buffer_end();
        proof {
            assert(final(self)@ =~= old(self)@.with_cur(move_buffer_end_m(old(self)@.cur())));
        }
    }
}

} // verus!
