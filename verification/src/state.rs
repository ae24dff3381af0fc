//! One open document and the whole editor session.

use vstd::prelude::*;
use vstd::string::StringExecFns;
use crate::model::{BufModel, EdModel, line_at, col_at, push_ring};
use crate::search::QueryReplaceSession;
use crate::text::TextBuffer;
use crate::undo::{UndoSnapshot, UndoStack, push_capped, lemma_push_capped_wf};

verus! {

/// One open document: buffer, cursor, history, and metadata.
pub struct BufferState {
    pub buffer: TextBuffer,
    pub cursor: usize,
    pub undo_stack: UndoStack,
    pub modified: bool,
    pub original_encoding: String,
    pub line_ending: String,
    pub file_path: Option<String>,
    pub status_message: Option<String>,
    pub query_replace_session: Option<QueryReplaceSession>,
}

impl View for BufferState {
    type V = BufModel;

    open spec fn view(&self) -> BufModel {
        BufModel {
            text: self.buffer@,
            cursor: self.cursor as nat,
            undo: self.undo_stack@.undo,
            redo: self.undo_stack@.redo,
            modified: self.modified,
            encoding: self.original_encoding@,
            line_ending: self.line_ending@,
            file_path: self.file_path.deep_view(),
            status: self.status_message.deep_view(),
            session: match self.query_replace_session {
                Some(s) => Some(s@),
                None => None,
            },
        }
    }
}

/// A path separator; both styles are recognised.
pub open spec fn is_sep_spec(c: char) -> bool {
    c == '/' || c == '\\'
}

#[verifier::when_used_as_spec(is_sep_spec)]
fn is_sep(c: char) -> (r: bool)
    ensures
        r == is_sep_spec(c),
{
    c == '/' || c == '\\'
}

/// The path with its trailing separators removed.
pub open spec fn strip_trailing_seps(p: Seq<char>) -> Seq<char>
    decreases p.len(),
{
    if p.len() > 0 && is_sep_spec(p.last()) {
        strip_trailing_seps(p.drop_last())
    } else {
        p
    }
}

/// The suffix after the last separator.
pub open spec fn after_last_sep(q: Seq<char>) -> Seq<char>
    decreases q.len(),
{
    if q.len() == 0 {
        q
    } else if is_sep_spec(q.last()) {
        Seq::empty()
    } else {
        after_last_sep(q.drop_last()).push(q.last())
    }
}

/// The display name a file path yields: its final segment, or the
/// whole path when no non-empty segment remains.
pub open spec fn name_of_path(p: Seq<char>) -> Seq<char> {
    let seg = after_last_sep(strip_trailing_seps(p));
    if seg.len() == 0 {
        p
    } else {
        seg
    }
}

/// A document's display name.
pub open spec fn name_of(m: BufModel) -> Seq<char> {
    match m.file_path {
        None => "*scratch*"@,
        Some(p) => name_of_path(p),
    }
}

/// The state after loading decoded content: the buffer is replaced
/// wholesale, the cursor and history reset, and the metadata recorded.
pub open spec fn load_m(
    m: BufModel,
    content: Seq<char>,
    encoding: Seq<char>,
    line_ending: Seq<char>,
    file_path: Seq<char>,
) -> BufModel {
    BufModel {
        text: content,
        cursor: 0,
        undo: Seq::empty(),
        redo: Seq::empty(),
        modified: false,
        encoding: encoding,
        line_ending: line_ending,
        file_path: Some(file_path),
        status: m.status,
        session: None,
    }
}

/// The state after undo: the newest undo snapshot replaces the buffer
/// and cursor (cursor clamped to the restored text), the pre-undo state
/// moves to the redo stack; with no history only a status is set.
pub open spec fn undo_m(m: BufModel) -> BufModel {
    if m.undo.len() == 0 {
        BufModel { status: Some("Undo: no more changes"@), ..m }
    } else {
        let prev = m.undo.last();
        BufModel {
            text: prev.text,
            cursor: if prev.cursor <= prev.text.len() {
                prev.cursor
            } else {
                prev.text.len()
            },
            undo: m.undo.drop_last(),
            redo: push_capped(m.redo, m.snap()),
            modified: true,
            status: Some("Undo"@),
            ..m
        }
    }
}

/// The state after redo: the mirror of [`undo_m`].
pub open spec fn redo_m(m: BufModel) -> BufModel {
    if m.redo.len() == 0 {
        BufModel { status: Some("Redo: no more changes"@), ..m }
    } else {
        let next = m.redo.last();
        BufModel {
            text: next.text,
            cursor: if next.cursor <= next.text.len() {
                next.cursor
            } else {
                next.text.len()
            },
            redo: m.redo.drop_last(),
            undo: push_capped(m.undo, m.snap()),
            modified: true,
            status: Some("Redo"@),
            ..m
        }
    }
}

impl BufferState {
    pub open spec fn wf(&self) -> bool {
        self@.wf()
    }

    /// A fresh scratch document.
    pub fn new() -> (r: BufferState)
        ensures
            r@ == BufModel::init(),
            r@.wf(),
    {
        let r = BufferState {
            buffer: TextBuffer::new(),
            cursor: 0,
            undo_stack: UndoStack::new(),
            modified: false,
            original_encoding: String::from_str("UTF-8"),
            line_ending: String::from_str("CRLF"),
            file_path: None,
            status_message: None,
            query_replace_session: None,
        };
        proof {
            assert(r@ =~= BufModel::init());
        }
        r
    }

    /// Replaces the document with freshly loaded content.
    pub fn load_content(
        &mut self,
        content: String,
        encoding: String,
        line_ending: String,
        file_path: String,
    )
        ensures
            final(self)@ == load_m(old(self)@, content@, encoding@, line_ending@, file_path@),
            final(self)@.wf(),
    {
        let ghost target = load_m(old(self)@, content@, encoding@, line_ending@, file_path@);
        self.buffer = TextBuffer::from_text(content);
        self.cursor = 0;
        self.modified = false;
        self.original_encoding = encoding;
        self.line_ending = line_ending;
        self.file_path = Some(file_path);
        self.undo_stack.clear_all();
        self.query_replace_session = None;
        proof {
            assert(final(self)@ =~= target);
        }
    }

    pub fn set_file_path(&mut self, file_path: String)
        ensures
            final(self)@ == (BufModel { file_path: Some(file_path@), ..old(self)@ }),
    {
        self.file_path = Some(file_path);
        proof {
            assert(final(self)@ =~= (BufModel { file_path: Some(file_path@), ..old(self)@ }));
        }
    }

    pub fn set_status_message(&mut self, message: Option<String>)
        ensures
            final(self)@ == (BufModel { status: message.deep_view(), ..old(self)@ }),
    {
        self.status_message = message;
        proof {
            assert(final(self)@ =~= (BufModel { status: message.deep_view(), ..old(self)@ }));
        }
    }

    pub fn mark_saved(&mut self)
        ensures
            final(self)@ == (BufModel { modified: false, ..old(self)@ }),
    {
        self.modified = false;
        proof {
            assert(final(self)@ =~= (BufModel { modified: false, ..old(self)@ }));
        }
    }

    /// Pushes the current text and cursor onto the undo stack and
    /// discards the redo history; called before every mutation.
    pub fn record_undo_snapshot(&mut self)
        ensures
            final(self)@ == old(self)@.record(),
    {
        let snap = UndoSnapshot { text: self.buffer.as_str(), cursor: self.cursor };
        self.undo_stack.push_undo(snap);
        self.undo_stack.clear_redo();
        proof {
            assert(final(self)@ =~= old(self)@.record());
        }
    }

    /// The first newline at or after `from`, or the end of the text:
    /// one past the end of the line `from` lies on.
    pub fn line_end_from(&self, from: usize) -> (r: usize)
        requires
            from <= self@.text.len(),
        ensures
            r == crate::model::line_end_after(self@.text, from as int),
            from <= r <= self@.text.len(),
            crate::model::next_nl(self@.text, from as int) matches Some(p) ==> r == p
                && self@.text[r as int] == '\n',
            crate::model::next_nl(self@.text, from as int) is None ==> r == self@.text.len(),
    {
        let ghost t = self@.text;
        let len = self.buffer.char_len();
        let mut i: usize = from;
        while i < len && self.buffer.char_at(i) != '\n'
            invariant
                t == self@.text,
                from <= i <= len,
                len == t.len(),
                crate::model::next_nl(t, from as int) == crate::model::next_nl(t, i as int),
            decreases len - i,
        {
            i = i + 1;
        }
        proof {
            crate::model::lemma_next_nl_bounds(t, from as int);
        }
        i
    }

    /// The 1-based line and column of the given character offset
    /// (offsets past the end count as the end of the text).
    pub fn line_col_at(&self, cursor: usize) -> (r: (usize, usize))
        requires
            self@.text.len() < usize::MAX,
        ensures
            r.0 == line_at(self@.text, cursor as int),
            r.1 == col_at(self@.text, cursor as int),
    {
        let ghost t = self@.text;
        let len = self.buffer.char_len();
        let end = if cursor <= len {
            cursor
        } else {
            len
        };
        let mut line: usize = 1;
        let mut col: usize = 1;
        let mut i: usize = 0;
        while i < end
            invariant
                t == self@.text,
                i <= end <= len,
                len == t.len(),
                len < usize::MAX,
                line == 1 + crate::model::count_nl(t.take(i as int)),
                col == 1 + i - crate::model::line_start_before(t, i as int),
            decreases end - i,
        {
            let c = self.buffer.char_at(i);
            proof {
                crate::model::lemma_count_nl_step(t, i as int);
                crate::model::lemma_count_nl_le(t.take(i + 1));
                crate::model::lemma_line_start_before_bounds(t, i + 1);
            }
            if c == '\n' {
                line = line + 1;
                col = 1;
            } else {
                col = col + 1;
            }
            i = i + 1;
        }
        (line, col)
    }

    /// The 1-based line and column of the cursor.
    pub fn line_col(&self) -> (r: (usize, usize))
        requires
            self@.text.len() < usize::MAX,
        ensures
            r.0 == line_at(self@.text, self@.cursor as int),
            r.1 == col_at(self@.text, self@.cursor as int),
    {
        self.line_col_at(self.cursor)
    }

    /// The character offset of a 1-based (line, column) position, the
    /// column clamped to the line's length; no offset when the line
    /// does not exist or either coordinate is zero.
    pub fn line_col_to_cursor(&self, target_line: usize, target_col: usize) -> (r: Option<
        usize,
    >)
        ensures
            (r is Some) == (crate::model::cursor_of_line_col(
                self@.text,
                target_line as int,
                target_col as int,
            ) is Some),
            r matches Some(c) ==> crate::model::cursor_of_line_col(
                self@.text,
                target_line as int,
                target_col as int,
            ) == Some(c as int) && c <= self@.text.len(),
    {
        let ghost t = self@.text;
        if target_line == 0 || target_col == 0 {
            return None;
        }
        let len = self.buffer.char_len();
        let mut cur_line: usize = 1;
        let mut s: usize = 0;
        while cur_line < target_line
            invariant
                t == self@.text,
                1 <= cur_line <= target_line,
                len == t.len(),
                s <= len,
                crate::model::start_of_line(t, cur_line as int) == Some(s as int),
            decreases target_line - cur_line,
        {
            let p = self.line_end_from(s);
            if p == len {
                proof {
                    if (crate::model::next_nl(t, s as int) is Some) {
                        crate::model::lemma_next_nl_bounds(t, s as int);
                    }
                    crate::model::lemma_no_line_past_last(t, cur_line as int, target_line as int);
                }
                return None;
            }
            s = p + 1;
            cur_line = cur_line + 1;
        }
        let e = self.line_end_from(s);
        let off = target_col - 1;
        let r = if off <= e - s {
            s + off
        } else {
            e
        };
        Some(r)
    }

    /// The document's display name: the final segment of its file
    /// path (trailing separators ignored), the whole path when there
    /// is no non-empty segment, and a scratch name without a path.
    pub fn name(&self) -> (r: String)
        ensures
            r@ == name_of(self@),
    {
        match &self.file_path {
            None => {
                let r = String::from_str("*scratch*");
                r
            },
            Some(p) => {
                let chars = crate::text::str_to_chars(p.as_str());
                let ghost q = p@;
                let mut end: usize = chars.len();
                proof {
                    assert(q.take(q.len() as int) =~= q);
                }
                while end > 0 && is_sep(chars[end - 1])
                    invariant
                        end <= q.len(),
                        chars@ == q,
                        strip_trailing_seps(q) == strip_trailing_seps(q.take(end as int)),
                    decreases end,
                {
                    proof {
                        assert(q.take(end as int).last() == q[end - 1]);
                        assert(q.take(end as int).drop_last() =~= q.take(end - 1));
                    }
                    end = end - 1;
                }
                proof {
                    if end > 0 {
                        assert(q.take(end as int).last() == q[end - 1]);
                    }
                    assert(strip_trailing_seps(q) == q.take(end as int));
                }
                let mut start: usize = end;
                while start > 0 && !is_sep(chars[start - 1])
                    invariant
                        start <= end <= q.len(),
                        chars@ == q,
                        after_last_sep(q.take(end as int)) =~= after_last_sep(
                            q.take(start as int),
                        ) + q.subrange(start as int, end as int),
                    decreases start,
                {
                    proof {
                        assert(q.take(start as int).last() == q[start - 1]);
                        assert(q.take(start as int).drop_last() =~= q.take(start - 1));
                        assert(after_last_sep(q.take(start as int)) =~= after_last_sep(
                            q.take(start - 1),
                        ).push(q[start - 1]));
                    }
                    start = start - 1;
                }
                proof {
                    if start > 0 {
                        assert(q.take(start as int).last() == q[start - 1]);
                    }
                    assert(after_last_sep(q.take(end as int)) =~= q.subrange(
                        start as int,
                        end as int,
                    ));
                }
                if start == end {
                    let r = p.clone();
                    r
                } else {
                    let seg = crate::text::TextBuffer::from_chars(chars).slice_chars(start, end);
                    let r = crate::text::chars_to_string(&seg);
                    r
                }
            },
        }
    }

    pub fn undo(&mut self)
        ensures
            final(self)@ == undo_m(old(self)@),
            old(self)@.wf() ==> final(self)@.wf(),
    {
        let popped = self.undo_stack.pop_undo();
        match popped {
            None => {
                self.set_status_message(Some(String::from_str("Undo: no more changes")));
                proof {
                    assert(final(self)@ =~= undo_m(old(self)@));
                }
            },
            Some(prev) => {
                let current = UndoSnapshot { text: self.buffer.as_str(), cursor: self.cursor };
                self.undo_stack.push_redo(current);
                self.buffer = TextBuffer::from_text(prev.text);
                let len = self.buffer.char_len();
                self.cursor = if prev.cursor <= len {
                    prev.cursor
                } else {
                    len
                };
                self.modified = true;
                self.set_status_message(Some(String::from_str("Undo")));
                proof {
                    assert(final(self)@ =~= undo_m(old(self)@));
                    if old(self)@.wf() {
                        lemma_push_capped_wf(old(self)@.redo, old(self)@.snap());
                    }
                }
            },
        }
    }

    pub fn redo(&mut self)
        ensures
            final(self)@ == redo_m(old(self)@),
            old(self)@.wf() ==> final(self)@.wf(),
    {
        let popped = self.undo_stack.pop_redo();
        match popped {
            None => {
                self.set_status_message(Some(String::from_str("Redo: no more changes")));
                proof {
                    assert(final(self)@ =~= redo_m(old(self)@));
                }
            },
            Some(next) => {
                let current = UndoSnapshot { text: self.buffer.as_str(), cursor: self.cursor };
                self.undo_stack.push_undo(current);
                self.buffer = TextBuffer::from_text(next.text);
                let len = self.buffer.char_len();
                self.cursor = if next.cursor <= len {
                    next.cursor
                } else {
                    len
                };
                self.modified = true;
                self.set_status_message(Some(String::from_str("Redo")));
                proof {
                    assert(final(self)@ =~= redo_m(old(self)@));
                    if old(self)@.wf() {
                        lemma_push_capped_wf(old(self)@.undo, old(self)@.snap());
                    }
                }
            },
        }
    }
}

/// The read-only projection handed back after every command.
pub struct EditorSnapshot {
    pub text: String,
    pub cursor: usize,
    pub line: usize,
    pub col: usize,
    pub chars: usize,
    pub modified: bool,
    pub encoding: String,
    pub line_ending: String,
    pub file_path: Option<String>,
    pub status_message: Option<String>,
}

/// A snapshot faithfully projects the given document.
pub open spec fn snapshot_matches(r: EditorSnapshot, b: BufModel) -> bool {
    &&& r.text@ == b.text
    &&& r.cursor == b.cursor
    &&& r.line == line_at(b.text, b.cursor as int)
    &&& r.col == col_at(b.text, b.cursor as int)
    &&& r.chars == b.text.len()
    &&& r.modified == b.modified
    &&& r.encoding@ == b.encoding
    &&& r.line_ending@ == b.line_ending
    &&& r.file_path.deep_view() == b.file_path
    &&& r.status_message.deep_view() == b.status
}

fn clone_opt_string(o: &Option<String>) -> (r: Option<String>)
    ensures
        r.deep_view() == o.deep_view(),
{
    match o {
        None => None,
        Some(s) => Some(s.clone()),
    }
}

/// The whole editor session: the open documents, the current one, the
/// shared kill ring, and the previously current one.
pub struct EditorState {
    pub buffers: Vec<BufferState>,
    pub current_index: usize,
    pub kill_ring: Vec<String>,
    pub prev_index: usize,
}

impl View for EditorState {
    type V = EdModel;

    open spec fn view(&self) -> EdModel {
        EdModel {
            buffers: self.buffers@.map_values(|b: BufferState| b@),
            current: self.current_index as nat,
            kill_ring: self.kill_ring.deep_view(),
            prev: self.prev_index as nat,
        }
    }
}

/// The first document with the given display name, scanning from `i`.
pub open spec fn find_named(bufs: Seq<BufModel>, name: Seq<char>, i: int) -> Option<int>
    decreases bufs.len() - i,
        when 0 <= i
{
    if i >= bufs.len() {
        None
    } else if name_of(bufs[i]) == name {
        Some(i)
    } else {
        find_named(bufs, name, i + 1)
    }
}

/// The first document whose file path is the given one, scanning from
/// `i`.
pub open spec fn find_pathed(bufs: Seq<BufModel>, path: Seq<char>, i: int) -> Option<int>
    decreases bufs.len() - i,
        when 0 <= i
{
    if i >= bufs.len() {
        None
    } else if bufs[i].file_path == Some(path) {
        Some(i)
    } else {
        find_pathed(bufs, path, i + 1)
    }
}

/// The state after making the given document current: the previous
/// index is remembered only on an actual change.
pub open spec fn switch_m(m: EdModel, idx: int) -> EdModel {
    if idx != m.current {
        EdModel { prev: m.current, current: idx as nat, ..m }
    } else {
        m
    }
}

/// The state after switching to a named document and noting the switch
/// in its status.
pub open spec fn switch_named_m(m: EdModel, idx: int, name: Seq<char>) -> EdModel {
    let m2 = switch_m(m, idx);
    m2.with_cur(BufModel { status: Some(crate::msg::msg_switched(name)), ..m2.cur() })
}

/// The default target of "switch to other buffer": the previously
/// current document when that differs from the current one, else the
/// first other document, else the current one itself.
pub open spec fn other_index(m: EdModel) -> Option<int> {
    if m.current != 0 {
        Some(0)
    } else if m.buffers.len() > 1 {
        Some(1)
    } else {
        None
    }
}

pub open spec fn default_switch_name_of(m: EdModel) -> Seq<char> {
    if m.prev < m.buffers.len() && m.prev != m.current {
        name_of(m.buffers[m.prev as int])
    } else {
        match other_index(m) {
            Some(i) => name_of(m.buffers[i]),
            None => name_of(m.cur()),
        }
    }
}

/// The display names of all open documents, in order.
pub open spec fn names_of(m: EdModel) -> Seq<Seq<char>> {
    m.buffers.map_values(|b: BufModel| name_of(b))
}

impl EditorState {
    pub open spec fn wf(&self) -> bool {
        self@.wf()
    }

    /// A fresh session holding one scratch document.
    pub fn new() -> (r: EditorState)
        ensures
            r@.wf(),
            r@.buffers.len() == 1,
            r@.cur() == BufModel::init(),
            r@.current == 0,
            r@.prev == 0,
            r@.kill_ring == Seq::<Seq<char>>::empty(),
    {
        let mut buffers: Vec<BufferState> = Vec::new();
        buffers.push(BufferState::new());
        let r = EditorState { buffers, current_index: 0, kill_ring: Vec::new(), prev_index: 0 };
        proof {
            assert(r@.buffers =~= seq![BufModel::init()]);
            assert(r@.kill_ring =~= Seq::<Seq<char>>::empty());
        }
        r
    }

    /// The current document.
    pub fn current(&self) -> (r: &BufferState)
        requires
            self@.wf(),
        ensures
            r@ == self@.cur(),
    {
        &self.buffers[self.current_index]
    }

    /// A mutable borrow of the current document.
    pub fn current_mut(&mut self) -> (r: &mut BufferState)
        requires
            old(self)@.wf(),
        ensures
            r@ == old(self)@.cur(),
            final(self)@ =~= old(self)@.with_cur(final(r)@),
            final(self).current_index == old(self).current_index,
            final(self).kill_ring == old(self).kill_ring,
            final(self).prev_index == old(self).prev_index,
    {
        let i = self.current_index;
        &mut self.buffers[i]
    }

    /// Disjoint mutable borrows of the current document and the kill
    /// ring.
    pub fn current_and_kill_ring(&mut self) -> (r: (&mut BufferState, &mut Vec<String>))
        requires
            old(self)@.wf(),
        ensures
            r.0@ == old(self)@.cur(),
            r.1@ == old(self).kill_ring@,
            final(self)@ =~= (EdModel {
                buffers: old(self)@.buffers.update(old(self)@.current as int, final(r.0)@),
                kill_ring: final(r.1).deep_view(),
                ..old(self)@
            }),
            final(self).current_index == old(self).current_index,
            final(self).prev_index == old(self).prev_index,
    {
        let i = self.current_index;
        (&mut self.buffers[i], &mut self.kill_ring)
    }

    /// The snapshot of the current document.
    pub fn snapshot(&self) -> (r: EditorSnapshot)
        requires
            self@.wf(),
            self@.cur().text.len() < usize::MAX,
        ensures
            snapshot_matches(r, self@.cur()),
    {
        let buf = &self.buffers[self.current_index];
        let lc = buf.line_col();
        EditorSnapshot {
            text: buf.buffer.as_str(),
            cursor: buf.cursor,
            line: lc.0,
            col: lc.1,
            chars: buf.buffer.char_len(),
            modified: buf.modified,
            encoding: buf.original_encoding.clone(),
            line_ending: buf.line_ending.clone(),
            file_path: clone_opt_string(&buf.file_path),
            status_message: clone_opt_string(&buf.status_message),
        }
    }

    /// Pushes a killed or copied fragment onto the shared kill ring.
    pub fn push_kill_ring(&mut self, text: String)
        ensures
            final(self)@ == (EdModel {
                kill_ring: push_ring(old(self)@.kill_ring, text@),
                ..old(self)@
            }),
    {
        crate::edit::push_kill_ring(&mut self.kill_ring, text);
        proof {
            assert(final(self)@ =~= (EdModel {
                kill_ring: push_ring(old(self)@.kill_ring, text@),
                ..old(self)@
            }));
        }
    }

    /// The display names of all open documents.
    pub fn buffer_names(&self) -> (r: Vec<String>)
        ensures
            r.deep_view() == names_of(self@),
    {
        let mut r: Vec<String> = Vec::new();
        let mut i: usize = 0;
        let n = self.buffers.len();
        while i < n
            invariant
                i <= n,
                n == self.buffers@.len(),
                r.deep_view() =~= names_of(self@).take(i as int),
            decreases n - i,
        {
            let ghost pre = r.deep_view();
            let name = self.buffers[i].name();
            r.push(name);
            proof {
                assert(r.deep_view() =~= pre.push(name@));
                assert(names_of(self@).take(i + 1) =~= names_of(self@).take(i as int).push(
                    name_of(self@.buffers[i as int]),
                ));
                assert(r.deep_view() =~= names_of(self@).take(i + 1));
            }
            i = i + 1;
        }
        proof {
            assert(r.deep_view() =~= names_of(self@));
        }
        r
    }

    /// The index of the first document with the given display name.
    fn find_named_index(&self, name_s: &String) -> (r: Option<usize>)
        ensures
            r is None ==> find_named(self@.buffers, name_s@, 0) is None,
            r matches Some(i) ==> find_named(self@.buffers, name_s@, 0) == Some(i as int) && i
                < self@.buffers.len(),
    {
        let n = self.buffers.len();
        let mut i: usize = 0;
        while i < n
            invariant
                i <= n,
                n == self.buffers@.len(),
                find_named(self@.buffers, name_s@, 0) == find_named(
                    self@.buffers,
                    name_s@,
                    i as int,
                ),
            decreases n - i,
        {
            let bn = self.buffers[i].name();
            if bn.eq(name_s) {
                return Some(i);
            }
            i = i + 1;
        }
        None
    }

    /// Makes the document with the given display name current; an
    /// unknown name is an error and leaves the session unchanged.
    pub fn switch_to_buffer(&mut self, name: &str) -> (r: Result<(), String>)
        requires
            old(self)@.wf(),
        ensures
            find_named(old(self)@.buffers, name@, 0) is None ==> final(self)@ == old(self)@ && (
            r matches Err(e) && e@ == crate::msg::msg_no_buffer(name@)),
            find_named(old(self)@.buffers, name@, 0) matches Some(idx) ==> r is Ok && final(self)@
                == switch_named_m(old(self)@, idx, name@),
            final(self)@.wf(),
    {
        let name_s = String::from_str(name);
        let found = self.find_named_index(&name_s);
        match found {
            None => Err(crate::msg::msg_no_buffer_str(name)),
            Some(idx) => {
                if idx != self.current_index {
                    self.prev_index = self.current_index;
                    self.current_index = idx;
                }
                let cur = self.current_index;
                let b = &mut self.buffers[cur];
                b.set_status_message(Some(crate::msg::prefixed_str("Switched to ", name)));
                proof {
                    assert(final(self)@ =~= switch_named_m(
                        old(self)@,
                        idx as int,
                        name@,
                    ));
                }
                Ok(())
            },
        }
    }

    /// The index of the document opened from the given file path.
    pub fn find_buffer_by_path(&self, path: &str) -> (r: Option<usize>)
        ensures
            r is None ==> find_pathed(self@.buffers, path@, 0) is None,
            r matches Some(i) ==> find_pathed(self@.buffers, path@, 0) == Some(i as int),
    {
        let path_s = String::from_str(path);
        let n = self.buffers.len();
        let mut i: usize = 0;
        while i < n
            invariant
                i <= n,
                n == self.buffers@.len(),
                find_pathed(self@.buffers, path@, 0) == find_pathed(self@.buffers, path@, i as int),
                path_s@ == path@,
            decreases n - i,
        {
            let matches_here = match &self.buffers[i].file_path {
                Some(fp) => fp.eq(&path_s),
                None => false,
            };
            if matches_here {
                return Some(i);
            }
            i = i + 1;
        }
        None
    }

    /// Makes the document at the given index current.
    pub fn switch_to_index(&mut self, index: usize)
        requires
            index < old(self)@.buffers.len(),
        ensures
            final(self)@ == switch_m(old(self)@, index as int),
            old(self)@.wf() ==> final(self)@.wf(),
    {
        if index != self.current_index {
            self.prev_index = self.current_index;
            self.current_index = index;
        }
        proof {
            assert(final(self)@ =~= switch_m(old(self)@, index as int));
        }
    }

    /// The name offered as the default when switching to the other
    /// buffer.
    pub fn default_switch_name(&self) -> (r: String)
        requires
            self@.wf(),
        ensures
            r@ == default_switch_name_of(self@),
    {
        let n = self.buffers.len();
        if self.prev_index < n && self.prev_index != self.current_index {
            self.buffers[self.prev_index].name()
        } else if self.current_index != 0 {
            self.buffers[0].name()
        } else if n > 1 {
            self.buffers[1].name()
        } else {
            self.buffers[self.current_index].name()
        }
    }
}

} // verus!
