//! The command surface the presentation shell drives: typed payloads,
//! per-command façades over the whole session, and the dispatcher.

use vstd::prelude::*;
use vstd::string::StringExecFns;
use crate::cursor::{
    move_backward_m, move_backward_word_m, move_buffer_end_m, move_buffer_start_m,
    move_forward_m, move_forward_word_m, move_line_end_m, move_line_start_m, move_next_line_m,
    move_previous_line_m,
};
use crate::edit::{
    copy_region_m, delete_backward_char_m, delete_char_m, insert_text_m, kill_line_cut,
    kill_line_m, kill_region_m, region_cut, set_cursor_m, yank_m,
};
use crate::model::{BufModel, EdModel, lemma_push_ring_wf, push_ring};
use crate::msg::msg_not_found;
use crate::search::{
    QueryReplaceStatus, isearch_backward_m, isearch_backward_ok, isearch_forward_m,
    isearch_forward_ok, qr_start_m, qr_start_status_m, qr_step_err, qr_step_m, qr_step_status_m,
};
use crate::state::{BufferState, EditorSnapshot, EditorState, redo_m, snapshot_matches, undo_m};

verus! {

/// Free text to insert at the cursor.
pub struct InsertPayload {
    pub text: String,
}

/// A character range.
pub struct RegionPayload {
    pub start: usize,
    pub end: usize,
}

/// A search query.
pub struct SearchPayload {
    pub query: String,
}

/// A cursor offset.
pub struct CursorPayload {
    pub cursor: usize,
}

/// The typed payload a command may carry.
pub enum CommandPayload {
    Insert(InsertPayload),
    Region(RegionPayload),
    Search(SearchPayload),
    Cursor(CursorPayload),
}

/// The payload's mathematical content.
pub ghost enum PayloadM {
    Insert(Seq<char>),
    Region(int, int),
    Search(Seq<char>),
    Cursor(int),
}

impl View for CommandPayload {
    type V = PayloadM;

    open spec fn view(&self) -> PayloadM {
        match self {
            CommandPayload::Insert(p) => PayloadM::Insert(p.text@),
            CommandPayload::Region(p) => PayloadM::Region(p.start as int, p.end as int),
            CommandPayload::Search(p) => PayloadM::Search(p.query@),
            CommandPayload::Cursor(p) => PayloadM::Cursor(p.cursor as int),
        }
    }
}

/// The payload handed to the dispatcher, viewed.
pub open spec fn payload_view(p: Option<CommandPayload>) -> Option<PayloadM> {
    match p {
        Some(q) => Some(q@),
        None => None,
    }
}

/// Starting or stepping a replace session hands back both the new
/// snapshot and the step report.
pub struct QueryReplaceResponse {
    pub snapshot: EditorSnapshot,
    pub status: QueryReplaceStatus,
}

/// A `{query, replacement}` pair for starting a replace session.
pub struct QueryReplacePayload {
    pub query: String,
    pub replace_with: String,
}

/// A single-letter action for stepping a replace session.
pub struct QueryReplaceStepPayload {
    pub action: String,
}

/// Cancelling whatever interactive state is in progress.
pub open spec fn keyboard_quit_m(b: BufModel) -> BufModel {
    BufModel { session: None, status: Some("Quit"@), ..b }
}

impl EditorState {
    pub fn keyboard_quit(&mut self)
        requires
            old(self)@.wf(),
        ensures
            final(self)@ == old(self)@.with_cur(keyboard_quit_m(old(self)@.cur())),
            final(self)@.wf(),
    {
        let i = self.current_index;
        let b = &mut self.buffers[i];
        b.query_replace_session = None;
        b.set_status_message(Some(String::from_str("Quit")));
        proof {
            assert(final(self)@ =~= old(self)@.with_cur(keyboard_quit_m(old(self)@.cur())));
        }
    }

    pub fn insert_text(&mut self, text: &str)
        requires
            old(self)@.wf(),
        ensures
            final(self)@ == old(self)@.with_cur(insert_text_m(old(self)@.cur(), text@)),
            final(self)@.wf(),
    {
        let i = self.current_index;
        let b = &mut self.buffers[i];
        b.insert_text(text);
        proof {
            assert(final(self)@ =~= old(self)@.with_cur(insert_text_m(old(self)@.cur(), text@)));
        }
    }

    pub fn delete_char(&mut self)
        requires
            old(self)@.wf(),
        ensures
            final(self)@ == old(self)@.with_cur(delete_char_m(old(self)@.cur())),
            final(self)@.wf(),
    {
        let i = self.current_index;
        let b = &mut self.buffers[i];
        b.delete_char();
        proof {
            assert(final(self)@ =~= old(self)@.with_cur(delete_char_m(old(self)@.cur())));
        }
    }

    pub fn delete_backward_char(&mut self)
        requires
            old(self)@.wf(),
        ensures
            final(self)@ == old(self)@.with_cur(delete_backward_char_m(old(self)@.cur())),
            final(self)@.wf(),
    {
        let i = self.current_index;
        let b = &mut self.buffers[i];
        b.delete_backward_char();
        proof {
            assert(final(self)@ =~= old(self)@.with_cur(delete_backward_char_m(old(self)@.cur())));
        }
    }

    pub fn kill_line(&mut self)
        requires
            old(self)@.wf(),
        ensures
            final(self)@ == (EdModel {
                kill_ring: push_ring(old(self)@.kill_ring, kill_line_cut(old(self)@.cur())),
                ..old(self)@.with_cur(kill_line_m(old(self)@.cur()))
            }),
            final(self)@.wf(),
    {
        let i = self.current_index;
        let b = &mut self.buffers[i];
        b.kill_line(&mut self.kill_ring);
        proof {
            lemma_push_ring_wf(old(self)@.kill_ring, kill_line_cut(old(self)@.cur()));
            assert(final(self)@ =~= (EdModel {
                kill_ring: push_ring(old(self)@.kill_ring, kill_line_cut(old(self)@.cur())),
                ..old(self)@.with_cur(kill_line_m(old(self)@.cur()))
            }));
        }
    }

    pub fn copy_region(&mut self, start: usize, end: usize)
        requires
            old(self)@.wf(),
        ensures
            final(self)@ == (EdModel {
                kill_ring: push_ring(
                    old(self)@.kill_ring,
                    region_cut(old(self)@.cur(), start as int, end as int),
                ),
                ..old(self)@.with_cur(copy_region_m(old(self)@.cur(), start as int, end as int))
            }),
            final(self)@.wf(),
    {
        let i = self.current_index;
        let b = &mut self.buffers[i];
        b.copy_region(start, end, &mut self.kill_ring);
        proof {
            lemma_push_ring_wf(
                old(self)@.kill_ring,
                region_cut(old(self)@.cur(), start as int, end as int),
            );
            assert(final(self)@ =~= (EdModel {
                kill_ring: push_ring(
                    old(self)@.kill_ring,
                    region_cut(old(self)@.cur(), start as int, end as int),
                ),
                ..old(self)@.with_cur(copy_region_m(old(self)@.cur(), start as int, end as int))
            }));
        }
    }

    pub fn kill_region(&mut self, start: usize, end: usize)
        requires
            old(self)@.wf(),
        ensures
            final(self)@ == (EdModel {
                kill_ring: push_ring(
                    old(self)@.kill_ring,
                    region_cut(old(self)@.cur(), start as int, end as int),
                ),
                ..old(self)@.with_cur(kill_region_m(old(self)@.cur(), start as int, end as int))
            }),
            final(self)@.wf(),
    {
        let i = self.current_index;
        let b = &mut self.buffers[i];
        b.kill_region(start, end, &mut self.kill_ring);
        proof {
            lemma_push_ring_wf(
                old(self)@.kill_ring,
                region_cut(old(self)@.cur(), start as int, end as int),
            );
            assert(final(self)@ =~= (EdModel {
                kill_ring: push_ring(
                    old(self)@.kill_ring,
                    region_cut(old(self)@.cur(), start as int, end as int),
                ),
                ..old(self)@.with_cur(kill_region_m(old(self)@.cur(), start as int, end as int))
            }));
        }
    }

    pub fn yank(&mut self)
        requires
            old(self)@.wf(),
        ensures
            final(self)@ == old(self)@.with_cur(
                yank_m(old(self)@.cur(), old(self)@.kill_ring),
            ),
            final(self)@.wf(),
    {
        let i = self.current_index;
        let b = &mut self.buffers[i];
        b.yank(&self.kill_ring);
        proof {
            assert(final(self)@ =~= old(self)@.with_cur(
                yank_m(old(self)@.cur(), old(self)@.kill_ring),
            ));
        }
    }

    pub fn set_cursor(&mut self, cursor: usize)
        requires
            old(self)@.wf(),
        ensures
            final(self)@ == old(self)@.with_cur(set_cursor_m(old(self)@.cur(), cursor as int)),
            final(self)@.wf(),
    {
        let i = self.current_index;
        let b = &mut self.buffers[i];
        b.set_cursor(cursor);
        proof {
            assert(final(self)@ =~= old(self)@.with_cur(
                set_cursor_m(old(self)@.cur(), cursor as int),
            ));
        }
    }

    pub fn undo(&mut self)
        requires
            old(self)@.wf(),
        ensures
            final(self)@ == old(self)@.with_cur(undo_m(old(self)@.cur())),
            final(self)@.wf(),
    {
        let i = self.current_index;
        let b = &mut self.buffers[i];
        b.undo();
        proof {
            assert(final(self)@ =~= old(self)@.with_cur(undo_m(old(self)@.cur())));
        }
    }

    pub fn redo(&mut self)
        requires
            old(self)@.wf(),
        ensures
            final(self)@ == old(self)@.with_cur(redo_m(old(self)@.cur())),
            final(self)@.wf(),
    {
        let i = self.current_index;
        let b = &mut self.buffers[i];
        b.redo();
        proof {
            assert(final(self)@ =~= old(self)@.with_cur(redo_m(old(self)@.cur())));
        }
    }

    pub fn isearch_forward(&mut self, query: &str) -> (r: Result<(), String>)
        requires
            old(self)@.wf(),
        ensures
            final(self)@ == old(self)@.with_cur(
                isearch_forward_m(old(self)@.cur(), query@),
            ),
            (r is Ok) == isearch_forward_ok(old(self)@.cur(), query@),
            r matches Err(e) ==> e@ == (if query@.len() == 0 {
                "search query is empty"@
            } else {
                msg_not_found(query@)
            }),
            final(self)@.wf(),
    {
        let i = self.current_index;
        let b = &mut self.buffers[i];
        let r = b.isearch_forward(query);
        proof {
            assert(final(self)@ =~= old(self)@.with_cur(
                isearch_forward_m(old(self)@.cur(), query@),
            ));
        }
        r
    }

    pub fn isearch_backward(&mut self, query: &str) -> (r: Result<(), String>)
        requires
            old(self)@.wf(),
        ensures
            final(self)@ == old(self)@.with_cur(
                isearch_backward_m(old(self)@.cur(), query@),
            ),
            (r is Ok) == isearch_backward_ok(old(self)@.cur(), query@),
            r matches Err(e) ==> e@ == (if query@.len() == 0 {
                "search query is empty"@
            } else {
                msg_not_found(query@)
            }),
            final(self)@.wf(),
    {
        let i = self.current_index;
        let b = &mut self.buffers[i];
        let r = b.isearch_backward(query);
        proof {
            assert(final(self)@ =~= old(self)@.with_cur(
                isearch_backward_m(old(self)@.cur(), query@),
            ));
        }
        r
    }

    pub fn start_query_replace(&mut self, query: String, replace_with: String) -> (r: Result<
        QueryReplaceStatus,
        String,
    >)
        requires
            old(self)@.wf(),
            old(self)@.cur().text.len() < usize::MAX,
        ensures
            final(self)@ == old(self)@.with_cur(
                qr_start_m(old(self)@.cur(), query@, replace_with@),
            ),
            (r is Ok) == (query@.len() > 0),
            r matches Ok(st) ==> st@ == qr_start_status_m(
                old(self)@.cur(),
                query@,
                replace_with@,
            ),
            r matches Err(e) ==> e@ == "query must not be empty"@,
            final(self)@.wf(),
    {
        let i = self.current_index;
        let b = &mut self.buffers[i];
        let r = b.start_query_replace(query, replace_with);
        proof {
            assert(final(self)@ =~= old(self)@.with_cur(
                qr_start_m(old(self)@.cur(), query@, replace_with@),
            ));
        }
        r
    }

    pub fn query_replace_step(&mut self, action: &str) -> (r: Result<QueryReplaceStatus, String>)
        requires
            old(self)@.wf(),
            old(self)@.cur().session matches Some(s) ==> s.replaced_count
                + old(self)@.cur().text.len() < usize::MAX && old(self)@.cur().text.len()
                + s.replace_with.len() < usize::MAX,
            old(self)@.cur().text.len() < usize::MAX,
        ensures
            final(self)@ == old(self)@.with_cur(qr_step_m(old(self)@.cur(), action@)),
            (r is Ok) == (qr_step_err(old(self)@.cur(), action@) is None),
            r matches Ok(st) ==> st@ == qr_step_status_m(old(self)@.cur(), action@),
            r matches Err(e) ==> qr_step_err(old(self)@.cur(), action@) == Some(e@),
            final(self)@.wf(),
    {
        let i = self.current_index;
        let b = &mut self.buffers[i];
        let r = b.query_replace_step(action);
        proof {
            assert(final(self)@ =~= old(self)@.with_cur(qr_step_m(old(self)@.cur(), action@)));
        }
        r
    }
}

/// What a command does to the session. A command whose payload is
/// missing or of the wrong shape, or whose search fails, changes
/// nothing; the error cases are listed in [`editor_command_err`].
pub open spec fn editor_command_m(m: EdModel, cmd: Seq<char>, p: Option<PayloadM>) -> EdModel {
    let b = m.cur();
    if cmd == "noop"@ {
        m
    } else if cmd == "keyboard_quit"@ {
        m.with_cur(keyboard_quit_m(b))
    } else if cmd == "move_to_line_start"@ {
        m.with_cur(move_line_start_m(b))
    } else if cmd == "move_to_line_end"@ {
        m.with_cur(move_line_end_m(b))
    } else if cmd == "move_forward"@ {
        m.with_cur(move_forward_m(b))
    } else if cmd == "move_backward"@ {
        m.with_cur(move_backward_m(b))
    } else if cmd == "move_next_line"@ {
        m.with_cur(move_next_line_m(b))
    } else if cmd == "move_previous_line"@ {
        m.with_cur(move_previous_line_m(b))
    } else if cmd == "move_forward_word"@ {
        m.with_cur(move_forward_word_m(b))
    } else if cmd == "move_backward_word"@ {
        m.with_cur(move_backward_word_m(b))
    } else if cmd == "move_to_buffer_start"@ {
        m.with_cur(move_buffer_start_m(b))
    } else if cmd == "move_to_buffer_end"@ {
        m.with_cur(move_buffer_end_m(b))
    } else if cmd == "delete_char"@ {
        m.with_cur(delete_char_m(b))
    } else if cmd == "delete_backward_char"@ {
        m.with_cur(delete_backward_char_m(b))
    } else if cmd == "kill_line"@ {
        EdModel { kill_ring: push_ring(m.kill_ring, kill_line_cut(b)), ..m.with_cur(kill_line_m(b)) }
    } else if cmd == "yank"@ {
        m.with_cur(yank_m(b, m.kill_ring))
    } else if cmd == "undo"@ {
        m.with_cur(undo_m(b))
    } else if cmd == "redo"@ {
        m.with_cur(redo_m(b))
    } else if cmd == "kill_region"@ {
        match p {
            Some(PayloadM::Region(s, e)) => EdModel {
                kill_ring: push_ring(m.kill_ring, region_cut(b, s, e)),
                ..m.with_cur(kill_region_m(b, s, e))
            },
            _ => m,
        }
    } else if cmd == "copy_region"@ {
        match p {
            Some(PayloadM::Region(s, e)) => EdModel {
                kill_ring: push_ring(m.kill_ring, region_cut(b, s, e)),
                ..m.with_cur(copy_region_m(b, s, e))
            },
            _ => m,
        }
    } else if cmd == "isearch_forward"@ {
        match p {
            Some(PayloadM::Search(q)) => m.with_cur(isearch_forward_m(b, q)),
            _ => m,
        }
    } else if cmd == "isearch_backward"@ {
        match p {
            Some(PayloadM::Search(q)) => m.with_cur(isearch_backward_m(b, q)),
            _ => m,
        }
    } else if cmd == "set_cursor"@ {
        match p {
            Some(PayloadM::Cursor(c)) => m.with_cur(set_cursor_m(b, c)),
            _ => m,
        }
    } else if cmd == "insert_text"@ {
        match p {
            Some(PayloadM::Insert(t)) => m.with_cur(insert_text_m(b, t)),
            _ => m,
        }
    } else {
        m
    }
}

/// When a command fails, and with which message; a failing command
/// changes nothing.
pub open spec fn editor_command_err(m: EdModel, cmd: Seq<char>, p: Option<PayloadM>) -> Option<
    Seq<char>,
> {
    let b = m.cur();
    if cmd == "noop"@ || cmd == "keyboard_quit"@ || cmd == "move_to_line_start"@ || cmd
        == "move_to_line_end"@ || cmd == "move_forward"@ || cmd == "move_backward"@ || cmd
        == "move_next_line"@ || cmd == "move_previous_line"@ || cmd == "move_forward_word"@ || cmd
        == "move_backward_word"@ || cmd == "move_to_buffer_start"@ || cmd == "move_to_buffer_end"@
        || cmd == "delete_char"@ || cmd == "delete_backward_char"@ || cmd == "kill_line"@ || cmd
        == "yank"@ || cmd == "undo"@ || cmd == "redo"@ {
        None
    } else if cmd == "kill_region"@ {
        match p {
            Some(PayloadM::Region(s, e)) => None,
            _ => Some("kill_region requires region payload"@),
        }
    } else if cmd == "copy_region"@ {
        match p {
            Some(PayloadM::Region(s, e)) => None,
            _ => Some("copy_region requires region payload"@),
        }
    } else if cmd == "isearch_forward"@ {
        match p {
            Some(PayloadM::Search(q)) => if isearch_forward_ok(b, q) {
                None
            } else if q.len() == 0 {
                Some("search query is empty"@)
            } else {
                Some(msg_not_found(q))
            },
            _ => Some("isearch_forward requires search payload"@),
        }
    } else if cmd == "isearch_backward"@ {
        match p {
            Some(PayloadM::Search(q)) => if isearch_backward_ok(b, q) {
                None
            } else if q.len() == 0 {
                Some("search query is empty"@)
            } else {
                Some(msg_not_found(q))
            },
            _ => Some("isearch_backward requires search payload"@),
        }
    } else if cmd == "set_cursor"@ {
        match p {
            Some(PayloadM::Cursor(c)) => None,
            _ => Some("set_cursor requires cursor payload"@),
        }
    } else if cmd == "insert_text"@ {
        match p {
            Some(PayloadM::Insert(t)) => None,
            _ => Some("insert_text requires payload"@),
        }
    } else {
        Some("unknown command: "@ + cmd)
    }
}

/// The room a command needs so that counters and line numbers fit the
/// machine word; each bound names a physically impossible state only.
pub open spec fn cmd_room(m: EdModel, cmd: Seq<char>, p: Option<PayloadM>) -> bool {
    let b = m.cur();
    &&& b.text.len() + 2 <= usize::MAX
    &&& (cmd == "insert_text"@ ==> (p matches Some(q) ==> (q matches PayloadM::Insert(t) ==> b.text.len()
        + t.len() < usize::MAX)))
    &&& (cmd == "yank"@ && m.kill_ring.len() > 0 ==> b.text.len() + m.kill_ring[0].len()
        < usize::MAX)
    &&& (cmd == "undo"@ && b.undo.len() > 0 ==> b.undo.last().text.len() < usize::MAX)
    &&& (cmd == "redo"@ && b.redo.len() > 0 ==> b.redo.last().text.len() < usize::MAX)
}

/// Resolves a command name and its typed payload against the session:
/// the current document is transformed as [`editor_command_m`] says,
/// and the snapshot of the resulting state is returned; on any error
/// the session is left unchanged.
pub fn editor_command(
    editor: &mut EditorState,
    command: &str,
    payload: Option<CommandPayload>,
) -> (r: Result<EditorSnapshot, String>)
    requires
        old(editor)@.wf(),
        cmd_room(old(editor)@, command@, payload_view(payload)),
    ensures
        final(editor)@ == editor_command_m(old(editor)@, command@, payload_view(payload)),
        (r is Ok) == (editor_command_err(old(editor)@, command@, payload_view(payload)) is None),
        r matches Ok(snap) ==> snapshot_matches(snap, final(editor)@.cur()),
        r matches Err(e) ==> editor_command_err(old(editor)@, command@, payload_view(payload))
            == Some(e@) && final(editor)@ == old(editor)@,
        final(editor)@.wf(),
{
    let ghost m0 = editor@;
    if crate::text::str_eq(command, "noop") {
    } else if crate::text::str_eq(command, "keyboard_quit") {
        editor.keyboard_quit();
    } else if crate::text::str_eq(command, "move_to_line_start") {
        editor.move_to_line_start();
    } else if crate::text::str_eq(command, "move_to_line_end") {
        editor.move_to_line_end();
    } else if crate::text::str_eq(command, "move_forward") {
        editor.move_forward();
    } else if crate::text::str_eq(command, "move_backward") {
        editor.move_backward();
    } else if crate::text::str_eq(command, "move_next_line") {
        editor.move_next_line();
    } else if crate::text::str_eq(command, "move_previous_line") {
        editor.move_previous_line();
    } else if crate::text::str_eq(command, "move_forward_word") {
        editor.move_forward_word();
    } else if crate::text::str_eq(command, "move_backward_word") {
        editor.move_backward_word();
    } else if crate::text::str_eq(command, "move_to_buffer_start") {
        editor.move_to_buffer_start();
    } else if crate::text::str_eq(command, "move_to_buffer_end") {
        editor.move_to_buffer_end();
    } else if crate::text::str_eq(command, "delete_char") {
        editor.delete_char();
    } else if crate::text::str_eq(command, "delete_backward_char") {
        editor.delete_backward_char();
    } else if crate::text::str_eq(command, "kill_line") {
        editor.kill_line();
    } else if crate::text::str_eq(command, "yank") {
        editor.yank();
    } else if crate::text::str_eq(command, "undo") {
        editor.undo();
    } else if crate::text::str_eq(command, "redo") {
        editor.redo();
    } else if crate::text::str_eq(command, "kill_region") {
        match payload {
            Some(CommandPayload::Region(region)) => editor.kill_region(region.start, region.end),
            _ => {
                return Err(String::from_str("kill_region requires region payload"));
            },
        }
    } else if crate::text::str_eq(command, "copy_region") {
        match payload {
            Some(CommandPayload::Region(region)) => editor.copy_region(region.start, region.end),
            _ => {
                return Err(String::from_str("copy_region requires region payload"));
            },
        }
    } else if crate::text::str_eq(command, "isearch_forward") {
        match payload {
            Some(CommandPayload::Search(search)) => {
                match editor.isearch_forward(search.query.as_str()) {
                    Ok(()) => {},
                    Err(e) => {
                        return Err(e);
                    },
                }
            },
            _ => {
                return Err(String::from_str("isearch_forward requires search payload"));
            },
        }
    } else if crate::text::str_eq(command, "isearch_backward") {
        match payload {
            Some(CommandPayload::Search(search)) => {
                match editor.isearch_backward(search.query.as_str()) {
                    Ok(()) => {},
                    Err(e) => {
                        return Err(e);
                    },
                }
            },
            _ => {
                return Err(String::from_str("isearch_backward requires search payload"));
            },
        }
    } else if crate::text::str_eq(command, "set_cursor") {
        match payload {
            Some(CommandPayload::Cursor(cursor)) => editor.set_cursor(cursor.cursor),
            _ => {
                return Err(String::from_str("set_cursor requires cursor payload"));
            },
        }
    } else if crate::text::str_eq(command, "insert_text") {
        match payload {
            Some(CommandPayload::Insert(insert)) => editor.insert_text(insert.text.as_str()),
            _ => {
                return Err(String::from_str("insert_text requires payload"));
            },
        }
    } else {
        return Err(crate::msg::prefixed_str("unknown command: ", command));
    }
    proof {
        assert(editor@ == editor_command_m(m0, command@, payload_view(payload)));
        assert(editor@.cur().text.len() < usize::MAX);
    }
    Ok(editor.snapshot())
}

} // verus!
