//! Literal incremental search and the interactive query-replace
//! protocol.

use vstd::prelude::*;
use vstd::string::StringExecFns;
use crate::model::{BufModel, SessionModel, col_at, line_at};
use crate::msg::{
    msg_cancelled, msg_cancelled_str, msg_isearch_backward, msg_isearch_forward,
    msg_isearch_wrapped, msg_not_found, msg_prompt, msg_prompt_str, msg_replaced,
    msg_replaced_str,
};
use crate::state::BufferState;
use crate::text::{TextBuffer, clamp_to, splice_seq};

verus! {

/// An interactive query-replace in progress: what to look for, what to
/// put in its place, where to search from next, and how many matches
/// have been replaced so far.
pub struct QueryReplaceSession {
    pub query: String,
    pub replace_with: String,
    pub search_from: usize,
    pub replaced_count: usize,
}

impl View for QueryReplaceSession {
    type V = SessionModel;

    open spec fn view(&self) -> SessionModel {
        SessionModel {
            query: self.query@,
            replace_with: self.replace_with@,
            search_from: self.search_from as nat,
            replaced_count: self.replaced_count as nat,
        }
    }
}

/// What one query-replace step reports back: whether the session is
/// over, the running count, and where the next match awaits.
pub struct QueryReplaceStatus {
    pub done: bool,
    pub replaced_count: usize,
    pub next_line: Option<usize>,
    pub next_col: Option<usize>,
    pub message: String,
}

/// The mathematical content of a step report.
#[verifier::ext_equal]
pub ghost struct QrStatusM {
    pub done: bool,
    pub replaced_count: nat,
    pub next_line: Option<nat>,
    pub next_col: Option<nat>,
    pub message: Seq<char>,
}

impl View for QueryReplaceStatus {
    type V = QrStatusM;

    open spec fn view(&self) -> QrStatusM {
        QrStatusM {
            done: self.done,
            replaced_count: self.replaced_count as nat,
            next_line: match self.next_line {
                Some(l) => Some(l as nat),
                None => None,
            },
            next_col: match self.next_col {
                Some(c) => Some(c as nat),
                None => None,
            },
            message: self.message@,
        }
    }
}

// ------------------------------------------------------------------
// Literal substring search.
// ------------------------------------------------------------------

/// The first offset at or after `i` where `q` occurs literally in `t`.
pub open spec fn find_from(t: Seq<char>, q: Seq<char>, i: int) -> Option<int>
    decreases t.len() + 1 - i,
        when 0 <= i
{
    if i + q.len() > t.len() {
        None
    } else if t.subrange(i, i + q.len()) == q {
        Some(i)
    } else {
        find_from(t, q, i + 1)
    }
}

pub proof fn lemma_find_from_bounds(t: Seq<char>, q: Seq<char>, i: int)
    requires
        0 <= i,
    ensures
        find_from(t, q, i) matches Some(p) ==> i <= p && p + q.len() <= t.len() && t.subrange(
            p,
            p + q.len(),
        ) == q,
    decreases t.len() + 1 - i,
{
    if i + q.len() <= t.len() && t.subrange(i, i + q.len()) != q {
        lemma_find_from_bounds(t, q, i + 1);
    }
}

/// The last offset at or before `p` where `q` occurs literally in `t`.
pub open spec fn rfind_from(t: Seq<char>, q: Seq<char>, p: int) -> Option<int>
    decreases p + 1,
        when -1 <= p
{
    if p < 0 {
        None
    } else if t.subrange(p, p + q.len()) == q {
        Some(p)
    } else {
        rfind_from(t, q, p - 1)
    }
}


/// The last occurrence of `q` that lies entirely within the first
/// `end` characters of `t`.
pub open spec fn rfind_in_prefix(t: Seq<char>, q: Seq<char>, end: int) -> Option<int> {
    let e = clamp_to(t.len() as int, end);
    if q.len() > e {
        None
    } else {
        rfind_from(t, q, e - q.len())
    }
}

/// Whether the characters of `t` starting at `i` spell out `q`.
fn chars_eq_at(buf: &TextBuffer, i: usize, q: &Vec<char>) -> (r: bool)
    requires
        i + q@.len() <= buf@.len(),
    ensures
        r == (buf@.subrange(i as int, i + q@.len()) == q@),
{
    let n = q.len();
    let len = buf.char_len();
    let mut j: usize = 0;
    while j < n
        invariant
            j <= n,
            n == q@.len(),
            len == buf@.len(),
            i + n <= buf@.len(),
            forall|k: int| 0 <= k < j ==> buf@[i + k] == q@[k],
        decreases n - j,
    {
        if buf.char_at(i + j) != q[j] {
            proof {
                assert(buf@.subrange(i as int, i + q@.len())[j as int] == buf@[i + j]);
            }
            return false;
        }
        j = j + 1;
    }
    proof {
        assert(buf@.subrange(i as int, i + q@.len()) =~= q@);
    }
    true
}

// ------------------------------------------------------------------
// Incremental search transitions.
// ------------------------------------------------------------------

/// The state after a forward incremental search: the scan begins one
/// past the cursor, wraps to the start on a miss, and moves the cursor
/// to the match; an empty query or a full miss leaves the state
/// unchanged.
pub open spec fn isearch_forward_m(m: BufModel, q: Seq<char>) -> BufModel {
    if q.len() == 0 {
        m
    } else {
        let s0 = clamp_to(m.text.len() as int, m.cursor + 1 as int);
        match find_from(m.text, q, s0) {
            Some(p) => BufModel { cursor: p as nat, status: Some(msg_isearch_forward(q)), ..m },
            None => match find_from(m.text, q, 0) {
                Some(p) => BufModel {
                    cursor: p as nat,
                    status: Some(msg_isearch_wrapped(q)),
                    ..m
                },
                None => m,
            },
        }
    }
}

/// Whether a forward incremental search succeeds.
pub open spec fn isearch_forward_ok(m: BufModel, q: Seq<char>) -> bool {
    q.len() > 0 && (find_from(m.text, q, clamp_to(m.text.len() as int, m.cursor + 1 as int))
        is Some || find_from(m.text, q, 0) is Some)
}

/// The state after a backward incremental search: the scan looks for a
/// match ending before the cursor, wraps to the buffer end on a miss.
pub open spec fn isearch_backward_m(m: BufModel, q: Seq<char>) -> BufModel {
    if q.len() == 0 {
        m
    } else {
        let s0 = if m.cursor > 0 {
            m.cursor - 1
        } else {
            0
        };
        match rfind_in_prefix(m.text, q, s0) {
            Some(p) => BufModel { cursor: p as nat, status: Some(msg_isearch_backward(q)), ..m },
            None => match rfind_in_prefix(m.text, q, m.text.len() as int) {
                Some(p) => BufModel {
                    cursor: p as nat,
                    status: Some(msg_isearch_wrapped(q)),
                    ..m
                },
                None => m,
            },
        }
    }
}

/// Whether a backward incremental search succeeds.
pub open spec fn isearch_backward_ok(m: BufModel, q: Seq<char>) -> bool {
    q.len() > 0 && (rfind_in_prefix(
        m.text,
        q,
        if m.cursor > 0 {
            m.cursor - 1
        } else {
            0
        },
    ) is Some || rfind_in_prefix(m.text, q, m.text.len() as int) is Some)
}

// ------------------------------------------------------------------
// Query-replace transitions.
// ------------------------------------------------------------------

/// One step action: confirm, skip, replace all, quit, or invalid.
pub enum QrAction {
    Yes,
    No,
    All,
    Quit,
    Bad,
}

/// Which action a step payload names; the letters are accepted in
/// either case.
pub open spec fn action_of(a: Seq<char>) -> QrAction {
    if a == "y"@ || a == "Y"@ {
        QrAction::Yes
    } else if a == "n"@ || a == "N"@ {
        QrAction::No
    } else if a == "!"@ {
        QrAction::All
    } else if a == "q"@ || a == "Q"@ {
        QrAction::Quit
    } else {
        QrAction::Bad
    }
}

/// The running count of an active session, zero without one.
pub open spec fn qr_count(m: BufModel) -> nat {
    match m.session {
        Some(s) => s.replaced_count,
        None => 0,
    }
}

/// Recomputing the prompt: the next match from the session's origin
/// moves the cursor there; no match ends the session and records how
/// many occurrences were replaced.
pub open spec fn qr_next_m(m: BufModel) -> BufModel {
    match m.session {
        None => m,
        Some(s) => {
            let sf = clamp_to(m.text.len() as int, s.search_from as int);
            match find_from(m.text, s.query, sf) {
                Some(p) => BufModel { cursor: p as nat, ..m },
                None => BufModel {
                    session: None,
                    status: Some(msg_replaced(s.replaced_count)),
                    ..m
                },
            }
        },
    }
}

/// What recomputing the prompt reports.
pub open spec fn qr_next_status_m(m: BufModel) -> QrStatusM {
    match m.session {
        None => QrStatusM {
            done: true,
            replaced_count: 0,
            next_line: None,
            next_col: None,
            message: "No active query replace"@,
        },
        Some(s) => {
            let sf = clamp_to(m.text.len() as int, s.search_from as int);
            match find_from(m.text, s.query, sf) {
                Some(p) => QrStatusM {
                    done: false,
                    replaced_count: s.replaced_count,
                    next_line: Some(line_at(m.text, p) as nat),
                    next_col: Some(col_at(m.text, p) as nat),
                    message: msg_prompt(line_at(m.text, p) as nat, col_at(m.text, p) as nat),
                },
                None => QrStatusM {
                    done: true,
                    replaced_count: s.replaced_count,
                    next_line: None,
                    next_col: None,
                    message: msg_replaced(s.replaced_count),
                },
            }
        },
    }
}

/// The state after starting a session: the search origin begins at the
/// start of the buffer and the first prompt is computed at once; an
/// empty query is rejected and changes nothing.
pub open spec fn qr_start_m(m: BufModel, q: Seq<char>, r: Seq<char>) -> BufModel {
    if q.len() == 0 {
        m
    } else {
        qr_next_m(
            BufModel {
                session: Some(
                    SessionModel { query: q, replace_with: r, search_from: 0, replaced_count: 0 },
                ),
                ..m
            },
        )
    }
}

/// What starting a session reports.
pub open spec fn qr_start_status_m(m: BufModel, q: Seq<char>, r: Seq<char>) -> QrStatusM {
    qr_next_status_m(
        BufModel {
            session: Some(
                SessionModel { query: q, replace_with: r, search_from: 0, replaced_count: 0 },
            ),
            ..m
        },
    )
}

/// Replacing every remaining occurrence, left to right: each
/// replacement advances the scan past the inserted text, so the pass
/// terminates even when the replacement contains the query.
pub open spec fn replace_all_m(
    t: Seq<char>,
    q: Seq<char>,
    r: Seq<char>,
    from: int,
    count: nat,
) -> (Seq<char>, nat)
    decreases t.len() + 1 - from,
        when 0 <= from && q.len() > 0
        via replace_all_m_decreases
{
    match find_from(t, q, from) {
        None => (t, count),
        Some(p) => replace_all_m(splice_seq(t, p, p + q.len(), r), q, r, p + r.len(), count + 1),
    }
}

#[via_fn]
proof fn replace_all_m_decreases(t: Seq<char>, q: Seq<char>, r: Seq<char>, from: int, count: nat) {
    lemma_find_from_bounds(t, q, from);
}

/// The state after one step of an active session.
pub open spec fn qr_step_m(m: BufModel, a: Seq<char>) -> BufModel {
    let act = action_of(a);
    match act {
        QrAction::Bad => m,
        QrAction::Quit => BufModel {
            session: None,
            status: Some(msg_cancelled(qr_count(m))),
            ..m
        },
        _ => match m.session {
            None => m,
            Some(s) => {
                let sf = clamp_to(m.text.len() as int, s.search_from as int);
                match find_from(m.text, s.query, sf) {
                    None => BufModel {
                        session: None,
                        status: Some(msg_replaced(s.replaced_count)),
                        ..m
                    },
                    Some(p) => match act {
                        QrAction::All => {
                            let tc = replace_all_m(
                                m.text,
                                s.query,
                                s.replace_with,
                                p,
                                s.replaced_count,
                            );
                            BufModel {
                                text: tc.0,
                                cursor: if m.cursor <= tc.0.len() {
                                    m.cursor
                                } else {
                                    tc.0.len()
                                },
                                session: None,
                                modified: true,
                                status: Some(msg_replaced(tc.1)),
                                ..m
                            }
                        },
                        QrAction::No => qr_next_m(
                            BufModel {
                                session: Some(
                                    SessionModel {
                                        search_from: (p + s.query.len()) as nat,
                                        ..s
                                    },
                                ),
                                ..m
                            },
                        ),
                        _ => {
                            let t2 = splice_seq(m.text, p, p + s.query.len(), s.replace_with);
                            let c2 = (p + s.replace_with.len()) as nat;
                            qr_next_m(
                                BufModel {
                                    text: t2,
                                    cursor: c2,
                                    modified: true,
                                    session: Some(
                                        SessionModel {
                                            search_from: c2,
                                            replaced_count: s.replaced_count + 1,
                                            ..s
                                        },
                                    ),
                                    ..m
                                },
                            )
                        },
                    },
                }
            },
        },
    }
}

/// What one step reports, when it is not an error.
pub open spec fn qr_step_status_m(m: BufModel, a: Seq<char>) -> QrStatusM {
    let act = action_of(a);
    match act {
        QrAction::Quit => QrStatusM {
            done: true,
            replaced_count: qr_count(m),
            next_line: None,
            next_col: None,
            message: "Cancelled"@,
        },
        _ => match m.session {
            None => qr_next_status_m(m),
            Some(s) => {
                let sf = clamp_to(m.text.len() as int, s.search_from as int);
                match find_from(m.text, s.query, sf) {
                    None => QrStatusM {
                        done: true,
                        replaced_count: s.replaced_count,
                        next_line: None,
                        next_col: None,
                        message: msg_replaced(s.replaced_count),
                    },
                    Some(p) => match act {
                        QrAction::All => {
                            let tc = replace_all_m(
                                m.text,
                                s.query,
                                s.replace_with,
                                p,
                                s.replaced_count,
                            );
                            QrStatusM {
                                done: true,
                                replaced_count: tc.1,
                                next_line: None,
                                next_col: None,
                                message: msg_replaced(tc.1),
                            }
                        },
                        QrAction::No => qr_next_status_m(qr_step_pre_next(m, a)),
                        _ => qr_next_status_m(qr_step_pre_next(m, a)),
                    },
                }
            },
        },
    }
}

/// The error one step yields, if any: an unknown action letter, or a
/// confirm/skip/replace-all step without an active session.
pub open spec fn qr_step_err(m: BufModel, a: Seq<char>) -> Option<Seq<char>> {
    match action_of(a) {
        QrAction::Bad => Some("action must be one of y/n/!/q"@),
        QrAction::Quit => None,
        _ => if m.session is None {
            Some("query replace is not active"@)
        } else {
            None
        },
    }
}

fn parse_action(action: &str) -> (r: QrAction)
    ensures
        r == action_of(action@),
{
    proof {
        reveal_strlit("y");
        reveal_strlit("Y");
        reveal_strlit("n");
        reveal_strlit("N");
        reveal_strlit("!");
        reveal_strlit("q");
        reveal_strlit("Q");
    }
    let ac = crate::text::str_to_chars(action);
    if ac.len() != 1 {
        return QrAction::Bad;
    }
    let c = ac[0];
    proof {
        assert(action@ =~= seq![action@[0]]);
    }
    if c == 'y' || c == 'Y' {
        proof {
            if c == 'y' {
                assert(action@ =~= "y"@);
            } else {
                assert(action@ =~= "Y"@);
            }
        }
        QrAction::Yes
    } else if c == 'n' || c == 'N' {
        proof {
            if c == 'n' {
                assert(action@ =~= "n"@);
            } else {
                assert(action@ =~= "N"@);
            }
        }
        QrAction::No
    } else if c == '!' {
        proof {
            assert(action@ =~= "!"@);
        }
        QrAction::All
    } else if c == 'q' || c == 'Q' {
        proof {
            if c == 'q' {
                assert(action@ =~= "q"@);
            } else {
                assert(action@ =~= "Q"@);
            }
        }
        QrAction::Quit
    } else {
        QrAction::Bad
    }
}

impl BufferState {
    /// The first occurrence of `query` at or after `start_char`
    /// (clamped to the buffer), as a character offset.
    fn find_next_chars(&self, start_char: usize, query: &Vec<char>) -> (r: Option<usize>)
        ensures
            self@.text.len() <= usize::MAX,
            ({
                let s0 = clamp_to(self@.text.len() as int, start_char as int);
                &&& (r is Some) == (find_from(self@.text, query@, s0) is Some)
                &&& (r matches Some(p) ==> find_from(self@.text, query@, s0) == Some(p as int)
                    && s0 <= p && p + query@.len() <= self@.text.len() && self@.text.subrange(
                    p as int,
                    p + query@.len(),
                ) == query@)
            }),
    {
        let ghost t = self@.text;
        let len = self.buffer.char_len();
        let s0 = if start_char <= len {
            start_char
        } else {
            len
        };
        let qn = query.len();
        if qn == 0 {
            proof {
                assert(t.subrange(s0 as int, s0 as int) =~= query@);
            }
            return Some(s0);
        }
        if qn > len - s0 {
            return None;
        }
        let mut i: usize = s0;
        while i <= len - qn
            invariant
                t == self@.text,
                len == t.len(),
                qn == query@.len(),
                1 <= qn,
                s0 <= i <= len - qn + 1,
                s0 + qn <= len,
                s0 as int == clamp_to(t.len() as int, start_char as int),
                find_from(t, query@, s0 as int) == find_from(t, query@, i as int),
            decreases len - qn + 1 - i,
        {
            if chars_eq_at(&self.buffer, i, query) {
                proof {
                    assert(find_from(t, query@, i as int) == Some(i as int));
                }
                return Some(i);
            }
            proof {
                assert(find_from(t, query@, i as int) == find_from(t, query@, i + 1));
            }
            i = i + 1;
        }
        proof {
            assert(find_from(t, query@, i as int) is None);
        }
        None
    }

    /// The first occurrence of `query` at or after `start_char`, as a
    /// character offset.
    pub fn find_next_match_from(&self, start_char: usize, query: &str) -> (r: Option<usize>)
        ensures
            ({
                let s0 = clamp_to(self@.text.len() as int, start_char as int);
                &&& (r is Some) == (find_from(self@.text, query@, s0) is Some)
                &&& (r matches Some(p) ==> find_from(self@.text, query@, s0) == Some(p as int))
            }),
    {
        let qc = crate::text::str_to_chars(query);
        self.find_next_chars(start_char, &qc)
    }

    /// The last occurrence of `query` that lies entirely within the
    /// first `start_char` characters of the buffer.
    pub fn find_prev_match_from(&self, start_char: usize, query: &str) -> (r: Option<usize>)
        ensures
            (r is Some) == (rfind_in_prefix(self@.text, query@, start_char as int) is Some),
            r matches Some(p) ==> rfind_in_prefix(self@.text, query@, start_char as int) == Some(
                p as int,
            ) && p + query@.len() <= self@.text.len(),
    {
        let ghost t = self@.text;
        let qc = crate::text::str_to_chars(query);
        let len = self.buffer.char_len();
        let sp = if start_char <= len {
            start_char
        } else {
            len
        };
        let qn = qc.len();
        if qn == 0 {
            proof {
                assert(t.subrange(sp as int, sp as int) =~= query@);
                assert(rfind_from(t, query@, sp as int) == Some(sp as int));
            }
            return Some(sp);
        }
        if qn > sp {
            return None;
        }
        let ghost p0 = sp - qn;
        proof {
            assert(rfind_in_prefix(t, query@, start_char as int) == rfind_from(t, query@, p0));
        }
        let mut p: usize = sp - qn + 1;
        while p > 0
            invariant
                t == self@.text,
                len == t.len(),
                qn == qc@.len(),
                qc@ == query@,
                qn <= sp <= len,
                p <= sp - qn + 1,
                rfind_from(t, query@, p0) == rfind_from(t, query@, p - 1),
                p0 == sp - qn,
                rfind_in_prefix(t, query@, start_char as int) == rfind_from(t, query@, p0),
            decreases p,
        {
            p = p - 1;
            if chars_eq_at(&self.buffer, p, &qc) {
                proof {
                    assert(rfind_from(t, query@, p as int) == Some(p as int));
                }
                return Some(p);
            }
            proof {
                assert(rfind_from(t, query@, p as int) == rfind_from(t, query@, p - 1));
            }
        }
        None
    }

    /// Replaces the characters in `[start, end)` with `replacement`.
    pub fn replace_range(&mut self, start: usize, end: usize, replacement: &str)
        requires
            start <= end <= old(self)@.text.len(),
        ensures
            final(self)@ == (BufModel {
                text: splice_seq(old(self)@.text, start as int, end as int, replacement@),
                ..old(self)@
            }),
            final(self)@.text.len() <= usize::MAX,
    {
        let rc = crate::text::str_to_chars(replacement);
        self.buffer.replace_chars(start, end, &rc);
        proof {
            assert(final(self)@ =~= (BufModel {
                text: splice_seq(old(self)@.text, start as int, end as int, replacement@),
                ..old(self)@
            }));
        }
    }

    /// Searches forward from one past the cursor, wrapping to the
    /// start of the buffer on a miss; a match moves the cursor to its
    /// start.
    pub fn isearch_forward(&mut self, query: &str) -> (r: Result<(), String>)
        requires
            old(self)@.wf(),
        ensures
            final(self)@ == isearch_forward_m(old(self)@, query@),
            (r is Ok) == isearch_forward_ok(old(self)@, query@),
            query@.len() == 0 ==> (r matches Err(e) && e@ == "search query is empty"@),
            query@.len() > 0 && !isearch_forward_ok(old(self)@, query@) ==> (r matches Err(e)
                && e@ == msg_not_found(query@)),
            final(self)@.wf(),
    {
        if query.is_empty() {
            proof {
                assert(final(self)@ =~= isearch_forward_m(old(self)@, query@));
            }
            return Err(String::from_str("search query is empty"));
        }
        let qc = crate::text::str_to_chars(query);
        let len = self.buffer.char_len();
        let start = if self.cursor < len {
            self.cursor + 1
        } else {
            len
        };
        match self.find_next_chars(start, &qc) {
            Some(p) => {
                self.cursor = p;
                self.set_status_message(Some(crate::msg::prefixed_str("I-Search forward: ", query)));
                proof {
                    assert(final(self)@ =~= isearch_forward_m(old(self)@, query@));
                }
                Ok(())
            },
            None => {
                match self.find_next_chars(0, &qc) {
                    Some(p) => {
                        self.cursor = p;
                        self.set_status_message(
                            Some(crate::msg::prefixed_str("I-Search wrapped: ", query)),
                        );
                        proof {
                            assert(final(self)@ =~= isearch_forward_m(old(self)@, query@));
                        }
                        Ok(())
                    },
                    None => {
                        proof {
                            assert(final(self)@ =~= isearch_forward_m(old(self)@, query@));
                        }
                        Err(crate::msg::prefixed_str("Not found: ", query))
                    },
                }
            },
        }
    }

    /// Searches backward for a match ending before the cursor,
    /// wrapping to the end of the buffer on a miss.
    pub fn isearch_backward(&mut self, query: &str) -> (r: Result<(), String>)
        requires
            old(self)@.wf(),
        ensures
            final(self)@ == isearch_backward_m(old(self)@, query@),
            (r is Ok) == isearch_backward_ok(old(self)@, query@),
            query@.len() == 0 ==> (r matches Err(e) && e@ == "search query is empty"@),
            query@.len() > 0 && !isearch_backward_ok(old(self)@, query@) ==> (r matches Err(e)
                && e@ == msg_not_found(query@)),
            final(self)@.wf(),
    {
        if query.is_empty() {
            proof {
                assert(final(self)@ =~= isearch_backward_m(old(self)@, query@));
            }
            return Err(String::from_str("search query is empty"));
        }
        let start = if self.cursor > 0 {
            self.cursor - 1
        } else {
            0
        };
        match self.find_prev_match_from(start, query) {
            Some(p) => {
                self.cursor = p;
                self.set_status_message(
                    Some(crate::msg::prefixed_str("I-Search backward: ", query)),
                );
                proof {
                    assert(final(self)@ =~= isearch_backward_m(old(self)@, query@));
                }
                Ok(())
            },
            None => {
                let len = self.buffer.char_len();
                match self.find_prev_match_from(len, query) {
                    Some(p) => {
                        self.cursor = p;
                        self.set_status_message(
                            Some(crate::msg::prefixed_str("I-Search wrapped: ", query)),
                        );
                        proof {
                            assert(final(self)@ =~= isearch_backward_m(old(self)@, query@));
                        }
                        Ok(())
                    },
                    None => {
                        proof {
                            assert(final(self)@ =~= isearch_backward_m(old(self)@, query@));
                        }
                        Err(crate::msg::prefixed_str("Not found: ", query))
                    },
                }
            },
        }
    }

    /// Recomputes the prompt for the active session: moves the cursor
    /// to the next match, or ends the session when none remains.
    pub fn query_replace_next_status(&mut self) -> (st: QueryReplaceStatus)
        requires
            old(self)@.wf(),
            old(self)@.text.len() < usize::MAX,
        ensures
            final(self)@ == qr_next_m(old(self)@),
            st@ == qr_next_status_m(old(self)@),
            final(self)@.wf(),
    {
        let (query, search_from, replaced_count) = match &self.query_replace_session {
            None => {
                let st = QueryReplaceStatus {
                    done: true,
                    replaced_count: 0,
                    next_line: None,
                    next_col: None,
                    message: String::from_str("No active query replace"),
                };
                proof {
                    assert(final(self)@ =~= qr_next_m(old(self)@));
                    assert(st@ =~= qr_next_status_m(old(self)@));
                }
                return st;
            },
            Some(s) => (s.query.clone(), s.search_from, s.replaced_count),
        };
        let qc = crate::text::str_to_chars(query.as_str());
        match self.find_next_chars(search_from, &qc) {
            Some(p) => {
                self.cursor = p;
                let lc = self.line_col_at(p);
                let st = QueryReplaceStatus {
                    done: false,
                    replaced_count,
                    next_line: Some(lc.0),
                    next_col: Some(lc.1),
                    message: msg_prompt_str(lc.0, lc.1),
                };
                proof {
                    assert(final(self)@ =~= qr_next_m(old(self)@));
                    assert(st@ =~= qr_next_status_m(old(self)@));
                }
                st
            },
            None => {
                self.query_replace_session = None;
                self.set_status_message(Some(msg_replaced_str(replaced_count)));
                let st = QueryReplaceStatus {
                    done: true,
                    replaced_count,
                    next_line: None,
                    next_col: None,
                    message: msg_replaced_str(replaced_count),
                };
                proof {
                    assert(final(self)@ =~= qr_next_m(old(self)@));
                    assert(st@ =~= qr_next_status_m(old(self)@));
                }
                st
            },
        }
    }

    /// Starts an interactive query-replace: the session scans from the
    /// start of the buffer, and the first prompt is computed at once.
    /// An empty query is rejected and changes nothing.
    pub fn start_query_replace(&mut self, query: String, replace_with: String) -> (r: Result<
        QueryReplaceStatus,
        String,
    >)
        requires
            old(self)@.wf(),
            old(self)@.text.len() < usize::MAX,
        ensures
            final(self)@ == qr_start_m(old(self)@, query@, replace_with@),
            (r is Ok) == (query@.len() > 0),
            r matches Ok(st) ==> st@ == qr_start_status_m(old(self)@, query@, replace_with@),
            r matches Err(e) ==> e@ == "query must not be empty"@,
            final(self)@.wf(),
    {
        if query.as_str().is_empty() {
            proof {
                assert(final(self)@ =~= qr_start_m(old(self)@, query@, replace_with@));
            }
            return Err(String::from_str("query must not be empty"));
        }
        self.query_replace_session = Some(
            QueryReplaceSession { query, replace_with, search_from: 0, replaced_count: 0 },
        );
        let st = self.query_replace_next_status();
        Ok(st)
    }

    /// One step of the interactive protocol: confirm (`y`), skip
    /// (`n`), replace all remaining (`!`), or quit (`q`), in either
    /// case. Any other action is an error, as is stepping without an
    /// active session (quitting is always allowed).
    pub fn query_replace_step(&mut self, action: &str) -> (r: Result<QueryReplaceStatus, String>)
        requires
            old(self)@.wf(),
            old(self)@.session matches Some(s) ==> s.replaced_count + old(self)@.text.len()
                < usize::MAX && old(self)@.text.len() + s.replace_with.len() < usize::MAX,
            old(self)@.text.len() < usize::MAX,
        ensures
            final(self)@ == qr_step_m(old(self)@, action@),
            (r is Ok) == (qr_step_err(old(self)@, action@) is None),
            r matches Ok(st) ==> st@ == qr_step_status_m(old(self)@, action@),
            r matches Err(e) ==> qr_step_err(old(self)@, action@) == Some(e@),
            final(self)@.wf(),
    {
        let act = parse_action(action);
        match act {
            QrAction::Bad => {
                proof {
                    assert(final(self)@ =~= qr_step_m(old(self)@, action@));
                }
                return Err(String::from_str("action must be one of y/n/!/q"));
            },
            QrAction::Quit => {
                let replaced_count = match &self.query_replace_session {
                    Some(s) => s.replaced_count,
                    None => 0,
                };
                self.query_replace_session = None;
                self.set_status_message(Some(msg_cancelled_str(replaced_count)));
                let st = QueryReplaceStatus {
                    done: true,
                    replaced_count,
                    next_line: None,
                    next_col: None,
                    message: String::from_str("Cancelled"),
                };
                proof {
                    assert(final(self)@ =~= qr_step_m(old(self)@, action@));
                    assert(st@ =~= qr_step_status_m(old(self)@, action@));
                }
                return Ok(st);
            },
            _ => {},
        }
        let (query, replace_with, search_from, replaced_count) = match &self.query_replace_session {
            None => {
                proof {
                    assert(final(self)@ =~= qr_step_m(old(self)@, action@));
                }
                return Err(String::from_str("query replace is not active"));
            },
            Some(s) => (
                s.query.clone(),
                s.replace_with.clone(),
                s.search_from,
                s.replaced_count,
            ),
        };
        let qc = crate::text::str_to_chars(query.as_str());
        let maybe_pos = self.find_next_chars(search_from, &qc);
        let pos = match maybe_pos {
            None => {
                self.query_replace_session = None;
                self.set_status_message(Some(msg_replaced_str(replaced_count)));
                let st = QueryReplaceStatus {
                    done: true,
                    replaced_count,
                    next_line: None,
                    next_col: None,
                    message: msg_replaced_str(replaced_count),
                };
                proof {
                    assert(final(self)@ =~= qr_step_m(old(self)@, action@));
                    assert(st@ =~= qr_step_status_m(old(self)@, action@));
                }
                return Ok(st);
            },
            Some(p) => p,
        };
        let qn = qc.len();
        let rc = crate::text::str_to_chars(replace_with.as_str());
        let rn = rc.len();
        match act {
            QrAction::All => {
                let ghost m0 = self@;
                let ghost t0 = self@.text;
                let ghost bound = replaced_count + (t0.len() - pos);
                let mut count = replaced_count;
                let mut next_from = pos;
                let rs = replace_with.as_str();
                loop
                    invariant
                        self@.session == m0.session,
                        self@.undo == m0.undo,
                        self@.redo == m0.redo,
                        self@.modified == m0.modified,
                        self@.encoding == m0.encoding,
                        self@.line_ending == m0.line_ending,
                        self@.file_path == m0.file_path,
                        self@.status == m0.status,
                        self@.cursor == m0.cursor,
                        qc@ == query@,
                        rc@ == rs@,
                        rn == rc@.len(),
                        qn == qc@.len(),
                        qn >= 1,
                        next_from <= self@.text.len(),
                        count + (self@.text.len() - next_from) <= bound,
                        bound < usize::MAX,
                        replace_all_m(t0, query@, rs@, pos as int, replaced_count as nat)
                            == replace_all_m(
                            self@.text,
                            query@,
                            rs@,
                            next_from as int,
                            count as nat,
                        ),
                    ensures
                        find_from(self@.text, query@, next_from as int) is None,
                        count + (self@.text.len() - next_from) <= bound,
                        next_from <= self@.text.len(),
                        self@.session == m0.session && self@.undo == m0.undo && self@.redo
                            == m0.redo && self@.modified == m0.modified && self@.encoding
                            == m0.encoding && self@.line_ending == m0.line_ending
                            && self@.file_path == m0.file_path && self@.status == m0.status
                            && self@.cursor == m0.cursor,
                        replace_all_m(t0, query@, rs@, pos as int, replaced_count as nat)
                            == replace_all_m(
                            self@.text,
                            query@,
                            rs@,
                            next_from as int,
                            count as nat,
                        ),
                    decreases self@.text.len() - next_from,
                {
                    let found = match self.find_next_chars(next_from, &qc) {
                        None => break,
                        Some(f) => f,
                    };
                    self.replace_range(found, found + qn, rs);
                    count = count + 1;
                    next_from = found + rn;
                    proof {
                        assert(next_from <= self@.text.len());
                    }
                }
                let ghost tfin = self@.text;
                proof {
                    assert(replace_all_m(t0, query@, rs@, pos as int, replaced_count as nat) == (
                    tfin,
                    count as nat,
                    ));
                    match old(self)@.session {
                        Some(sm) => {
                            assert(sm.query == query@);
                            assert(sm.replace_with == rs@);
                            assert(sm.replaced_count == replaced_count as nat);
                            assert(old(self)@.text == t0);
                            assert(replace_all_m(
                                old(self)@.text,
                                sm.query,
                                sm.replace_with,
                                pos as int,
                                sm.replaced_count,
                            ) == (tfin, count as nat));
                        },
                        None => {},
                    }
                }
                self.query_replace_session = None;
                self.modified = true;
                let len = self.buffer.char_len();
                if self.cursor > len {
                    self.cursor = len;
                }
                self.set_status_message(Some(msg_replaced_str(count)));
                let st = QueryReplaceStatus {
                    done: true,
                    replaced_count: count,
                    next_line: None,
                    next_col: None,
                    message: msg_replaced_str(count),
                };
                proof {
                    assert(final(self)@ =~= qr_step_m(old(self)@, action@));
                    assert(st@ =~= qr_step_status_m(old(self)@, action@));
                }
                Ok(st)
            },
            QrAction::No => {
                self.query_replace_session = Some(
                    QueryReplaceSession {
                        query,
                        replace_with,
                        search_from: pos + qn,
                        replaced_count,
                    },
                );
                let ghost mid = qr_step_pre_next(old(self)@, action@);
                proof {
                    assert(self@ =~= mid);
                }
                let st = self.query_replace_next_status();
                Ok(st)
            },
            _ => {
                self.replace_range(pos, pos + qn, replace_with.as_str());
                self.cursor = pos + rn;
                self.modified = true;
                self.query_replace_session = Some(
                    QueryReplaceSession {
                        query,
                        replace_with,
                        search_from: pos + rn,
                        replaced_count: replaced_count + 1,
                    },
                );
                let ghost mid = qr_step_pre_next(old(self)@, action@);
                proof {
                    assert(self@ =~= mid);
                }
                let st = self.query_replace_next_status();
                Ok(st)
            },
        }
    }
}

/// The intermediate state of a confirm or skip step, before the next
/// prompt is recomputed.
pub open spec fn qr_step_pre_next(m: BufModel, a: Seq<char>) -> BufModel {
    let act = action_of(a);
    match m.session {
        None => m,
        Some(s) => {
            let sf = clamp_to(m.text.len() as int, s.search_from as int);
            match find_from(m.text, s.query, sf) {
                None => m,
                Some(p) => match act {
                    QrAction::No => BufModel {
                        session: Some(
                            SessionModel { search_from: (p + s.query.len()) as nat, ..s },
                        ),
                        ..m
                    },
                    _ => {
                        let t2 = splice_seq(m.text, p, p + s.query.len(), s.replace_with);
                        let c2 = (p + s.replace_with.len()) as nat;
                        BufModel {
                            text: t2,
                            cursor: c2,
                            modified: true,
                            session: Some(
                                SessionModel {
                                    search_from: c2,
                                    replaced_count: s.replaced_count + 1,
                                    ..s
                                },
                            ),
                            ..m
                        }
                    },
                },
            }
        },
    }
}

} // verus!
