//! Pure text transformations for the save/load collaborators: line
//! ending detection and normalisation, and path prefix splitting.

use vstd::prelude::*;
use vstd::string::StringExecFns;
use crate::text::{chars_to_string, str_to_chars, str_eq};

verus! {

/// Whether the bytes hold a carriage return directly followed by a
/// line feed.
pub open spec fn has_crlf(b: Seq<u8>) -> bool {
    exists|i: int| 0 <= i && i + 1 < b.len() && #[trigger] b[i] == 13 && b[i + 1] == 10
}

pub open spec fn contains_byte(b: Seq<u8>, x: u8) -> bool {
    exists|i: int| 0 <= i < b.len() && b[i] == x
}

/// The line-ending name raw content indicates: a CRLF pair wins, then
/// a lone line feed, then a lone carriage return; otherwise the
/// platform default.
pub open spec fn line_ending_of(b: Seq<u8>) -> Seq<char> {
    if has_crlf(b) {
        "CRLF"@
    } else if contains_byte(b, 10) {
        "LF"@
    } else if contains_byte(b, 13) {
        "CR"@
    } else {
        "CRLF"@
    }
}

fn find_byte(bytes: &[u8], x: u8) -> (r: bool)
    ensures
        r == contains_byte(bytes@, x),
{
    let n = bytes.len();
    let mut i: usize = 0;
    while i < n
        invariant
            i <= n,
            n == bytes@.len(),
            forall|j: int| 0 <= j < i ==> bytes@[j] != x,
        decreases n - i,
    {
        if bytes[i] == x {
            return true;
        }
        i = i + 1;
    }
    false
}

fn find_crlf(bytes: &[u8]) -> (r: bool)
    ensures
        r == has_crlf(bytes@),
{
    let n = bytes.len();
    if n < 2 {
        return false;
    }
    let mut i: usize = 0;
    while i < n - 1
        invariant
            i <= n,
            2 <= n,
            n == bytes@.len(),
            forall|j: int| 0 <= j && j + 1 < i + 1 ==> !(#[trigger] bytes@[j] == 13 && bytes@[j
                + 1] == 10),
        decreases n - i,
    {
        if bytes[i] == 13 && bytes[i + 1] == 10 {
            return true;
        }
        i = i + 1;
    }
    false
}

/// Detects which line ending raw file content uses.
pub fn detect_line_ending(bytes: &[u8]) -> (r: String)
    ensures
        r@ == line_ending_of(bytes@),
{
    if find_crlf(bytes) {
        String::from_str("CRLF")
    } else if find_byte(bytes, 10) {
        String::from_str("LF")
    } else if find_byte(bytes, 13) {
        String::from_str("CR")
    } else {
        String::from_str("CRLF")
    }
}

/// Text with every line ending rewritten to a bare line feed: each
/// CRLF pair and each lone carriage return becomes one line feed.
pub open spec fn normalize_newlines(t: Seq<char>) -> Seq<char>
    decreases t.len(),
{
    if t.len() == 0 {
        t
    } else if t[0] == '\r' && t.len() >= 2 && t[1] == '\n' {
        seq!['\n'] + normalize_newlines(t.skip(2))
    } else if t[0] == '\r' {
        seq!['\n'] + normalize_newlines(t.skip(1))
    } else {
        seq![t[0]] + normalize_newlines(t.skip(1))
    }
}

/// Rewrites loaded text to bare line feeds.
pub fn normalize_loaded_text(text: &str) -> (r: String)
    ensures
        r@ == normalize_newlines(text@),
{
    let ghost t = text@;
    let chars = str_to_chars(text);
    let n = chars.len();
    let mut out: Vec<char> = Vec::new();
    let mut i: usize = 0;
    proof {
        assert(t.skip(0) =~= t);
    }
    while i < n
        invariant
            i <= n,
            n == t.len(),
            chars@ == t,
            out@ + normalize_newlines(t.skip(i as int)) =~= normalize_newlines(t),
        decreases n - i,
    {
        let ghost i0 = i as int;
        if chars[i] == '\r' && i + 1 < n && chars[i + 1] == '\n' {
            out.push('\n');
            i = i + 2;
            proof {
                assert(t.skip(i0)[0] == t[i0]);
                assert(t.skip(i0)[1] == t[i0 + 1]);
                assert(t.skip(i0).skip(2) =~= t.skip(i0 + 2));
                assert(out@ + normalize_newlines(t.skip(i0 + 2)) =~= normalize_newlines(t));
            }
        } else if chars[i] == '\r' {
            out.push('\n');
            i = i + 1;
            proof {
                assert(t.skip(i0)[0] == t[i0]);
                if t.skip(i0).len() >= 2 {
                    assert(t.skip(i0)[1] == t[i0 + 1]);
                }
                assert(t.skip(i0).skip(1) =~= t.skip(i0 + 1));
                assert(out@ + normalize_newlines(t.skip(i0 + 1)) =~= normalize_newlines(t));
            }
        } else {
            out.push(chars[i]);
            i = i + 1;
            proof {
                assert(t.skip(i0)[0] == t[i0]);
                assert(t.skip(i0).skip(1) =~= t.skip(i0 + 1));
                assert(out@ + normalize_newlines(t.skip(i0 + 1)) =~= normalize_newlines(t));
            }
        }
    }
    proof {
        assert(t.skip(n as int) =~= Seq::<char>::empty());
        assert(out@ =~= normalize_newlines(t));
    }
    chars_to_string(&out)
}

/// Every line feed replaced by a carriage return.
pub open spec fn map_nl_to_cr(t: Seq<char>) -> Seq<char> {
    t.map_values(
        |c: char|
            if c == '\n' {
                '\r'
            } else {
                c
            },
    )
}

/// Every line feed expanded to a CRLF pair.
pub open spec fn expand_nl_crlf(t: Seq<char>) -> Seq<char>
    decreases t.len(),
{
    if t.len() == 0 {
        t
    } else if t[0] == '\n' {
        seq!['\r', '\n'] + expand_nl_crlf(t.skip(1))
    } else {
        seq![t[0]] + expand_nl_crlf(t.skip(1))
    }
}

/// Text rewritten for saving: normalised to bare line feeds, then
/// each line feed written in the named style ("LF" keeps it, "CR"
/// replaces it, anything else expands to CRLF).
pub open spec fn normalize_line_endings_spec(t: Seq<char>, le: Seq<char>) -> Seq<char> {
    let n = normalize_newlines(t);
    if le == "LF"@ {
        n
    } else if le == "CR"@ {
        map_nl_to_cr(n)
    } else {
        expand_nl_crlf(n)
    }
}

/// Rewrites text for saving in the named line-ending style.
pub fn normalize_line_endings(text: &str, line_ending: &str) -> (r: String)
    ensures
        r@ == normalize_line_endings_spec(text@, line_ending@),
{
    let normalized = normalize_loaded_text(text);
    if str_eq(line_ending, "LF") {
        normalized
    } else if str_eq(line_ending, "CR") {
        let ghost t = normalized@;
        let chars = str_to_chars(normalized.as_str());
        let n = chars.len();
        let mut out: Vec<char> = Vec::new();
        let mut i: usize = 0;
        while i < n
            invariant
                i <= n,
                n == t.len(),
                chars@ == t,
                out@.len() == i,
                forall|k: int| 0 <= k < i ==> out@[k] == (if t[k] == '\n' {
                    '\r'
                } else {
                    t[k]
                }),
            decreases n - i,
        {
            if chars[i] == '\n' {
                out.push('\r');
            } else {
                out.push(chars[i]);
            }
            i = i + 1;
        }
        proof {
            assert(out@ =~= map_nl_to_cr(t));
        }
        chars_to_string(&out)
    } else {
        let ghost t = normalized@;
        let chars = str_to_chars(normalized.as_str());
        let n = chars.len();
        let mut out: Vec<char> = Vec::new();
        let mut i: usize = 0;
        proof {
            assert(t.skip(0) =~= t);
        }
        while i < n
            invariant
                i <= n,
                n == t.len(),
                chars@ == t,
                out@ + expand_nl_crlf(t.skip(i as int)) =~= expand_nl_crlf(t),
            decreases n - i,
        {
            let ghost i0 = i as int;
            if chars[i] == '\n' {
                out.push('\r');
                out.push('\n');
            } else {
                out.push(chars[i]);
            }
            i = i + 1;
            proof {
                assert(t.skip(i0)[0] == t[i0]);
                assert(t.skip(i0).skip(1) =~= t.skip(i0 + 1));
                assert(out@ + expand_nl_crlf(t.skip(i0 + 1)) =~= expand_nl_crlf(t));
            }
        }
        proof {
            assert(t.skip(n as int) =~= Seq::<char>::empty());
            assert(out@ =~= expand_nl_crlf(t));
        }
        chars_to_string(&out)
    }
}

/// The suffix of a path after its last backslash.
pub open spec fn after_last_bs(t: Seq<char>) -> Seq<char>
    decreases t.len(),
{
    if t.len() == 0 {
        t
    } else if t.last() == '\\' {
        Seq::empty()
    } else {
        after_last_bs(t.drop_last()).push(t.last())
    }
}

/// How a path input splits into a directory prefix and a partial file
/// name: everything after the last backslash is the partial name; with
/// no backslash the whole input is the partial name.
pub open spec fn split_prefix_spec(t: Seq<char>) -> (Seq<char>, Seq<char>) {
    let suffix = after_last_bs(t);
    if suffix.len() == t.len() && t.len() > 0 {
        (Seq::empty(), t)
    } else {
        (t.take(t.len() - suffix.len()), suffix)
    }
}

/// Splits a path input into its directory prefix (up to and including
/// the last backslash) and the partial name after it.
pub fn split_path_prefix(input: &str) -> (r: (String, String))
    ensures
        (r.0@, r.1@) == split_prefix_spec(input@),
{
    let ghost t = input@;
    let chars = str_to_chars(input);
    let n = chars.len();
    proof {
        assert(t.take(n as int) =~= t);
    }
    let mut start: usize = n;
    while start > 0 && chars[start - 1] != '\\'
        invariant
            start <= n,
            n == t.len(),
            chars@ == t,
            after_last_bs(t) =~= after_last_bs(t.take(start as int)) + t.subrange(
                start as int,
                n as int,
            ),
        decreases start,
    {
        proof {
            assert(t.take(start as int).last() == t[start - 1]);
            assert(t.take(start as int).drop_last() =~= t.take(start - 1));
            assert(after_last_bs(t.take(start as int)) =~= after_last_bs(
                t.take(start - 1),
            ).push(t[start - 1]));
        }
        start = start - 1;
    }
    proof {
        if start > 0 {
            assert(t.take(start as int).last() == t[start - 1]);
        }
        assert(after_last_bs(t) =~= t.subrange(start as int, n as int));
    }
    let buf = crate::text::TextBuffer::from_chars(chars);
    if start == 0 && n > 0 {
        let whole = buf.slice_chars(0, n);
        proof {
            assert(t.subrange(0, n as int) =~= t);
        }
        (String::new(), chars_to_string(&whole))
    } else {
        let prefix = buf.slice_chars(0, start);
        let suffix = buf.slice_chars(start, n);
        proof {
            assert(t.take(start as int) =~= t.subrange(0, start as int));
        }
        (chars_to_string(&prefix), chars_to_string(&suffix))
    }
}

} // verus!
