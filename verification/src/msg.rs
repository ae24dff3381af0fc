//! Status and prompt texts, with a verified decimal rendering of the
//! counters that appear in them.

use vstd::prelude::*;
use vstd::string::StringExecFns;

verus! {

/// The character for one decimal digit.
pub open spec fn digit_of(d: nat) -> char {
    if d == 0 {
        '0'
    } else if d == 1 {
        '1'
    } else if d == 2 {
        '2'
    } else if d == 3 {
        '3'
    } else if d == 4 {
        '4'
    } else if d == 5 {
        '5'
    } else if d == 6 {
        '6'
    } else if d == 7 {
        '7'
    } else if d == 8 {
        '8'
    } else {
        '9'
    }
}

/// The decimal notation of a number, most significant digit first.
pub open spec fn dec_str(n: nat) -> Seq<char>
    decreases n,
{
    if n < 10 {
        seq![digit_of(n)]
    } else {
        dec_str(n / 10).push(digit_of(n % 10))
    }
}

fn digit_char(d: usize) -> (c: char)
    requires
        d < 10,
    ensures
        c == digit_of(d as nat),
{
    if d == 0 {
        '0'
    } else if d == 1 {
        '1'
    } else if d == 2 {
        '2'
    } else if d == 3 {
        '3'
    } else if d == 4 {
        '4'
    } else if d == 5 {
        '5'
    } else if d == 6 {
        '6'
    } else if d == 7 {
        '7'
    } else if d == 8 {
        '8'
    } else {
        '9'
    }
}

fn dec_chars(n: usize) -> (r: Vec<char>)
    ensures
        r@ == dec_str(n as nat),
    decreases n,
{
    if n < 10 {
        let mut v: Vec<char> = Vec::new();
        v.push(digit_char(n));
        proof {
            assert(v@ =~= dec_str(n as nat));
        }
        v
    } else {
        let mut v = dec_chars(n / 10);
        v.push(digit_char(n % 10));
        v
    }
}

/// The decimal notation of a number as a string.
pub fn dec_string(n: usize) -> (r: String)
    ensures
        r@ == dec_str(n as nat),
{
    let v = dec_chars(n);
    crate::text::chars_to_string(&v)
}

pub open spec fn msg_replaced(n: nat) -> Seq<char> {
    "Replaced "@ + dec_str(n) + " occurrences"@
}

pub fn msg_replaced_str(n: usize) -> (r: String)
    ensures
        r@ == msg_replaced(n as nat),
{
    let mut s = String::from_str("Replaced ");
    let d = dec_string(n);
    s.append(d.as_str());
    s.append(" occurrences");
    s
}

pub open spec fn msg_cancelled(n: nat) -> Seq<char> {
    "Query replace cancelled ("@ + dec_str(n) + " replaced)"@
}

pub fn msg_cancelled_str(n: usize) -> (r: String)
    ensures
        r@ == msg_cancelled(n as nat),
{
    let mut s = String::from_str("Query replace cancelled (");
    let d = dec_string(n);
    s.append(d.as_str());
    s.append(" replaced)");
    s
}

pub open spec fn msg_prompt(line: nat, col: nat) -> Seq<char> {
    "Replace at L:"@ + dec_str(line) + " C:"@ + dec_str(col) + "? (y/n/!/q)"@
}

pub fn msg_prompt_str(line: usize, col: usize) -> (r: String)
    ensures
        r@ == msg_prompt(line as nat, col as nat),
{
    let mut s = String::from_str("Replace at L:");
    let dl = dec_string(line);
    s.append(dl.as_str());
    s.append(" C:");
    let dc = dec_string(col);
    s.append(dc.as_str());
    s.append("? (y/n/!/q)");
    s
}

pub open spec fn msg_isearch_forward(q: Seq<char>) -> Seq<char> {
    "I-Search forward: "@ + q
}

pub open spec fn msg_isearch_backward(q: Seq<char>) -> Seq<char> {
    "I-Search backward: "@ + q
}

pub open spec fn msg_isearch_wrapped(q: Seq<char>) -> Seq<char> {
    "I-Search wrapped: "@ + q
}

pub open spec fn msg_not_found(q: Seq<char>) -> Seq<char> {
    "Not found: "@ + q
}

pub open spec fn msg_switched(name: Seq<char>) -> Seq<char> {
    "Switched to "@ + name
}

pub open spec fn msg_no_buffer(name: Seq<char>) -> Seq<char> {
    "No buffer named '"@ + name + "'"@
}

/// A prefix followed by free text, as the search and switch messages
/// are built.
pub fn prefixed_str(prefix: &str, rest: &str) -> (r: String)
    ensures
        r@ == prefix@ + rest@,
{
    let mut s = String::from_str(prefix);
    s.append(rest);
    s
}

pub fn msg_no_buffer_str(name: &str) -> (r: String)
    ensures
        r@ == msg_no_buffer(name@),
{
    let mut s = String::from_str("No buffer named '");
    s.append(name);
    s.append("'");
    s
}

} // verus!
