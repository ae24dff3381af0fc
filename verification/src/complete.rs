//! Path completion: matching directory entries against a partial name,
//! case-insensitively, and presenting them in order.

use vstd::prelude::*;
use vstd::relations::sorted_by;
use crate::text::str_to_chars;

verus! {

/// What `str::to_lowercase` returns; the result depends on the
/// characters alone.
pub uninterp spec fn lower_of(s: Seq<char>) -> Seq<char>;

/// Relies on `str::to_lowercase`: a pure function of the characters.
#[verifier::external_body]
fn lowercase(s: &str) -> (r: String)
    ensures
        r@ == lower_of(s@),
{
    s.to_lowercase()
}

/// A candidate entry is offered when the lowered partial name is empty
/// or is a prefix of the candidate's lowered name.
pub open spec fn keeps(name: Seq<char>, partial_lower: Seq<char>) -> bool {
    partial_lower.len() == 0 || partial_lower.is_prefix_of(lower_of(name))
}

/// The filter a partial name induces on candidate entries.
pub open spec fn keep_pred(partial: Seq<char>) -> spec_fn(Seq<char>) -> bool {
    |n: Seq<char>| keeps(n, lower_of(partial))
}

/// Whether `p` spells out the first characters of `s`.
fn chars_prefix(p: &Vec<char>, s: &Vec<char>) -> (r: bool)
    ensures
        r == p@.is_prefix_of(s@),
{
    let n = p.len();
    if n > s.len() {
        return false;
    }
    let mut i: usize = 0;
    while i < n
        invariant
            i <= n,
            n == p@.len(),
            n <= s@.len(),
            forall|k: int| 0 <= k < i ==> p@[k] == s@[k],
        decreases n - i,
    {
        if p[i] != s[i] {
            proof {
                assert(s@.subrange(0, n as int)[i as int] == s@[i as int]);
            }
            return false;
        }
        i = i + 1;
    }
    proof {
        assert(p@ =~= s@.subrange(0, n as int));
    }
    true
}

/// The directory entries whose lowered names the lowered partial name
/// prefixes, in their original order.
pub fn completion_matches(names: Vec<String>, partial: &str) -> (r: Vec<String>)
    ensures
        r.deep_view() == names.deep_view().filter(keep_pred(partial@)),
{
    let ghost pred = keep_pred(partial@);
    let pl = lowercase(partial);
    let plc = str_to_chars(pl.as_str());
    let mut r: Vec<String> = Vec::new();
    let n = names.len();
    let mut i: usize = 0;
    proof {
        reveal(Seq::filter);
        assert(names.deep_view().take(0) =~= Seq::<Seq<char>>::empty());
        assert(r.deep_view() =~= names.deep_view().take(0).filter(pred));
    }
    while i < n
        invariant
            i <= n,
            n == names@.len(),
            plc@ == lower_of(partial@),
            pred == keep_pred(partial@),
            r.deep_view() =~= names.deep_view().take(i as int).filter(pred),
        decreases n - i,
    {
        let ghost pre = r.deep_view();
        let keep = if plc.len() == 0 {
            true
        } else {
            let lname = lowercase(names[i].as_str());
            let lchars = str_to_chars(lname.as_str());
            chars_prefix(&plc, &lchars)
        };
        if keep {
            let name = names[i].clone();
            r.push(name);
        }
        proof {
            reveal(Seq::filter);
            let dv = names.deep_view();
            assert(dv[i as int] == names@[i as int]@);
            assert(pred(dv[i as int]) == keeps(dv[i as int], lower_of(partial@)));
            assert(keep == pred(dv[i as int]));
            if keep {
                assert(r.deep_view() =~= pre.push(dv[i as int]));
            }
            assert(dv.take(i + 1) =~= dv.take(i as int) + seq![dv[i as int]]);
            Seq::<Seq<char>>::filter_distributes_over_add(dv.take(i as int), seq![dv[i as int]], pred);
            let single = seq![dv[i as int]];
            assert(single.len() == 1);
            assert(single.last() == dv[i as int]);
            assert(single.drop_last() =~= Seq::<Seq<char>>::empty());
            let subseq = single.drop_last().filter(pred);
            assert(subseq =~= Seq::<Seq<char>>::empty());
            assert(single.filter(pred) == (if pred(single.last()) {
                subseq.push(single.last())
            } else {
                subseq
            }));
            if pred(dv[i as int]) {
                assert(single.filter(pred) =~= seq![dv[i as int]]);
            } else {
                assert(single.filter(pred) =~= Seq::<Seq<char>>::empty());
            }
            assert(r.deep_view() =~= dv.take(i + 1).filter(pred));
        }
        i = i + 1;
    }
    proof {
        assert(names.deep_view().take(n as int) =~= names.deep_view());
    }
    r
}

/// Byte-wise lexicographic order, as `String`'s ordering compares.
pub open spec fn lex_le(a: Seq<u8>, b: Seq<u8>) -> bool
    decreases a.len(),
{
    if a.len() == 0 {
        true
    } else if b.len() == 0 {
        false
    } else if a[0] < b[0] {
        true
    } else if a[0] > b[0] {
        false
    } else {
        lex_le(a.drop_first(), b.drop_first())
    }
}

/// Text ordered by the bytes of its UTF-8 form.
pub open spec fn str_le(a: Seq<char>, b: Seq<char>) -> bool {
    lex_le(vstd::utf8::encode_utf8(a), vstd::utf8::encode_utf8(b))
}

/// Relies on `<[String]>::sort`: sorts in place by `String`'s
/// byte-wise lexicographic order, keeping exactly the same entries.
#[verifier::external_body]
pub fn sort_strings(v: &mut Vec<String>)
    ensures
        final(v).deep_view().to_multiset() == old(v).deep_view().to_multiset(),
        final(v)@.len() == old(v)@.len(),
        sorted_by(final(v).deep_view(), (|a: Seq<char>, b: Seq<char>| str_le(a, b))),
{
    v.sort();
}

/// At most one hundred completions are offered.
pub const COMPLETION_CAP: usize = 100;

/// Trims a completion list to the cap, keeping the leading entries.
pub fn cap_completions(v: &mut Vec<String>)
    ensures
        final(v)@ == (if old(v)@.len() <= COMPLETION_CAP {
            old(v)@
        } else {
            old(v)@.take(COMPLETION_CAP as int)
        }),
{
    if v.len() > COMPLETION_CAP {
        v.truncate(COMPLETION_CAP);
    }
}

} // verus!
