//! The character buffer and the conversions between `String` and the
//! vector-of-characters representation the rest of the library works on.

use vstd::prelude::*;
use vstd::string::{StrSliceExecFns, StringSliceAdditionalSpecFns};

verus! {

/// Relies on `String::push`: appends the given character to the end of
/// the string.
pub assume_specification[ String::push ](s: &mut String, ch: char)
    ensures
        final(s)@ == old(s)@.push(ch),
;

/// The character sequence of a string slice, one vector element per
/// character.
pub fn str_to_chars(s: &str) -> (r: Vec<char>)
    ensures
        r@ == s@,
{
    let n = s.unicode_len();
    let mut v: Vec<char> = Vec::new();
    let mut i: usize = 0;
    while i < n
        invariant
            n == s@.len(),
            i <= n,
            v@ =~= s@.take(i as int),
        decreases n - i,
    {
        let c = s.get_char(i);
        v.push(c);
        i = i + 1;
    }
    proof {
        assert(v@ =~= s@);
    }
    v
}

/// The string holding exactly the given characters in order.
pub fn chars_to_string(v: &Vec<char>) -> (r: String)
    ensures
        r@ == v@,
{
    let mut s = String::new();
    let mut i: usize = 0;
    while i < v.len()
        invariant
            i <= v@.len(),
            s@ =~= v@.take(i as int),
        decreases v@.len() - i,
    {
        s.push(v[i]);
        i = i + 1;
    }
    proof {
        assert(s@ =~= v@);
    }
    s
}

/// Whether two string slices hold the same characters.
pub fn str_eq(a: &str, b: &str) -> (r: bool)
    ensures
        r == (a@ == b@),
{
    let na = a.unicode_len();
    let nb = b.unicode_len();
    if na != nb {
        proof {
            assert(a@.len() != b@.len());
        }
        return false;
    }
    let mut i: usize = 0;
    while i < na
        invariant
            i <= na,
            na == a@.len(),
            na == b@.len(),
            forall|k: int| 0 <= k < i ==> a@[k] == b@[k],
        decreases na - i,
    {
        if a.get_char(i) != b.get_char(i) {
            return false;
        }
        i = i + 1;
    }
    proof {
        assert(a@ =~= b@);
    }
    true
}

/// UTF-8 encodes a concatenation piecewise.
pub proof fn lemma_encode_utf8_concat(a: Seq<char>, b: Seq<char>)
    ensures
        vstd::utf8::encode_utf8(a + b) == vstd::utf8::encode_utf8(a) + vstd::utf8::encode_utf8(b),
    decreases a.len(),
{
    if a.len() == 0 {
        assert(a + b =~= b);
        assert(vstd::utf8::encode_utf8(a) + vstd::utf8::encode_utf8(b) =~= vstd::utf8::encode_utf8(
            b,
        ));
    } else {
        assert((a + b)[0] == a[0]);
        assert((a + b).drop_first() =~= a.drop_first() + b);
        lemma_encode_utf8_concat(a.drop_first(), b);
        assert(vstd::utf8::encode_utf8(a + b) =~= vstd::utf8::encode_utf8(a)
            + vstd::utf8::encode_utf8(b));
    }
}

/// How many bytes one character occupies in UTF-8.
fn char_utf8_len(c: char) -> (r: usize)
    ensures
        r == vstd::utf8::encode_scalar(c as u32).len(),
{
    broadcast use vstd::utf8::char_is_scalar;

    let u = c as u32;
    if u < 0x80 {
        1
    } else if u < 0x800 {
        2
    } else if u < 0x10000 {
        3
    } else {
        4
    }
}

/// The byte offset at which the given character offset falls in the
/// UTF-8 form of the text; offsets past the end map to the byte
/// length.
pub fn char_to_byte_index(text: &str, char_index: usize) -> (r: usize)
    ensures
        r == vstd::utf8::encode_utf8(
            text@.take(clamp_to(text@.len() as int, char_index as int)),
        ).len(),
{
    broadcast use vstd::utf8::char_is_scalar;

    let ghost t = text@;
    let total = text.as_bytes().len();
    proof {
        assert(text.spec_bytes().len() == vstd::utf8::encode_utf8(t).len());
    }
    let chars = str_to_chars(text);
    let n = chars.len();
    let k = if char_index <= n {
        char_index
    } else {
        n
    };
    let mut bytes: usize = 0;
    let mut i: usize = 0;
    proof {
        assert(t.take(0) =~= Seq::<char>::empty());
        assert(t.skip(0) =~= t);
        lemma_encode_utf8_concat(t.take(0), t.skip(0));
    }
    while i < k
        invariant
            i <= k <= n,
            n == t.len(),
            chars@ == t,
            total == vstd::utf8::encode_utf8(t).len(),
            bytes == vstd::utf8::encode_utf8(t.take(i as int)).len(),
            bytes + vstd::utf8::encode_utf8(t.skip(i as int)).len() == total,
        decreases k - i,
    {
        let c = chars[i];
        proof {
            assert(t.skip(i as int)[0] == t[i as int]);
            assert(t.skip(i as int).drop_first() =~= t.skip(i + 1));
            assert(t.take(i + 1) =~= t.take(i as int) + seq![t[i as int]]);
            lemma_encode_utf8_concat(t.take(i as int), seq![t[i as int]]);
            assert(seq![t[i as int]].drop_first() =~= Seq::<char>::empty());
            assert(vstd::utf8::encode_utf8(Seq::<char>::empty()) =~= Seq::<u8>::empty());
            assert(seq![t[i as int]][0] == t[i as int]);
            assert(vstd::utf8::encode_utf8(seq![t[i as int]]) =~= vstd::utf8::encode_scalar(
                t[i as int] as u32,
            ));
        }
        bytes = bytes + char_utf8_len(c);
        i = i + 1;
    }
    bytes
}

/// The smaller of an index and a sequence length: indices handed in
/// from outside are clamped to the buffer before use.
pub open spec fn clamp_to(len: int, i: int) -> int {
    if i <= len {
        i
    } else {
        len
    }
}

/// The text after inserting `s` at character offset `i` (clamped to the
/// end of the text).
pub open spec fn insert_seq(t: Seq<char>, i: int, s: Seq<char>) -> Seq<char> {
    let k = clamp_to(t.len() as int, i);
    t.take(k) + s + t.skip(k)
}

/// The text after removing the characters in `[start, end)`; indices
/// are clamped and `start >= end` removes nothing.
pub open spec fn remove_seq(t: Seq<char>, start: int, end: int) -> Seq<char> {
    if start >= end {
        t
    } else {
        t.take(clamp_to(t.len() as int, start)) + t.skip(clamp_to(t.len() as int, end))
    }
}

/// The text after replacing the characters in `[start, end)` with `s`.
pub open spec fn splice_seq(t: Seq<char>, start: int, end: int, s: Seq<char>) -> Seq<char> {
    t.take(start) + s + t.skip(end)
}

/// An owned, mutable character sequence. Every index against it is a
/// character offset; out-of-range offsets are clamped to the end.
pub struct TextBuffer {
    chars: Vec<char>,
}

impl View for TextBuffer {
    type V = Seq<char>;

    closed spec fn view(&self) -> Seq<char> {
        self.chars@
    }
}

impl TextBuffer {
    pub fn new() -> (r: TextBuffer)
        ensures
            r@ == Seq::<char>::empty(),
    {
        let r = TextBuffer { chars: Vec::new() };
        proof {
            assert(r@ =~= Seq::<char>::empty());
        }
        r
    }

    pub fn from_text(text: String) -> (r: TextBuffer)
        ensures
            r@ == text@,
    {
        TextBuffer { chars: str_to_chars(text.as_str()) }
    }

    pub fn from_chars(chars: Vec<char>) -> (r: TextBuffer)
        ensures
            r@ == chars@,
    {
        TextBuffer { chars }
    }

    pub fn as_str(&self) -> (r: String)
        ensures
            r@ == self@,
    {
        chars_to_string(&self.chars)
    }

    pub fn char_len(&self) -> (r: usize)
        ensures
            r == self@.len(),
    {
        self.chars.len()
    }

    pub fn char_at(&self, i: usize) -> (c: char)
        requires
            i < self@.len(),
        ensures
            c == self@[i as int],
    {
        self.chars[i]
    }

    /// The characters in `[start, end)` as an owned vector.
    pub fn slice_chars(&self, start: usize, end: usize) -> (r: Vec<char>)
        requires
            start <= end <= self@.len(),
        ensures
            r@ == self@.subrange(start as int, end as int),
    {
        let mut v: Vec<char> = Vec::new();
        let mut i: usize = start;
        while i < end
            invariant
                start <= i <= end <= self.chars@.len(),
                v@ =~= self.chars@.subrange(start as int, i as int),
            decreases end - i,
        {
            v.push(self.chars[i]);
            i = i + 1;
        }
        proof {
            assert(v@ =~= self@.subrange(start as int, end as int));
        }
        v
    }

    /// Replaces the characters in `[start, end)` with `s`.
    fn splice(&mut self, start: usize, end: usize, s: &Vec<char>)
        requires
            start <= end <= old(self)@.len(),
        ensures
            final(self)@ == splice_seq(old(self)@, start as int, end as int, s@),
    {
        let mut out: Vec<char> = Vec::new();
        let mut i: usize = 0;
        while i < start
            invariant
                i <= start <= self.chars@.len(),
                out@ =~= self.chars@.take(i as int),
            decreases start - i,
        {
            out.push(self.chars[i]);
            i = i + 1;
        }
        let mut j: usize = 0;
        while j < s.len()
            invariant
                j <= s@.len(),
                start <= self.chars@.len(),
                out@ =~= self.chars@.take(start as int) + s@.take(j as int),
            decreases s@.len() - j,
        {
            out.push(s[j]);
            j = j + 1;
        }
        let mut k: usize = end;
        while k < self.chars.len()
            invariant
                end <= k <= self.chars@.len(),
                start <= end,
                out@ =~= self.chars@.take(start as int) + s@ + self.chars@.subrange(
                    end as int,
                    k as int,
                ),
            decreases self.chars@.len() - k,
        {
            out.push(self.chars[k]);
            k = k + 1;
        }
        proof {
            assert(out@ =~= splice_seq(self.chars@, start as int, end as int, s@));
        }
        self.chars = out;
    }

    /// Inserts `s` at character offset `index`; an offset past the end
    /// inserts at the end.
    pub fn insert_str(&mut self, index: usize, s: &str)
        ensures
            final(self)@ == insert_seq(old(self)@, index as int, s@),
            final(self)@.len() <= usize::MAX,
    {
        let sc = str_to_chars(s);
        self.insert_chars(index, &sc);
    }

    /// Inserts the characters of `s` at character offset `index`; an
    /// offset past the end inserts at the end.
    pub fn insert_chars(&mut self, index: usize, s: &Vec<char>)
        ensures
            final(self)@ == insert_seq(old(self)@, index as int, s@),
            final(self)@.len() <= usize::MAX,
    {
        let k = if index <= self.chars.len() {
            index
        } else {
            self.chars.len()
        };
        self.splice(k, k, s);
        proof {
            vstd::std_specs::vec::axiom_spec_len(&self.chars);
            assert(final(self)@ =~= insert_seq(old(self)@, index as int, s@));
        }
    }

    /// Removes the characters in `[start, end)`; a no-op when
    /// `start >= end`, and `end` is clamped to the length.
    pub fn remove_range(&mut self, start: usize, end: usize)
        ensures
            final(self)@ == remove_seq(old(self)@, start as int, end as int),
    {
        if start >= end {
            return ;
        }
        let len = self.chars.len();
        let s = if start <= len {
            start
        } else {
            len
        };
        let e = if end <= len {
            end
        } else {
            len
        };
        let empty: Vec<char> = Vec::new();
        self.splice(s, e, &empty);
        proof {
            assert(final(self)@ =~= remove_seq(old(self)@, start as int, end as int));
        }
    }

    /// Replaces the characters in `[start, end)` with the characters of
    /// `replacement`.
    pub fn replace_chars(&mut self, start: usize, end: usize, replacement: &Vec<char>)
        requires
            start <= end <= old(self)@.len(),
        ensures
            final(self)@ == splice_seq(old(self)@, start as int, end as int, replacement@),
            final(self)@.len() <= usize::MAX,
    {
        self.splice(start, end, replacement);
        proof {
            vstd::std_specs::vec::axiom_spec_len(&self.chars);
        }
    }
}

} // verus!
