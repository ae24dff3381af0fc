//! Turning raw file bytes into text: UTF-8 first, then the two
//! legacy encodings scored against each other.

use vstd::prelude::*;
use vstd::string::StringExecFns;
use vstd::utf8::{decode_utf8, valid_utf8};
use crate::text::str_to_chars;
use crate::textops::{line_ending_of, normalize_newlines, normalize_loaded_text, detect_line_ending};

verus! {

/// What decoding the bytes as Shift-JIS yields, and whether any byte
/// sequence was malformed; the result depends on the bytes alone.
pub uninterp spec fn sjis_decode_of(b: Seq<u8>) -> (Seq<char>, bool);

/// Relies on encoding_rs's `SHIFT_JIS` decode: a pure decoding of the
/// byte content.
#[verifier::external_body]
fn decode_shift_jis(bytes: &[u8]) -> (r: (String, bool))
    ensures
        (r.0@, r.1) == sjis_decode_of(bytes@),
{
    let (text, _, had_errors) = encoding_rs::SHIFT_JIS.decode(bytes);
    (text.into_owned(), had_errors)
}

/// What decoding the bytes as EUC-JP yields, and whether any byte
/// sequence was malformed; the result depends on the bytes alone.
pub uninterp spec fn eucjp_decode_of(b: Seq<u8>) -> (Seq<char>, bool);

/// Relies on encoding_rs's `EUC_JP` decode: a pure decoding of the
/// byte content.
#[verifier::external_body]
fn decode_euc_jp(bytes: &[u8]) -> (r: (String, bool))
    ensures
        (r.0@, r.1) == eucjp_decode_of(bytes@),
{
    let (text, _, had_errors) = encoding_rs::EUC_JP.decode(bytes);
    (text.into_owned(), had_errors)
}

/// Relies on `String::from_utf8`: it succeeds exactly on valid UTF-8
/// and yields the decoded characters.
#[verifier::external_body]
fn utf8_to_string(bytes: &[u8]) -> (r: Option<String>)
    ensures
        (r is Some) == valid_utf8(bytes@),
        r matches Some(s) ==> s@ == decode_utf8(bytes@),
{
    String::from_utf8(bytes.to_vec()).ok()
}

/// What lossily decoding the bytes as UTF-8 yields; the result depends
/// on the bytes alone.
pub uninterp spec fn utf8_lossy_of(b: Seq<u8>) -> Seq<char>;

/// Relies on `String::from_utf8_lossy`: a pure decoding that, on valid
/// UTF-8, equals the strict one.
#[verifier::external_body]
fn utf8_lossy_to_string(bytes: &[u8]) -> (r: String)
    ensures
        r@ == utf8_lossy_of(bytes@),
        valid_utf8(bytes@) ==> r@ == decode_utf8(bytes@),
{
    String::from_utf8_lossy(bytes).into_owned()
}

/// A control character as a penalty source: the C0 and C1 ranges,
/// with tab, line feed, and carriage return excused.
pub open spec fn is_penalty_control(c: char) -> bool {
    ((c as u32) < 0x20 || (0x7f <= (c as u32) && (c as u32) <= 0x9f)) && c != '\n' && c != '\r'
        && c != '\t'
}

pub open spec fn count_penalty_controls(t: Seq<char>) -> nat
    decreases t.len(),
{
    if t.len() == 0 {
        0
    } else {
        count_penalty_controls(t.drop_last()) + if is_penalty_control(t.last()) {
            1nat
        } else {
            0nat
        }
    }
}

pub open spec fn count_replacements(t: Seq<char>) -> nat
    decreases t.len(),
{
    if t.len() == 0 {
        0
    } else {
        count_replacements(t.drop_last()) + if t.last() == '\u{FFFD}' {
            1nat
        } else {
            0nat
        }
    }
}

/// How implausible a decoding looks: each stray control character
/// costs one, each replacement character four, and malformed input
/// ten.
pub open spec fn score_of(t: Seq<char>, had_errors: bool) -> int {
    count_penalty_controls(t) + 4 * count_replacements(t) + if had_errors {
        10int
    } else {
        0int
    }
}

proof fn lemma_counts_le(t: Seq<char>)
    ensures
        count_penalty_controls(t) <= t.len(),
        count_replacements(t) <= t.len(),
    decreases t.len(),
{
    if t.len() > 0 {
        lemma_counts_le(t.drop_last());
    }
}

/// A candidate decoding with its implausibility score.
pub struct ScoredDecode {
    pub text: String,
    pub encoding: String,
    pub score: u128,
}

/// Scores a candidate decoding.
pub fn decode_with_score(text: String, encoding: String, had_errors: bool) -> (r: ScoredDecode)
    ensures
        r.text == text,
        r.encoding == encoding,
        r.score == score_of(text@, had_errors),
{
    let ghost t = text@;
    let chars = str_to_chars(text.as_str());
    let n = chars.len();
    let mut controls: usize = 0;
    let mut replacements: usize = 0;
    let mut i: usize = 0;
    while i < n
        invariant
            i <= n,
            n == t.len(),
            chars@ == t,
            controls == count_penalty_controls(t.take(i as int)),
            replacements == count_replacements(t.take(i as int)),
        decreases n - i,
    {
        let c = chars[i];
        proof {
            assert(t.take(i + 1).drop_last() =~= t.take(i as int));
            assert(t.take(i + 1).last() == t[i as int]);
            lemma_counts_le(t.take(i + 1));
        }
        let u = c as u32;
        if (u < 0x20 || (0x7f <= u && u <= 0x9f)) && c != '\n' && c != '\r' && c != '\t' {
            controls = controls + 1;
        }
        if c == '\u{FFFD}' {
            replacements = replacements + 1;
        }
        i = i + 1;
    }
    proof {
        assert(t.take(n as int) =~= t);
    }
    let score: u128 = (controls as u128) + 4 * (replacements as u128) + if had_errors {
        10
    } else {
        0
    };
    ScoredDecode { text, encoding, score }
}

/// Whether the bytes open with the UTF-8 byte-order mark.
pub open spec fn starts_with_bom(b: Seq<u8>) -> bool {
    b.len() >= 3 && b[0] == 0xef && b[1] == 0xbb && b[2] == 0xbf
}

/// The text loaded content decodes to: after a byte-order mark the
/// rest is read lossily as UTF-8; valid UTF-8 is read as such; other
/// content is read as whichever of Shift-JIS and EUC-JP scores no
/// worse (Shift-JIS on a tie). Line endings are normalised to bare
/// line feeds.
pub open spec fn decoded_text_of(b: Seq<u8>) -> Seq<char> {
    if starts_with_bom(b) {
        normalize_newlines(utf8_lossy_of(b.skip(3)))
    } else if valid_utf8(b) {
        normalize_newlines(decode_utf8(b))
    } else {
        let s = sjis_decode_of(b);
        let e = eucjp_decode_of(b);
        if score_of(s.0, s.1) <= score_of(e.0, e.1) {
            normalize_newlines(s.0)
        } else {
            normalize_newlines(e.0)
        }
    }
}

/// The encoding name loaded content is recorded under.
pub open spec fn decoded_encoding_of(b: Seq<u8>) -> Seq<char> {
    if starts_with_bom(b) {
        "UTF-8 BOM"@
    } else if valid_utf8(b) {
        "UTF-8"@
    } else {
        let s = sjis_decode_of(b);
        let e = eucjp_decode_of(b);
        if score_of(s.0, s.1) <= score_of(e.0, e.1) {
            "Shift-JIS"@
        } else {
            "EUC-JP"@
        }
    }
}

/// Decoded file content: the text, the encoding it was read with, and
/// the line ending style it used.
pub struct DecodedContent {
    pub text: String,
    pub encoding: String,
    pub line_ending: String,
}

/// Decodes raw file content into text, an encoding name, and a
/// line-ending style.
pub fn decode_content(bytes: &[u8]) -> (r: DecodedContent)
    ensures
        r.text@ == decoded_text_of(bytes@),
        r.encoding@ == decoded_encoding_of(bytes@),
        r.line_ending@ == line_ending_of(bytes@),
{
    let line_ending = detect_line_ending(bytes);
    if bytes.len() >= 3 {
        let b0 = bytes[0];
        let b1 = bytes[1];
        let b2 = bytes[2];
        if b0 == 0xef && b1 == 0xbb && b2 == 0xbf {
            let rest = bytes.split_at(3).1;
            proof {
                assert(rest@ =~= bytes@.skip(3));
            }
            let lossy = utf8_lossy_to_string(rest);
            let text = normalize_loaded_text(lossy.as_str());
            return DecodedContent {
                text,
                encoding: String::from_str("UTF-8 BOM"),
                line_ending,
            };
        }
    }
    match utf8_to_string(bytes) {
        Some(decoded) => {
            let text = normalize_loaded_text(decoded.as_str());
            DecodedContent { text, encoding: String::from_str("UTF-8"), line_ending }
        },
        None => {
            let sj = decode_shift_jis(bytes);
            let eu = decode_euc_jp(bytes);
            let sjis = decode_with_score(sj.0, String::from_str("Shift-JIS"), sj.1);
            let eucjp = decode_with_score(eu.0, String::from_str("EUC-JP"), eu.1);
            if sjis.score <= eucjp.score {
                let text = normalize_loaded_text(sjis.text.as_str());
                DecodedContent { text, encoding: sjis.encoding, line_ending }
            } else {
                let text = normalize_loaded_text(eucjp.text.as_str());
                DecodedContent { text, encoding: eucjp.encoding, line_ending }
            }
        },
    }
}

} // verus!
