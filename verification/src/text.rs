//! Printable text out of fixed-width identify fields.

use vstd::prelude::*;
use vstd::utf8::{encode_utf8, is_ascii_chars, is_ascii_chars_encode_utf8};

verus! {

/// The character that a byte of an identify string field is shown as:
/// printable ASCII and the space stand for themselves, every other byte
/// is shown as a space.
pub open spec fn shown_char(b: u8) -> char {
    if 0x20 <= b && b <= 0x7e {
        b as char
    } else {
        ' '
    }
}

/// The characters of a byte field, one per byte.
pub open spec fn shown_chars(bytes: Seq<u8>) -> Seq<char> {
    bytes.map_values(|b: u8| shown_char(b))
}

/// `s` without its leading and trailing spaces.
pub open spec fn trim_spaces(s: Seq<char>) -> Seq<char>
    decreases s.len(),
{
    if s.len() > 0 && s[0] == ' ' {
        trim_spaces(s.drop_first())
    } else if s.len() > 0 && s.last() == ' ' {
        trim_spaces(s.drop_last())
    } else {
        s
    }
}

/// The text of an identify string field.
pub open spec fn field_text(bytes: Seq<u8>) -> Seq<char> {
    trim_spaces(shown_chars(bytes))
}

/// A character that may stand in identify text: printable ASCII or space.
pub open spec fn is_text_char(c: char) -> bool {
    ' ' <= c && c <= '~'
}

/// Text made of printable ASCII and spaces that neither starts nor ends with a space.
pub open spec fn is_clean_text(s: Seq<char>) -> bool {
    &&& forall|i: int| 0 <= i < s.len() ==> #[trigger] is_text_char(s[i])
    &&& s.len() > 0 ==> s[0] != ' ' && s.last() != ' '
}

/// Trimming `s` keeps exactly `s[lo..hi]` when everything outside that range
/// is a space and the range, if not empty, starts and ends with a non-space.
proof fn lemma_trim_range(s: Seq<char>, lo: int, hi: int)
    requires
        0 <= lo <= hi <= s.len(),
        forall|i: int| 0 <= i < lo ==> s[i] == ' ',
        forall|i: int| hi <= i < s.len() ==> s[i] == ' ',
        lo < hi ==> s[lo] != ' ' && s[hi - 1] != ' ',
    ensures
        trim_spaces(s) == s.subrange(lo, hi),
    decreases s.len(),
{
    if s.len() > 0 && s[0] == ' ' {
        let t = s.drop_first();
        if lo == 0 {
            assert(hi == 0);
            lemma_trim_range(t, 0, 0);
            assert(s.subrange(0, 0) =~= t.subrange(0, 0));
        } else {
            lemma_trim_range(t, lo - 1, hi - 1);
            assert(s.subrange(lo, hi) =~= t.subrange(lo - 1, hi - 1));
        }
    } else if s.len() > 0 && s.last() == ' ' {
        let t = s.drop_last();
        assert(hi < s.len());
        lemma_trim_range(t, lo, hi);
        assert(s.subrange(lo, hi) =~= t.subrange(lo, hi));
    } else {
        if s.len() > 0 {
            assert(lo == 0);
            assert(hi == s.len());
        }
        assert(s.subrange(lo, hi) =~= s);
    }
}

/// Trimmed text out of shown characters is clean.
pub proof fn lemma_field_text_is_clean(bytes: Seq<u8>)
    ensures
        is_clean_text(field_text(bytes)),
{
    lemma_trim_is_clean(shown_chars(bytes));
}

proof fn lemma_trim_is_clean(s: Seq<char>)
    requires
        forall|i: int| 0 <= i < s.len() ==> #[trigger] is_text_char(s[i]),
    ensures
        is_clean_text(trim_spaces(s)),
    decreases s.len(),
{
    if s.len() > 0 && s[0] == ' ' {
        let t = s.drop_first();
        assert forall|i: int| 0 <= i < t.len() implies #[trigger] is_text_char(t[i]) by {
            assert(t[i] == s[i + 1]);
        }
        lemma_trim_is_clean(t);
    } else if s.len() > 0 && s.last() == ' ' {
        let t = s.drop_last();
        assert forall|i: int| 0 <= i < t.len() implies #[trigger] is_text_char(t[i]) by {
            assert(t[i] == s[i]);
        }
        lemma_trim_is_clean(t);
    }
}

/// Clean text is its own field text once stored as bytes: showing each byte
/// of a clean text gives the text back, and there is nothing to trim.
pub proof fn lemma_clean_text_is_fixed(t: Seq<char>)
    requires
        is_clean_text(t),
    ensures
        is_ascii_chars(t),
        field_text(encode_utf8(t)) == t,
{
    assert forall|i: int| 0 <= i < t.len() implies '\0' <= #[trigger] t[i] <= '\u{7f}' by {
        assert(is_text_char(t[i]));
    }
    is_ascii_chars_encode_utf8(t);
    let b = encode_utf8(t);
    assert forall|i: int| 0 <= i < t.len() implies #[trigger] shown_chars(b)[i] == t[i] by {
        assert(is_text_char(t[i]));
        assert(b[i] == t[i] as u8);
    }
    assert(shown_chars(b) =~= t);
}

/// Trimming is idempotent: the field text of the UTF-8 bytes of a field
/// text is that field text again, so trimming the bytes of `ascii_trim`'s
/// result gives the same text.
pub proof fn lemma_field_text_idempotent(bytes: Seq<u8>)
    ensures
        field_text(encode_utf8(field_text(bytes))) == field_text(bytes),
{
    lemma_field_text_is_clean(bytes);
    lemma_clean_text_is_fixed(field_text(bytes));
}

/// Appends one character to a `String` (std's `String::push`).
#[verifier::external_body]
pub(crate) fn push_char(s: &mut String, c: char)
    ensures
        final(s)@ == old(s)@.push(c),
{
    s.push(c);
}

/// The character a field byte is shown as.
pub fn shown_char_of(b: u8) -> (c: char)
    ensures
        c == shown_char(b),
{
    if 0x20 <= b && b <= 0x7e {
        b as char
    } else {
        ' '
    }
}

/// The text of a byte field: every byte shown as a character, then leading
/// and trailing spaces removed.
pub fn ascii_trim(bytes: &[u8]) -> (text: String)
    ensures
        text@ == field_text(bytes@),
{
    let n = bytes.len();
    let ghost s = shown_chars(bytes@);
    let mut lo: usize = 0;
    while lo < n && shown_char_of(bytes[lo]) == ' '
        invariant
            lo <= n,
            n == bytes@.len(),
            s == shown_chars(bytes@),
            forall|i: int| 0 <= i < lo ==> s[i] == ' ',
        decreases n - lo,
    {
        lo = lo + 1;
    }
    let mut hi: usize = n;
    while hi > lo && shown_char_of(bytes[hi - 1]) == ' '
        invariant
            lo <= hi <= n,
            n == bytes@.len(),
            s == shown_chars(bytes@),
            forall|i: int| 0 <= i < lo ==> s[i] == ' ',
            forall|i: int| hi <= i < n ==> s[i] == ' ',
            lo < n ==> s[lo as int] != ' ',
        decreases hi - lo,
    {
        hi = hi - 1;
    }
    proof {
        lemma_trim_range(s, lo as int, hi as int);
    }
    let mut text = String::new();
    let mut i: usize = lo;
    while i < hi
        invariant
            lo <= i <= hi <= n,
            n == bytes@.len(),
            s == shown_chars(bytes@),
            text@ == s.subrange(lo as int, i as int),
        decreases hi - i,
    {
        let c = shown_char_of(bytes[i]);
        push_char(&mut text, c);
        assert(s.subrange(lo as int, i + 1) =~= s.subrange(lo as int, i as int).push(c));
        i = i + 1;
    }
    text
}

} // verus!
