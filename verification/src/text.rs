//! Byte-level text helpers: UTF-8 checks, lossy decoding, trimming, number
//! parsing and formatting, and XML escaping.
//!
//! Texts are kept as bytes: where a text is a Rust string, the bytes here are
//! its UTF-8 encoding.
use vstd::prelude::*;
use vstd::string::*;
use vstd::utf8::*;

verus! {

broadcast use vstd::utf8::encode_utf8_valid_utf8;

/// Whether `b` holds a well-formed UTF-8 encoding.
///
/// Trusted: calls `std::str::from_utf8`, which accepts exactly the well-formed
/// UTF-8 byte sequences; the contract says so with vstd's definition of them.
#[verifier::external_body]
pub(crate) fn is_valid_utf8(b: &[u8]) -> (r: bool)
    ensures
        r == valid_utf8(b@),
{
    std::str::from_utf8(b).is_ok()
}

/// `b` itself when it is well-formed UTF-8, the empty string otherwise
/// (the effect of `std::str::from_utf8(b).unwrap_or("")`).
pub open spec fn utf8_or_empty(b: Seq<u8>) -> Seq<u8> {
    if valid_utf8(b) {
        b
    } else {
        Seq::empty()
    }
}

/// A copy of `b` when it is well-formed UTF-8, an empty vector otherwise.
pub fn utf8_or_empty_vec(b: &[u8]) -> (r: Vec<u8>)
    ensures
        r@ == utf8_or_empty(b@),
        valid_utf8(r@),
{
    if is_valid_utf8(b) {
        vstd::slice::slice_to_vec(b)
    } else {
        proof {
            assert(valid_utf8(Seq::<u8>::empty()));
        }
        Vec::new()
    }
}

/// What `String::from_utf8_lossy` makes of the bytes `b`.
pub uninterp spec fn utf8_lossy(b: Seq<u8>) -> Seq<u8>;

/// Lossy decoding: valid UTF-8 stays as it is; otherwise what
/// `String::from_utf8_lossy` makes of it.
pub open spec fn lossy_text(b: Seq<u8>) -> Seq<u8> {
    if valid_utf8(b) {
        b
    } else {
        utf8_lossy(b)
    }
}

/// Lossy UTF-8 decoding, re-encoded as bytes.
///
/// Trusted: calls `String::from_utf8_lossy`. Its documentation promises a
/// valid string, equal to the input when the input is valid UTF-8, with
/// each invalid sequence replaced by U+FFFD otherwise; the last part is left
/// to the name `utf8_lossy`.
#[verifier::external_body]
pub(crate) fn lossy_utf8(b: &[u8]) -> (r: Vec<u8>)
    ensures
        valid_utf8(b@) ==> r@ == b@,
        !valid_utf8(b@) ==> r@ == utf8_lossy(b@),
        valid_utf8(r@),
{
    String::from_utf8_lossy(b).into_owned().into_bytes()
}

/// The characters that Rust's `char::is_whitespace` accepts: those with the
/// Unicode property White_Space.
pub open spec fn is_unicode_whitespace(c: char) -> bool {
    let u = c as u32;
    ||| 0x09 <= u <= 0x0d
    ||| u == 0x20
    ||| u == 0x85
    ||| u == 0xa0
    ||| u == 0x1680
    ||| 0x2000 <= u <= 0x200a
    ||| u == 0x2028
    ||| u == 0x2029
    ||| u == 0x202f
    ||| u == 0x205f
    ||| u == 0x3000
}

/// `s` without its leading whitespace.
pub open spec fn trim_start_chars(s: Seq<char>) -> Seq<char>
    decreases s.len(),
{
    if s.len() > 0 && is_unicode_whitespace(s[0]) {
        trim_start_chars(s.drop_first())
    } else {
        s
    }
}

/// `s` without its trailing whitespace.
pub open spec fn trim_end_chars(s: Seq<char>) -> Seq<char>
    decreases s.len(),
{
    if s.len() > 0 && is_unicode_whitespace(s.last()) {
        trim_end_chars(s.drop_last())
    } else {
        s
    }
}

/// The UTF-8 text `b` without leading and trailing whitespace (what `str::trim` returns).
pub open spec fn trimmed(b: Seq<u8>) -> Seq<u8> {
    encode_utf8(trim_end_chars(trim_start_chars(decode_utf8(b))))
}

/// Removes leading and trailing whitespace from a UTF-8 text.
///
/// Trusted: calls `str::trim`, documented to remove leading and trailing
/// characters with the Unicode property White_Space; `from_utf8` cannot fail
/// on the valid input that `requires` asks for.
#[verifier::external_body]
pub(crate) fn trim_utf8(b: &[u8]) -> (r: Vec<u8>)
    requires
        valid_utf8(b@),
    ensures
        r@ == trimmed(b@),
{
    std::str::from_utf8(b).unwrap_or("").trim().as_bytes().to_vec()
}

/// Lossy decoding followed by trimming: the text value of raw XML character data
/// (`String::from_utf8_lossy(b).trim()`).
pub open spec fn text_value(b: Seq<u8>) -> Seq<u8> {
    trimmed(lossy_text(b))
}

pub fn text_value_of(b: &[u8]) -> (r: Vec<u8>)
    ensures
        r@ == text_value(b@),
        valid_utf8(r@),
{
    let l = lossy_utf8(b);
    trim_utf8(l.as_slice())
}

/// In valid UTF-8, the character boundaries are the two ends and every
/// position whose byte is not a continuation byte.
pub proof fn lemma_char_boundary(b: Seq<u8>, i: int)
    requires
        valid_utf8(b),
    ensures
        is_char_boundary(b, i) <==> (i == 0 || i == b.len() || (0 < i < b.len()
            && !is_continuation_byte(b[i]))),
    decreases b.len(),
{
    if i == 0 {
    } else if i < 0 || b.len() < i {
    } else {
        let w = length_of_first_scalar(b);
        let rest = pop_first_scalar(b);
        assert(valid_first_scalar(b) && valid_utf8(rest));
        assert(1 <= w <= 4 && w <= b.len());
        assert(rest.len() == b.len() - w);
        assert forall|k: int| 0 <= k < rest.len() implies rest[k] == b[k + w] by {}
        assert forall|k: int| 0 < k < w implies is_continuation_byte(b[k]) by {}
        if rest.len() > 0 {
            reveal_with_fuel(valid_utf8, 2);
            assert(valid_first_scalar(rest));
            assert(!is_continuation_byte(rest[0]));
        }
        assert(is_char_boundary(b, i) == is_char_boundary(rest, i - w));
        if i > w {
            lemma_char_boundary(rest, i - w);
            if i < b.len() {
                assert(rest[i - w] == b[i]);
            }
        } else if i == w {
            assert(is_char_boundary(rest, 0));
            if i < b.len() {
                assert(rest[0] == b[i]);
            }
        } else {
            assert(!is_char_boundary(rest, i - w));
            assert(is_continuation_byte(b[i]));
        }
    }
}

/// Whether `index` is a character boundary of the UTF-8 text `b`.
pub fn is_boundary(b: &[u8], index: usize) -> (r: bool)
    requires
        valid_utf8(b@),
    ensures
        r == is_char_boundary(b@, index as int),
{
    proof {
        lemma_char_boundary(b@, index as int);
    }
    index == 0 || index == b.len() || (index < b.len() && !(0x80u8 <= b[index] && b[index] <= 0xbfu8))
}

/// The part of valid UTF-8 between two character boundaries is valid UTF-8.
pub proof fn lemma_valid_between(b: Seq<u8>, i: int, j: int)
    requires
        valid_utf8(b),
        i <= j,
        is_char_boundary(b, i),
        is_char_boundary(b, j),
    ensures
        valid_utf8(b.subrange(i, j)),
{
    lemma_char_boundary(b, i);
    lemma_char_boundary(b, j);
    vstd::utf8::valid_utf8_split(b, i);
    let t = b.subrange(i, b.len() as int);
    lemma_char_boundary(t, j - i);
    if j < b.len() {
        assert(t[j - i] == b[j]);
    }
    vstd::utf8::valid_utf8_split(t, j - i);
    assert(t.subrange(0, j - i) =~= b.subrange(i, j));
}

// ---------------------------------------------------------------------------
// XML escaping

/// The replacement that `quick_xml::escape::escape` makes for one byte.
pub open spec fn escape_byte(c: u8) -> Seq<u8> {
    if c == 60u8 {
        // "&lt;"
        seq![38u8, 108u8, 116u8, 59u8]
    } else if c == 62u8 {
        // "&gt;"
        seq![38u8, 103u8, 116u8, 59u8]
    } else if c == 38u8 {
        // "&amp;"
        seq![38u8, 97u8, 109u8, 112u8, 59u8]
    } else if c == 39u8 {
        // "&apos;"
        seq![38u8, 97u8, 112u8, 111u8, 115u8, 59u8]
    } else if c == 34u8 {
        // "&quot;"
        seq![38u8, 113u8, 117u8, 111u8, 116u8, 59u8]
    } else {
        seq![c]
    }
}

/// `s` with each of `< > & ' "` replaced by its XML entity.
pub open spec fn xml_escape(s: Seq<u8>) -> Seq<u8>
    decreases s.len(),
{
    if s.len() == 0 {
        Seq::empty()
    } else {
        escape_byte(s[0]) + xml_escape(s.drop_first())
    }
}

/// Whether `c` is one of the bytes that escaping replaces.
pub open spec fn is_markup_byte(c: u8) -> bool {
    c == 60u8 || c == 62u8 || c == 38u8 || c == 39u8 || c == 34u8
}

/// Escapes the XML special characters of a UTF-8 text.
///
/// Trusted: calls `quick_xml::escape::escape`, whose source replaces `<`, `>`,
/// `&`, `'` and `"` with `&lt;`, `&gt;`, `&amp;`, `&apos;` and `&quot;` and
/// copies every other byte.
#[verifier::external_body]
pub(crate) fn escape(s: &[u8]) -> (r: Vec<u8>)
    requires
        valid_utf8(s@),
    ensures
        r@ == xml_escape(s@),
{
    quick_xml::escape::escape(std::str::from_utf8(s).unwrap_or("")).as_bytes().to_vec()
}

/// Escaping leaves a text without special characters unchanged.
pub proof fn lemma_escape_plain(s: Seq<u8>)
    requires
        forall|i: int| 0 <= i < s.len() ==> !is_markup_byte(#[trigger] s[i]),
    ensures
        xml_escape(s) == s,
    decreases s.len(),
{
    if s.len() > 0 {
        let t = s.drop_first();
        assert forall|i: int| 0 <= i < t.len() implies !is_markup_byte(#[trigger] t[i]) by {
            assert(t[i] == s[i + 1]);
        }
        lemma_escape_plain(t);
        assert(!is_markup_byte(s[0]));
        assert(seq![s[0]] + t =~= s);
    }
}

/// Escaping distributes over concatenation.
pub proof fn lemma_escape_concat(a: Seq<u8>, b: Seq<u8>)
    ensures
        xml_escape(a + b) == xml_escape(a) + xml_escape(b),
    decreases a.len(),
{
    if a.len() == 0 {
        assert(a + b =~= b);
    } else {
        assert((a + b).drop_first() =~= a.drop_first() + b);
        lemma_escape_concat(a.drop_first(), b);
        assert((a + b)[0] == a[0]);
    }
}

// ---------------------------------------------------------------------------
// Numbers

pub open spec fn is_ascii_digit(c: u8) -> bool {
    48u8 <= c <= 57u8
}

/// The value of a sequence of decimal digits.
pub open spec fn digits_value(s: Seq<u8>) -> int
    decreases s.len(),
{
    if s.len() == 0 {
        0
    } else {
        digits_value(s.drop_last()) * 10 + (s.last() - 48)
    }
}

/// What `str::parse::<i32>` returns: an optional `+` or `-` followed by at
/// least one decimal digit and nothing else, whose value fits in an `i32`.
pub open spec fn i32_from_str(s: Seq<u8>) -> Option<i32> {
    let neg = s.len() > 0 && s[0] == 45u8;
    let signed = s.len() > 0 && (s[0] == 43u8 || s[0] == 45u8);
    let ds = if signed { s.drop_first() } else { s };
    let v = if neg { -digits_value(ds) } else { digits_value(ds) };
    if ds.len() == 0 || exists|i: int| 0 <= i < ds.len() && !is_ascii_digit(#[trigger] ds[i]) {
        None
    } else if i32::MIN <= v <= i32::MAX {
        Some(v as i32)
    } else {
        None
    }
}

/// Parses a decimal `i32`.
///
/// Trusted: calls `str::parse::<i32>`, documented to accept an optional `+` or
/// `-` sign followed by digits only, and to fail when the value does not fit.
#[verifier::external_body]
pub(crate) fn parse_i32(s: &[u8]) -> (r: Option<i32>)
    requires
        valid_utf8(s@),
    ensures
        r == i32_from_str(s@),
{
    std::str::from_utf8(s).unwrap_or("").parse::<i32>().ok()
}

/// `s` without its leading `'0'` characters.
pub open spec fn strip_leading_zeros(s: Seq<u8>) -> Seq<u8>
    decreases s.len(),
{
    if s.len() > 0 && s[0] == 48u8 {
        strip_leading_zeros(s.drop_first())
    } else {
        s
    }
}

pub proof fn lemma_strip_zeros_valid(s: Seq<u8>)
    requires
        valid_utf8(s),
    ensures
        valid_utf8(strip_leading_zeros(s)),
    decreases s.len(),
{
    if s.len() > 0 && s[0] == 48u8 {
        assert(length_of_first_scalar(s) == 1);
        assert(pop_first_scalar(s) =~= s.drop_first());
        lemma_strip_zeros_valid(s.drop_first());
    }
}

/// Removes the leading `'0'` characters (`str::trim_start_matches('0')`).
pub fn strip_zeros(s: &[u8]) -> (r: Vec<u8>)
    ensures
        r@ == strip_leading_zeros(s@),
{
    let mut i: usize = 0;
    assert(s@.subrange(0, s@.len() as int) =~= s@);
    while i < s.len() && s[i] == 48u8
        invariant
            i <= s@.len(),
            strip_leading_zeros(s@) == strip_leading_zeros(s@.subrange(i as int, s@.len() as int)),
        decreases s@.len() - i,
    {
        assert(s@.subrange(i as int, s@.len() as int).drop_first() =~= s@.subrange(
            i + 1,
            s@.len() as int,
        ));
        i = i + 1;
    }
    let r = vstd::slice::slice_to_vec(vstd::slice::slice_subrange(s, i, s.len()));
    proof {
        let t = s@.subrange(i as int, s@.len() as int);
        assert(t.len() == 0 || t[0] != 48u8);
    }
    r
}

/// The decimal digits of `n`, most significant first, without leading zeros
/// (`"0"` for zero): how `usize::to_string` writes a number.
pub open spec fn decimal(n: nat) -> Seq<u8>
    decreases n,
{
    if n < 10 {
        seq![(48 + n) as u8]
    } else {
        decimal(n / 10).push((48 + n % 10) as u8)
    }
}

/// The decimal representation of `n`.
pub fn usize_to_decimal(n: usize) -> (r: Vec<u8>)
    ensures
        r@ == decimal(n as nat),
    decreases n,
{
    if n < 10 {
        let mut v: Vec<u8> = Vec::new();
        v.push((48 + n) as u8);
        proof {
            assert(v@ =~= seq![(48 + n) as u8]);
        }
        v
    } else {
        let mut v = usize_to_decimal(n / 10);
        v.push((48 + n % 10) as u8);
        v
    }
}

} // verus!
