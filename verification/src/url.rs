//! Links that open a Tamil phrase in Google Translate.
//!
//! The phrase is percent-encoded byte by byte over its UTF-8 encoding: the
//! unreserved characters `A-Z a-z 0-9 - _ . ~` stand for themselves and every
//! other byte becomes `%` and two upper-case hexadecimal digits.

use vstd::prelude::*;
use vstd::utf8::*;
use vstd::string::*;
use crate::text::push_char;

verus! {

/// Whether the byte `b` is an unreserved URL character: an ASCII letter or
/// digit, or one of `-`, `_`, `.`, `~`.
pub open spec fn is_unreserved(b: u8) -> bool {
    ||| 65 <= b <= 90
    ||| 97 <= b <= 122
    ||| 48 <= b <= 57
    ||| b == 45
    ||| b == 95
    ||| b == 46
    ||| b == 126
}

/// The upper-case hexadecimal digit for `v` (`v < 16`).
pub open spec fn hex_char(v: nat) -> char {
    if v < 10 {
        (48 + v) as char
    } else {
        (55 + v) as char
    }
}

/// The text that stands for one byte in a percent-encoded string.
pub open spec fn encode_byte(b: u8) -> Seq<char> {
    if is_unreserved(b) {
        seq![b as char]
    } else {
        seq!['%', hex_char((b / 16) as nat), hex_char((b % 16) as nat)]
    }
}

/// The percent encoding of a byte sequence: each byte's text, in order.
pub open spec fn percent_encoded(bytes: Seq<u8>) -> Seq<char>
    decreases bytes.len(),
{
    if bytes.len() == 0 {
        Seq::empty()
    } else {
        encode_byte(bytes[0]) + percent_encoded(bytes.drop_first())
    }
}

/// The value of a hexadecimal digit character (`0-9`, `A-F`).
pub open spec fn hex_value(c: char) -> int {
    if (c as int) <= 57 {
        (c as int) - 48
    } else {
        (c as int) - 55
    }
}

/// Percent decoding: a `%` followed by at least two more characters stands,
/// with those two characters read as hexadecimal digits (see [`hex_value`]),
/// for one byte; any other character stands for its own code.
pub open spec fn percent_decoded(s: Seq<char>) -> Seq<u8>
    decreases s.len(),
{
    if s.len() == 0 {
        Seq::empty()
    } else if s[0] == '%' && s.len() >= 3 {
        seq![(hex_value(s[1]) * 16 + hex_value(s[2])) as u8] + percent_decoded(s.skip(3))
    } else {
        seq![s[0] as u8] + percent_decoded(s.drop_first())
    }
}

/// The start of a Google Translate address (Tamil to English), up to the
/// phrase.
pub const URL_HEAD: &'static str = "https://translate.google.com/?sl=ta&tl=en&text=";

/// The end of a Google Translate address, after the phrase.
pub const URL_TAIL: &'static str = "&op=translate";

/// The Google Translate address (Tamil to English) for a phrase whose
/// characters are `text`.
pub open spec fn translate_url(text: Seq<char>) -> Seq<char> {
    URL_HEAD@ + percent_encoded(encode_utf8(text)) + URL_TAIL@
}

/// The upper-case hexadecimal digit for `v`.
fn hex_digit(v: u8) -> (c: char)
    requires
        v < 16,
    ensures
        c == hex_char(v as nat),
{
    if v < 10 {
        (v + 48) as char
    } else {
        (v + 55) as char
    }
}

/// Whether `b` is an unreserved URL character.
pub fn unreserved(b: u8) -> (r: bool)
    ensures
        r == is_unreserved(b),
{
    (b >= 65 && b <= 90) || (b >= 97 && b <= 122) || (b >= 48 && b <= 57) || b == 45 || b == 95
        || b == 46 || b == 126
}

/// Appends the percent encoding of `bytes` to `out`.
pub fn push_percent_encoded(out: &mut String, bytes: &[u8])
    ensures
        final(out)@ == old(out)@ + percent_encoded(bytes@),
{
    let ghost start = out@;
    let len = bytes.len();
    assert(bytes@.skip(0) =~= bytes@);
    for i in 0..len
        invariant
            len == bytes@.len(),
            start + percent_encoded(bytes@) =~= out@ + percent_encoded(bytes@.skip(i as int)),
    {
        let b = bytes[i];
        let ghost before = out@;
        if unreserved(b) {
            push_char(out, b as char);
        } else {
            push_char(out, '%');
            push_char(out, hex_digit(b / 16));
            push_char(out, hex_digit(b % 16));
        }
        assert(out@ =~= before + encode_byte(b));
        let ghost rest = bytes@.skip(i as int);
        assert(rest[0] == b);
        assert(rest.drop_first() =~= bytes@.skip(i + 1));
        assert(percent_encoded(rest) == encode_byte(b) + percent_encoded(rest.drop_first()));
    }
    assert(bytes@.skip(len as int) =~= Seq::<u8>::empty());
}

/// The percent encoding of `bytes`, as a new string.
pub fn percent_encode(bytes: &[u8]) -> (s: String)
    ensures
        s@ == percent_encoded(bytes@),
        percent_decoded(s@) == bytes@,
{
    proof {
        lemma_percent_decode_encode(bytes@);
    }
    let mut s = String::new();
    push_percent_encoded(&mut s, bytes);
    assert(s@ =~= percent_encoded(bytes@));
    s
}

/// The Google Translate link for `text`: its UTF-8 bytes percent-encoded
/// between the fixed address and the `&op=translate` tail.
pub fn google_translate_url(text: &str) -> (url: String)
    ensures
        url@ == translate_url(text@),
        url@.len() >= URL_HEAD@.len() + URL_TAIL@.len(),
        url@.subrange(0, URL_HEAD@.len() as int) == URL_HEAD@,
        url@.subrange(url@.len() - URL_TAIL@.len(), url@.len() as int) == URL_TAIL@,
        percent_decoded(url@.subrange(URL_HEAD@.len() as int, url@.len() - URL_TAIL@.len()))
            == text.spec_bytes(),
{
    proof {
        lemma_translate_url_carries_phrase(text@);
    }
    let mut url = String::new();
    url.append(URL_HEAD);
    push_percent_encoded(&mut url, text.as_bytes());
    url.append(URL_TAIL);
    assert(url@ =~= translate_url(text@));
    url
}

/// Decoding the percent encoding of a byte sequence gives the bytes back.
pub proof fn lemma_percent_decode_encode(bytes: Seq<u8>)
    ensures
        percent_decoded(percent_encoded(bytes)) == bytes,
    decreases bytes.len(),
{
    if bytes.len() == 0 {
        assert(percent_encoded(bytes) =~= Seq::<char>::empty());
        assert(bytes =~= Seq::<u8>::empty());
    } else {
        let b = bytes[0];
        let rest = percent_encoded(bytes.drop_first());
        let s = percent_encoded(bytes);
        lemma_percent_decode_encode(bytes.drop_first());
        assert(s == encode_byte(b) + rest);
        if is_unreserved(b) {
            assert(s[0] == b as char);
            assert((b as char) as u8 == b);
            assert(s.drop_first() =~= rest);
        } else {
            let hi = (b / 16) as nat;
            let lo = (b % 16) as nat;
            assert(hex_char(hi) as int == if hi < 10 { 48 + hi } else { 55 + hi });
            assert(hex_char(lo) as int == if lo < 10 { 48 + lo } else { 55 + lo });
            assert(hex_value(hex_char(hi)) == hi);
            assert(hex_value(hex_char(lo)) == lo);
            assert(s[0] == '%');
            assert(s[1] == hex_char(hi));
            assert(s[2] == hex_char(lo));
            assert(s.skip(3) =~= rest);
            assert(hi * 16 + lo == b);
        }
        assert(bytes =~= seq![b] + bytes.drop_first());
    }
}

/// The link starts with the fixed address, ends with `&op=translate`, and
/// what stands between them percent-decodes to the UTF-8 bytes of the whole
/// phrase.
pub proof fn lemma_translate_url_carries_phrase(text: Seq<char>)
    ensures
        translate_url(text).len() >= URL_HEAD@.len() + URL_TAIL@.len(),
        translate_url(text).subrange(0, URL_HEAD@.len() as int) == URL_HEAD@,
        translate_url(text).subrange(
            translate_url(text).len() - URL_TAIL@.len(),
            translate_url(text).len() as int,
        ) == URL_TAIL@,
        percent_decoded(
            translate_url(text).subrange(
                URL_HEAD@.len() as int,
                translate_url(text).len() - URL_TAIL@.len(),
            ),
        ) == encode_utf8(text),
{
    let e = percent_encoded(encode_utf8(text));
    let u = translate_url(text);
    assert(u.subrange(0, URL_HEAD@.len() as int) =~= URL_HEAD@);
    assert(u.subrange(u.len() - URL_TAIL@.len(), u.len() as int) =~= URL_TAIL@);
    assert(u.subrange(URL_HEAD@.len() as int, u.len() - URL_TAIL@.len()) =~= e);
    lemma_percent_decode_encode(encode_utf8(text));
}

/// Every character of a percent encoding is unreserved, `%`, or an
/// upper-case hexadecimal digit: the text can stand in a URL as it is.
pub proof fn lemma_percent_encoded_is_url_safe(bytes: Seq<u8>)
    ensures
        forall|i: int|
            0 <= i < percent_encoded(bytes).len() ==> {
                let c = #[trigger] percent_encoded(bytes)[i];
                ||| is_unreserved(c as u8) && (c as int) < 128
                ||| c == '%'
            },
    decreases bytes.len(),
{
    if bytes.len() > 0 {
        lemma_percent_encoded_is_url_safe(bytes.drop_first());
        let b = bytes[0];
        let e = encode_byte(b);
        let rest = percent_encoded(bytes.drop_first());
        let s = percent_encoded(bytes);
        assert(s == e + rest);
        assert forall|i: int| 0 <= i < s.len() implies {
            let c = #[trigger] s[i];
            ||| is_unreserved(c as u8) && (c as int) < 128
            ||| c == '%'
        } by {
            if i >= e.len() {
                assert(s[i] == rest[i - e.len()]);
            } else if !is_unreserved(b) && i > 0 {
                let v = if i == 1 { (b / 16) as nat } else { (b % 16) as nat };
                assert(s[i] == hex_char(v));
                assert(hex_char(v) as int == if v < 10 { 48 + v } else { 55 + v });
            }
        }
    }
}

} // verus!
