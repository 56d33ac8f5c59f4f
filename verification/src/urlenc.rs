//! Percent-encoding of URL path and query components.
//!
//! The query side follows the `application/x-www-form-urlencoded` byte
//! serialization (space becomes `+`; `*`, `-`, `.`, `_`, digits and ASCII
//! letters pass through; every other byte becomes `%XX`). The path side
//! keeps every printable ASCII byte except the ones a URL path cannot
//! carry verbatim (space, `"`, `#`, `<`, `>`, `?`, `` ` ``, `{`, `}`) and
//! percent-encodes the rest, controls and non-ASCII bytes included.
//! Both operate on the UTF-8 bytes of the input string.

use vstd::prelude::*;
use vstd::utf8::{encode_utf8, is_ascii_chars, is_ascii_chars_encode_utf8};

verus! {

/// The upper-case hexadecimal digit for a value below sixteen.
pub open spec fn hex_digit(n: u8) -> char
    recommends
        n < 16,
{
    if n < 10 {
        ((n + ('0' as u8)) as u8) as char
    } else {
        ((n - 10 + ('A' as u8)) as u8) as char
    }
}

/// Bytes that form-urlencoded serialization emits unchanged.
pub open spec fn form_byte_kept(b: u8) -> bool {
    b == ('*' as u8) || b == ('-' as u8) || b == ('.' as u8) || b == ('_' as u8) || (('0' as u8) <= b && b <= ('9' as u8)) || (('A' as u8) <= b
        && b <= ('Z' as u8)) || (('a' as u8) <= b && b <= ('z' as u8))
}

/// What one byte contributes to a form-urlencoded query component.
pub open spec fn form_encoded_byte(b: u8) -> Seq<char> {
    if form_byte_kept(b) {
        seq![b as char]
    } else if b == (' ' as u8) {
        seq!['+']
    } else {
        seq!['%', hex_digit(b / 16), hex_digit(b % 16)]
    }
}

/// The form-urlencoded serialization of a byte string.
pub open spec fn form_encoded_bytes(bs: Seq<u8>) -> Seq<char>
    decreases bs.len(),
{
    if bs.len() == 0 {
        Seq::<char>::empty()
    } else {
        form_encoded_bytes(bs.drop_last()) + form_encoded_byte(bs.last())
    }
}

/// The form-urlencoded serialization of a string's UTF-8 bytes.
pub open spec fn form_encoded(s: Seq<char>) -> Seq<char> {
    form_encoded_bytes(encode_utf8(s))
}

/// Bytes that may stand verbatim in a URL path: printable ASCII minus
/// space, `"`, `#`, `<`, `>`, `?`, `` ` ``, `{` and `}`.
pub open spec fn path_byte_kept(b: u8) -> bool {
    0x21 <= b && b <= 0x7e && b != ('"' as u8) && b != ('#' as u8) && b != ('<' as u8) && b != ('>' as u8) && b != ('?' as u8) && b
        != ('`' as u8) && b != ('{' as u8) && b != ('}' as u8)
}

/// What one byte contributes to a percent-encoded path.
pub open spec fn path_encoded_byte(b: u8) -> Seq<char> {
    if path_byte_kept(b) {
        seq![b as char]
    } else {
        seq!['%', hex_digit(b / 16), hex_digit(b % 16)]
    }
}

/// The percent-encoded form of a path given as bytes.
pub open spec fn path_encoded_bytes(bs: Seq<u8>) -> Seq<char>
    decreases bs.len(),
{
    if bs.len() == 0 {
        Seq::<char>::empty()
    } else {
        path_encoded_bytes(bs.drop_last()) + path_encoded_byte(bs.last())
    }
}

/// The percent-encoded form of a path string's UTF-8 bytes.
pub open spec fn path_encoded(s: Seq<char>) -> Seq<char> {
    path_encoded_bytes(encode_utf8(s))
}

/// Relies on `alloc::string::String::push`: appends one character.
pub assume_specification[ String::push ](s: &mut String, ch: char)
    ensures
        final(s)@ == old(s)@.push(ch),
;

/// The upper-case hexadecimal digit for a value below sixteen.
fn hex_char(n: u8) -> (c: char)
    requires
        n < 16,
    ensures
        c == hex_digit(n),
{
    if n < 10 {
        (n + ('0' as u8)) as char
    } else {
        (n - 10 + ('A' as u8)) as char
    }
}

fn is_form_byte_kept(b: u8) -> (r: bool)
    ensures
        r == form_byte_kept(b),
{
    b == ('*' as u8) || b == ('-' as u8) || b == ('.' as u8) || b == ('_' as u8) || (('0' as u8) <= b && b <= ('9' as u8)) || (('A' as u8) <= b
        && b <= ('Z' as u8)) || (('a' as u8) <= b && b <= ('z' as u8))
}

fn is_path_byte_kept(b: u8) -> (r: bool)
    ensures
        r == path_byte_kept(b),
{
    0x21 <= b && b <= 0x7e && b != ('"' as u8) && b != ('#' as u8) && b != ('<' as u8) && b != ('>' as u8) && b != ('?' as u8) && b
        != ('`' as u8) && b != ('{' as u8) && b != ('}' as u8)
}

/// Form-urlencode a query component.
pub fn encode_form_component(s: &str) -> (r: String)
    ensures
        r@ == form_encoded(s@),
{
    let bs = s.as_bytes();
    let mut out = String::new();
    let mut i: usize = 0;
    while i < bs.len()
        invariant
            i <= bs@.len(),
            bs@ == encode_utf8(s@),
            out@ == form_encoded_bytes(bs@.take(i as int)),
        decreases bs@.len() - i,
    {
        let b = bs[i];
        if is_form_byte_kept(b) {
            out.push(b as char);
        } else if b == (' ' as u8) {
            out.push('+');
        } else {
            out.push('%');
            out.push(hex_char(b / 16));
            out.push(hex_char(b % 16));
        }
        proof {
            let t = bs@.take(i + 1);
            assert(t.drop_last() =~= bs@.take(i as int));
            assert(t.last() == bs@[i as int]);
            assert(out@ =~= form_encoded_bytes(bs@.take(i as int)) + form_encoded_byte(bs@[i as int]));
        }
        i = i + 1;
    }
    proof {
        assert(bs@.take(bs@.len() as int) =~= bs@);
    }
    out
}

/// Percent-encode a URL path.
pub fn encode_path(s: &str) -> (r: String)
    ensures
        r@ == path_encoded(s@),
{
    let bs = s.as_bytes();
    let mut out = String::new();
    let mut i: usize = 0;
    while i < bs.len()
        invariant
            i <= bs@.len(),
            bs@ == encode_utf8(s@),
            out@ == path_encoded_bytes(bs@.take(i as int)),
        decreases bs@.len() - i,
    {
        let b = bs[i];
        if is_path_byte_kept(b) {
            out.push(b as char);
        } else {
            out.push('%');
            out.push(hex_char(b / 16));
            out.push(hex_char(b % 16));
        }
        proof {
            let t = bs@.take(i + 1);
            assert(t.drop_last() =~= bs@.take(i as int));
            assert(t.last() == bs@[i as int]);
            assert(out@ =~= path_encoded_bytes(bs@.take(i as int)) + path_encoded_byte(bs@[i as int]));
        }
        i = i + 1;
    }
    proof {
        assert(bs@.take(bs@.len() as int) =~= bs@);
    }
    out
}

/// A character the form serialization keeps: ASCII, and its byte passes
/// through unchanged.
pub open spec fn form_safe_char(c: char) -> bool {
    '\0' <= c && c <= '\u{7f}' && form_byte_kept(c as u8)
}

/// A character that may stand verbatim in a URL path.
pub open spec fn path_safe_char(c: char) -> bool {
    '\0' <= c && c <= '\u{7f}' && path_byte_kept(c as u8)
}

proof fn lemma_form_encoded_bytes_kept(bs: Seq<u8>)
    requires
        forall|i: int| 0 <= i < bs.len() ==> form_byte_kept(#[trigger] bs[i]),
    ensures
        form_encoded_bytes(bs) == bs.map_values(|b: u8| b as char),
    decreases bs.len(),
{
    if bs.len() == 0 {
        assert(form_encoded_bytes(bs) =~= bs.map_values(|b: u8| b as char));
    } else {
        lemma_form_encoded_bytes_kept(bs.drop_last());
        assert(form_encoded_bytes(bs) =~= bs.map_values(|b: u8| b as char));
    }
}

proof fn lemma_path_encoded_bytes_kept(bs: Seq<u8>)
    requires
        forall|i: int| 0 <= i < bs.len() ==> path_byte_kept(#[trigger] bs[i]),
    ensures
        path_encoded_bytes(bs) == bs.map_values(|b: u8| b as char),
    decreases bs.len(),
{
    if bs.len() == 0 {
        assert(path_encoded_bytes(bs) =~= bs.map_values(|b: u8| b as char));
    } else {
        lemma_path_encoded_bytes_kept(bs.drop_last());
        assert(path_encoded_bytes(bs) =~= bs.map_values(|b: u8| b as char));
    }
}

/// A string of characters the form serialization keeps is its own
/// encoding: such a query component stands in the URL verbatim.
pub proof fn lemma_form_encoded_identity(s: Seq<char>)
    requires
        forall|i: int| 0 <= i < s.len() ==> form_safe_char(#[trigger] s[i]),
    ensures
        form_encoded(s) == s,
{
    assert forall|i: int| 0 <= i < s.len() implies '\0' <= #[trigger] s[i] <= '\u{7f}' by {
        assert(form_safe_char(s[i]));
    }
    assert(is_ascii_chars(s));
    is_ascii_chars_encode_utf8(s);
    let bs = encode_utf8(s);
    assert(forall|i: int| 0 <= i < bs.len() ==> form_byte_kept(#[trigger] bs[i]));
    lemma_form_encoded_bytes_kept(bs);
    assert(form_encoded(s) =~= s);
}

/// A string of path-safe characters is its own percent-encoding: such an
/// endpoint stands in the URL as the path verbatim.
pub proof fn lemma_path_encoded_identity(s: Seq<char>)
    requires
        forall|i: int| 0 <= i < s.len() ==> path_safe_char(#[trigger] s[i]),
    ensures
        path_encoded(s) == s,
{
    assert forall|i: int| 0 <= i < s.len() implies '\0' <= #[trigger] s[i] <= '\u{7f}' by {
        assert(path_safe_char(s[i]));
    }
    assert(is_ascii_chars(s));
    is_ascii_chars_encode_utf8(s);
    let bs = encode_utf8(s);
    assert(forall|i: int| 0 <= i < bs.len() ==> path_byte_kept(#[trigger] bs[i]));
    lemma_path_encoded_bytes_kept(bs);
    assert(path_encoded(s) =~= s);
}

} // verus!
