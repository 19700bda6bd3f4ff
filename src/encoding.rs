use vstd::prelude::*;
use vstd::string::*;
use vstd::utf8::*;
use base64::Engine;

verus! {

/// The hexadecimal digit for a value below 16, in upper or lower case.
pub open spec fn hex_digit(v: int, upper: bool) -> char {
    if v < 10 {
        ((48 + v) as u8) as char
    } else if upper {
        ((55 + v) as u8) as char
    } else {
        ((87 + v) as u8) as char
    }
}

/// Two hexadecimal digits per byte, high nibble first.
pub open spec fn hex_text(b: Seq<u8>, upper: bool) -> Seq<char> {
    Seq::new(
        2 * b.len(),
        |i: int|
            if i % 2 == 0 {
                hex_digit(b[i / 2] as int / 16, upper)
            } else {
                hex_digit(b[i / 2] as int % 16, upper)
            },
    )
}

/// The characters with the Unicode White_Space property.
pub open spec fn is_white_space(c: char) -> bool {
    ('\u{9}' <= c && c <= '\u{d}') || c == ' ' || c == '\u{85}' || c == '\u{a0}' || c == '\u{1680}'
        || ('\u{2000}' <= c && c <= '\u{200a}') || c == '\u{2028}' || c == '\u{2029}' || c
        == '\u{202f}' || c == '\u{205f}' || c == '\u{3000}'
}

/// The text without its leading and trailing white space: the subrange from
/// the first to one past the last character that is not white space.
pub open spec fn trimmed(s: Seq<char>) -> Seq<char> {
    if forall|k: int| 0 <= k < s.len() ==> is_white_space(#[trigger] s[k]) {
        Seq::empty()
    } else {
        let i = choose|i: int|
            0 <= i < s.len() && !is_white_space(s[i]) && forall|k: int|
                0 <= k < i ==> is_white_space(#[trigger] s[k]);
        let j = choose|j: int|
            0 <= j < s.len() && !is_white_space(s[j]) && forall|k: int|
                j < k < s.len() ==> is_white_space(#[trigger] s[k]);
        s.subrange(i, j + 1)
    }
}

fn white_space(c: char) -> (r: bool)
    ensures
        r == is_white_space(c),
{
    ('\u{9}' <= c && c <= '\u{d}') || c == ' ' || c == '\u{85}' || c == '\u{a0}' || c == '\u{1680}'
        || ('\u{2000}' <= c && c <= '\u{200a}') || c == '\u{2028}' || c == '\u{2029}' || c
        == '\u{202f}' || c == '\u{205f}' || c == '\u{3000}'
}

/// Removes leading and trailing white space.
pub fn trim_whitespace(s: &str) -> (r: &str)
    ensures
        r@ == trimmed(s@),
{
    let n = s.unicode_len();
    let mut i: usize = 0;
    while i < n && white_space(s.get_char(i))
        invariant
            n == s@.len(),
            i <= n,
            forall|k: int| 0 <= k < i ==> is_white_space(#[trigger] s@[k]),
        decreases n - i,
    {
        i = i + 1;
    }
    if i == n {
        let r = s.substring_char(0, 0);
        assert(r@ =~= trimmed(s@));
        return r;
    }
    let mut j: usize = n;
    while j > i + 1 && white_space(s.get_char(j - 1))
        invariant
            n == s@.len(),
            i < j <= n,
            !is_white_space(s@[i as int]),
            forall|k: int| j <= k < n ==> is_white_space(#[trigger] s@[k]),
        decreases j,
    {
        j = j - 1;
    }
    let r = s.substring_char(i, j);
    proof {
        let ss = s@;
        assert(!is_white_space(ss[j - 1]));
        assert(!(forall|k: int| 0 <= k < ss.len() ==> is_white_space(#[trigger] ss[k])));
        let a = choose|a: int|
            0 <= a < ss.len() && !is_white_space(ss[a]) && forall|k: int|
                0 <= k < a ==> is_white_space(#[trigger] ss[k]);
        assert(0 <= i < ss.len() && !is_white_space(ss[i as int]) && forall|k: int|
            0 <= k < i ==> is_white_space(#[trigger] ss[k]));
        if a < i {
            assert(is_white_space(ss[a]));
        }
        if a > i {
            assert(is_white_space(ss[i as int]));
        }
        let b = choose|b: int|
            0 <= b < ss.len() && !is_white_space(ss[b]) && forall|k: int|
                b < k < ss.len() ==> is_white_space(#[trigger] ss[k]);
        assert(0 <= j - 1 < ss.len() && !is_white_space(ss[j - 1]) && forall|k: int|
            j - 1 < k < ss.len() ==> is_white_space(#[trigger] ss[k]));
        if b < j - 1 {
            assert(is_white_space(ss[j - 1]));
        }
        if b > j - 1 {
            assert(is_white_space(ss[b]));
        }
        assert(r@ =~= trimmed(ss));
    }
    r
}

/// The base64 digit for a value below 64, in the standard or the URL-safe alphabet.
pub open spec fn base64_digit(v: int, url: bool) -> char {
    if v < 26 {
        ((65 + v) as u8) as char
    } else if v < 52 {
        ((71 + v) as u8) as char
    } else if v < 62 {
        ((v - 4) as u8) as char
    } else if v == 62 {
        if url { '-' } else { '+' }
    } else {
        if url { '_' } else { '/' }
    }
}

/// Base64 text of bytes: each group of three bytes gives four digits; a last
/// group of one or two bytes gives two or three, followed by `=` up to four
/// when padded.
pub open spec fn base64_text(b: Seq<u8>, url: bool, pad: bool) -> Seq<char>
    decreases b.len(),
{
    let b0 = b[0] as int;
    let b1 = b[1] as int;
    let b2 = b[2] as int;
    if b.len() == 0 {
        Seq::empty()
    } else if b.len() == 1 {
        seq![base64_digit(b0 / 4, url), base64_digit((b0 % 4) * 16, url)] + if pad {
            seq!['=', '=']
        } else {
            Seq::empty()
        }
    } else if b.len() == 2 {
        seq![
            base64_digit(b0 / 4, url),
            base64_digit((b0 % 4) * 16 + b1 / 16, url),
            base64_digit((b1 % 16) * 4, url),
        ] + if pad {
            seq!['=']
        } else {
            Seq::empty()
        }
    } else {
        seq![
            base64_digit(b0 / 4, url),
            base64_digit((b0 % 4) * 16 + b1 / 16, url),
            base64_digit((b1 % 16) * 4 + b2 / 64, url),
            base64_digit(b2 % 64, url),
        ] + base64_text(b.subrange(3, b.len() as int), url, pad)
    }
}

/// What the base64 crate decodes from a text, under one alphabet and padding rule.
pub uninterp spec fn base64_decoded(s: Seq<char>, url: bool, pad: bool) -> Option<Seq<u8>>;

/// The base64 configurations in use: the standard alphabet with or without
/// padding, and the URL-safe alphabet without padding.
#[derive(Debug, Clone, Copy, PartialEq, Eq, Structural)]
pub enum Base64Engine {
    Standard,
    StandardNoPad,
    UrlSafeNoPad,
}

impl Base64Engine {
    pub open spec fn url(self) -> bool {
        self is UrlSafeNoPad
    }

    pub open spec fn pad(self) -> bool {
        self is Standard
    }
}

/// The length of the base64 text of `n` bytes.
pub open spec fn base64_len(n: int, pad: bool) -> int {
    if n % 3 == 0 {
        n / 3 * 4
    } else if pad {
        n / 3 * 4 + 4
    } else {
        n / 3 * 4 + n % 3 + 1
    }
}

/// Whether the base64 text of `n` bytes has a length that `usize` holds.
pub fn base64_len_fits(n: usize, pad: bool) -> (r: bool)
    ensures
        r == (base64_len(n as int, pad) <= usize::MAX),
{
    let chunks = n / 3;
    let rem = n % 3;
    if chunks > usize::MAX / 4 {
        assert(chunks * 4 > usize::MAX) by (nonlinear_arith)
            requires
                chunks > usize::MAX / 4,
        ;
        return false;
    }
    let full = chunks * 4;
    let extra: usize = if rem == 0 {
        0
    } else if pad {
        4
    } else {
        rem + 1
    };
    full <= usize::MAX - extra
}

/// Relies on base64's `Engine::encode`: the RFC 4648 text of the bytes, which
/// `Engine::decode` under the same configuration turns back into them. It
/// panics when the text length overflows `usize`.
#[verifier::external_body]
pub fn base64_encode(b: &[u8], engine: Base64Engine) -> (r: String)
    requires
        base64_len(b@.len() as int, engine.pad()) <= usize::MAX,
    ensures
        r@ == base64_text(b@, engine.url(), engine.pad()),
        base64_decoded(r@, engine.url(), engine.pad()) == Some(b@),
{
    match engine {
        Base64Engine::Standard => base64::engine::general_purpose::STANDARD.encode(b),
        Base64Engine::StandardNoPad => base64::engine::general_purpose::STANDARD_NO_PAD.encode(b),
        Base64Engine::UrlSafeNoPad => base64::engine::general_purpose::URL_SAFE_NO_PAD.encode(b),
    }
}

/// Relies on base64's `Engine::decode`.
#[verifier::external_body]
pub fn base64_decode(s: &str, engine: Base64Engine) -> (r: Option<Vec<u8>>)
    ensures
        match r {
            Some(v) => base64_decoded(s@, engine.url(), engine.pad()) == Some(v@),
            None => base64_decoded(s@, engine.url(), engine.pad()) is None,
        },
{
    let decoded = match engine {
        Base64Engine::Standard => base64::engine::general_purpose::STANDARD.decode(s),
        Base64Engine::StandardNoPad => base64::engine::general_purpose::STANDARD_NO_PAD.decode(s),
        Base64Engine::UrlSafeNoPad => base64::engine::general_purpose::URL_SAFE_NO_PAD.decode(s),
    };
    decoded.ok()
}

/// Relies on `String::from_utf8`: it succeeds exactly on valid UTF-8 and
/// keeps the characters that the bytes encode.
#[verifier::external_body]
pub fn utf8_string(v: Vec<u8>) -> (r: Option<String>)
    ensures
        r is Some <==> valid_utf8(v@),
        r matches Some(s) ==> s@ == decode_utf8(v@),
{
    String::from_utf8(v).ok()
}

/// Relies on `String::push`: appends one character.
#[verifier::external_body]
pub fn push_char(s: &mut String, c: char)
    ensures
        final(s)@ == old(s)@.push(c),
{
    s.push(c)
}

pub proof fn lemma_hex_digit_injective(v1: int, u1: bool, v2: int, u2: bool)
    requires
        0 <= v1 < 16,
        0 <= v2 < 16,
        hex_digit(v1, u1) == hex_digit(v2, u2),
    ensures
        v1 == v2,
{
}

} // verus!
