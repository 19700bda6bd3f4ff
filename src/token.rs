use vstd::prelude::*;
use std::collections::BTreeMap;
use hmac::Mac;
use jwt::{SignWithKey, VerifyWithKey};
use crate::error::TextError;
use vstd::string::*;
use crate::encoding::push_char;

verus! {

/// The token that the jwt crate signs with HMAC-SHA256 under a key, for a
/// list of named string claims.
pub uninterp spec fn jwt_token(key: Seq<u8>, claims: Seq<(Seq<char>, Seq<char>)>) -> Option<Seq<char>>;

/// The names and values of a list of claims.
pub open spec fn claim_views(claims: Seq<(String, String)>) -> Seq<(Seq<char>, Seq<char>)> {
    claims.map_values(|c: (String, String)| (c.0@, c.1@))
}

/// The claims that the jwt crate reads from a token whose HMAC-SHA256
/// signature verifies under a key.
pub uninterp spec fn jwt_claims(key: Seq<u8>, token: Seq<char>) -> Option<Map<Seq<char>, Seq<char>>>;

/// Relies on jwt's `SignWithKey` for a map of string claims, built from the
/// list by name, with an HMAC-SHA256 key built by `Mac::new_from_slice`.
#[verifier::external_body]
fn sign_claims(key: &[u8], claims: &Vec<(String, String)>) -> (r: Option<String>)
    ensures
        match r {
            Some(t) => jwt_token(key@, claim_views(claims@)) == Some(t@),
            None => jwt_token(key@, claim_views(claims@)) is None,
        },
{
    let key = hmac::Hmac::<sha2::Sha256>::new_from_slice(key).ok()?;
    let map: BTreeMap<&str, &str> = claims.iter().map(|(k, v)| (k.as_str(), v.as_str())).collect();
    map.sign_with_key(&key).ok()
}

/// Relies on jwt's `VerifyWithKey` into a map of string claims, with an
/// HMAC-SHA256 key built by `Mac::new_from_slice`.
#[verifier::external_body]
fn verify_token(key: &[u8], token: &str) -> (r: Option<BTreeMap<String, String>>)
    ensures
        match r {
            Some(m) => jwt_claims(key@, token@) == Some(m.deep_view()),
            None => jwt_claims(key@, token@) is None,
        },
{
    let key = hmac::Hmac::<sha2::Sha256>::new_from_slice(key).ok()?;
    token.verify_with_key(&key).ok()
}

/// Relies on chrono's `Local::now`: the current time as a timestamp in
/// seconds, of which nothing is known.
#[verifier::external_body]
fn now_timestamp() -> (r: i64) {
    chrono::Local::now().timestamp()
}

pub open spec fn is_digit(c: char) -> bool {
    '0' <= c && c <= '9'
}

/// The value of a run of decimal digits.
pub open spec fn digits_value(s: Seq<char>) -> int
    decreases s.len(),
{
    if s.len() == 0 {
        0
    } else {
        digits_value(s.drop_last()) * 10 + ((s.last() as u32) as int - 48)
    }
}

pub open spec fn all_digits(s: Seq<char>) -> bool {
    s.len() > 0 && forall|i: int| 0 <= i < s.len() ==> is_digit(#[trigger] s[i])
}

/// The integer that a text writes in decimal, with an optional sign.
pub open spec fn decimal_value(s: Seq<char>) -> Option<int> {
    if s.len() > 0 && s[0] == '-' && all_digits(s.drop_first()) {
        Some(-digits_value(s.drop_first()))
    } else if s.len() > 0 && s[0] == '+' && all_digits(s.drop_first()) {
        Some(digits_value(s.drop_first()))
    } else if all_digits(s) {
        Some(digits_value(s))
    } else {
        None
    }
}

/// Seconds per unit of an expiry: `d` days, `m` minutes, `M` weeks.
pub open spec fn unit_seconds(c: char) -> int {
    if c == 'd' {
        86400
    } else if c == 'm' {
        60
    } else if c == 'M' {
        604800
    } else {
        0
    }
}

/// The expiry timestamp for a time `now` and an expiry text: a whole number
/// followed by `d`, `m` or `M` counts days, minutes or weeks from `now`; a
/// text with no such unit leaves `now`. None where the number does not parse
/// or the result leaves the range of `i64`.
pub open spec fn expiry_of(now: int, exp: Seq<char>) -> Option<int> {
    if exp.len() > 0 && unit_seconds(exp.last()) != 0 {
        match decimal_value(exp.drop_last()) {
            Some(n) => {
                let t = now + n * unit_seconds(exp.last());
                if i64::MIN <= t <= i64::MAX {
                    Some(t)
                } else {
                    None
                }
            },
            None => None,
        }
    } else {
        Some(now)
    }
}

proof fn lemma_digits_value_push(s: Seq<char>, c: char)
    ensures
        digits_value(s.push(c)) == digits_value(s) * 10 + ((c as u32) as int - 48),
{
    assert(s.push(c).drop_last() =~= s);
}

proof fn lemma_digits_value_nonneg(s: Seq<char>)
    requires
        forall|i: int| 0 <= i < s.len() ==> is_digit(#[trigger] s[i]),
    ensures
        digits_value(s) >= 0,
    decreases s.len(),
{
    if s.len() > 0 {
        assert forall|i: int| 0 <= i < s.drop_last().len() implies is_digit(#[trigger] s.drop_last()[i]) by {
            assert(s.drop_last()[i] == s[i]);
        }
        lemma_digits_value_nonneg(s.drop_last());
        assert(is_digit(s.last()));
    }
}

proof fn lemma_digits_value_monotone(s: Seq<char>, j: int)
    requires
        forall|i: int| 0 <= i < s.len() ==> is_digit(#[trigger] s[i]),
        0 <= j <= s.len(),
    ensures
        digits_value(s) >= digits_value(s.subrange(0, j)),
    decreases s.len(),
{
    if j == s.len() {
        assert(s.subrange(0, j) =~= s);
    } else {
        let t = s.drop_last();
        assert forall|i: int| 0 <= i < t.len() implies is_digit(#[trigger] t[i]) by {
            assert(t[i] == s[i]);
        }
        lemma_digits_value_monotone(t, j);
        lemma_digits_value_nonneg(t);
        assert(t.subrange(0, j) =~= s.subrange(0, j));
        assert(is_digit(s.last()));
    }
}

/// Reads the decimal digits of `s` from `start` to its end, giving None where
/// one is not a digit, there are none, or the value passes `limit`.
fn read_digits(s: &str, start: usize, limit: i128) -> (r: Option<i128>)
    requires
        start <= s@.len(),
        0 <= limit <= 0x1_0000_0000_0000_0000,
    ensures
        match r {
            Some(v) => all_digits(s@.subrange(start as int, s@.len() as int)) && v == digits_value(
                s@.subrange(start as int, s@.len() as int),
            ) && 0 <= v <= limit,
            None => !all_digits(s@.subrange(start as int, s@.len() as int)) || digits_value(
                s@.subrange(start as int, s@.len() as int),
            ) > limit,
        },
{
    let n = s.unicode_len();
    if start == n {
        return None;
    }
    let mut v: i128 = 0;
    let mut i: usize = start;
    while i < n
        invariant
            start <= i <= n,
            n == s@.len(),
            0 <= v <= limit,
            0 <= limit <= 0x1_0000_0000_0000_0000,
            forall|k: int| start <= k < i ==> is_digit(#[trigger] s@[k]),
            v == digits_value(s@.subrange(start as int, i as int)),
        decreases n - i,
    {
        let c = s.get_char(i);
        let ghost prefix = s@.subrange(start as int, i as int);
        proof {
            assert(s@.subrange(start as int, i + 1) =~= prefix.push(c));
            lemma_digits_value_push(prefix, c);
        }
        if !('0' <= c && c <= '9') {
            proof {
                let rest = s@.subrange(start as int, n as int);
                assert(rest[i - start] == c);
            }
            return None;
        }
        let d = (c as u32 - 48) as i128;
        if v * 10 + d > limit {
            proof {
                let rest = s@.subrange(start as int, n as int);
                assert(rest.subrange(0, i + 1 - start) =~= prefix.push(c));
                if all_digits(rest) {
                    lemma_digits_value_monotone(rest, i + 1 - start);
                }
            }
            return None;
        }
        v = v * 10 + d;
        i = i + 1;
    }
    proof {
        assert(s@.subrange(start as int, n as int) =~= s@.subrange(start as int, i as int));
    }
    Some(v)
}

/// The expiry timestamp for `now` and an expiry text, as `expiry_of` states.
pub fn expiry_timestamp(now: i64, exp: &str) -> (r: Result<i64, TextError>)
    ensures
        match r {
            Ok(t) => expiry_of(now as int, exp@) == Some(t as int),
            Err(e) => expiry_of(now as int, exp@) is None && e == TextError::InvalidExpiry,
        },
{
    let n = exp.unicode_len();
    if n == 0 {
        return Ok(now);
    }
    let u = exp.get_char(n - 1);
    let unit: i128 = if u == 'd' {
        86400
    } else if u == 'm' {
        60
    } else if u == 'M' {
        604800
    } else {
        0
    };
    if unit == 0 {
        return Ok(now);
    }
    let body = exp.substring_char(0, n - 1);
    assert(body@ =~= exp@.drop_last());
    let bn = n - 1;
    let neg = bn > 0 && body.get_char(0) == '-';
    let start: usize = if bn > 0 && (body.get_char(0) == '-' || body.get_char(0) == '+') {
        1
    } else {
        0
    };
    let limit: i128 = 0x1_0000_0000_0000_0000;
    proof {
        let b = body@;
        if start == 1 {
            assert(b.subrange(1, b.len() as int) =~= b.drop_first());
            assert(!is_digit(b[0]));
        } else {
            assert(b.subrange(0, b.len() as int) =~= b);
        }
    }
    match read_digits(body, start, limit) {
        Some(v) => {
            let value: i128 = if neg {
                -v
            } else {
                v
            };
            assert(-limit <= value <= limit);
            let t: i128 = now as i128 + value * unit;
            if t < i64::MIN as i128 || t > i64::MAX as i128 {
                Err(TextError::InvalidExpiry)
            } else {
                Ok(t as i64)
            }
        },
        None => {
            proof {
                let b = body@;
                let rest = b.subrange(start as int, b.len() as int);
                if all_digits(rest) {
                    let d = digits_value(rest);
                    let big = if neg { -d } else { d };
                    assert(decimal_value(b) == Some(big));
                    let un = unit as int;
                    assert(big * un > 0x1_0000_0000_0000_0000 || big * un < -0x1_0000_0000_0000_0000) by (nonlinear_arith)
                        requires
                            big > 0x1_0000_0000_0000_0000 || big < -0x1_0000_0000_0000_0000,
                            un >= 60,
                    ;
                }
            }
            Err(TextError::InvalidExpiry)
        },
    }
}

/// A key for signing tokens with HMAC-SHA256.
pub struct JWTSign {
    pub key: Vec<u8>,
}

/// A key for verifying tokens with HMAC-SHA256.
pub struct JWTVerify {
    pub key: Vec<u8>,
}

/// Builds a token key from raw key bytes; HMAC takes keys of any length.
pub trait LoadKey: Sized {
    /// The key bytes that the object holds.
    spec fn key_bytes(&self) -> Seq<u8>;

    fn load(key: &[u8]) -> (r: Result<Self, TextError>)
        ensures
            r matches Ok(k) && k.key_bytes() == key@,
    ;
}

impl JWTSign {
    pub fn new(key: Vec<u8>) -> (r: Self)
        ensures
            r.key == key,
    {
        JWTSign { key }
    }

    pub fn try_new(key: &[u8]) -> (r: Result<Self, TextError>)
        ensures
            r matches Ok(k) && k.key@ == key@,
    {
        Ok(JWTSign::new(vstd::slice::slice_to_vec(key)))
    }
}

impl JWTVerify {
    pub fn new(key: Vec<u8>) -> (r: Self)
        ensures
            r.key == key,
    {
        JWTVerify { key }
    }

    pub fn try_new(key: &[u8]) -> (r: Result<Self, TextError>)
        ensures
            r matches Ok(k) && k.key@ == key@,
    {
        Ok(JWTVerify::new(vstd::slice::slice_to_vec(key)))
    }
}

impl LoadKey for JWTSign {
    open spec fn key_bytes(&self) -> Seq<u8> {
        self.key@
    }

    fn load(key: &[u8]) -> (r: Result<Self, TextError>) {
        JWTSign::try_new(key)
    }
}

impl LoadKey for JWTVerify {
    open spec fn key_bytes(&self) -> Seq<u8> {
        self.key@
    }

    fn load(key: &[u8]) -> (r: Result<Self, TextError>) {
        JWTVerify::try_new(key)
    }
}

pub open spec fn decimal_digit(d: int) -> char {
    ((48 + d) as u8) as char
}

/// The decimal digits of a natural number, without leading zeros.
pub open spec fn digits_text(m: nat) -> Seq<char>
    decreases m,
{
    if m < 10 {
        seq![decimal_digit(m as int)]
    } else {
        digits_text(m / 10).push(decimal_digit((m % 10) as int))
    }
}

/// An integer written in decimal, with `-` before a negative one.
pub open spec fn decimal_text(n: int) -> Seq<char> {
    if n < 0 {
        seq!['-'] + digits_text((-n) as nat)
    } else {
        digits_text(n as nat)
    }
}

proof fn lemma_digits_text_value(m: nat)
    ensures
        all_digits(digits_text(m)),
        digits_value(digits_text(m)) == m,
    decreases m,
{
    let s = digits_text(m);
    let d = (m % 10) as int;
    assert((((48 + d) as u8) as char) as u32 == 48 + d);
    assert(digits_value(Seq::<char>::empty()) == 0);
    if m < 10 {
        assert(s.drop_last() =~= Seq::<char>::empty());
        assert(s.last() == decimal_digit(d));
    } else {
        lemma_digits_text_value(m / 10);
        assert(s.last() == decimal_digit(d));
        assert(m == (m / 10) * 10 + m % 10);
        assert(s.drop_last() =~= digits_text(m / 10));
        assert forall|i: int| 0 <= i < s.len() implies is_digit(#[trigger] s[i]) by {
            if i < s.len() - 1 {
                assert(s[i] == digits_text(m / 10)[i]);
            }
        }
    }
}

/// Reading back the decimal text of an integer gives the integer.
pub proof fn lemma_decimal_round_trip(n: int)
    ensures
        decimal_value(decimal_text(n)) == Some(n),
{
    let s = decimal_text(n);
    if n < 0 {
        lemma_digits_text_value((-n) as nat);
        assert(s.drop_first() =~= digits_text((-n) as nat));
    } else {
        lemma_digits_text_value(n as nat);
        assert(is_digit(s[0]));
    }
}

fn push_digits(s: &mut String, m: u64)
    ensures
        final(s)@ == old(s)@ + digits_text(m as nat),
    decreases m,
{
    if m >= 10 {
        push_digits(s, m / 10);
    }
    let d = (m % 10) as u8;
    push_char(s, (48 + d) as char);
    proof {
        if m < 10 {
            assert(final(s)@ =~= old(s)@ + digits_text(m as nat));
        } else {
            assert(final(s)@ =~= old(s)@ + digits_text(m as nat));
        }
    }
}

/// Writes an integer in decimal.
pub fn decimal_string(n: i64) -> (r: String)
    ensures
        r@ == decimal_text(n as int),
        decimal_value(r@) == Some(n as int),
{
    let mut s = String::new();
    if n < 0 {
        push_char(&mut s, '-');
        let m = (-(n as i128)) as u64;
        push_digits(&mut s, m);
        assert(s@ =~= decimal_text(n as int));
    } else {
        push_digits(&mut s, n as u64);
        assert(s@ =~= decimal_text(n as int));
    }
    proof {
        lemma_decimal_round_trip(n as int);
    }
    s
}

/// The claims of a signed token: `sub`, `aud`, and `exp` as a decimal timestamp.
pub open spec fn token_claims(sub: Seq<char>, aud: Seq<char>, exp: int) -> Seq<(Seq<char>, Seq<char>)> {
    seq![(seq!['s', 'u', 'b'], sub), (seq!['a', 'u', 'd'], aud), (seq!['e', 'x', 'p'], decimal_text(exp))]
}

/// What signing a token at the time `now` gives: an expiry error where the
/// expiry does not parse or leaves the range of timestamps, a token error
/// where the jwt crate refuses to sign, else the token.
pub open spec fn token_signed(now: int, sub: Seq<char>, aud: Seq<char>, key: Seq<u8>, exp: Seq<char>) -> Result<Seq<char>, TextError> {
    match expiry_of(now, exp) {
        None => Err(TextError::InvalidExpiry),
        Some(ts) => match jwt_token(key, token_claims(sub, aud, ts)) {
            Some(t) => Ok(t),
            None => Err(TextError::InvalidToken),
        },
    }
}

/// Signs a token with the claims `sub`, `aud` and an expiry counted from the
/// timestamp `now`.
pub fn process_jwt_sign_at(now: i64, sub: &str, aud: &str, key: &[u8], exp: &str) -> (r: Result<String, TextError>)
    ensures
        match r {
            Ok(t) => token_signed(now as int, sub@, aud@, key@, exp@) == Ok::<Seq<char>, TextError>(t@),
            Err(e) => token_signed(now as int, sub@, aud@, key@, exp@) == Err::<Seq<char>, TextError>(e),
        },
{
    let signer = JWTSign::load(key)?;
    let ts = expiry_timestamp(now, exp)?;
    proof {
        reveal_strlit("sub");
        reveal_strlit("aud");
        reveal_strlit("exp");
    }
    let claims = vec![
        ("sub".to_string(), sub.to_string()),
        ("aud".to_string(), aud.to_string()),
        ("exp".to_string(), decimal_string(ts)),
    ];
    proof {
        assert("sub"@ =~= seq!['s', 'u', 'b']);
        assert("aud"@ =~= seq!['a', 'u', 'd']);
        assert("exp"@ =~= seq!['e', 'x', 'p']);
        let v = claim_views(claims@);
        let w = token_claims(sub@, aud@, ts as int);
        assert(v.len() == 3);
        assert(v[0] == w[0]);
        assert(v[1] == w[1]);
        assert(v[2] == w[2]);
        assert(v =~= w);
    }
    match sign_claims(signer.key.as_slice(), &claims) {
        Some(t) => Ok(t),
        None => Err(TextError::InvalidToken),
    }
}

/// Signs a token with the claims `sub`, `aud` and an expiry counted from the
/// current time.
pub fn process_jwt_sign(sub: &str, aud: &str, key: &[u8], exp: &str) -> (r: Result<String, TextError>)
    ensures
        exists|now: int|
            #![trigger token_signed(now, sub@, aud@, key@, exp@)]
            i64::MIN <= now <= i64::MAX && match r {
                Ok(t) => token_signed(now, sub@, aud@, key@, exp@) == Ok::<Seq<char>, TextError>(t@),
                Err(e) => token_signed(now, sub@, aud@, key@, exp@) == Err::<Seq<char>, TextError>(e),
            },
{
    let now = now_timestamp();
    process_jwt_sign_at(now, sub, aud, key, exp)
}

/// Verifies a token and returns its claims.
pub fn process_jwt_verify(input: &str, key: &[u8]) -> (r: Result<BTreeMap<String, String>, TextError>)
    ensures
        match r {
            Ok(m) => jwt_claims(key@, input@) == Some(m.deep_view()),
            Err(e) => jwt_claims(key@, input@) is None && e == TextError::InvalidToken,
        },
{
    let verifier = JWTVerify::load(key)?;
    match verify_token(verifier.key.as_slice(), input) {
        Some(m) => Ok(m),
        None => Err(TextError::InvalidToken),
    }
}

} // verus!
