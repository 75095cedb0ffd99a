//! Time-based one-time passwords: secret normalization and validation
//! over the restricted Base32 alphabet, decoding with an unpadded-first,
//! padded-retry policy, six-digit code generation, secret generation, and
//! the otpauth URI.

use vstd::prelude::*;
use vstd::string::*;
use crate::errors::VaultError;
use crate::strutil::{ascii_upper_char, upper_char_spec};
use crate::timeid::current_timestamp;

verus! {

/// The Base32 text of a byte sequence, with padding.
pub uninterp spec fn base32_of(b: Seq<u8>) -> Seq<char>;

/// What unpadded Base32 decoding yields; absent exactly on text that is
/// not a canonical unpadded encoding.
pub uninterp spec fn base32_nopad_decoded(s: Seq<char>) -> Option<Seq<u8>>;

/// What padded Base32 decoding yields; absent exactly on text that is
/// not a canonical padded encoding.
pub uninterp spec fn base32_padded_decoded(s: Seq<char>) -> Option<Seq<u8>>;

/// The code the time-based one-time-password algorithm over HMAC-SHA-1
/// yields for a step width, digit count, secret and time; a function of
/// the four alone.
pub uninterp spec fn totp_sha1_of(step: u64, digits: u32, secret: Seq<u8>, time: u64) -> Seq<
    char,
>;

/// Relies on data_encoding::BASE32.encode: the padded Base32 text, eight
/// characters for every five bytes begun, over the alphabet A-Z/2-7 plus
/// padding, which the crate's own decode inverts.  Inputs anywhere near
/// the crate's length assertion are excluded.
#[verifier::external_body]
fn base32_encode(b: &[u8]) -> (r: String)
    requires
        b@.len() <= 0x3f_ffff,
    ensures
        r@ == base32_of(b@),
        r@.len() == ((b@.len() + 4) / 5) * 8,
        base32_padded_decoded(r@) == Option::Some(b@),
        forall|i: int| 0 <= i < r@.len() ==> (is_b32_char(#[trigger] r@[i]) || r@[i] == '='),
{
    data_encoding::BASE32.encode(b)
}

/// Relies on data_encoding::BASE32_NOPAD.decode: strict canonical
/// unpadded Base32; what it yields depends on the text alone.
#[verifier::external_body]
fn base32_nopad_decode(s: &str) -> (r: Option<Vec<u8>>)
    ensures
        r matches Some(b) ==> base32_nopad_decoded(s@) == Option::Some(b@),
        r is None ==> base32_nopad_decoded(s@) is None,
{
    data_encoding::BASE32_NOPAD.decode(s.as_bytes()).ok()
}

/// Relies on data_encoding::BASE32.decode: strict canonical padded
/// Base32; what it yields depends on the text alone.
#[verifier::external_body]
fn base32_padded_decode(s: &str) -> (r: Option<Vec<u8>>)
    ensures
        r matches Some(b) ==> base32_padded_decoded(s@) == Option::Some(b@),
        r is None ==> base32_padded_decoded(s@) is None,
{
    data_encoding::BASE32.decode(s.as_bytes()).ok()
}

/// Relies on totp_lite::totp_custom::<totp_lite::Sha1>: the RFC-style
/// code, decimal digits zero-padded to exactly `digits` characters, a
/// function of its arguments alone.  A zero step or more than nine digits
/// would make the call abort, so they are excluded.
#[verifier::external_body]
fn totp_sha1(step: u64, digits: u32, secret: &[u8], time: u64) -> (r: String)
    requires
        1 <= step,
        1 <= digits <= 9,
    ensures
        r@ == totp_sha1_of(step, digits, secret@, time),
        r@.len() == digits,
        forall|i: int| 0 <= i < r@.len() ==> crate::numtext::is_dec_digit(#[trigger] r@[i]),
{
    totp_lite::totp_custom::<totp_lite::Sha1>(step, digits, secret, time)
}

/// The percent-encoded form of a text.
pub uninterp spec fn url_encoded(s: Seq<char>) -> Seq<char>;

/// Relies on urlencoding::encode: percent-encodes everything but the
/// unreserved characters; a function of the text alone.
#[verifier::external_body]
pub fn url_encode(s: &str) -> (r: String)
    ensures
        r@ == url_encoded(s@),
        s@.len() == 0 ==> r@.len() == 0,
{
    urlencoding::encode(s).into_owned()
}

// ------------------------------------------------------------------
// Secret normalization and validation
// ------------------------------------------------------------------

/// Normalization drops blanks and padding and upper-cases the rest.
pub open spec fn normalize_spec(s: Seq<char>) -> Seq<char> {
    s.filter(|c: char| c != ' ' && c != '=').map_values(|c: char| upper_char_spec(c))
}

/// Strips whitespace and `=` padding and upper-cases ASCII letters.
pub fn normalize_secret(s: &str) -> (r: String)
    ensures
        r@ == normalize_spec(s@),
{
    let n = s.unicode_len();
    let mut r = String::new();
    let mut i: usize = 0;
    proof {
        reveal(Seq::filter);
        assert(s@.take(0).filter(|c: char| c != ' ' && c != '=') =~= Seq::<char>::empty());
        assert(r@ =~= normalize_spec(s@.take(0)));
    }
    while i < n
        invariant
            i <= n,
            n == s@.len(),
            r@ == normalize_spec(s@.take(i as int)),
        decreases n - i,
    {
        let c = s.get_char(i);
        proof {
            reveal(Seq::filter);
            let t1 = s@.take(i + 1);
            assert(t1.drop_last() =~= s@.take(i as int));
            assert(t1.last() == s@[i as int]);
        }
        if c != ' ' && c != '=' {
            r.push(ascii_upper_char(c));
            proof {
                let ft = s@.take(i as int).filter(|c: char| c != ' ' && c != '=');
                let ft1 = s@.take(i + 1).filter(|c: char| c != ' ' && c != '=');
                assert(ft1 == ft.push(s@[i as int]));
                assert(ft1.map_values(|c: char| upper_char_spec(c)) =~= ft.map_values(
                    |c: char| upper_char_spec(c),
                ).push(upper_char_spec(s@[i as int])));
            }
        }
        i = i + 1;
    }
    proof {
        assert(s@.take(n as int) =~= s@);
    }
    r
}

/// The restricted alphabet of one-time-password secrets.
pub open spec fn is_b32_char(c: char) -> bool {
    ('A' <= c && c <= 'Z') || ('2' <= c && c <= '7')
}

/// The position of the first character outside the alphabet, if any.
pub open spec fn first_bad(s: Seq<char>) -> Option<int>
    decreases s.len(),
{
    if s.len() == 0 {
        Option::None
    } else if !is_b32_char(s[0]) {
        Option::Some(0)
    } else {
        match first_bad(s.drop_first()) {
            Option::Some(i) => Option::Some(i + 1),
            Option::None => Option::None,
        }
    }
}

proof fn lemma_first_bad_at(s: Seq<char>, i: int)
    requires
        0 <= i < s.len(),
        forall|j: int| 0 <= j < i ==> is_b32_char(#[trigger] s[j]),
        !is_b32_char(s[i]),
    ensures
        first_bad(s) == Option::Some(i),
    decreases i,
{
    if i == 0 {
    } else {
        assert(is_b32_char(s[0]));
        let d = s.drop_first();
        assert(forall|j: int| 0 <= j < i - 1 ==> is_b32_char(#[trigger] d[j]));
        assert(d[i - 1] == s[i]);
        lemma_first_bad_at(d, i - 1);
    }
}

proof fn lemma_first_bad_none(s: Seq<char>)
    requires
        forall|j: int| 0 <= j < s.len() ==> is_b32_char(#[trigger] s[j]),
    ensures
        first_bad(s) is None,
    decreases s.len(),
{
    if s.len() > 0 {
        let d = s.drop_first();
        assert(forall|j: int| 0 <= j < d.len() ==> is_b32_char(#[trigger] d[j]));
        lemma_first_bad_none(d);
    }
}

/// The `=` padding that brings the text to a multiple of eight
/// characters; text already on the boundary is unchanged.
pub open spec fn padded_spec(s: Seq<char>) -> Seq<char> {
    if s.len() % 8 == 0 {
        s
    } else {
        s + Seq::<char>::new((8 - s.len() % 8) as nat, |i: int| '=')
    }
}

/// Pads with `=` to a multiple of eight characters.
pub fn add_base32_padding(s: &str) -> (r: String)
    ensures
        r@ == padded_spec(s@),
{
    let n = s.unicode_len();
    let rem = n % 8;
    let mut r = s.to_owned();
    if rem == 0 {
        return r;
    }
    let need = 8 - rem;
    let mut i: usize = 0;
    while i < need
        invariant
            i <= need,
            need == 8 - (s@.len() % 8),
            s@.len() % 8 != 0,
            r@ == s@ + Seq::<char>::new(i as nat, |k: int| '='),
        decreases need - i,
    {
        r.push('=');
        proof {
            assert((s@ + Seq::<char>::new(i as nat, |k: int| '=')).push('=') =~= s@
                + Seq::<char>::new((i + 1) as nat, |k: int| '='));
        }
        i = i + 1;
    }
    r
}

/// The decode policy: canonical unpadded Base32 first, then the padded
/// form after bringing the text to a padding boundary.
pub open spec fn secret_bytes_spec(norm: Seq<char>) -> Option<Seq<u8>> {
    match base32_nopad_decoded(norm) {
        Option::Some(b) => Option::Some(b),
        Option::None => base32_padded_decoded(padded_spec(norm)),
    }
}

/// What code generation yields for a normalized secret and a time: the
/// first character outside A-Z/2-7 is reported with its position; text
/// that decodes under neither Base32 form, or to nothing at all, is
/// rejected; otherwise the code is the six-digit TOTP over thirty-second
/// steps.
pub open spec fn totp_code_result(norm: Seq<char>, ts: u64) -> Result<Seq<char>, VaultError> {
    match first_bad(norm) {
        Option::Some(i) => Result::Err(
            VaultError::InvalidBase32Char { ch: norm[i], position: i as usize },
        ),
        Option::None => match secret_bytes_spec(norm) {
            Option::None => Result::Err(VaultError::InvalidBase32),
            Option::Some(b) => if b.len() == 0 {
                Result::Err(VaultError::EmptySecret)
            } else {
                Result::Ok(totp_sha1_of(30, 6, b, ts))
            },
        },
    }
}

/// Generates the six-digit code for the secret at the given Unix time.
pub fn generate_totp_at(secret: &str, timestamp: u64) -> (r: Result<String, VaultError>)
    ensures
        r matches Ok(code) ==> totp_code_result(normalize_spec(secret@), timestamp)
            == Result::<Seq<char>, VaultError>::Ok(code@) && code@.len() == 6 && (forall|i: int|
            0 <= i < code@.len() ==> crate::numtext::is_dec_digit(#[trigger] code@[i])),
        r matches Err(e) ==> totp_code_result(normalize_spec(secret@), timestamp)
            == Result::<Seq<char>, VaultError>::Err(e),
{
    let clean = normalize_secret(secret);
    let m = clean.as_str().unicode_len();
    let mut i: usize = 0;
    while i < m
        invariant
            i <= m,
            m == clean@.len(),
            clean@ == normalize_spec(secret@),
            forall|j: int| 0 <= j < i ==> is_b32_char(#[trigger] clean@[j]),
        decreases m - i,
    {
        let c = clean.as_str().get_char(i);
        let ok = ('A' <= c && c <= 'Z') || ('2' <= c && c <= '7');
        if !ok {
            proof {
                lemma_first_bad_at(clean@, i as int);
            }
            return Result::Err(VaultError::InvalidBase32Char { ch: c, position: i });
        }
        i = i + 1;
    }
    proof {
        lemma_first_bad_none(clean@);
    }
    let bytes = match base32_nopad_decode(clean.as_str()) {
        Option::Some(b) => b,
        Option::None => {
            let padded = add_base32_padding(clean.as_str());
            match base32_padded_decode(padded.as_str()) {
                Option::Some(b) => b,
                Option::None => {
                    return Result::Err(VaultError::InvalidBase32);
                },
            }
        },
    };
    if bytes.len() == 0 {
        return Result::Err(VaultError::EmptySecret);
    }
    let code = totp_sha1(30, 6, bytes.as_slice(), timestamp);
    Result::Ok(code)
}

/// Generates the six-digit code for the secret at the current time.
pub fn generate_totp(secret: &str) -> (r: Result<String, VaultError>)
    ensures
        r matches Ok(code) ==> code@.len() == 6 && (forall|i: int|
            0 <= i < code@.len() ==> crate::numtext::is_dec_digit(#[trigger] code@[i])) && exists|
            ts: u64,
        |
            totp_code_result(normalize_spec(secret@), ts) == Result::<Seq<char>, VaultError>::Ok(
                code@,
            ),
        r matches Err(e) ==> exists|ts: u64|
            totp_code_result(normalize_spec(secret@), ts) == Result::<Seq<char>, VaultError>::Err(
                e,
            ),
{
    let now_ms = current_timestamp();
    let ts: u64 = (now_ms / 1000) as u64;
    let r = generate_totp_at(secret, ts);
    proof {
        match r {
            Result::Ok(ref code) => {
                assert(totp_code_result(normalize_spec(secret@), ts)
                    == Result::<Seq<char>, VaultError>::Ok(code@));
            },
            Result::Err(e) => {
                assert(totp_code_result(normalize_spec(secret@), ts)
                    == Result::<Seq<char>, VaultError>::Err(e));
            },
        }
    }
    r
}

/// Draws a fresh 160-bit secret and returns its padded Base32 text, 32
/// characters long.
pub fn generate_totp_secret() -> (r: String)
    ensures
        r@.len() == 32,
        exists|b: Seq<u8>|
            b.len() == 20 && r@ == base32_of(b) && base32_padded_decoded(r@) == Option::Some(b),
        forall|i: int| 0 <= i < r@.len() ==> (is_b32_char(#[trigger] r@[i]) || r@[i] == '='),
{
    let secret = random_bytes_20();
    let r = base32_encode(secret.as_slice());
    proof {
        assert(secret@.len() == 20 && r@ == base32_of(secret@) && base32_padded_decoded(r@)
            == Option::Some(secret@));
    }
    r
}

fn random_bytes_20() -> (r: Vec<u8>)
    ensures
        r@.len() == 20,
{
    crate::crypto::random_bytes(20)
}

/// The secret with its `=` padding stripped, ready for direct embedding.
pub open spec fn strip_pad(s: Seq<char>) -> Seq<char> {
    s.filter(|c: char| c != '=')
}

fn strip_padding(s: &str) -> (r: String)
    ensures
        r@ == strip_pad(s@),
{
    let n = s.unicode_len();
    let mut r = String::new();
    let mut i: usize = 0;
    proof {
        reveal(Seq::filter);
        assert(s@.take(0).filter(|c: char| c != '=') =~= Seq::<char>::empty());
    }
    while i < n
        invariant
            i <= n,
            n == s@.len(),
            r@ == strip_pad(s@.take(i as int)),
        decreases n - i,
    {
        let c = s.get_char(i);
        proof {
            reveal(Seq::filter);
            let t1 = s@.take(i + 1);
            assert(t1.drop_last() =~= s@.take(i as int));
            assert(t1.last() == s@[i as int]);
        }
        if c != '=' {
            r.push(c);
        }
        i = i + 1;
    }
    proof {
        assert(s@.take(n as int) =~= s@);
    }
    r
}

/// The otpauth URI for the secret, account and issuer.
pub open spec fn qr_url_spec(secret: Seq<char>, account: Seq<char>, issuer: Seq<char>) -> Seq<
    char,
> {
    "otpauth://totp/"@ + url_encoded(issuer) + ":"@ + url_encoded(account) + "?secret="@
        + strip_pad(secret) + "&issuer="@ + url_encoded(issuer)
}

/// Builds the standard otpauth URI: issuer and account percent-encoded,
/// the secret stripped of padding and embedded directly.
pub fn get_totp_qr_url(secret: &str, account_name: &str, issuer: &str) -> (r: String)
    ensures
        r@ == qr_url_spec(secret@, account_name@, issuer@),
{
    let mut r = String::from_str("otpauth://totp/");
    let enc_issuer = url_encode(issuer);
    let enc_account = url_encode(account_name);
    let clean = strip_padding(secret);
    r.append(enc_issuer.as_str());
    r.append(":");
    r.append(enc_account.as_str());
    r.append("?secret=");
    r.append(clean.as_str());
    r.append("&issuer=");
    r.append(enc_issuer.as_str());
    r
}

} // verus!
