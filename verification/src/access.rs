//! Who may download: tokens, PINs and the policy of a session.
pub mod laws;

use vstd::prelude::*;

use base64::Engine;
use rand::Rng;
use rand::RngCore;
use sha2::Digest;

use crate::decimal;
use crate::duration;
use crate::duration::{Duration, Timestamp};
use crate::text;

verus! {

/// The PIN input that asks for a generated PIN.
pub const GENERATE_PIN_SENTINEL: &'static str = "__beam_generate_pin__";

/// The number of random bytes in a token.
pub const TOKEN_BYTES: usize = 24;

/// Generated PINs stand for the numbers below this one.
pub const PIN_LIMIT: u32 = 1_000_000;

/// The number of digits in a generated PIN.
pub const PIN_DIGITS: u8 = 6;

#[derive(Clone, Debug)]
pub struct AccessPolicy {
    pub expires_at: Timestamp,
    pub once: bool,
    pub pin_hash: Option<String>,
}

#[derive(Clone, Debug)]
pub struct AccessSetup {
    pub policy: AccessPolicy,
    pub revealed_pin: Option<String>,
}

/// The lower-case hexadecimal digit of a number below sixteen.
pub open spec fn hex_digit(d: nat) -> char {
    if d < 10 {
        (48 + d) as char
    } else {
        (87 + d) as char
    }
}

/// Two hexadecimal digits for each byte, the high half first.
pub open spec fn hex_text(bytes: Seq<u8>) -> Seq<char> {
    Seq::new(
        bytes.len() * 2,
        |i: int|
            hex_digit(
                if i % 2 == 0 {
                    bytes[i / 2] as nat / 16
                } else {
                    bytes[i / 2] as nat % 16
                },
            ),
    )
}

/// The character of the URL-safe base64 alphabet for a number below 64.
pub open spec fn base64_char(n: nat) -> char {
    if n < 26 {
        (65 + n) as char
    } else if n < 52 {
        (97 + n - 26) as char
    } else if n < 62 {
        (48 + n - 52) as char
    } else if n == 62 {
        '-'
    } else {
        '_'
    }
}

/// The byte at a position, zero behind the end.
pub open spec fn byte_or_zero(bytes: Seq<u8>, i: int) -> nat {
    if 0 <= i < bytes.len() {
        bytes[i] as nat
    } else {
        0
    }
}

/// The six bits that the character at position `i` of a base64 text stands for: each three
/// bytes make four groups of six bits, the most significant first.
pub open spec fn sextet(bytes: Seq<u8>, i: int) -> nat {
    let at = i / 4 * 3;
    let bits = byte_or_zero(bytes, at) * 65_536 + byte_or_zero(bytes, at + 1) * 256 + byte_or_zero(
        bytes,
        at + 2,
    );
    if i % 4 == 0 {
        bits / 262_144
    } else if i % 4 == 1 {
        bits / 4_096 % 64
    } else if i % 4 == 2 {
        bits / 64 % 64
    } else {
        bits % 64
    }
}

/// The URL-safe base64 text of the bytes, without padding.
pub open spec fn base64_url(bytes: Seq<u8>) -> Seq<char> {
    Seq::new((bytes.len() * 4 + 2) / 3, |i: int| base64_char(sextet(bytes, i)))
}

/// `c` needs no escape in a URL: a letter, a digit, a hyphen or an underscore.
pub open spec fn is_url_safe(c: char) -> bool {
    ||| 'A' <= c <= 'Z'
    ||| 'a' <= c <= 'z'
    ||| '0' <= c <= '9'
    ||| c == '-'
    ||| c == '_'
}

/// The SHA-256 digest of the bytes, as `sha2::Sha256` computes it.
pub uninterp spec fn sha256(data: Seq<u8>) -> Seq<u8>;

/// The stored form of a PIN: the digest of its UTF-8 bytes in hexadecimal.
pub open spec fn pin_digest(pin: Seq<char>) -> Seq<char> {
    hex_text(sha256(vstd::utf8::encode_utf8(pin)))
}

/// A session without a stored PIN accepts any caller; with one, the caller has to supply a
/// PIN with that digest.
pub open spec fn pin_accepted(expected: Option<Seq<char>>, supplied: Option<Seq<char>>) -> bool {
    match expected {
        Some(hash) => supplied is Some && pin_digest(supplied->0) == hash,
        None => true,
    }
}

/// A generated PIN: six decimal digits.
pub open spec fn is_generated_pin(pin: Seq<char>) -> bool {
    &&& pin.len() == PIN_DIGITS
    &&& forall|i: int| 0 <= i < pin.len() ==> decimal::is_digit(#[trigger] pin[i])
}

/// The PIN that is revealed to the sender for a PIN input: none for no input, the input
/// itself, or a generated one for the sentinel.
pub open spec fn reveals(input: Option<Seq<char>>, revealed: Option<Seq<char>>) -> bool {
    match input {
        None => revealed is None,
        Some(value) => if value == GENERATE_PIN_SENTINEL@ {
            revealed is Some && is_generated_pin(revealed->0)
        } else {
            revealed == Some(value)
        },
    }
}

/// The setup stores the digest of the PIN that it reveals, and none where it reveals none.
pub open spec fn guards_with(setup: AccessSetup, revealed: Option<Seq<char>>) -> bool {
    &&& text::optional(setup.revealed_pin) == revealed
    &&& text::optional(setup.policy.pin_hash) == (match revealed {
        Some(pin) => Some(pin_digest(pin)),
        None => None,
    })
}

/// Trusted: `Sha256::digest`. The digest depends on the data alone and has 32 bytes.
#[verifier::external_body]
fn sha256_digest(data: &[u8]) -> (res: Vec<u8>)
    ensures
        res@ == sha256(data@),
        res@.len() == 32,
{
    sha2::Sha256::digest(data).to_vec()
}

/// Trusted: `hex::encode`. It writes two lower-case hexadecimal digits for each byte.
#[verifier::external_body]
fn hex_encode(data: &Vec<u8>) -> (res: String)
    ensures
        res@ == hex_text(data@),
{
    hex::encode(data)
}

/// Trusted: `encode` of base64's `URL_SAFE_NO_PAD` engine. It writes the URL-safe base64
/// text of the bytes without padding.
#[verifier::external_body]
fn base64_encode(data: &[u8; TOKEN_BYTES]) -> (res: String)
    ensures
        res@ == base64_url(data@),
{
    base64::engine::general_purpose::URL_SAFE_NO_PAD.encode(data)
}

/// Trusted: `fill_bytes` of rand's `OsRng`. Nothing is known of the bytes. It panics where the
/// operating system has no randomness to give.
#[verifier::external_body]
fn random_bytes<const N: usize>() -> (res: [u8; N])
{
    let mut bytes = [0u8; N];
    rand::rngs::OsRng.fill_bytes(&mut bytes);
    bytes
}

/// Trusted: `gen_range` of rand's `OsRng` over a range that starts at zero. Nothing is known
/// of the number but that it lies in the range. It panics where the operating system has no
/// randomness to give.
#[verifier::external_body]
fn random_below(limit: u32) -> (res: u32)
    requires
        limit > 0,
    ensures
        res < limit,
{
    rand::rngs::OsRng.gen_range(0..limit)
}

/// The token of 24 bytes.
pub fn token_from(bytes: &[u8; TOKEN_BYTES]) -> (res: String)
    ensures
        res@ == base64_url(bytes@),
        res@.len() == 32,
        forall|i: int| 0 <= i < res@.len() ==> is_url_safe(#[trigger] res@[i]),
{
    let res = base64_encode(bytes);
    proof {
        assert forall|i: int| 0 <= i < res@.len() implies is_url_safe(#[trigger] res@[i]) by {
            base64_url_is_url_safe(bytes@, i);
        }
    }
    res
}

/// A token of 24 random bytes.
pub fn generate_token() -> (res: String)
    ensures
        exists|bytes: Seq<u8>| bytes.len() == TOKEN_BYTES && res@ == #[trigger] base64_url(bytes),
        res@.len() == 32,
        forall|i: int| 0 <= i < res@.len() ==> is_url_safe(#[trigger] res@[i]),
{
    let bytes: [u8; TOKEN_BYTES] = random_bytes();
    token_from(&bytes)
}

/// The PIN that stands for a number below a million.
pub fn pin_from(value: u32) -> (res: String)
    requires
        value < PIN_LIMIT,
    ensures
        res@ == decimal::padded(value as nat, PIN_DIGITS as nat),
        is_generated_pin(res@),
{
    proof {
        decimal::padded_shape(value as nat, PIN_DIGITS as nat);
    }
    decimal::format_padded(value, PIN_DIGITS)
}

/// A PIN of six random digits.
pub fn generate_pin() -> (res: String)
    ensures
        exists|value: u32|
            value < PIN_LIMIT && res@ == #[trigger] decimal::padded(
                value as nat,
                PIN_DIGITS as nat,
            ),
        is_generated_pin(res@),
{
    let value: u32 = random_below(PIN_LIMIT);
    pin_from(value)
}

/// The stored form of a PIN.
pub fn hash_pin(pin: &str) -> (res: String)
    ensures
        res@ == pin_digest(pin@),
        res@.len() == 64,
{
    let digest = sha256_digest(pin.as_bytes());
    hex_encode(&digest)
}

/// Whether the digest of a supplied PIN meets the stored one.
pub fn digest_accepted(expected_hash: Option<&str>, supplied_digest: Option<&str>) -> (res: bool)
    ensures
        res == (match (text::optional_str(expected_hash), text::optional_str(supplied_digest)) {
            (Some(hash), Some(digest)) => digest == hash,
            (Some(_), None) => false,
            (None, _) => true,
        }),
{
    match expected_hash {
        Some(hash) => match supplied_digest {
            Some(digest) => text::same(digest, hash),
            None => false,
        },
        None => true,
    }
}

/// Whether a supplied PIN meets the stored one.
pub fn verify_pin(expected_hash: Option<&str>, supplied_pin: Option<&str>) -> (res: bool)
    ensures
        res == pin_accepted(text::optional_str(expected_hash), text::optional_str(supplied_pin)),
{
    match supplied_pin {
        Some(pin) => {
            let digest = hash_pin(pin);
            digest_accepted(expected_hash, Some(digest.as_str()))
        },
        None => digest_accepted(expected_hash, None),
    }
}

/// The setup of a session that starts at `now` and reveals the given PIN.
pub fn access_setup(
    now: Timestamp,
    ttl: Duration,
    once: bool,
    revealed_pin: Option<String>,
) -> (res: AccessSetup)
    requires
        now.nanos + ttl.total() <= i128::MAX,
    ensures
        res.policy.expires_at.nanos == now.nanos + ttl.total(),
        res.policy.once == once,
        guards_with(res, text::optional(revealed_pin)),
{
    let pin_hash = match &revealed_pin {
        Some(pin) => Some(hash_pin(pin.as_str())),
        None => None,
    };
    AccessSetup {
        policy: AccessPolicy { expires_at: now.after(ttl), once, pin_hash },
        revealed_pin,
    }
}

/// The setup of a session that starts now. Whatever the clock shows, the session ends `ttl`
/// later; whatever PIN is generated, its digest is stored.
pub fn build_access_policy(ttl: Duration, once: bool, pin_input: Option<String>) -> (res:
    AccessSetup)
    ensures
        exists|now: Timestamp| #[trigger]
            now.on_clock() && res.policy.expires_at.nanos == now.nanos + ttl.total(),
        res.policy.once == once,
        reveals(text::optional(pin_input), text::optional(res.revealed_pin)),
        guards_with(res, text::optional(res.revealed_pin)),
{
    let revealed_pin = match pin_input {
        Some(value) => if text::same(value.as_str(), GENERATE_PIN_SENTINEL) {
            Some(generate_pin())
        } else {
            Some(value)
        },
        None => None,
    };
    let now = duration::now();
    access_setup(now, ttl, once, revealed_pin)
}

/// Every character of a base64 text of this alphabet is safe in a URL.
pub proof fn base64_url_is_url_safe(bytes: Seq<u8>, i: int)
    requires
        0 <= i < base64_url(bytes).len(),
    ensures
        is_url_safe(base64_url(bytes)[i]),
{
    let n = sextet(bytes, i);
    assert(base64_char(n) == base64_url(bytes)[i]);
}

proof fn lemma_base64_char_is_injective(a: nat, b: nat)
    requires
        a < 64,
        b < 64,
        base64_char(a) == base64_char(b),
    ensures
        a == b,
{
}

proof fn lemma_bits_of_group(a: u32, b: u32, c: u32, bits: u32)
    by (bit_vector)
    requires
        a < 256,
        b < 256,
        c < 256,
        bits == a * 65_536 + b * 256 + c,
    ensures
        bits / 262_144 < 64,
        bits == bits / 262_144 * 262_144 + bits / 4_096 % 64 * 4_096 + bits / 64 % 64 * 64 + bits
            % 64,
        a == bits / 65_536,
        b == bits / 256 % 256,
        c == bits % 256,
{
}

proof fn lemma_group_of_sextets(a: nat, b: nat, c: nat, bits: nat)
    requires
        a < 256,
        b < 256,
        c < 256,
        bits == a * 65_536 + b * 256 + c,
    ensures
        bits / 262_144 < 64,
        bits == bits / 262_144 * 262_144 + bits / 4_096 % 64 * 4_096 + bits / 64 % 64 * 64 + bits
            % 64,
        a == bits / 65_536,
        b == bits / 256 % 256,
        c == bits % 256,
{
    lemma_bits_of_group(a as u32, b as u32, c as u32, bits as u32);
}

/// Tokens of different bytes differ.
pub proof fn tokens_keep_their_bytes(a: Seq<u8>, b: Seq<u8>)
    requires
        a.len() == TOKEN_BYTES,
        b.len() == TOKEN_BYTES,
        base64_url(a) == base64_url(b),
    ensures
        a == b,
{
    assert forall|k: int| 0 <= k < a.len() implies a[k] == b[k] by {
        let group = k / 3;
        let at = 3 * group;
        let bits_a = byte_or_zero(a, at) * 65_536 + byte_or_zero(a, at + 1) * 256 + byte_or_zero(
            a,
            at + 2,
        );
        let bits_b = byte_or_zero(b, at) * 65_536 + byte_or_zero(b, at + 1) * 256 + byte_or_zero(
            b,
            at + 2,
        );
        lemma_group_of_sextets(
            byte_or_zero(a, at),
            byte_or_zero(a, at + 1),
            byte_or_zero(a, at + 2),
            bits_a,
        );
        lemma_group_of_sextets(
            byte_or_zero(b, at),
            byte_or_zero(b, at + 1),
            byte_or_zero(b, at + 2),
            bits_b,
        );
        assert forall|j: int| 0 <= j < 4 implies #[trigger] sextet(a, 4 * group + j) == sextet(
            b,
            4 * group + j,
        ) by {
            let i = 4 * group + j;
            assert(i / 4 * 3 == at && i % 4 == j);
            assert(base64_url(a)[i] == base64_char(sextet(a, i)));
            assert(base64_url(b)[i] == base64_char(sextet(b, i)));
            lemma_base64_char_is_injective(sextet(a, i), sextet(b, i));
        }
        assert(sextet(a, 4 * group + 0) == sextet(b, 4 * group + 0));
        assert(sextet(a, 4 * group + 1) == sextet(b, 4 * group + 1));
        assert(sextet(a, 4 * group + 2) == sextet(b, 4 * group + 2));
        assert(sextet(a, 4 * group + 3) == sextet(b, 4 * group + 3));
        assert(bits_a == bits_b);
    }
    assert(a =~= b);
}

/// Different bytes have different hexadecimal texts.
pub proof fn hex_text_is_injective(a: Seq<u8>, b: Seq<u8>)
    requires
        hex_text(a) == hex_text(b),
    ensures
        a == b,
{
    assert(a.len() == b.len()) by {
        assert(hex_text(a).len() == 2 * a.len());
        assert(hex_text(b).len() == 2 * b.len());
    }
    assert forall|i: int| 0 <= i < a.len() implies a[i] == b[i] by {
        assert(hex_text(a)[2 * i] == hex_digit(a[i] as nat / 16));
        assert(hex_text(b)[2 * i] == hex_digit(b[i] as nat / 16));
        assert(hex_text(a)[2 * i + 1] == hex_digit(a[i] as nat % 16));
        assert(hex_text(b)[2 * i + 1] == hex_digit(b[i] as nat % 16));
    }
    assert(a =~= b);
}

/// The PIN whose digest is stored is accepted.
pub proof fn own_pin_is_accepted(pin: Seq<char>)
    ensures
        pin_accepted(Some(pin_digest(pin)), Some(pin)),
{
}

/// A protected session accepts no caller without a PIN.
pub proof fn missing_pin_is_refused(hash: Seq<char>)
    ensures
        !pin_accepted(Some(hash), None),
{
}

/// Where a wrong PIN is accepted, it has the digest of the right one.
pub proof fn accepted_pin_has_the_digest(pin: Seq<char>, supplied: Seq<char>)
    requires
        pin_accepted(Some(pin_digest(pin)), Some(supplied)),
    ensures
        sha256(vstd::utf8::encode_utf8(supplied)) == sha256(vstd::utf8::encode_utf8(pin)),
{
    hex_text_is_injective(
        sha256(vstd::utf8::encode_utf8(supplied)),
        sha256(vstd::utf8::encode_utf8(pin)),
    );
}

/// A setup accepts the PIN that it reveals.
pub proof fn revealed_pin_is_accepted(setup: AccessSetup)
    requires
        guards_with(setup, text::optional(setup.revealed_pin)),
    ensures
        pin_accepted(text::optional(setup.policy.pin_hash), text::optional(setup.revealed_pin)),
{
}

} // verus!
