//! What every access setup guarantees.
use vstd::prelude::*;

use crate::access;
use crate::access::AccessSetup;
use crate::decimal;
use crate::duration::{Duration, Timestamp};
use crate::text;

verus! {

/// A session without a PIN accepts everyone; one with a PIN accepts those who supply a PIN of
/// the same digest, and nobody else.
pub proof fn pin_decides(
    expected: Option<&str>,
    supplied: Option<&str>,
    res: bool,
)
    requires
        call_ensures(access::verify_pin, (expected, supplied), res),
    ensures
        expected is None ==> res,
        expected is Some && supplied is None ==> !res,
        expected is Some && supplied is Some ==> res == (access::hex_text(
            access::sha256(vstd::utf8::encode_utf8(supplied->Some_0@)),
        ) == expected->Some_0@),
{
}

/// A session ends when its time is over, counted from its start, and burns its content where
/// that was asked for; with a PIN, it stores the digest of that PIN and not the PIN itself.
pub proof fn setup_follows_the_wishes(
    now: Timestamp,
    ttl: Duration,
    once: bool,
    pin: Option<String>,
    setup: AccessSetup,
)
    requires
        call_ensures(access::access_setup, (now, ttl, once, pin), setup),
    ensures
        setup.policy.expires_at.nanos - now.nanos == ttl.secs * 1_000_000_000 + ttl.nanos,
        setup.policy.once == once,
        pin is None ==> setup.policy.pin_hash is None && setup.revealed_pin is None,
        pin matches Some(chosen) ==> (setup.policy.pin_hash matches Some(hash) && hash@
            == access::hex_text(access::sha256(vstd::utf8::encode_utf8(chosen@)))) && (
        setup.revealed_pin matches Some(shown) && shown@ == chosen@),
{
}

/// A PIN that was chosen is the one that counts; where one is to be made up, it has six digits;
/// and without a wish there is none. Whatever the PIN is, the session accepts it.
pub proof fn chosen_pin_counts(
    ttl: Duration,
    once: bool,
    input: Option<String>,
    setup: AccessSetup,
)
    requires
        call_ensures(access::build_access_policy, (ttl, once, input), setup),
    ensures
        setup.policy.once == once,
        input is None ==> setup.revealed_pin is None && setup.policy.pin_hash is None,
        input matches Some(chosen) ==> {
            &&& setup.revealed_pin is Some
            &&& chosen@ != "__beam_generate_pin__"@ ==> setup.revealed_pin->Some_0@ == chosen@
            &&& chosen@ == "__beam_generate_pin__"@ ==> setup.revealed_pin->Some_0@.len() == 6
                && decimal::is_numeral(setup.revealed_pin->Some_0@)
            &&& text::optional(setup.policy.pin_hash) == Some(
                access::hex_text(
                    access::sha256(
                        vstd::utf8::encode_utf8(setup.revealed_pin->Some_0@),
                    ),
                ),
            )
        },
{
}

proof fn lemma_value_of_padded(n: nat, width: nat)
    ensures
        decimal::padded(n, width).len() == width,
        width == 6 && n < 1_000_000 ==> decimal::value(decimal::padded(n, width)) == n,
        decimal::value(decimal::padded(n, width)) == n % tens(width),
    decreases width,
{
    if width > 0 {
        lemma_value_of_padded(n / 10, (width - 1) as nat);
        assert(decimal::padded(n, width).drop_last() =~= decimal::padded(
            n / 10,
            (width - 1) as nat,
        ));
        let t = tens((width - 1) as nat);
        lemma_tens((width - 1) as nat);
        vstd::arithmetic::div_mod::lemma_breakdown(n as int, 10, t as int);
        assert(10 * t == tens(width));
        assert(n % (10 * t) == 10 * ((n / 10) % t) + n % 10);
    } else {
        assert(n % 1 == 0);
    }
    if width == 6 && n < 1_000_000 {
        reveal_with_fuel(tens, 7);
        vstd::arithmetic::div_mod::lemma_small_mod(n, 1_000_000);
    }
}

/// The power of ten with this exponent.
spec fn tens(width: nat) -> nat
    decreases width,
{
    if width == 0 {
        1
    } else {
        10 * tens((width - 1) as nat)
    }
}

proof fn lemma_tens(width: nat)
    ensures
        tens(width) > 0,
    decreases width,
{
    if width > 0 {
        lemma_tens((width - 1) as nat);
    }
}

/// A generated PIN shows its number in six digits, so different numbers have different PINs.
pub proof fn generated_pins_show_their_number(value: u32, pin: String)
    requires
        value < 1_000_000,
        call_ensures(access::pin_from, (value,), pin),
    ensures
        pin@.len() == 6,
        decimal::is_numeral(pin@),
        decimal::value(pin@) == value,
{
    lemma_value_of_padded(value as nat, 6);
}

/// A PIN is kept as the digest of its bytes in hexadecimal digits, and a digest is accepted
/// where it is the one that is kept.
pub proof fn digest_stands_for_the_pin(
    pin: &str,
    hash: String,
    kept: Option<&str>,
    supplied: Option<&str>,
    accepted: bool,
)
    requires
        call_ensures(access::hash_pin, (pin,), hash),
        call_ensures(access::digest_accepted, (kept, supplied), accepted),
    ensures
        hash@ == access::hex_text(access::sha256(vstd::utf8::encode_utf8(pin@))),
        hash@.len() == 64,
        kept is None ==> accepted,
        kept is Some && supplied is None ==> !accepted,
        kept is Some && supplied is Some ==> (accepted <==> kept->Some_0@ == supplied->Some_0@),
{
}

/// Two tokens differ where the bytes that they are made of do, and a token can stand in a URL as
/// it is.
pub proof fn tokens_stand_for_their_bytes(
    a: [u8; 24],
    b: [u8; 24],
    first: String,
    second: String,
    i: int,
)
    requires
        call_ensures(access::token_from, (&a,), first),
        call_ensures(access::token_from, (&b,), second),
    ensures
        first@ == second@ <==> a@ == b@,
        first@.len() == 32,
        0 <= i < 32 ==> ('A' <= first@[i] <= 'Z' || 'a' <= first@[i] <= 'z' || '0' <= first@[i]
            <= '9' || first@[i] == '-' || first@[i] == '_'),
{
    if first@ == second@ {
        access::tokens_keep_their_bytes(a@, b@);
    }
}

/// A generated PIN has six digits, and a generated token has what it takes to be one.
pub proof fn generated_secrets_have_their_shape(pin: String, token: String, i: int)
    requires
        call_ensures(access::generate_pin, (), pin),
        call_ensures(access::generate_token, (), token),
    ensures
        pin@.len() == 6,
        0 <= i < 6 ==> '0' <= pin@[i] <= '9',
        token@.len() == 32,
        0 <= i < 32 ==> ('A' <= token@[i] <= 'Z' || 'a' <= token@[i] <= 'z' || '0' <= token@[i]
            <= '9' || token@[i] == '-' || token@[i] == '_'),
{
    if 0 <= i < 6 {
        assert(decimal::is_digit(pin@[i]));
    }
    if 0 <= i < 32 {
        assert(access::is_url_safe(token@[i]));
    }
}

} // verus!
