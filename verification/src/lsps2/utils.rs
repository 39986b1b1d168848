//! Fee arithmetic for just-in-time channels, and the promise that binds a
//! fee menu entry to the service that issued it.
use crate::ids::bytes_equal;
use crate::lsps2::msgs::{OpeningFeeParams, RawOpeningFeeParams};
use vstd::prelude::*;

verus! {

/// Parts per million: the unit of the proportional fee.
pub const PPM_DENOMINATOR: u64 = 1_000_000;

/// The proportional part of the opening fee: `payment * ppm / 1_000_000`,
/// rounded up so that a fractional millisatoshi is charged in full.
pub open spec fn proportional_fee(payment_size_msat: nat, proportional_ppm: nat) -> nat {
    (payment_size_msat * proportional_ppm + 999_999) / 1_000_000
}

/// The opening fee: the proportional part, but never below the minimum fee.
pub open spec fn opening_fee(payment_size_msat: nat, min_fee_msat: nat, proportional_ppm: nat) -> nat {
    let proportional = proportional_fee(payment_size_msat, proportional_ppm);
    if proportional >= min_fee_msat {
        proportional
    } else {
        min_fee_msat
    }
}

/// Whether every intermediate value of the fee computation fits in 64 bits.
pub open spec fn opening_fee_fits(payment_size_msat: nat, proportional_ppm: nat) -> bool {
    payment_size_msat * proportional_ppm + 999_999 <= u64::MAX
}

/// What [`compute_opening_fee`] returns: the opening fee, or nothing when an
/// intermediate value overflows.
pub open spec fn spec_compute_opening_fee(
    payment_size_msat: u64,
    min_fee_msat: u64,
    proportional_ppm: u64,
) -> Option<u64> {
    if opening_fee_fits(payment_size_msat as nat, proportional_ppm as nat) {
        Some(opening_fee(payment_size_msat as nat, min_fee_msat as nat, proportional_ppm as nat) as u64)
    } else {
        None
    }
}

/// Computes the opening fee for a payment of the given size.
///
/// Returns `None` when the product of size and rate, or its rounding, leaves
/// the range of `u64`.
pub fn compute_opening_fee(
    payment_size_msat: u64,
    opening_fee_min_fee_msat: u64,
    opening_fee_proportional: u64,
) -> (fee: Option<u64>)
    ensures
        fee == spec_compute_opening_fee(
            payment_size_msat,
            opening_fee_min_fee_msat,
            opening_fee_proportional,
        ),
        fee is Some ==> fee->0 == opening_fee(
            payment_size_msat as nat,
            opening_fee_min_fee_msat as nat,
            opening_fee_proportional as nat,
        ),
{
    let product = match payment_size_msat.checked_mul(opening_fee_proportional) {
        Some(p) => p,
        None => { return None; },
    };
    let rounded = match product.checked_add(999_999) {
        Some(r) => r,
        None => { return None; },
    };
    let proportional: u64 = rounded / PPM_DENOMINATOR;
    if proportional >= opening_fee_min_fee_msat {
        Some(proportional)
    } else {
        Some(opening_fee_min_fee_msat)
    }
}

/// The proportional fee is the ceiling of `payment * ppm / 1_000_000`: it
/// covers the exact amount, and one millisatoshi less would not.
pub proof fn lemma_proportional_fee_is_ceiling(payment_size_msat: nat, proportional_ppm: nat)
    ensures
        proportional_fee(payment_size_msat, proportional_ppm) * 1_000_000 >= payment_size_msat
            * proportional_ppm,
        proportional_fee(payment_size_msat, proportional_ppm) * 1_000_000 < payment_size_msat
            * proportional_ppm + 1_000_000,
{
    let x = payment_size_msat * proportional_ppm + 999_999;
    assert(x == 1_000_000 * (x / 1_000_000) + x % 1_000_000) by {
        vstd::arithmetic::div_mod::lemma_fundamental_div_mod(x as int, 1_000_000);
    }
}

/// The opening fee is never below the minimum fee nor below the exact
/// proportional amount.
pub proof fn lemma_opening_fee_bounds(payment_size_msat: nat, min_fee_msat: nat, proportional_ppm: nat)
    ensures
        opening_fee(payment_size_msat, min_fee_msat, proportional_ppm) >= min_fee_msat,
        opening_fee(payment_size_msat, min_fee_msat, proportional_ppm) * 1_000_000
            >= payment_size_msat * proportional_ppm,
{
    lemma_proportional_fee_is_ceiling(payment_size_msat, proportional_ppm);
    assert(opening_fee(payment_size_msat, min_fee_msat, proportional_ppm) >= proportional_fee(
        payment_size_msat,
        proportional_ppm,
    ));
    assert(opening_fee(payment_size_msat, min_fee_msat, proportional_ppm) * 1_000_000
        >= proportional_fee(payment_size_msat, proportional_ppm) * 1_000_000) by (nonlinear_arith)
        requires
            opening_fee(payment_size_msat, min_fee_msat, proportional_ppm) >= proportional_fee(
                payment_size_msat,
                proportional_ppm,
            ),
    ;
}

/// The last `width` base-256 digits of `value`, most significant first.
pub open spec fn be_bytes(value: nat, width: nat) -> Seq<u8>
    decreases width,
{
    if width == 0 {
        Seq::empty()
    } else {
        be_bytes(value / 256, (width - 1) as nat).push((value % 256) as u8)
    }
}

/// The bytes that a promise authenticates: every field of the entry at a
/// fixed place and width, most significant byte first, 44 bytes in all.
pub open spec fn promise_message(raw: RawOpeningFeeParams) -> Seq<u8> {
    be_bytes(raw.min_fee_msat as nat, 8) + be_bytes(raw.proportional as nat, 4) + be_bytes(
        raw.valid_until as nat,
        8,
    ) + be_bytes(raw.min_lifetime as nat, 4) + be_bytes(raw.max_client_to_self_delay as nat, 4)
        + be_bytes(raw.min_payment_size_msat as nat, 8) + be_bytes(
        raw.max_payment_size_msat as nat,
        8,
    )
}

/// The HMAC-SHA256 authentication code of `message` under `key`.
pub uninterp spec fn hmac_sha256(key: Seq<u8>, message: Seq<u8>) -> Seq<u8>;

/// The promise that a service with the given secret issues for an entry.
pub open spec fn promise_of(raw: RawOpeningFeeParams, secret: Seq<u8>) -> Seq<u8> {
    hmac_sha256(secret, promise_message(raw))
}

/// Whether the entry carries the promise that the given secret issues for
/// its other fields.
pub open spec fn is_authentic(fee_params: OpeningFeeParams, secret: Seq<u8>) -> bool {
    fee_params.promise@ == promise_of(fee_params.raw(), secret)
}

/// Whether `fee_params` is `raw` signed under `secret`.
pub open spec fn is_signed(
    raw: RawOpeningFeeParams,
    secret: Seq<u8>,
    fee_params: OpeningFeeParams,
) -> bool {
    fee_params.raw() == raw && is_authentic(fee_params, secret)
}

/// Whether the entry has run out at the given second.
pub open spec fn is_expired(fee_params: OpeningFeeParams, now_unix_secs: u64) -> bool {
    now_unix_secs > fee_params.valid_until
}

/// Whether a client may buy on the terms of the entry: the service issued
/// it, and it has not run out.
pub open spec fn is_valid(fee_params: OpeningFeeParams, secret: Seq<u8>, now_unix_secs: u64) -> bool {
    !is_expired(fee_params, now_unix_secs) && is_authentic(fee_params, secret)
}

/// Appends the last `width` base-256 digits of `value`, most significant
/// first.
fn push_be_bytes(out: &mut Vec<u8>, value: u64, width: u8)
    ensures
        final(out)@ == old(out)@ + be_bytes(value as nat, width as nat),
    decreases width,
{
    if width > 0 {
        push_be_bytes(out, value / 256, width - 1);
        out.push((value % 256) as u8);
    }
}

/// Lays the fields of an entry out as the bytes that its promise
/// authenticates.
pub fn promise_message_bytes(raw: &RawOpeningFeeParams) -> (bytes: Vec<u8>)
    ensures
        bytes@ == promise_message(*raw),
{
    let mut bytes: Vec<u8> = Vec::new();
    push_be_bytes(&mut bytes, raw.min_fee_msat, 8);
    push_be_bytes(&mut bytes, raw.proportional as u64, 4);
    push_be_bytes(&mut bytes, raw.valid_until, 8);
    push_be_bytes(&mut bytes, raw.min_lifetime as u64, 4);
    push_be_bytes(&mut bytes, raw.max_client_to_self_delay as u64, 4);
    push_be_bytes(&mut bytes, raw.min_payment_size_msat, 8);
    push_be_bytes(&mut bytes, raw.max_payment_size_msat, 8);
    bytes
}

/// Calls `HmacEngine::<sha256::Hash>::new`, `HashEngine::input` and
/// `Hmac::from_engine` of `bitcoin::hashes`. Trusted: the 32 bytes returned
/// are the HMAC-SHA256 code of `message` under `key`, a function of the two
/// byte strings alone.
#[verifier::external_body]
fn compute_hmac_sha256(key: &[u8; 32], message: &Vec<u8>) -> (code: [u8; 32])
    ensures
        code@ == hmac_sha256(key@, message@),
{
    let mut engine = bitcoin::hashes::HmacEngine::<bitcoin::hashes::sha256::Hash>::new(key);
    bitcoin::hashes::HashEngine::input(&mut engine, message.as_slice());
    let code: bitcoin::hashes::Hmac<bitcoin::hashes::sha256::Hash> =
        bitcoin::hashes::Hash::from_engine(engine);
    bitcoin::hashes::Hash::to_byte_array(code)
}

/// Computes the promise that a service with the given secret issues for an
/// entry.
pub fn compute_promise(raw: &RawOpeningFeeParams, promise_secret: &[u8; 32]) -> (promise: [u8; 32])
    ensures
        promise@ == promise_of(*raw, promise_secret@),
{
    let message = promise_message_bytes(raw);
    compute_hmac_sha256(promise_secret, &message)
}

impl RawOpeningFeeParams {
    /// Signs the entry: the result has the same fields and the promise of
    /// the given secret.
    pub fn into_opening_fee_params(self, promise_secret: &[u8; 32]) -> (fee_params: OpeningFeeParams)
        ensures
            is_signed(self, promise_secret@, fee_params),
    {
        let promise = compute_promise(&self, promise_secret);
        OpeningFeeParams {
            min_fee_msat: self.min_fee_msat,
            proportional: self.proportional,
            valid_until: self.valid_until,
            min_lifetime: self.min_lifetime,
            max_client_to_self_delay: self.max_client_to_self_delay,
            min_payment_size_msat: self.min_payment_size_msat,
            max_payment_size_msat: self.max_payment_size_msat,
            promise,
        }
    }
}

/// Tells whether the entry has run out at the given second, counted from
/// the Unix epoch. The entry still holds during its last second.
pub fn is_expired_opening_fee_params(fee_params: &OpeningFeeParams, now_unix_secs: u64) -> (expired:
    bool)
    ensures
        expired == is_expired(*fee_params, now_unix_secs),
{
    now_unix_secs > fee_params.valid_until
}

/// Tells whether the entry carries the given promise, byte for byte.
pub fn carries_promise(fee_params: &OpeningFeeParams, promise: &[u8; 32]) -> (carries: bool)
    ensures
        carries == (fee_params.promise@ == promise@),
{
    let same = bytes_equal(&fee_params.promise, promise);
    proof {
        if fee_params.promise@ == promise@ {
            assert(fee_params.promise =~= *promise);
        }
    }
    same
}

/// Tells whether a client may buy on the terms of the entry at the given
/// second: it has not run out, and its promise is the one that the given
/// secret issues for its other fields.
pub fn is_valid_opening_fee_params(
    fee_params: &OpeningFeeParams,
    promise_secret: &[u8; 32],
    now_unix_secs: u64,
) -> (valid: bool)
    ensures
        valid == is_valid(*fee_params, promise_secret@, now_unix_secs),
{
    if is_expired_opening_fee_params(fee_params, now_unix_secs) {
        return false;
    }
    let promise = compute_promise(&fee_params.to_raw(), promise_secret);
    carries_promise(fee_params, &promise)
}

/// The number of values that `width` base-256 digits tell apart.
pub open spec fn radix_power(width: nat) -> nat
    decreases width,
{
    if width == 0 {
        1
    } else {
        256 * radix_power((width - 1) as nat)
    }
}

/// `width` digits are `width` bytes.
pub proof fn lemma_be_bytes_len(value: nat, width: nat)
    ensures
        be_bytes(value, width).len() == width,
    decreases width,
{
    if width > 0 {
        lemma_be_bytes_len(value / 256, (width - 1) as nat);
    }
}

/// Two values that fit in `width` digits and have the same digits are the
/// same value.
pub proof fn lemma_be_bytes_injective(a: nat, b: nat, width: nat)
    requires
        a < radix_power(width),
        b < radix_power(width),
        be_bytes(a, width) == be_bytes(b, width),
    ensures
        a == b,
    decreases width,
{
    if width > 0 {
        let rest = (width - 1) as nat;
        let front_a = be_bytes(a / 256, rest);
        let front_b = be_bytes(b / 256, rest);
        assert(front_a.push((a % 256) as u8).drop_last() =~= front_a);
        assert(front_b.push((b % 256) as u8).drop_last() =~= front_b);
        assert(front_a.push((a % 256) as u8).last() == (a % 256) as u8);
        assert(front_b.push((b % 256) as u8).last() == (b % 256) as u8);
        assert(front_a == front_b);
        assert(a % 256 == b % 256);
        lemma_be_bytes_injective(a / 256, b / 256, rest);
    }
}

/// Where each field of an entry stands in the bytes that its promise
/// authenticates.
pub proof fn lemma_promise_message_layout(raw: RawOpeningFeeParams)
    ensures
        promise_message(raw).len() == 44,
        promise_message(raw).subrange(0, 8) == be_bytes(raw.min_fee_msat as nat, 8),
        promise_message(raw).subrange(8, 12) == be_bytes(raw.proportional as nat, 4),
        promise_message(raw).subrange(12, 20) == be_bytes(raw.valid_until as nat, 8),
        promise_message(raw).subrange(20, 24) == be_bytes(raw.min_lifetime as nat, 4),
        promise_message(raw).subrange(24, 28) == be_bytes(raw.max_client_to_self_delay as nat, 4),
        promise_message(raw).subrange(28, 36) == be_bytes(raw.min_payment_size_msat as nat, 8),
        promise_message(raw).subrange(36, 44) == be_bytes(raw.max_payment_size_msat as nat, 8),
{
    lemma_be_bytes_len(raw.min_fee_msat as nat, 8);
    lemma_be_bytes_len(raw.proportional as nat, 4);
    lemma_be_bytes_len(raw.valid_until as nat, 8);
    lemma_be_bytes_len(raw.min_lifetime as nat, 4);
    lemma_be_bytes_len(raw.max_client_to_self_delay as nat, 4);
    lemma_be_bytes_len(raw.min_payment_size_msat as nat, 8);
    lemma_be_bytes_len(raw.max_payment_size_msat as nat, 8);
    let message = promise_message(raw);
    assert(message.subrange(0, 8) =~= be_bytes(raw.min_fee_msat as nat, 8));
    assert(message.subrange(8, 12) =~= be_bytes(raw.proportional as nat, 4));
    assert(message.subrange(12, 20) =~= be_bytes(raw.valid_until as nat, 8));
    assert(message.subrange(20, 24) =~= be_bytes(raw.min_lifetime as nat, 4));
    assert(message.subrange(24, 28) =~= be_bytes(raw.max_client_to_self_delay as nat, 4));
    assert(message.subrange(28, 36) =~= be_bytes(raw.min_payment_size_msat as nat, 8));
    assert(message.subrange(36, 44) =~= be_bytes(raw.max_payment_size_msat as nat, 8));
}

/// The bytes that a promise authenticates tell every entry from every
/// other: no field can change without the bytes changing.
pub proof fn lemma_promise_message_injective(a: RawOpeningFeeParams, b: RawOpeningFeeParams)
    requires
        promise_message(a) == promise_message(b),
    ensures
        a == b,
{
    lemma_promise_message_layout(a);
    lemma_promise_message_layout(b);
    assert(radix_power(4) == 0x1_0000_0000 && radix_power(8) == 0x1_0000_0000_0000_0000) by {
        reveal_with_fuel(radix_power, 9);
    }
    lemma_be_bytes_injective(a.min_fee_msat as nat, b.min_fee_msat as nat, 8);
    lemma_be_bytes_injective(a.proportional as nat, b.proportional as nat, 4);
    lemma_be_bytes_injective(a.valid_until as nat, b.valid_until as nat, 8);
    lemma_be_bytes_injective(a.min_lifetime as nat, b.min_lifetime as nat, 4);
    lemma_be_bytes_injective(
        a.max_client_to_self_delay as nat,
        b.max_client_to_self_delay as nat,
        4,
    );
    lemma_be_bytes_injective(a.min_payment_size_msat as nat, b.min_payment_size_msat as nat, 8);
    lemma_be_bytes_injective(a.max_payment_size_msat as nat, b.max_payment_size_msat as nat, 8);
}

/// An entry signed under a secret is valid under that secret at every second
/// up to and including its last.
pub proof fn lemma_signed_params_are_valid(
    raw: RawOpeningFeeParams,
    secret: Seq<u8>,
    fee_params: OpeningFeeParams,
    now_unix_secs: u64,
)
    requires
        is_signed(raw, secret, fee_params),
        now_unix_secs <= raw.valid_until,
    ensures
        is_valid(fee_params, secret, now_unix_secs),
{
}

/// An entry is valid under two secrets only where both issue the same code
/// for its fields.
pub proof fn lemma_valid_under_two_secrets(
    fee_params: OpeningFeeParams,
    secret: Seq<u8>,
    other_secret: Seq<u8>,
    now_unix_secs: u64,
)
    requires
        is_valid(fee_params, secret, now_unix_secs),
        is_valid(fee_params, other_secret, now_unix_secs),
    ensures
        hmac_sha256(secret, promise_message(fee_params.raw())) == hmac_sha256(
            other_secret,
            promise_message(fee_params.raw()),
        ),
{
}

} // verus!
