//! What the read side shows of a node: its capacity in whole coins and the
//! instant it was first seen as text.

use vstd::prelude::*;
use crate::record::text_view;

verus! {

/// How many of the smallest unit make one coin.
pub const SATS_PER_BTC: u64 = 100_000_000;

/// Digits behind the point that an amount in coins can need.
pub const BTC_DIGITS: u32 = 8;

/// The first instant that can be written, in epoch seconds: the start of the
/// year -262143.
pub const MIN_UTC_EPOCH: i64 = -8_334_601_228_800;

/// The last instant that can be written, in epoch seconds: the last second
/// of the year 262142.
pub const MAX_UTC_EPOCH: i64 = 8_210_266_876_799;

/// Whether the instant `epoch` can be written.
pub open spec fn has_utc_text(epoch: int) -> bool {
    MIN_UTC_EPOCH <= epoch <= MAX_UTC_EPOCH
}

/// Ten to the power `n`.
pub open spec fn pow10(n: nat) -> int
    decreases n,
{
    if n == 0 {
        1
    } else {
        10 * pow10((n - 1) as nat)
    }
}

/// An amount in coins as a decimal number: `mantissa / 10^scale`.
#[derive(Clone, Copy, Debug, PartialEq, Eq, Structural)]
pub struct BtcAmount {
    pub mantissa: i128,
    pub scale: u32,
}

/// A node as the read side shows it.
#[derive(Clone, Debug, PartialEq, Eq)]
pub struct NodeResponse {
    pub public_key: String,
    pub alias: String,
    pub capacity: BtcAmount,
    pub first_seen: String,
}

/// The view of a `NodeResponse`.
pub ghost struct NodeResponseView {
    pub public_key: Seq<char>,
    pub alias: Seq<char>,
    pub capacity: BtcAmount,
    pub first_seen: Seq<char>,
}

impl View for NodeResponse {
    type V = NodeResponseView;

    open spec fn view(&self) -> NodeResponseView {
        NodeResponseView {
            public_key: self.public_key@,
            alias: self.alias@,
            capacity: self.capacity,
            first_seen: self.first_seen@,
        }
    }
}

/// The scale that `rust_decimal` gives the quotient of two whole numbers.
pub uninterp spec fn quotient_scale(dividend: int, divisor: int) -> nat;

/// The text of the instant `epoch` seconds after 1970-01-01 00:00:00 UTC, or
/// `None` where the instant lies outside the dates that `chrono` holds.
pub uninterp spec fn utc_text(epoch: int) -> Option<Seq<char>>;

/// Divides `rust_decimal::Decimal::from(dividend)` by
/// `Decimal::from(divisor)` with `/` and takes the quotient apart with
/// `mantissa` and `scale`. The contract claims, for the one divisor it
/// admits, that the division is exact and that the quotient has at most
/// eight digits behind the point. Which of the equal decimals comes out (the
/// quotient may end in a zero) it leaves to the name `quotient_scale`.
#[verifier::external_body]
fn decimal_quotient(dividend: i64, divisor: u64) -> (parts: (i128, u32))
    requires
        divisor == SATS_PER_BTC,
    ensures
        parts.1 == quotient_scale(dividend as int, divisor as int),
        parts.1 <= BTC_DIGITS,
        parts.0 * pow10((BTC_DIGITS - parts.1) as nat) == dividend,
{
    let quotient = rust_decimal::Decimal::from(dividend) / rust_decimal::Decimal::from(divisor);
    (quotient.mantissa(), quotient.scale())
}

/// Makes the instant with `chrono::DateTime::from_timestamp(epoch, 0)` and
/// writes it out with `to_string`. The contract gives the outcome the name
/// `utc_text`: it claims that the outcome depends on `epoch` alone. It also
/// claims that there is a text exactly for the instants whose date `chrono`
/// holds, which are those of the years -262143 to 262142.
#[verifier::external_body]
fn render_utc(epoch: i64) -> (text: Option<String>)
    ensures
        text_view(text) == utc_text(epoch as int),
        text is Some <==> has_utc_text(epoch as int),
{
    match chrono::DateTime::from_timestamp(epoch, 0) {
        Some(instant) => Some(instant.to_string()),
        None => None,
    }
}

/// The amount `sats` of the smallest unit, in coins. The amount is exact.
pub fn sats_to_btc(sats: i64) -> (amount: BtcAmount)
    ensures
        amount.scale == quotient_scale(sats as int, SATS_PER_BTC as int),
        amount.scale <= BTC_DIGITS,
        amount.mantissa * pow10((BTC_DIGITS - amount.scale) as nat) == sats,
{
    let parts = decimal_quotient(sats, SATS_PER_BTC);
    BtcAmount { mantissa: parts.0, scale: parts.1 }
}

/// The instant `epoch`, in epoch seconds, as text in UTC. It is for the
/// instants that can be written, from `MIN_UTC_EPOCH` to `MAX_UTC_EPOCH`.
pub fn timestamp_from_epoch(epoch: i64) -> (text: String)
    requires
        MIN_UTC_EPOCH <= epoch <= MAX_UTC_EPOCH,
    ensures
        Some(text@) == utc_text(epoch as int),
{
    render_utc(epoch).unwrap()
}

/// Puts together what is shown of a node from its converted parts.
pub fn assemble_response(
    public_key: String,
    alias: String,
    capacity: BtcAmount,
    first_seen: String,
) -> (response: NodeResponse)
    ensures
        response@ == (NodeResponseView {
            public_key: public_key@,
            alias: alias@,
            capacity,
            first_seen: first_seen@,
        }),
{
    NodeResponse { public_key, alias, capacity, first_seen }
}

/// What is shown of a stored node: key and alias as they are, the capacity
/// in coins, the instant of `first_seen` as text. It is for rows whose
/// `first_seen` can be written.
pub fn node_response(public_key: String, alias: String, capacity: i64, first_seen: i64) -> (response:
    NodeResponse)
    requires
        MIN_UTC_EPOCH <= first_seen <= MAX_UTC_EPOCH,
    ensures
        response.public_key@ == public_key@,
        response.alias@ == alias@,
        response.capacity.scale == quotient_scale(capacity as int, SATS_PER_BTC as int),
        response.capacity.scale <= BTC_DIGITS,
        response.capacity.mantissa * pow10((BTC_DIGITS - response.capacity.scale) as nat)
            == capacity,
        Some(response.first_seen@) == utc_text(first_seen as int),
{
    let amount = sats_to_btc(capacity);
    let text = timestamp_from_epoch(first_seen);
    assemble_response(public_key, alias, amount, text)
}

} // verus!
