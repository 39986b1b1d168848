//! How the opening fee is taken out of the HTLCs of one payment.
use lightning::ln::channelmanager::InterceptId;
use crate::lsps2::channel::{lemma_total_amount_covers_each, sum_amounts, total_amount, InterceptedHTLC};
use vstd::prelude::*;

verus! {

/// The share of the fee that falls to an HTLC by its part in the payment:
/// the fee times the whole number of times that the payment goes into the
/// HTLC's amount. An HTLC that is less than the whole payment has no share.
pub open spec fn proportional_share(total_fee: nat, amount: nat, total_received: nat) -> nat {
    if total_received == 0 {
        0
    } else {
        total_fee * (amount / total_received)
    }
}

/// The smaller of two numbers.
pub open spec fn least(a: nat, b: nat) -> nat {
    if a <= b {
        a
    } else {
        b
    }
}

/// The fee taken from the first `n` HTLCs together, none of them being the
/// last: each pays its share as far as the fee is not yet paid.
pub open spec fn fee_taken_before(htlcs: Seq<InterceptedHTLC>, total_fee: nat, n: nat) -> nat
    decreases n,
{
    if n == 0 {
        0
    } else {
        let before = fee_taken_before(htlcs, total_fee, (n - 1) as nat);
        before + least(
            (total_fee - before) as nat,
            proportional_share(
                total_fee,
                htlcs[n - 1].expected_outbound_amount_msat as nat,
                total_amount(htlcs),
            ),
        )
    }
}

/// The fee taken from the HTLC at place `i`. The last HTLC pays its share
/// and whatever of the fee is then still unpaid.
pub open spec fn fee_taken_from(htlcs: Seq<InterceptedHTLC>, total_fee: nat, i: int) -> nat {
    if i == htlcs.len() - 1 {
        (total_fee - fee_taken_before(htlcs, total_fee, i as nat)) as nat
    } else {
        (fee_taken_before(htlcs, total_fee, (i + 1) as nat) - fee_taken_before(
            htlcs,
            total_fee,
            i as nat,
        )) as nat
    }
}

/// The amount forwarded for the HTLC at place `i`: its amount less the fee
/// taken from it, and nothing where the fee is the larger.
pub open spec fn amount_forwarded(htlcs: Seq<InterceptedHTLC>, total_fee: nat, i: int) -> nat {
    let amount = htlcs[i].expected_outbound_amount_msat as nat;
    let fee = fee_taken_from(htlcs, total_fee, i);
    if amount >= fee {
        (amount - fee) as nat
    } else {
        0
    }
}

/// What is forwarded for each HTLC of a payment of which
/// `total_amt_to_forward_msat` is to reach the client: nothing at all where
/// the HTLCs do not add up to that amount; else, in the order of the HTLCs,
/// each identifier with its amount, the fee being what the HTLCs hold beyond
/// the amount to forward.
pub open spec fn spec_amounts_to_forward(
    htlcs: Seq<InterceptedHTLC>,
    total_amt_to_forward_msat: u64,
) -> Seq<(InterceptId, u64)> {
    if total_amount(htlcs) < total_amt_to_forward_msat {
        Seq::empty()
    } else {
        Seq::new(
            htlcs.len(),
            |i: int|
                (
                    htlcs[i].intercept_id,
                    amount_forwarded(
                        htlcs,
                        (total_amount(htlcs) - total_amt_to_forward_msat) as nat,
                        i,
                    ) as u64,
                ),
        )
    }
}

/// The sum of the amounts of the given forwards.
pub open spec fn total_forwarded(forwards: Seq<(InterceptId, u64)>) -> nat
    decreases forwards.len(),
{
    if forwards.len() == 0 {
        0
    } else {
        total_forwarded(forwards.drop_last()) + forwards.last().1 as nat
    }
}

/// No more than the whole fee is ever taken.
pub proof fn lemma_fee_taken_is_bounded(htlcs: Seq<InterceptedHTLC>, total_fee: nat, n: nat)
    ensures
        fee_taken_before(htlcs, total_fee, n) <= total_fee,
    decreases n,
{
    if n > 0 {
        lemma_fee_taken_is_bounded(htlcs, total_fee, (n - 1) as nat);
    }
}

/// An HTLC's share is the whole fee or none of it.
pub proof fn lemma_share_is_all_or_nothing(htlcs: Seq<InterceptedHTLC>, total_fee: nat, i: int)
    requires
        0 <= i < htlcs.len(),
    ensures
        proportional_share(
            total_fee,
            htlcs[i].expected_outbound_amount_msat as nat,
            total_amount(htlcs),
        ) == if total_amount(htlcs) > 0 && htlcs[i].expected_outbound_amount_msat == total_amount(
            htlcs,
        ) {
            total_fee
        } else {
            0
        },
{
    let amount = htlcs[i].expected_outbound_amount_msat as nat;
    let total = total_amount(htlcs);
    lemma_total_amount_covers_each(htlcs, i);
    if total > 0 {
        if amount == total {
            assert(amount / total == 1) by (nonlinear_arith)
                requires
                    amount == total,
                    total > 0,
            ;
        } else {
            assert(amount / total == 0) by (nonlinear_arith)
                requires
                    amount < total,
            ;
        }
        assert(total_fee * 1 == total_fee && total_fee * 0 == 0) by (nonlinear_arith);
    }
}

/// What is forwarded for the HTLCs before place `n`, together with the fee
/// taken from them, is at least what they hold.
proof fn lemma_forwarded_before(
    htlcs: Seq<InterceptedHTLC>,
    total_fee: nat,
    forwards: Seq<(InterceptId, u64)>,
    n: nat,
)
    requires
        forwards.len() == htlcs.len(),
        forall|i: int|
            0 <= i < htlcs.len() ==> (#[trigger] forwards[i]).1 == amount_forwarded(
                htlcs,
                total_fee,
                i,
            ),
        n < htlcs.len(),
    ensures
        total_forwarded(forwards.take(n as int)) + fee_taken_before(htlcs, total_fee, n)
            >= total_amount(htlcs.take(n as int)),
    decreases n,
{
    if n > 0 {
        lemma_forwarded_before(htlcs, total_fee, forwards, (n - 1) as nat);
        lemma_fee_taken_is_bounded(htlcs, total_fee, (n - 1) as nat);
        assert(forwards.take(n as int).drop_last() =~= forwards.take(n - 1));
        assert(htlcs.take(n as int).drop_last() =~= htlcs.take(n - 1));
        assert(forwards.take(n as int).last() == forwards[n - 1]);
        assert(htlcs.take(n as int).last() == htlcs[n - 1]);
    }
}

/// Where the HTLCs of a payment hold less than the amount to forward,
/// nothing is forwarded. Else one amount is forwarded for each HTLC, in the
/// order of the HTLCs and under their identifiers; none is more than its
/// HTLC holds; and together they are at least the amount to forward.
pub proof fn lemma_amounts_to_forward(htlcs: Seq<InterceptedHTLC>, total_amt_to_forward_msat: u64)
    ensures
        total_amount(htlcs) < total_amt_to_forward_msat ==> spec_amounts_to_forward(
            htlcs,
            total_amt_to_forward_msat,
        ).len() == 0,
        total_amount(htlcs) >= total_amt_to_forward_msat ==> {
            let forwards = spec_amounts_to_forward(htlcs, total_amt_to_forward_msat);
            &&& forwards.len() == htlcs.len()
            &&& forall|i: int|
                0 <= i < htlcs.len() ==> (#[trigger] forwards[i]).0 == htlcs[i].intercept_id
            &&& forall|i: int|
                0 <= i < htlcs.len() ==> (#[trigger] forwards[i]).1
                    <= htlcs[i].expected_outbound_amount_msat
            &&& total_forwarded(forwards) >= total_amt_to_forward_msat
        },
{
    if total_amount(htlcs) >= total_amt_to_forward_msat {
        let forwards = spec_amounts_to_forward(htlcs, total_amt_to_forward_msat);
        let total_fee = (total_amount(htlcs) - total_amt_to_forward_msat) as nat;
        if htlcs.len() > 0 {
            let last = (htlcs.len() - 1) as nat;
            lemma_forwarded_before(htlcs, total_fee, forwards, last);
            lemma_fee_taken_is_bounded(htlcs, total_fee, last);
            assert(forwards.drop_last() =~= forwards.take(last as int));
            assert(htlcs.drop_last() =~= htlcs.take(last as int));
        }
    }
}

/// Splits the fee of a payment over its HTLCs and returns, in their order,
/// what is to be forwarded for each.
///
/// The fee is what the HTLCs hold beyond `total_amt_to_forward_msat`. Where
/// they hold less than that amount, nothing is forwarded and the result is
/// empty.
pub fn calculate_amount_to_forward_per_htlc(
    htlcs: &[InterceptedHTLC],
    total_amt_to_forward_msat: u64,
) -> (forwards: Vec<(InterceptId, u64)>)
    ensures
        forwards@ == spec_amounts_to_forward(htlcs@, total_amt_to_forward_msat),
        total_amount(htlcs@) < total_amt_to_forward_msat ==> forwards@.len() == 0,
        total_amount(htlcs@) >= total_amt_to_forward_msat ==> {
            &&& forwards@.len() == htlcs@.len()
            &&& forall|i: int|
                0 <= i < htlcs@.len() ==> (#[trigger] forwards@[i]).0 == htlcs@[i].intercept_id
            &&& forall|i: int|
                0 <= i < htlcs@.len() ==> (#[trigger] forwards@[i]).1
                    <= htlcs@[i].expected_outbound_amount_msat
            &&& total_forwarded(forwards@) >= total_amt_to_forward_msat
        },
{
    proof {
        lemma_amounts_to_forward(htlcs@, total_amt_to_forward_msat);
    }
    let total_received_msat: u128 = sum_amounts(htlcs);
    let mut per_htlc_forwards: Vec<(InterceptId, u64)> = Vec::new();
    if total_received_msat < total_amt_to_forward_msat as u128 {
        return per_htlc_forwards;
    }
    let total_fee_msat: u128 = total_received_msat - total_amt_to_forward_msat as u128;
    let mut fee_remaining_msat: u128 = total_fee_msat;
    let mut index: usize = 0;
    while index < htlcs.len()
        invariant
            0 <= index <= htlcs.len(),
            total_received_msat == total_amount(htlcs@),
            total_fee_msat == total_received_msat - total_amt_to_forward_msat,
            fee_remaining_msat + fee_taken_before(htlcs@, total_fee_msat as nat, index as nat)
                == total_fee_msat,
            per_htlc_forwards@.len() == index,
            forall|i: int|
                0 <= i < index ==> per_htlc_forwards@[i] == (
                    htlcs@[i].intercept_id,
                    amount_forwarded(htlcs@, total_fee_msat as nat, i) as u64,
                ),
        decreases htlcs.len() - index,
    {
        let htlc = htlcs[index];
        let amount: u128 = htlc.expected_outbound_amount_msat as u128;
        proof {
            lemma_share_is_all_or_nothing(htlcs@, total_fee_msat as nat, index as int);
            lemma_total_amount_covers_each(htlcs@, index as int);
            lemma_fee_taken_is_bounded(htlcs@, total_fee_msat as nat, index as nat);
            lemma_fee_taken_is_bounded(htlcs@, total_fee_msat as nat, (index + 1) as nat);
        }
        let proportional_fee_amt_msat: u128 = if total_received_msat == 0 {
            0
        } else {
            let times: u128 = amount / total_received_msat;
            assert(times == 0 || times == 1) by (nonlinear_arith)
                requires
                    times == amount / total_received_msat,
                    amount <= total_received_msat,
                    total_received_msat > 0,
            ;
            assert(total_fee_msat * times <= total_fee_msat) by (nonlinear_arith)
                requires
                    times == 0 || times == 1,
            ;
            total_fee_msat * times
        };
        let mut actual_fee_amt_msat: u128 = if fee_remaining_msat <= proportional_fee_amt_msat {
            fee_remaining_msat
        } else {
            proportional_fee_amt_msat
        };
        fee_remaining_msat = fee_remaining_msat - actual_fee_amt_msat;
        if index == htlcs.len() - 1 {
            actual_fee_amt_msat = actual_fee_amt_msat + fee_remaining_msat;
        }
        assert(actual_fee_amt_msat == fee_taken_from(htlcs@, total_fee_msat as nat, index as int));
        let amount_to_forward_msat: u64 = if amount >= actual_fee_amt_msat {
            (amount - actual_fee_amt_msat) as u64
        } else {
            0
        };
        per_htlc_forwards.push((htlc.intercept_id, amount_to_forward_msat));
        index += 1;
    }
    assert(per_htlc_forwards@ =~= spec_amounts_to_forward(htlcs@, total_amt_to_forward_msat));
    per_htlc_forwards
}

} // verus!
