//! The lifecycle of one just-in-time channel.
//!
//! A channel waits for the client's payment, then for the host to open the
//! channel, and is then ready to carry the payment. It never goes back.
use lightning::ln::channelmanager::InterceptId;
use crate::lsps2::msgs::OpeningFeeParams;
use crate::lsps2::utils::{compute_opening_fee, spec_compute_opening_fee};
use vstd::prelude::*;

verus! {

/// An HTLC that the node holds back until the channel is open.
#[derive(Clone, Copy, Debug, PartialEq, Eq)]
pub struct InterceptedHTLC {
    /// The node's identifier of the HTLC.
    pub intercept_id: InterceptId,
    /// The amount that the sender expects to be forwarded, in millisatoshi.
    pub expected_outbound_amount_msat: u64,
}

/// The three stages of a channel's life, in the order in which they come.
#[derive(Clone, Copy, Debug, PartialEq, Eq)]
pub enum ChannelStage {
    /// The payment has not arrived in full.
    AwaitingPayment,
    /// The payment has arrived and the host is opening the channel.
    PendingChannelOpen,
    /// The channel is open.
    ChannelReady,
}

/// Why a channel refused an event.
#[derive(Clone, Copy, Debug, PartialEq, Eq)]
pub enum ChannelStateError {
    /// A second HTLC arrived for a payment that must arrive in one part.
    MultipleHtlcsWithoutMpp,
    /// The payment is smaller or larger than the menu entry allows.
    PaymentSizeOutOfBounds {
        expected_payment_size_msat: u64,
        min_payment_size_msat: u64,
        max_payment_size_msat: u64,
    },
    /// The opening fee of the payment cannot be computed in 64 bits.
    OpeningFeeOverflow { min_fee_msat: u64, proportional: u32, expected_payment_size_msat: u64 },
    /// The single HTLC of the payment does not cover the opening fee.
    HtlcTooSmall,
    /// An HTLC arrived at a channel that no longer awaits its payment.
    UnexpectedHtlc(ChannelStage),
    /// The channel was reported ready although its opening was not pending.
    UnexpectedChannelReady(ChannelStage),
    /// A transition ended in a stage that it cannot reach.
    ImpossibleTransition(ChannelStage),
}

/// The sum of the amounts of the given HTLCs.
pub open spec fn total_amount(htlcs: Seq<InterceptedHTLC>) -> nat
    decreases htlcs.len(),
{
    if htlcs.len() == 0 {
        0
    } else {
        total_amount(htlcs.drop_last()) + htlcs.last().expected_outbound_amount_msat as nat
    }
}

/// The sum over a prefix is at most the sum over the whole.
pub proof fn lemma_total_amount_of_prefix(htlcs: Seq<InterceptedHTLC>, n: int)
    requires
        0 <= n <= htlcs.len(),
    ensures
        total_amount(htlcs.take(n)) <= total_amount(htlcs),
    decreases htlcs.len(),
{
    if n == htlcs.len() {
        assert(htlcs.take(n) =~= htlcs);
    } else {
        lemma_total_amount_of_prefix(htlcs.drop_last(), n);
        assert(htlcs.drop_last().take(n) =~= htlcs.take(n));
    }
}

/// The sum over a single HTLC is its amount.
pub proof fn lemma_total_amount_of_one(htlcs: Seq<InterceptedHTLC>)
    requires
        htlcs.len() == 1,
    ensures
        total_amount(htlcs) == htlcs[0].expected_outbound_amount_msat,
{
    assert(htlcs.drop_last() =~= Seq::<InterceptedHTLC>::empty());
    reveal_with_fuel(total_amount, 2);
}

/// Each amount is at most the sum of all.
pub proof fn lemma_total_amount_covers_each(htlcs: Seq<InterceptedHTLC>, i: int)
    requires
        0 <= i < htlcs.len(),
    ensures
        htlcs[i].expected_outbound_amount_msat <= total_amount(htlcs),
{
    lemma_total_amount_of_prefix(htlcs, i + 1);
    assert(htlcs.take(i + 1).last() == htlcs[i]);
}

/// Adds up the amounts of the given HTLCs. The sum of any list that fits in
/// memory fits in 128 bits.
pub fn sum_amounts(htlcs: &[InterceptedHTLC]) -> (total: u128)
    ensures
        total == total_amount(htlcs@),
{
    let mut sum: u128 = 0;
    let mut i: usize = 0;
    while i < htlcs.len()
        invariant
            0 <= i <= htlcs.len(),
            sum == total_amount(htlcs@.take(i as int)),
            sum <= i * 0xffff_ffff_ffff_ffff,
        decreases htlcs.len() - i,
    {
        proof {
            assert(htlcs@.take(i + 1).drop_last() =~= htlcs@.take(i as int));
            assert((i + 1) * 0xffff_ffff_ffff_ffff <= 0x1_0000_0000_0000_0000
                * 0xffff_ffff_ffff_ffff) by (nonlinear_arith)
                requires
                    i + 1 <= 0x1_0000_0000_0000_0000,
            ;
            assert(i * 0xffff_ffff_ffff_ffff + 0xffff_ffff_ffff_ffff == (i + 1)
                * 0xffff_ffff_ffff_ffff) by (nonlinear_arith);
        }
        sum = sum + htlcs[i].expected_outbound_amount_msat as u128;
        i += 1;
    }
    assert(htlcs@.take(i as int) =~= htlcs@);
    sum
}

/// Where a channel stands, with what it has gathered so far.
#[derive(Debug, PartialEq, Eq)]
pub enum OutboundJITChannelState {
    /// The channel waits for the payment. The terms are those of the menu
    /// entry that the client bought on.
    AwaitingPayment {
        min_fee_msat: u64,
        proportional_fee: u32,
        min_payment_size_msat: u64,
        max_payment_size_msat: u64,
        htlcs: Vec<InterceptedHTLC>,
        payment_size_msat: Option<u64>,
    },
    /// The payment is complete and the host has been asked to open the
    /// channel.
    PendingChannelOpen { htlcs: Vec<InterceptedHTLC>, opening_fee_msat: u64, amt_to_forward_msat: u64 },
    /// The channel is open and the payment can be forwarded.
    ChannelReady { htlcs: Vec<InterceptedHTLC>, amt_to_forward_msat: u64 },
}

/// The mathematical content of an [`OutboundJITChannelState`].
pub enum ChannelStateView {
    AwaitingPayment {
        min_fee_msat: u64,
        proportional_fee: u32,
        min_payment_size_msat: u64,
        max_payment_size_msat: u64,
        htlcs: Seq<InterceptedHTLC>,
        payment_size_msat: Option<u64>,
    },
    PendingChannelOpen { htlcs: Seq<InterceptedHTLC>, opening_fee_msat: u64, amt_to_forward_msat: u64 },
    ChannelReady { htlcs: Seq<InterceptedHTLC>, amt_to_forward_msat: u64 },
}

impl View for OutboundJITChannelState {
    type V = ChannelStateView;

    open spec fn view(&self) -> ChannelStateView {
        match self {
            OutboundJITChannelState::AwaitingPayment {
                min_fee_msat,
                proportional_fee,
                min_payment_size_msat,
                max_payment_size_msat,
                htlcs,
                payment_size_msat,
            } => ChannelStateView::AwaitingPayment {
                min_fee_msat: *min_fee_msat,
                proportional_fee: *proportional_fee,
                min_payment_size_msat: *min_payment_size_msat,
                max_payment_size_msat: *max_payment_size_msat,
                htlcs: htlcs@,
                payment_size_msat: *payment_size_msat,
            },
            OutboundJITChannelState::PendingChannelOpen {
                htlcs,
                opening_fee_msat,
                amt_to_forward_msat,
            } => ChannelStateView::PendingChannelOpen {
                htlcs: htlcs@,
                opening_fee_msat: *opening_fee_msat,
                amt_to_forward_msat: *amt_to_forward_msat,
            },
            OutboundJITChannelState::ChannelReady {
                htlcs,
                amt_to_forward_msat,
            } => ChannelStateView::ChannelReady {
                htlcs: htlcs@,
                amt_to_forward_msat: *amt_to_forward_msat,
            },
        }
    }
}

impl ChannelStateView {
    /// The stage of the channel.
    pub open spec fn stage(self) -> ChannelStage {
        match self {
            ChannelStateView::AwaitingPayment { .. } => ChannelStage::AwaitingPayment,
            ChannelStateView::PendingChannelOpen { .. } => ChannelStage::PendingChannelOpen,
            ChannelStateView::ChannelReady { .. } => ChannelStage::ChannelReady,
        }
    }

    /// The HTLCs gathered so far, in the order of their arrival.
    pub open spec fn htlcs(self) -> Seq<InterceptedHTLC> {
        match self {
            ChannelStateView::AwaitingPayment { htlcs, .. } => htlcs,
            ChannelStateView::PendingChannelOpen { htlcs, .. } => htlcs,
            ChannelStateView::ChannelReady { htlcs, .. } => htlcs,
        }
    }

    /// What holds of the amounts once the channel has left its first stage:
    /// something is left to forward, and the HTLCs gathered cover it, and
    /// the fee with it while the fee is still on record.
    pub open spec fn is_funded(self) -> bool {
        match self {
            ChannelStateView::AwaitingPayment { .. } => true,
            ChannelStateView::PendingChannelOpen { htlcs, opening_fee_msat, amt_to_forward_msat } => {
                &&& amt_to_forward_msat > 0
                &&& amt_to_forward_msat + opening_fee_msat <= total_amount(htlcs)
            },
            ChannelStateView::ChannelReady { htlcs, amt_to_forward_msat } => {
                &&& amt_to_forward_msat > 0
                &&& amt_to_forward_msat <= total_amount(htlcs)
            },
        }
    }

    /// The first stage of a channel bought on the given terms.
    pub open spec fn initial(
        payment_size_msat: Option<u64>,
        opening_fee_params: OpeningFeeParams,
    ) -> ChannelStateView {
        ChannelStateView::AwaitingPayment {
            min_fee_msat: opening_fee_params.min_fee_msat,
            proportional_fee: opening_fee_params.proportional,
            min_payment_size_msat: opening_fee_params.min_payment_size_msat,
            max_payment_size_msat: opening_fee_params.max_payment_size_msat,
            htlcs: Seq::empty(),
            payment_size_msat,
        }
    }

    /// What becomes of the channel when one more HTLC is intercepted.
    ///
    /// Only a channel that awaits its payment takes an HTLC. The HTLC joins
    /// those gathered before. With a fixed payment size the payment may come
    /// in parts and the size is the one fixed; without, it must come in one
    /// part, whose amount is the size. The size must lie within the bounds
    /// of the menu entry, and its opening fee must be computable. Once the
    /// HTLCs cover the size and something is left after the fee, the channel
    /// goes on to its second stage. Until then a payment in parts waits for
    /// more, and a payment in one part has failed.
    pub open spec fn htlc_intercepted(self, htlc: InterceptedHTLC) -> Result<
        ChannelStateView,
        ChannelStateError,
    > {
        match self {
            ChannelStateView::AwaitingPayment {
                min_fee_msat,
                proportional_fee,
                min_payment_size_msat,
                max_payment_size_msat,
                htlcs,
                payment_size_msat,
            } => {
                let gathered = htlcs.push(htlc);
                let total_in = total_amount(gathered);
                let expected: nat = match payment_size_msat {
                    Some(size) => size as nat,
                    None => total_in,
                };
                let fee = spec_compute_opening_fee(
                    expected as u64,
                    min_fee_msat,
                    proportional_fee as u64,
                );
                if payment_size_msat is None && gathered.len() != 1 {
                    Err(ChannelStateError::MultipleHtlcsWithoutMpp)
                } else if expected < min_payment_size_msat || expected > max_payment_size_msat {
                    Err(
                        ChannelStateError::PaymentSizeOutOfBounds {
                            expected_payment_size_msat: expected as u64,
                            min_payment_size_msat,
                            max_payment_size_msat,
                        },
                    )
                } else if fee is None {
                    Err(
                        ChannelStateError::OpeningFeeOverflow {
                            min_fee_msat,
                            proportional: proportional_fee,
                            expected_payment_size_msat: expected as u64,
                        },
                    )
                } else if total_in >= expected && expected > fee->0 {
                    Ok(
                        ChannelStateView::PendingChannelOpen {
                            htlcs: gathered,
                            opening_fee_msat: fee->0,
                            amt_to_forward_msat: (expected - fee->0) as u64,
                        },
                    )
                } else if payment_size_msat is Some {
                    Ok(
                        ChannelStateView::AwaitingPayment {
                            min_fee_msat,
                            proportional_fee,
                            min_payment_size_msat,
                            max_payment_size_msat,
                            htlcs: gathered,
                            payment_size_msat,
                        },
                    )
                } else {
                    Err(ChannelStateError::HtlcTooSmall)
                }
            },
            _ => Err(ChannelStateError::UnexpectedHtlc(self.stage())),
        }
    }

    /// What becomes of the channel when the host reports it open: a channel
    /// whose opening was pending is ready, with the same HTLCs and the same
    /// amount to forward.
    pub open spec fn channel_ready(self) -> Result<ChannelStateView, ChannelStateError> {
        match self {
            ChannelStateView::PendingChannelOpen { htlcs, amt_to_forward_msat, .. } => Ok(
                ChannelStateView::ChannelReady { htlcs, amt_to_forward_msat },
            ),
            _ => Err(ChannelStateError::UnexpectedChannelReady(self.stage())),
        }
    }
}

/// The place of a stage in the order of a channel's life.
pub open spec fn stage_rank(stage: ChannelStage) -> nat {
    match stage {
        ChannelStage::AwaitingPayment => 0,
        ChannelStage::PendingChannelOpen => 1,
        ChannelStage::ChannelReady => 2,
    }
}

/// Copies a list of HTLCs.
fn copy_htlcs(htlcs: &Vec<InterceptedHTLC>) -> (copy: Vec<InterceptedHTLC>)
    ensures
        copy@ == htlcs@,
{
    let mut copy: Vec<InterceptedHTLC> = Vec::new();
    let mut i: usize = 0;
    while i < htlcs.len()
        invariant
            0 <= i <= htlcs.len(),
            copy@ == htlcs@.take(i as int),
        decreases htlcs.len() - i,
    {
        copy.push(htlcs[i]);
        assert(htlcs@.take(i + 1) =~= htlcs@.take(i as int).push(htlcs@[i as int]));
        i += 1;
    }
    assert(htlcs@.take(i as int) =~= htlcs@);
    copy
}

impl OutboundJITChannelState {
    /// The first stage of a channel bought on the given terms: no HTLC has
    /// arrived yet.
    pub fn new(payment_size_msat: Option<u64>, opening_fee_params: OpeningFeeParams) -> (state:
        OutboundJITChannelState)
        ensures
            state@ == ChannelStateView::initial(payment_size_msat, opening_fee_params),
    {
        OutboundJITChannelState::AwaitingPayment {
            min_fee_msat: opening_fee_params.min_fee_msat,
            proportional_fee: opening_fee_params.proportional,
            min_payment_size_msat: opening_fee_params.min_payment_size_msat,
            max_payment_size_msat: opening_fee_params.max_payment_size_msat,
            htlcs: Vec::new(),
            payment_size_msat,
        }
    }

    /// The stage of the channel.
    pub fn stage(&self) -> (stage: ChannelStage)
        ensures
            stage == self@.stage(),
    {
        match self {
            OutboundJITChannelState::AwaitingPayment { .. } => ChannelStage::AwaitingPayment,
            OutboundJITChannelState::PendingChannelOpen { .. } => ChannelStage::PendingChannelOpen,
            OutboundJITChannelState::ChannelReady { .. } => ChannelStage::ChannelReady,
        }
    }

    /// The state that follows when one more HTLC is intercepted, or the
    /// reason why the channel refuses it.
    pub fn htlc_intercepted(&self, htlc: InterceptedHTLC) -> (next: Result<
        OutboundJITChannelState,
        ChannelStateError,
    >)
        ensures
            match next {
                Ok(state) => self@.htlc_intercepted(htlc) == Ok::<
                    ChannelStateView,
                    ChannelStateError,
                >(state@),
                Err(error) => self@.htlc_intercepted(htlc) == Err::<
                    ChannelStateView,
                    ChannelStateError,
                >(error),
            },
    {
        match self {
            OutboundJITChannelState::AwaitingPayment {
                min_fee_msat,
                proportional_fee,
                min_payment_size_msat,
                max_payment_size_msat,
                htlcs,
                payment_size_msat,
            } => {
                let mut gathered = copy_htlcs(htlcs);
                gathered.push(htlc);
                let total_in = sum_amounts(gathered.as_slice());
                let (expected, mpp_mode) = match payment_size_msat {
                    Some(size) => (*size, true),
                    None => {
                        if gathered.len() != 1 {
                            return Err(ChannelStateError::MultipleHtlcsWithoutMpp);
                        }
                        proof {
                            lemma_total_amount_of_one(gathered@);
                        }
                        (htlc.expected_outbound_amount_msat, false)
                    },
                };
                if expected < *min_payment_size_msat || expected > *max_payment_size_msat {
                    return Err(
                        ChannelStateError::PaymentSizeOutOfBounds {
                            expected_payment_size_msat: expected,
                            min_payment_size_msat: *min_payment_size_msat,
                            max_payment_size_msat: *max_payment_size_msat,
                        },
                    );
                }
                let opening_fee_msat = match compute_opening_fee(
                    expected,
                    *min_fee_msat,
                    *proportional_fee as u64,
                ) {
                    Some(fee) => fee,
                    None => {
                        return Err(
                            ChannelStateError::OpeningFeeOverflow {
                                min_fee_msat: *min_fee_msat,
                                proportional: *proportional_fee,
                                expected_payment_size_msat: expected,
                            },
                        );
                    },
                };
                let amt_to_forward_msat = expected.saturating_sub(opening_fee_msat);
                if total_in >= expected as u128 && amt_to_forward_msat > 0 {
                    Ok(
                        OutboundJITChannelState::PendingChannelOpen {
                            htlcs: gathered,
                            opening_fee_msat,
                            amt_to_forward_msat,
                        },
                    )
                } else if mpp_mode {
                    Ok(
                        OutboundJITChannelState::AwaitingPayment {
                            min_fee_msat: *min_fee_msat,
                            proportional_fee: *proportional_fee,
                            min_payment_size_msat: *min_payment_size_msat,
                            max_payment_size_msat: *max_payment_size_msat,
                            htlcs: gathered,
                            payment_size_msat: *payment_size_msat,
                        },
                    )
                } else {
                    Err(ChannelStateError::HtlcTooSmall)
                }
            },
            _ => Err(ChannelStateError::UnexpectedHtlc(self.stage())),
        }
    }

    /// The state that follows when the host reports the channel open, or the
    /// reason why the channel refuses the report.
    pub fn channel_ready(&self) -> (next: Result<OutboundJITChannelState, ChannelStateError>)
        ensures
            match next {
                Ok(state) => self@.channel_ready() == Ok::<ChannelStateView, ChannelStateError>(
                    state@,
                ),
                Err(error) => self@.channel_ready() == Err::<ChannelStateView, ChannelStateError>(
                    error,
                ),
            },
    {
        match self {
            OutboundJITChannelState::PendingChannelOpen { htlcs, amt_to_forward_msat, .. } => Ok(
                OutboundJITChannelState::ChannelReady {
                    htlcs: copy_htlcs(htlcs),
                    amt_to_forward_msat: *amt_to_forward_msat,
                },
            ),
            _ => Err(ChannelStateError::UnexpectedChannelReady(self.stage())),
        }
    }
}

/// A channel with the identifier that the host knows it by.
#[derive(Debug, PartialEq, Eq)]
pub struct OutboundJITChannel {
    state: OutboundJITChannelState,
    user_channel_id: u128,
}

/// The mathematical content of an [`OutboundJITChannel`].
pub struct ChannelView {
    pub state: ChannelStateView,
    pub user_channel_id: u128,
}

impl View for OutboundJITChannel {
    type V = ChannelView;

    closed spec fn view(&self) -> ChannelView {
        ChannelView { state: self.state@, user_channel_id: self.user_channel_id }
    }
}

impl ChannelView {
    /// A channel bought on the given terms, before any HTLC has arrived.
    pub open spec fn initial(
        payment_size_msat: Option<u64>,
        opening_fee_params: OpeningFeeParams,
        user_channel_id: u128,
    ) -> ChannelView {
        ChannelView {
            state: ChannelStateView::initial(payment_size_msat, opening_fee_params),
            user_channel_id,
        }
    }

    /// What an intercepted HTLC asks of the host: to open a channel, with
    /// the opening fee and the amount to forward, once the channel has
    /// reached its second stage, and nothing before.
    pub open spec fn open_request(self) -> Option<(u64, u64)> {
        match self.state {
            ChannelStateView::PendingChannelOpen { opening_fee_msat, amt_to_forward_msat, .. } => Some(
                (opening_fee_msat, amt_to_forward_msat),
            ),
            _ => None,
        }
    }
}

impl OutboundJITChannel {
    /// A channel bought on the given terms, before any HTLC has arrived.
    pub fn new(
        payment_size_msat: Option<u64>,
        opening_fee_params: OpeningFeeParams,
        user_channel_id: u128,
    ) -> (channel: OutboundJITChannel)
        ensures
            channel@ == ChannelView::initial(payment_size_msat, opening_fee_params, user_channel_id),
    {
        OutboundJITChannel {
            user_channel_id,
            state: OutboundJITChannelState::new(payment_size_msat, opening_fee_params),
        }
    }

    /// The identifier that the host knows the channel by.
    pub fn user_channel_id(&self) -> (id: u128)
        ensures
            id == self@.user_channel_id,
    {
        self.user_channel_id
    }

    /// The stage of the channel.
    pub fn stage(&self) -> (stage: ChannelStage)
        ensures
            stage == self@.state.stage(),
    {
        self.state.stage()
    }

    /// Takes one more intercepted HTLC.
    ///
    /// Where the state accepts it, the channel moves to the state that
    /// follows, and the result tells whether the host must now open the
    /// channel: the opening fee and the amount to forward, or nothing while
    /// the payment is incomplete. Where the state refuses it, the channel
    /// stays as it was.
    pub fn htlc_intercepted(&mut self, htlc: InterceptedHTLC) -> (outcome: Result<
        Option<(u64, u64)>,
        ChannelStateError,
    >)
        ensures
            final(self)@.user_channel_id == old(self)@.user_channel_id,
            match old(self)@.state.htlc_intercepted(htlc) {
                Ok(state) => final(self)@.state == state && outcome == Ok::<
                    Option<(u64, u64)>,
                    ChannelStateError,
                >(final(self)@.open_request()),
                Err(error) => final(self)@ == old(self)@ && outcome == Err::<
                    Option<(u64, u64)>,
                    ChannelStateError,
                >(error),
            },
    {
        let next = match self.state.htlc_intercepted(htlc) {
            Ok(state) => state,
            Err(error) => {
                return Err(error);
            },
        };
        self.state = next;
        match &self.state {
            OutboundJITChannelState::AwaitingPayment { .. } => Ok(None),
            OutboundJITChannelState::PendingChannelOpen {
                opening_fee_msat,
                amt_to_forward_msat,
                ..
            } => Ok(Some((*opening_fee_msat, *amt_to_forward_msat))),
            OutboundJITChannelState::ChannelReady { .. } => Err(
                ChannelStateError::ImpossibleTransition(ChannelStage::ChannelReady),
            ),
        }
    }

    /// Takes the host's report that the channel is open.
    ///
    /// A channel whose opening was pending becomes ready and hands out the
    /// HTLCs it gathered with the total amount to forward. Any other channel
    /// stays as it was.
    pub fn channel_ready(&mut self) -> (outcome: Result<
        (Vec<InterceptedHTLC>, u64),
        ChannelStateError,
    >)
        ensures
            final(self)@.user_channel_id == old(self)@.user_channel_id,
            match old(self)@.state.channel_ready() {
                Ok(state) => {
                    &&& final(self)@.state == state
                    &&& outcome is Ok
                    &&& state matches ChannelStateView::ChannelReady { htlcs, amt_to_forward_msat }
                    &&& outcome->Ok_0.0@ == htlcs
                    &&& outcome->Ok_0.1 == amt_to_forward_msat
                },
                Err(error) => final(self)@ == old(self)@ && outcome == Err::<
                    (Vec<InterceptedHTLC>, u64),
                    ChannelStateError,
                >(error),
            },
    {
        let next = match self.state.channel_ready() {
            Ok(state) => state,
            Err(error) => {
                return Err(error);
            },
        };
        self.state = next;
        match &self.state {
            OutboundJITChannelState::ChannelReady { htlcs, amt_to_forward_msat } => Ok(
                (copy_htlcs(htlcs), *amt_to_forward_msat),
            ),
            OutboundJITChannelState::AwaitingPayment { .. } => Err(
                ChannelStateError::ImpossibleTransition(ChannelStage::AwaitingPayment),
            ),
            OutboundJITChannelState::PendingChannelOpen { .. } => Err(
                ChannelStateError::ImpossibleTransition(ChannelStage::PendingChannelOpen),
            ),
        }
    }
}

/// An intercepted HTLC leaves a channel in its first stage or takes it to
/// the second, and each further stage refuses it: the channel never goes
/// back and never skips a stage.
pub proof fn lemma_htlc_intercepted_progress(state: ChannelStateView, htlc: InterceptedHTLC)
    ensures
        state.stage() != ChannelStage::AwaitingPayment ==> state.htlc_intercepted(htlc) is Err,
        state.htlc_intercepted(htlc) matches Ok(next) ==> {
            &&& stage_rank(state.stage()) <= stage_rank(next.stage()) <= stage_rank(state.stage()) + 1
            &&& next.stage() != ChannelStage::ChannelReady
            &&& next.htlcs() == state.htlcs().push(htlc)
        },
{
}

/// The report that the channel is open takes a channel from its second
/// stage to its third, and every other stage refuses it.
pub proof fn lemma_channel_ready_progress(state: ChannelStateView)
    ensures
        state.channel_ready() is Ok <==> state.stage() == ChannelStage::PendingChannelOpen,
        state.channel_ready() matches Ok(next) ==> {
            &&& next.stage() == ChannelStage::ChannelReady
            &&& stage_rank(next.stage()) == stage_rank(state.stage()) + 1
            &&& next.htlcs() == state.htlcs()
        },
{
}

/// When an intercepted HTLC takes a channel to its second stage, the HTLCs
/// gathered cover the payment, and the amount to forward is the payment less
/// the opening fee, and more than nothing.
pub proof fn lemma_pending_channel_is_funded(state: ChannelStateView, htlc: InterceptedHTLC)
    ensures
        state.htlc_intercepted(htlc) matches Ok(next) ==> next.is_funded(),
        state.htlc_intercepted(htlc) matches Ok(
            ChannelStateView::PendingChannelOpen { htlcs, opening_fee_msat, amt_to_forward_msat },
        ) ==> {
            &&& state matches ChannelStateView::AwaitingPayment {
                min_fee_msat,
                proportional_fee,
                payment_size_msat,
                min_payment_size_msat,
                max_payment_size_msat,
                ..
            }
            &&& {
                let expected: u64 = match payment_size_msat {
                    Some(size) => size,
                    None => htlc.expected_outbound_amount_msat,
                };
                &&& min_payment_size_msat <= expected <= max_payment_size_msat
                &&& Some(opening_fee_msat) == spec_compute_opening_fee(
                    expected,
                    min_fee_msat,
                    proportional_fee as u64,
                )
                &&& amt_to_forward_msat == expected - opening_fee_msat
                &&& amt_to_forward_msat > 0
                &&& total_amount(htlcs) >= expected
            }
        },
{
    if let ChannelStateView::AwaitingPayment { htlcs, payment_size_msat, .. } = state {
        let gathered = htlcs.push(htlc);
        if payment_size_msat is None && gathered.len() == 1 {
            lemma_total_amount_of_one(gathered);
        }
    }
}

/// A funded channel stays funded when it becomes ready.
pub proof fn lemma_ready_channel_is_funded(state: ChannelStateView)
    requires
        state.is_funded(),
    ensures
        state.channel_ready() matches Ok(next) ==> next.is_funded(),
{
}

} // verus!
