use lightning::ln::channelmanager::InterceptId;
use lsps2_service::lsps2::channel::{
    ChannelStage, ChannelStateError, InterceptedHTLC, OutboundJITChannel, OutboundJITChannelState,
};
use lsps2_service::lsps2::msgs::OpeningFeeParams;

fn terms() -> OpeningFeeParams {
    OpeningFeeParams {
        min_fee_msat: 1_000,
        proportional: 100_000,
        valid_until: 2_000_000_000,
        min_lifetime: 144,
        max_client_to_self_delay: 128,
        min_payment_size_msat: 1_000,
        max_payment_size_msat: 1_000_000,
        promise: [0u8; 32],
    }
}

fn htlc(id: u8, amount: u64) -> InterceptedHTLC {
    InterceptedHTLC { intercept_id: InterceptId([id; 32]), expected_outbound_amount_msat: amount }
}

#[test]
fn a_new_channel_awaits_its_payment() {
    let state = OutboundJITChannelState::new(Some(500_000), terms());
    assert_eq!(
        state,
        OutboundJITChannelState::AwaitingPayment {
            min_fee_msat: 1_000,
            proportional_fee: 100_000,
            min_payment_size_msat: 1_000,
            max_payment_size_msat: 1_000_000,
            htlcs: vec![],
            payment_size_msat: Some(500_000),
        }
    );
    assert_eq!(state.stage(), ChannelStage::AwaitingPayment);
}

#[test]
fn a_fixed_payment_in_one_part_opens_the_channel() {
    let state = OutboundJITChannelState::new(Some(500_000), terms());
    let next = state.htlc_intercepted(htlc(0, 500_000));
    assert_eq!(
        next,
        Ok(OutboundJITChannelState::PendingChannelOpen {
            htlcs: vec![htlc(0, 500_000)],
            opening_fee_msat: 50_000,
            amt_to_forward_msat: 450_000,
        })
    );
}

#[test]
fn a_fixed_payment_in_parts_waits_for_all_of_them() {
    let state = OutboundJITChannelState::new(Some(500_000), terms());
    let waiting = state.htlc_intercepted(htlc(0, 250_000)).unwrap();
    assert_eq!(
        waiting,
        OutboundJITChannelState::AwaitingPayment {
            min_fee_msat: 1_000,
            proportional_fee: 100_000,
            min_payment_size_msat: 1_000,
            max_payment_size_msat: 1_000_000,
            htlcs: vec![htlc(0, 250_000)],
            payment_size_msat: Some(500_000),
        }
    );
    let open = waiting.htlc_intercepted(htlc(1, 250_000));
    assert_eq!(
        open,
        Ok(OutboundJITChannelState::PendingChannelOpen {
            htlcs: vec![htlc(0, 250_000), htlc(1, 250_000)],
            opening_fee_msat: 50_000,
            amt_to_forward_msat: 450_000,
        })
    );
}

#[test]
fn a_fixed_payment_may_be_overpaid() {
    let state = OutboundJITChannelState::new(Some(500_000), terms());
    let next = state.htlc_intercepted(htlc(0, 600_000)).unwrap();
    assert_eq!(
        next,
        OutboundJITChannelState::PendingChannelOpen {
            htlcs: vec![htlc(0, 600_000)],
            opening_fee_msat: 50_000,
            amt_to_forward_msat: 450_000,
        }
    );
}

#[test]
fn a_variable_payment_takes_its_size_from_the_htlc() {
    let state = OutboundJITChannelState::new(None, terms());
    let next = state.htlc_intercepted(htlc(0, 10_000));
    assert_eq!(
        next,
        Ok(OutboundJITChannelState::PendingChannelOpen {
            htlcs: vec![htlc(0, 10_000)],
            opening_fee_msat: 1_000,
            amt_to_forward_msat: 9_000,
        })
    );
}

#[test]
fn a_variable_payment_must_come_in_one_part() {
    let state = OutboundJITChannelState::AwaitingPayment {
        min_fee_msat: 1_000,
        proportional_fee: 100_000,
        min_payment_size_msat: 1_000,
        max_payment_size_msat: 1_000_000,
        htlcs: vec![htlc(0, 10_000)],
        payment_size_msat: None,
    };
    assert_eq!(
        state.htlc_intercepted(htlc(1, 10_000)),
        Err(ChannelStateError::MultipleHtlcsWithoutMpp)
    );
}

#[test]
fn a_payment_below_the_minimum_is_refused() {
    let state = OutboundJITChannelState::new(None, terms());
    assert_eq!(
        state.htlc_intercepted(htlc(0, 999)),
        Err(ChannelStateError::PaymentSizeOutOfBounds {
            expected_payment_size_msat: 999,
            min_payment_size_msat: 1_000,
            max_payment_size_msat: 1_000_000,
        })
    );
}

#[test]
fn a_payment_above_the_maximum_is_refused() {
    let state = OutboundJITChannelState::new(None, terms());
    assert_eq!(
        state.htlc_intercepted(htlc(0, 1_000_001)),
        Err(ChannelStateError::PaymentSizeOutOfBounds {
            expected_payment_size_msat: 1_000_001,
            min_payment_size_msat: 1_000,
            max_payment_size_msat: 1_000_000,
        })
    );
    let fixed = OutboundJITChannelState::new(Some(2_000_000), terms());
    assert_eq!(
        fixed.htlc_intercepted(htlc(0, 5)),
        Err(ChannelStateError::PaymentSizeOutOfBounds {
            expected_payment_size_msat: 2_000_000,
            min_payment_size_msat: 1_000,
            max_payment_size_msat: 1_000_000,
        })
    );
}

#[test]
fn the_bounds_of_the_payment_size_are_inclusive() {
    let low = OutboundJITChannelState::new(None, terms()).htlc_intercepted(htlc(0, 1_000));
    assert_eq!(low, Err(ChannelStateError::HtlcTooSmall));
    let high = OutboundJITChannelState::new(None, terms()).htlc_intercepted(htlc(0, 1_000_000));
    assert_eq!(
        high,
        Ok(OutboundJITChannelState::PendingChannelOpen {
            htlcs: vec![htlc(0, 1_000_000)],
            opening_fee_msat: 100_000,
            amt_to_forward_msat: 900_000,
        })
    );
}

#[test]
fn an_opening_fee_that_overflows_is_refused() {
    let wide = OpeningFeeParams {
        proportional: u32::MAX,
        max_payment_size_msat: u64::MAX,
        ..terms()
    };
    let state = OutboundJITChannelState::new(None, wide);
    assert_eq!(
        state.htlc_intercepted(htlc(0, u64::MAX)),
        Err(ChannelStateError::OpeningFeeOverflow {
            min_fee_msat: 1_000,
            proportional: u32::MAX,
            expected_payment_size_msat: u64::MAX,
        })
    );
}

#[test]
fn a_single_htlc_that_the_fee_eats_up_is_refused() {
    let state = OutboundJITChannelState::new(None, terms());
    assert_eq!(state.htlc_intercepted(htlc(0, 1_000)), Err(ChannelStateError::HtlcTooSmall));
}

#[test]
fn a_fixed_payment_that_the_fee_eats_up_keeps_waiting() {
    let dear = OpeningFeeParams { min_fee_msat: 5_000, ..terms() };
    let state = OutboundJITChannelState::new(Some(5_000), dear);
    let next = state.htlc_intercepted(htlc(0, 5_000)).unwrap();
    assert_eq!(next.stage(), ChannelStage::AwaitingPayment);
}

#[test]
fn sums_of_parts_beyond_64_bits_do_not_wrap() {
    let state = OutboundJITChannelState::new(Some(500_000), terms());
    let first = state.htlc_intercepted(htlc(0, 1)).unwrap();
    let dear = match first {
        OutboundJITChannelState::AwaitingPayment { htlcs, .. } => {
            OutboundJITChannelState::AwaitingPayment {
                min_fee_msat: 1_000,
                proportional_fee: 100_000,
                min_payment_size_msat: 1_000,
                max_payment_size_msat: 1_000_000,
                htlcs: vec![htlcs[0], htlc(1, u64::MAX)],
                payment_size_msat: Some(500_000),
            }
        }
        other => other,
    };
    let next = dear.htlc_intercepted(htlc(2, u64::MAX)).unwrap();
    assert_eq!(next.stage(), ChannelStage::PendingChannelOpen);
}

#[test]
fn a_pending_channel_takes_no_more_htlcs() {
    let state = OutboundJITChannelState::new(None, terms());
    let pending = state.htlc_intercepted(htlc(0, 10_000)).unwrap();
    assert_eq!(
        pending.htlc_intercepted(htlc(1, 10_000)),
        Err(ChannelStateError::UnexpectedHtlc(ChannelStage::PendingChannelOpen))
    );
}

#[test]
fn a_ready_channel_takes_no_more_htlcs() {
    let state = OutboundJITChannelState::new(None, terms());
    let pending = state.htlc_intercepted(htlc(0, 10_000)).unwrap();
    let ready = pending.channel_ready().unwrap();
    assert_eq!(
        ready.htlc_intercepted(htlc(1, 10_000)),
        Err(ChannelStateError::UnexpectedHtlc(ChannelStage::ChannelReady))
    );
}

#[test]
fn a_pending_channel_becomes_ready() {
    let state = OutboundJITChannelState::new(None, terms());
    let pending = state.htlc_intercepted(htlc(0, 10_000)).unwrap();
    assert_eq!(
        pending.channel_ready(),
        Ok(OutboundJITChannelState::ChannelReady {
            htlcs: vec![htlc(0, 10_000)],
            amt_to_forward_msat: 9_000,
        })
    );
}

#[test]
fn only_a_pending_channel_becomes_ready() {
    let state = OutboundJITChannelState::new(None, terms());
    assert_eq!(
        state.channel_ready(),
        Err(ChannelStateError::UnexpectedChannelReady(ChannelStage::AwaitingPayment))
    );
    let ready = state.htlc_intercepted(htlc(0, 10_000)).unwrap().channel_ready().unwrap();
    assert_eq!(
        ready.channel_ready(),
        Err(ChannelStateError::UnexpectedChannelReady(ChannelStage::ChannelReady))
    );
}

#[test]
fn a_channel_reports_the_open_request_once_paid() {
    let mut channel = OutboundJITChannel::new(Some(500_000), terms(), 7);
    assert_eq!(channel.user_channel_id(), 7);
    assert_eq!(channel.htlc_intercepted(htlc(0, 250_000)), Ok(None));
    assert_eq!(channel.stage(), ChannelStage::AwaitingPayment);
    assert_eq!(channel.htlc_intercepted(htlc(1, 250_000)), Ok(Some((50_000, 450_000))));
    assert_eq!(channel.stage(), ChannelStage::PendingChannelOpen);
}

#[test]
fn a_channel_that_refuses_stays_as_it_was() {
    let mut channel = OutboundJITChannel::new(None, terms(), 7);
    assert_eq!(
        channel.htlc_intercepted(htlc(0, 5)),
        Err(ChannelStateError::PaymentSizeOutOfBounds {
            expected_payment_size_msat: 5,
            min_payment_size_msat: 1_000,
            max_payment_size_msat: 1_000_000,
        })
    );
    assert_eq!(channel, OutboundJITChannel::new(None, terms(), 7));
    assert_eq!(
        channel.channel_ready(),
        Err(ChannelStateError::UnexpectedChannelReady(ChannelStage::AwaitingPayment))
    );
    assert_eq!(channel, OutboundJITChannel::new(None, terms(), 7));
}

#[test]
fn a_ready_channel_hands_out_its_htlcs() {
    let mut channel = OutboundJITChannel::new(Some(500_000), terms(), 7);
    channel.htlc_intercepted(htlc(0, 250_000)).unwrap();
    channel.htlc_intercepted(htlc(1, 250_000)).unwrap();
    assert_eq!(
        channel.channel_ready(),
        Ok((vec![htlc(0, 250_000), htlc(1, 250_000)], 450_000))
    );
    assert_eq!(channel.stage(), ChannelStage::ChannelReady);
    assert_eq!(
        channel.channel_ready(),
        Err(ChannelStateError::UnexpectedChannelReady(ChannelStage::ChannelReady))
    );
}
