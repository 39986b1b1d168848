use lightning::ln::channelmanager::InterceptId;
use lsps2_service::lsps0::msgs::RequestId;
use lsps2_service::lsps2::channel::{
    ChannelStage, ChannelStateError, InterceptedHTLC, OutboundJITChannel,
};
use lsps2_service::lsps2::msgs::{BuyRequest, GetInfoRequest, LSPS2Request, OpeningFeeParams};
use lsps2_service::lsps2::peer::{ChannelReadyError, HtlcOutcome, PeerState};

fn terms() -> OpeningFeeParams {
    OpeningFeeParams {
        min_fee_msat: 1_000,
        proportional: 100_000,
        valid_until: 2_000_000_000,
        min_lifetime: 144,
        max_client_to_self_delay: 128,
        min_payment_size_msat: 1_000,
        max_payment_size_msat: 1_000_000,
        promise: [0u8; 32],
    }
}

fn htlc(id: u8, amount: u64) -> InterceptedHTLC {
    InterceptedHTLC { intercept_id: InterceptId([id; 32]), expected_outbound_amount_msat: amount }
}

fn key(text: &str) -> RequestId {
    RequestId(text.to_string())
}

#[test]
fn a_new_peer_has_nothing_on_record() {
    let mut peer = PeerState::new();
    assert_eq!(peer.remove_pending_request(&key("r1")), None);
    assert_eq!(peer.htlc_intercepted(42, htlc(0, 10_000)), HtlcOutcome::NoChannel);
    assert_eq!(peer.channel_ready(7), Err(ChannelReadyError::UnknownUserChannelId));
}

#[test]
fn a_pending_request_is_handed_out_once() {
    let mut peer = PeerState::new();
    let get_info = LSPS2Request::GetInfo(GetInfoRequest { token: Some("t".to_string()) });
    let buy = LSPS2Request::Buy(BuyRequest {
        opening_fee_params: terms(),
        payment_size_msat: Some(500_000),
    });
    peer.insert_pending_request(key("r1"), get_info.clone());
    peer.insert_pending_request(key("r2"), buy.clone());
    assert_eq!(peer.remove_pending_request(&key("r2")), Some(buy));
    assert_eq!(peer.remove_pending_request(&key("r2")), None);
    assert_eq!(peer.remove_pending_request(&key("r1")), Some(get_info));
    assert_eq!(peer.remove_pending_request(&key("r1")), None);
}

#[test]
fn a_later_request_replaces_an_earlier_one_under_the_same_id() {
    let mut peer = PeerState::new();
    let first = LSPS2Request::GetInfo(GetInfoRequest { token: None });
    let second = LSPS2Request::GetInfo(GetInfoRequest { token: Some("t".to_string()) });
    peer.insert_pending_request(key("r1"), first);
    peer.insert_pending_request(key("r1"), second.clone());
    assert_eq!(peer.remove_pending_request(&key("r1")), Some(second));
    assert_eq!(peer.remove_pending_request(&key("r1")), None);
}

#[test]
fn a_channel_is_found_under_its_scid_and_its_user_channel_id() {
    let mut peer = PeerState::new();
    peer.insert_outbound_channel(42, OutboundJITChannel::new(Some(500_000), terms(), 7));
    assert_eq!(peer.htlc_intercepted(41, htlc(0, 250_000)), HtlcOutcome::NoChannel);
    assert_eq!(peer.htlc_intercepted(42, htlc(0, 250_000)), HtlcOutcome::AwaitingPayment);
    assert_eq!(
        peer.htlc_intercepted(42, htlc(1, 250_000)),
        HtlcOutcome::OpenChannel {
            opening_fee_msat: 50_000,
            amt_to_forward_msat: 450_000,
            user_channel_id: 7,
        }
    );
    assert_eq!(peer.channel_ready(8), Err(ChannelReadyError::UnknownUserChannelId));
    assert_eq!(peer.channel_ready(7), Ok((vec![htlc(0, 250_000), htlc(1, 250_000)], 450_000)));
}

#[test]
fn a_channel_that_refuses_a_report_keeps_what_it_had() {
    let mut peer = PeerState::new();
    peer.insert_outbound_channel(42, OutboundJITChannel::new(Some(500_000), terms(), 7));
    assert_eq!(peer.htlc_intercepted(42, htlc(0, 250_000)), HtlcOutcome::AwaitingPayment);
    assert_eq!(
        peer.channel_ready(7),
        Err(ChannelReadyError::Refused(ChannelStateError::UnexpectedChannelReady(
            ChannelStage::AwaitingPayment
        )))
    );
    assert_eq!(
        peer.htlc_intercepted(42, htlc(1, 250_000)),
        HtlcOutcome::OpenChannel {
            opening_fee_msat: 50_000,
            amt_to_forward_msat: 450_000,
            user_channel_id: 7,
        }
    );
    assert_eq!(peer.channel_ready(7), Ok((vec![htlc(0, 250_000), htlc(1, 250_000)], 450_000)));
}

#[test]
fn a_channel_that_refuses_an_htlc_is_gone() {
    let mut peer = PeerState::new();
    peer.insert_outbound_channel(42, OutboundJITChannel::new(None, terms(), 7));
    assert_eq!(
        peer.htlc_intercepted(42, htlc(0, 10_000)),
        HtlcOutcome::OpenChannel {
            opening_fee_msat: 1_000,
            amt_to_forward_msat: 9_000,
            user_channel_id: 7,
        }
    );
    assert_eq!(
        peer.htlc_intercepted(42, htlc(1, 1)),
        HtlcOutcome::Refused(ChannelStateError::UnexpectedHtlc(ChannelStage::PendingChannelOpen))
    );
    assert_eq!(peer.htlc_intercepted(42, htlc(2, 10_000)), HtlcOutcome::NoChannel);
    assert_eq!(peer.channel_ready(7), Err(ChannelReadyError::UnknownUserChannelId));
}

#[test]
fn every_user_channel_id_of_a_removed_channel_is_forgotten() {
    let mut peer = PeerState::new();
    peer.insert_outbound_channel(42, OutboundJITChannel::new(None, terms(), 7));
    peer.insert_outbound_channel(43, OutboundJITChannel::new(None, terms(), 9));
    peer.insert_outbound_channel(42, OutboundJITChannel::new(None, terms(), 8));
    assert!(matches!(peer.htlc_intercepted(42, htlc(0, 5)), HtlcOutcome::Refused(_)));
    assert_eq!(peer.channel_ready(7), Err(ChannelReadyError::UnknownUserChannelId));
    assert_eq!(peer.channel_ready(8), Err(ChannelReadyError::UnknownUserChannelId));
    assert_eq!(
        peer.channel_ready(9),
        Err(ChannelReadyError::Refused(ChannelStateError::UnexpectedChannelReady(
            ChannelStage::AwaitingPayment
        )))
    );
}

#[test]
fn a_new_channel_under_a_used_scid_takes_its_place() {
    let mut peer = PeerState::new();
    peer.insert_outbound_channel(42, OutboundJITChannel::new(None, terms(), 7));
    peer.insert_outbound_channel(42, OutboundJITChannel::new(None, terms(), 8));
    assert_eq!(
        peer.htlc_intercepted(42, htlc(0, 10_000)),
        HtlcOutcome::OpenChannel {
            opening_fee_msat: 1_000,
            amt_to_forward_msat: 9_000,
            user_channel_id: 8,
        }
    );
    assert_eq!(peer.channel_ready(8), Ok((vec![htlc(0, 10_000)], 9_000)));
}

#[test]
fn a_pending_request_can_be_looked_at_without_taking_it() {
    let mut peer = PeerState::new();
    let get_info = LSPS2Request::GetInfo(GetInfoRequest { token: None });
    peer.insert_pending_request(key("r1"), get_info.clone());
    assert_eq!(peer.pending_request(&key("r1")), Some(&get_info));
    assert_eq!(peer.pending_request(&key("r2")), None);
    assert_eq!(peer.remove_pending_request(&key("r1")), Some(get_info));
    assert_eq!(peer.pending_request(&key("r1")), None);
}
