use lsps2_service::events::{Event, EventQueue, WaitStep};
use lightning::ln::channelmanager::InterceptId;
use lightning::ln::ChannelId;
use lsps2_service::ids::NodeId;
use lsps2_service::lsps0::msgs::{LSPSMessage, RequestId, ResponseError};
use lsps2_service::lsps2::channel::{ChannelStage, ChannelStateError};
use lsps2_service::lsps2::event::LSPS2ServiceEvent;
use lsps2_service::lsps2::msgs::{
    BuyRequest, BuyResponse, GetInfoRequest, GetInfoResponse, LSPS2Message, LSPS2Request,
    LSPS2Response, OpeningFeeParams, RawOpeningFeeParams,
};
use lsps2_service::lsps2::peer::ChannelReadyError;
use lsps2_service::lsps2::buy::{check_buy_request, check_payment_size, BuyRejection};
use lsps2_service::lsps2::service::{
    HtlcForward, InterceptDecision, LSPS2ServiceConfig, LSPS2ServiceHandler, ProtocolError,
    ServiceError,
};
use lsps2_service::message_queue::MessageQueue;

const NOW: u64 = 1_700_000_000;
const SECRET: [u8; 32] = [1u8; 32];

fn client() -> NodeId {
    NodeId([2u8; 33])
}

fn channel() -> ChannelId {
    ChannelId([9u8; 32])
}

fn id(text: &str) -> RequestId {
    RequestId(text.to_string())
}

fn raw_entry() -> RawOpeningFeeParams {
    RawOpeningFeeParams {
        min_fee_msat: 1_000,
        proportional: 100_000,
        valid_until: 2_000_000_000,
        min_lifetime: 144,
        max_client_to_self_delay: 128,
        min_payment_size_msat: 1_000,
        max_payment_size_msat: 1_000_000,
    }
}

fn signed_entry() -> OpeningFeeParams {
    raw_entry().into_opening_fee_params(&SECRET)
}

fn service() -> LSPS2ServiceHandler {
    LSPS2ServiceHandler::new(
        MessageQueue::new(),
        EventQueue::new(),
        LSPS2ServiceConfig { promise_secret: SECRET },
    )
}

fn get_info(request: &str, token: Option<&str>) -> LSPS2Message {
    LSPS2Message::Request(
        id(request),
        LSPS2Request::GetInfo(GetInfoRequest { token: token.map(|t| t.to_string()) }),
    )
}

fn buy(request: &str, params: OpeningFeeParams, payment_size_msat: Option<u64>) -> LSPS2Message {
    LSPS2Message::Request(
        id(request),
        LSPS2Request::Buy(BuyRequest { opening_fee_params: params, payment_size_msat }),
    )
}

fn response(request: &str, response: LSPS2Response) -> (NodeId, LSPSMessage) {
    (client(), LSPSMessage::LSPS2(LSPS2Message::Response(id(request), response)))
}

fn buy_error(request: &str, code: i32, message: &str) -> (NodeId, LSPSMessage) {
    response(
        request,
        LSPS2Response::BuyError(ResponseError { code, message: message.to_string() }),
    )
}

fn open_channel(amt: u64, fee: u64, user_channel_id: u128, scid: u64) -> Event {
    Event::LSPS2Service(LSPS2ServiceEvent::OpenChannel {
        their_network_key: client(),
        amt_to_forward_msat: amt,
        opening_fee_msat: fee,
        user_channel_id,
        intercept_scid: scid,
    })
}

/// A service in which the client has bought a channel under scid 42 and
/// user channel id 7, with both queues drained.
fn service_with_channel(payment_size_msat: Option<u64>) -> LSPS2ServiceHandler {
    let mut handler = service();
    handler.handle_message(buy("r2", signed_entry(), payment_size_msat), &client(), NOW).unwrap();
    handler.invoice_parameters_generated(&client(), id("r2"), 42, 144, true, 7).unwrap();
    handler.get_and_clear_pending_events();
    handler.get_and_clear_pending_msgs();
    handler
}

#[test]
fn happy_path_with_a_fixed_invoice() {
    let mut handler = service();

    assert_eq!(handler.handle_message(get_info("r1", Some("t")), &client(), NOW), Ok(()));
    assert_eq!(
        handler.get_and_clear_pending_events(),
        vec![Event::LSPS2Service(LSPS2ServiceEvent::GetInfo {
            request_id: id("r1"),
            counterparty_node_id: client(),
            token: Some("t".to_string()),
        })]
    );
    assert_eq!(handler.get_and_clear_pending_msgs(), Vec::new());

    assert_eq!(handler.opening_fee_params_generated(&client(), id("r1"), vec![raw_entry()]), Ok(()));
    let messages = handler.get_and_clear_pending_msgs();
    assert_eq!(
        messages,
        vec![response(
            "r1",
            LSPS2Response::GetInfo(GetInfoResponse {
                opening_fee_params_menu: vec![signed_entry()],
            })
        )]
    );
    let params = match &messages[0].1 {
        LSPSMessage::LSPS2(LSPS2Message::Response(_, LSPS2Response::GetInfo(menu))) => {
            menu.opening_fee_params_menu[0]
        }
        other => panic!("unexpected message {:?}", other),
    };

    assert_eq!(handler.handle_message(buy("r2", params, Some(500_000)), &client(), NOW), Ok(()));
    assert_eq!(
        handler.get_and_clear_pending_events(),
        vec![Event::LSPS2Service(LSPS2ServiceEvent::BuyRequest {
            request_id: id("r2"),
            counterparty_node_id: client(),
            opening_fee_params: params,
            payment_size_msat: Some(500_000),
        })]
    );

    assert_eq!(handler.invoice_parameters_generated(&client(), id("r2"), 42, 144, true, 7), Ok(()));
    assert_eq!(
        handler.get_and_clear_pending_msgs(),
        vec![response(
            "r2",
            LSPS2Response::Buy(BuyResponse {
                intercept_scid: 42,
                lsp_cltv_expiry_delta: 144,
                client_trusts_lsp: true,
            })
        )]
    );

    assert_eq!(
        handler.htlc_intercepted(42, InterceptId([0; 32]), 500_000),
        Ok(InterceptDecision::OpenChannelRequested)
    );
    assert_eq!(handler.get_and_clear_pending_events(), vec![open_channel(450_000, 50_000, 7, 42)]);

    assert_eq!(
        handler.channel_ready(7, &channel(), &client()),
        Ok(vec![HtlcForward {
            intercept_id: InterceptId([0; 32]),
            next_hop_channel_id: channel(),
            next_node_id: client(),
            amt_to_forward_msat: 450_000,
        }])
    );
    assert_eq!(handler.get_and_clear_pending_events(), Vec::new());
    assert_eq!(handler.get_and_clear_pending_msgs(), Vec::new());
}

#[test]
fn a_fixed_invoice_may_be_paid_in_parts() {
    let mut handler = service_with_channel(Some(500_000));
    assert_eq!(
        handler.htlc_intercepted(42, InterceptId([0; 32]), 250_000),
        Ok(InterceptDecision::Held)
    );
    assert_eq!(handler.get_and_clear_pending_events(), Vec::new());
    assert_eq!(
        handler.htlc_intercepted(42, InterceptId([1; 32]), 250_000),
        Ok(InterceptDecision::OpenChannelRequested)
    );
    assert_eq!(handler.get_and_clear_pending_events(), vec![open_channel(450_000, 50_000, 7, 42)]);
    assert_eq!(
        handler.channel_ready(7, &channel(), &client()),
        Ok(vec![
            HtlcForward {
                intercept_id: InterceptId([0; 32]),
                next_hop_channel_id: channel(),
                next_node_id: client(),
                amt_to_forward_msat: 250_000,
            },
            HtlcForward {
                intercept_id: InterceptId([1; 32]),
                next_hop_channel_id: channel(),
                next_node_id: client(),
                amt_to_forward_msat: 200_000,
            },
        ])
    );
}

#[test]
fn a_variable_invoice_is_paid_in_one_part() {
    let mut handler = service_with_channel(None);
    assert_eq!(
        handler.htlc_intercepted(42, InterceptId([0; 32]), 10_000),
        Ok(InterceptDecision::OpenChannelRequested)
    );
    assert_eq!(handler.get_and_clear_pending_events(), vec![open_channel(9_000, 1_000, 7, 42)]);
    assert_eq!(
        handler.htlc_intercepted(42, InterceptId([1; 32]), 10_000),
        Ok(InterceptDecision::Fail {
            intercept_id: InterceptId([1; 32]),
            reason: ChannelStateError::UnexpectedHtlc(ChannelStage::PendingChannelOpen),
        })
    );
    assert_eq!(handler.get_and_clear_pending_events(), Vec::new());
    assert_eq!(
        handler.channel_ready(7, &channel(), &client()),
        Err(ServiceError::ChannelReady(ChannelReadyError::UnknownUserChannelId))
    );
}

#[test]
fn a_refused_htlc_takes_the_channel_off_the_record() {
    let mut handler = service_with_channel(None);
    assert_eq!(
        handler.htlc_intercepted(42, InterceptId([0; 32]), 5),
        Ok(InterceptDecision::Fail {
            intercept_id: InterceptId([0; 32]),
            reason: ChannelStateError::PaymentSizeOutOfBounds {
                expected_payment_size_msat: 5,
                min_payment_size_msat: 1_000,
                max_payment_size_msat: 1_000_000,
            },
        })
    );
    assert_eq!(
        handler.htlc_intercepted(42, InterceptId([0; 32]), 10_000),
        Ok(InterceptDecision::NotOurs)
    );
    assert_eq!(handler.get_and_clear_pending_events(), Vec::new());
}

#[test]
fn a_removed_channel_is_forgotten_under_its_user_channel_id() {
    let mut handler = service_with_channel(None);
    handler.htlc_intercepted(42, InterceptId([0; 32]), 5).unwrap();
    assert_eq!(
        handler.channel_ready(7, &channel(), &client()),
        Err(ServiceError::ChannelReady(ChannelReadyError::UnknownUserChannelId))
    );
}

#[test]
fn a_refusal_leaves_the_other_channels_of_the_peer() {
    let mut handler = service_with_channel(None);
    handler.handle_message(buy("r3", signed_entry(), None), &client(), NOW).unwrap();
    handler.invoice_parameters_generated(&client(), id("r3"), 43, 144, true, 8).unwrap();
    handler.get_and_clear_pending_events();
    handler.htlc_intercepted(42, InterceptId([0; 32]), 5).unwrap();
    assert_eq!(
        handler.htlc_intercepted(43, InterceptId([1; 32]), 10_000),
        Ok(InterceptDecision::OpenChannelRequested)
    );
    assert_eq!(handler.get_and_clear_pending_events(), vec![open_channel(9_000, 1_000, 8, 43)]);
    assert_eq!(
        handler.channel_ready(8, &channel(), &client()),
        Ok(vec![HtlcForward {
            intercept_id: InterceptId([1; 32]),
            next_hop_channel_id: channel(),
            next_node_id: client(),
            amt_to_forward_msat: 9_000,
        }])
    );
}

#[test]
fn a_channel_bought_again_under_a_failed_scid_is_found() {
    let mut handler = service_with_channel(None);
    handler.htlc_intercepted(42, InterceptId([0; 32]), 5).unwrap();
    handler.handle_message(buy("r3", signed_entry(), None), &client(), NOW).unwrap();
    handler.invoice_parameters_generated(&client(), id("r3"), 42, 144, true, 9).unwrap();
    handler.get_and_clear_pending_events();
    assert_eq!(
        handler.htlc_intercepted(42, InterceptId([1; 32]), 10_000),
        Ok(InterceptDecision::OpenChannelRequested)
    );
    assert_eq!(handler.get_and_clear_pending_events(), vec![open_channel(9_000, 1_000, 9, 42)]);
}

#[test]
fn a_single_htlc_too_small_for_the_fee_is_failed() {
    let mut handler = service_with_channel(None);
    assert_eq!(
        handler.htlc_intercepted(42, InterceptId([0; 32]), 1_000),
        Ok(InterceptDecision::Fail {
            intercept_id: InterceptId([0; 32]),
            reason: ChannelStateError::HtlcTooSmall,
        })
    );
}

#[test]
fn an_htlc_under_a_foreign_scid_is_not_ours() {
    let mut handler = service_with_channel(None);
    assert_eq!(
        handler.htlc_intercepted(41, InterceptId([0; 32]), 10_000),
        Ok(InterceptDecision::NotOurs)
    );
    assert_eq!(service().htlc_intercepted(42, InterceptId([0; 32]), 10_000), Ok(InterceptDecision::NotOurs));
    assert_eq!(handler.get_and_clear_pending_events(), Vec::new());
}

#[test]
fn a_promise_of_another_secret_is_refused() {
    let mut handler = service();
    let forged = raw_entry().into_opening_fee_params(&[3u8; 32]);
    assert_eq!(
        handler.handle_message(buy("r2", forged, Some(500_000)), &client(), NOW),
        Err(ProtocolError::BuyRejected(BuyRejection::InvalidOpeningFeeParams))
    );
    assert_eq!(
        handler.get_and_clear_pending_msgs(),
        vec![buy_error(
            "r2",
            201,
            "valid_until is already past OR the promise did not match the provided parameters"
        )]
    );
    assert_eq!(handler.get_and_clear_pending_events(), Vec::new());
    assert_eq!(
        handler.invoice_parameters_generated(&client(), id("r2"), 42, 144, true, 7),
        Err(ServiceError::NoPeerState)
    );
}

#[test]
fn expired_params_are_refused() {
    let mut handler = service();
    assert_eq!(
        handler.handle_message(buy("r2", signed_entry(), None), &client(), 2_000_000_001),
        Err(ProtocolError::BuyRejected(BuyRejection::InvalidOpeningFeeParams))
    );
    assert_eq!(
        handler.handle_message(buy("r3", signed_entry(), None), &client(), 2_000_000_000),
        Ok(())
    );
}

#[test]
fn a_purchase_below_the_minimum_is_refused() {
    let mut handler = service();
    assert_eq!(
        handler.handle_message(buy("r2", signed_entry(), Some(100)), &client(), NOW),
        Err(ProtocolError::BuyRejected(BuyRejection::PaymentSizeBelowMinimum))
    );
    assert_eq!(
        handler.get_and_clear_pending_msgs(),
        vec![buy_error("r2", 202, "payment size is below our minimum supported payment size")]
    );
    assert_eq!(handler.get_and_clear_pending_events(), Vec::new());
}

#[test]
fn a_purchase_above_the_maximum_is_refused() {
    let mut handler = service();
    assert_eq!(
        handler.handle_message(buy("r2", signed_entry(), Some(1_000_001)), &client(), NOW),
        Err(ProtocolError::BuyRejected(BuyRejection::PaymentSizeAboveMaximum))
    );
    assert_eq!(
        handler.get_and_clear_pending_msgs(),
        vec![buy_error("r2", 203, "payment size is above our maximum supported payment size")]
    );
}

#[test]
fn a_fee_that_takes_the_whole_payment_is_refused() {
    let mut handler = service();
    let raw = RawOpeningFeeParams { min_fee_msat: 100, min_payment_size_msat: 1, ..raw_entry() };
    let params = raw.into_opening_fee_params(&SECRET);
    assert_eq!(
        handler.handle_message(buy("r2", params, Some(100)), &client(), NOW),
        Err(ProtocolError::BuyRejected(BuyRejection::OpeningFeeExceedsPayment))
    );
    assert_eq!(
        handler.get_and_clear_pending_msgs(),
        vec![buy_error("r2", 202, "payment size is too small to cover the opening fee")]
    );
    assert_eq!(handler.handle_message(buy("r3", params, Some(101)), &client(), NOW), Ok(()));
}

#[test]
fn a_fee_that_overflows_is_refused() {
    let mut handler = service();
    let raw = RawOpeningFeeParams {
        proportional: u32::MAX,
        max_payment_size_msat: u64::MAX,
        ..raw_entry()
    };
    let params = raw.into_opening_fee_params(&SECRET);
    assert_eq!(
        handler.handle_message(buy("r2", params, Some(u64::MAX)), &client(), NOW),
        Err(ProtocolError::BuyRejected(BuyRejection::OpeningFeeOverflow))
    );
    assert_eq!(
        handler.get_and_clear_pending_msgs(),
        vec![buy_error("r2", 203, "overflow error when calculating opening_fee")]
    );
}

#[test]
fn the_size_of_the_payment_is_checked_before_the_promise() {
    let forged = raw_entry().into_opening_fee_params(&[3u8; 32]);
    let request = BuyRequest { opening_fee_params: forged, payment_size_msat: Some(100) };
    assert_eq!(
        check_buy_request(&request, &SECRET, NOW),
        Some(BuyRejection::PaymentSizeBelowMinimum)
    );
    let request = BuyRequest { opening_fee_params: forged, payment_size_msat: None };
    assert_eq!(
        check_buy_request(&request, &SECRET, NOW),
        Some(BuyRejection::InvalidOpeningFeeParams)
    );
    let request = BuyRequest { opening_fee_params: signed_entry(), payment_size_msat: None };
    assert_eq!(check_buy_request(&request, &SECRET, NOW), None);
}

#[test]
fn the_size_of_the_payment_is_checked_without_the_promise() {
    let unsigned = OpeningFeeParams { promise: [0u8; 32], ..signed_entry() };
    let request = |size: Option<u64>| BuyRequest { opening_fee_params: unsigned, payment_size_msat: size };
    assert_eq!(check_payment_size(&request(None)), None);
    assert_eq!(check_payment_size(&request(Some(999))), Some(BuyRejection::PaymentSizeBelowMinimum));
    assert_eq!(check_payment_size(&request(Some(1_000))), Some(BuyRejection::OpeningFeeExceedsPayment));
    assert_eq!(check_payment_size(&request(Some(1_001))), None);
    assert_eq!(check_payment_size(&request(Some(1_000_000))), None);
    assert_eq!(
        check_payment_size(&request(Some(1_000_001))),
        Some(BuyRejection::PaymentSizeAboveMaximum)
    );
}

#[test]
fn an_accepted_purchase_leaves_something_of_the_payment() {
    let sizes: [u64; 5] = [1_001, 5_000, 10_000, 500_000, 1_000_000];
    for size in sizes {
        let request = BuyRequest { opening_fee_params: signed_entry(), payment_size_msat: Some(size) };
        assert_eq!(check_buy_request(&request, &SECRET, NOW), None);
        let fee = lsps2_service::lsps2::utils::compute_opening_fee(size, 1_000, 100_000).unwrap();
        assert!(fee < size);
    }
}

#[test]
fn every_rejection_has_its_code() {
    assert_eq!(BuyRejection::InvalidOpeningFeeParams.code(), 201);
    assert_eq!(BuyRejection::PaymentSizeBelowMinimum.code(), 202);
    assert_eq!(BuyRejection::OpeningFeeExceedsPayment.code(), 202);
    assert_eq!(BuyRejection::PaymentSizeAboveMaximum.code(), 203);
    assert_eq!(BuyRejection::OpeningFeeOverflow.code(), 203);
}

#[test]
fn a_response_from_a_peer_is_an_error() {
    let mut handler = service();
    let message = LSPS2Message::Response(
        id("r1"),
        LSPS2Response::Buy(BuyResponse {
            intercept_scid: 42,
            lsp_cltv_expiry_delta: 144,
            client_trusts_lsp: true,
        }),
    );
    assert_eq!(
        handler.handle_message(message, &client(), NOW),
        Err(ProtocolError::UnexpectedResponse)
    );
    assert_eq!(handler.get_and_clear_pending_msgs(), Vec::new());
    assert_eq!(handler.get_and_clear_pending_events(), Vec::new());
}

#[test]
fn an_invalid_token_is_answered_with_an_error() {
    let mut handler = service();
    handler.handle_message(get_info("r1", None), &client(), NOW).unwrap();
    assert_eq!(handler.invalid_token_provided(&client(), id("r1")), Ok(()));
    assert_eq!(
        handler.get_and_clear_pending_msgs(),
        vec![response(
            "r1",
            LSPS2Response::GetInfoError(ResponseError {
                code: 200,
                message: "an unrecognized or stale token was provided".to_string(),
            })
        )]
    );
    assert_eq!(
        handler.invalid_token_provided(&client(), id("r1")),
        Err(ServiceError::NoPendingGetInfoRequest)
    );
}

#[test]
fn the_host_cannot_answer_a_peer_it_never_heard_of() {
    let mut handler = service();
    assert_eq!(handler.invalid_token_provided(&client(), id("r1")), Err(ServiceError::NoPeerState));
    assert_eq!(
        handler.opening_fee_params_generated(&client(), id("r1"), vec![raw_entry()]),
        Err(ServiceError::NoPeerState)
    );
    assert_eq!(
        handler.invoice_parameters_generated(&client(), id("r1"), 42, 144, true, 7),
        Err(ServiceError::NoPeerState)
    );
    assert_eq!(handler.channel_ready(7, &channel(), &client()), Err(ServiceError::NoPeerState));
    assert_eq!(handler.get_and_clear_pending_msgs(), Vec::new());
}

#[test]
fn the_host_cannot_answer_a_request_that_does_not_wait() {
    let mut handler = service();
    handler.handle_message(get_info("r1", None), &client(), NOW).unwrap();
    assert_eq!(
        handler.opening_fee_params_generated(&client(), id("r9"), vec![raw_entry()]),
        Err(ServiceError::NoPendingGetInfoRequest)
    );
    assert_eq!(
        handler.invoice_parameters_generated(&client(), id("r9"), 42, 144, true, 7),
        Err(ServiceError::NoPendingBuyRequest)
    );
    assert_eq!(handler.opening_fee_params_generated(&client(), id("r1"), vec![]), Ok(()));
    assert_eq!(
        handler.get_and_clear_pending_msgs(),
        vec![response(
            "r1",
            LSPS2Response::GetInfo(GetInfoResponse { opening_fee_params_menu: vec![] })
        )]
    );
}

#[test]
fn an_answer_of_the_wrong_kind_leaves_the_request_on_record() {
    let mut handler = service();
    handler.handle_message(get_info("r1", None), &client(), NOW).unwrap();
    assert_eq!(
        handler.invoice_parameters_generated(&client(), id("r1"), 42, 144, true, 7),
        Err(ServiceError::NoPendingBuyRequest)
    );
    assert_eq!(
        handler.htlc_intercepted(42, InterceptId([0; 32]), 10_000),
        Ok(InterceptDecision::NotOurs)
    );
    assert_eq!(handler.get_and_clear_pending_msgs(), Vec::new());
    assert_eq!(handler.opening_fee_params_generated(&client(), id("r1"), vec![raw_entry()]), Ok(()));
    assert_eq!(handler.get_and_clear_pending_msgs().len(), 1);

    handler.handle_message(buy("r2", signed_entry(), None), &client(), NOW).unwrap();
    assert_eq!(
        handler.invalid_token_provided(&client(), id("r2")),
        Err(ServiceError::NoPendingGetInfoRequest)
    );
    assert_eq!(
        handler.opening_fee_params_generated(&client(), id("r2"), vec![raw_entry()]),
        Err(ServiceError::NoPendingGetInfoRequest)
    );
    assert_eq!(handler.get_and_clear_pending_msgs(), Vec::new());
    assert_eq!(handler.invoice_parameters_generated(&client(), id("r2"), 42, 144, true, 7), Ok(()));
    assert_eq!(
        handler.get_and_clear_pending_msgs(),
        vec![response(
            "r2",
            LSPS2Response::Buy(BuyResponse {
                intercept_scid: 42,
                lsp_cltv_expiry_delta: 144,
                client_trusts_lsp: true,
            })
        )]
    );
}

#[test]
fn an_answered_request_is_answered_once() {
    let mut handler = service();
    handler.handle_message(buy("r2", signed_entry(), None), &client(), NOW).unwrap();
    assert_eq!(handler.invoice_parameters_generated(&client(), id("r2"), 42, 144, true, 7), Ok(()));
    assert_eq!(
        handler.invoice_parameters_generated(&client(), id("r2"), 43, 144, true, 8),
        Err(ServiceError::NoPendingBuyRequest)
    );
    assert_eq!(
        handler.htlc_intercepted(43, InterceptId([0; 32]), 10_000),
        Ok(InterceptDecision::NotOurs)
    );
}

#[test]
fn requests_of_different_peers_are_kept_apart() {
    let mut handler = service();
    let other = NodeId([3u8; 33]);
    handler.handle_message(get_info("r1", None), &client(), NOW).unwrap();
    assert_eq!(
        handler.opening_fee_params_generated(&other, id("r1"), vec![raw_entry()]),
        Err(ServiceError::NoPeerState)
    );
    handler.handle_message(get_info("r1", None), &other, NOW).unwrap();
    assert_eq!(handler.invalid_token_provided(&other, id("r1")), Ok(()));
    assert_eq!(handler.opening_fee_params_generated(&client(), id("r1"), vec![raw_entry()]), Ok(()));
    let messages = handler.get_and_clear_pending_msgs();
    assert_eq!(messages.len(), 2);
    assert_eq!(messages[0].0, other);
    assert_eq!(messages[1].0, client());
}

#[test]
fn a_request_under_a_used_id_replaces_the_one_that_waited() {
    let mut handler = service();
    handler.handle_message(get_info("r1", None), &client(), NOW).unwrap();
    handler.handle_message(buy("r1", signed_entry(), None), &client(), NOW).unwrap();
    assert_eq!(
        handler.invalid_token_provided(&client(), id("r1")),
        Err(ServiceError::NoPendingGetInfoRequest)
    );
}

#[test]
fn a_channel_is_made_ready_once() {
    let mut handler = service_with_channel(None);
    assert_eq!(
        handler.channel_ready(7, &channel(), &client()),
        Err(ServiceError::ChannelReady(ChannelReadyError::Refused(
            ChannelStateError::UnexpectedChannelReady(ChannelStage::AwaitingPayment)
        )))
    );
    handler.htlc_intercepted(42, InterceptId([0; 32]), 10_000).unwrap();
    assert_eq!(
        handler.channel_ready(8, &channel(), &client()),
        Err(ServiceError::ChannelReady(ChannelReadyError::UnknownUserChannelId))
    );
    assert_eq!(
        handler.channel_ready(7, &channel(), &client()),
        Ok(vec![HtlcForward {
            intercept_id: InterceptId([0; 32]),
            next_hop_channel_id: channel(),
            next_node_id: client(),
            amt_to_forward_msat: 9_000,
        }])
    );
    assert_eq!(
        handler.channel_ready(7, &channel(), &client()),
        Err(ServiceError::ChannelReady(ChannelReadyError::Refused(
            ChannelStateError::UnexpectedChannelReady(ChannelStage::ChannelReady)
        )))
    );
    assert_eq!(
        handler.htlc_intercepted(42, InterceptId([1; 32]), 10_000),
        Ok(InterceptDecision::Fail {
            intercept_id: InterceptId([1; 32]),
            reason: ChannelStateError::UnexpectedHtlc(ChannelStage::ChannelReady),
        })
    );
}

#[test]
fn an_scid_given_out_again_goes_to_the_new_peer() {
    let mut handler = service_with_channel(None);
    let other = NodeId([3u8; 33]);
    handler.handle_message(buy("r5", signed_entry(), Some(500_000)), &other, NOW).unwrap();
    handler.invoice_parameters_generated(&other, id("r5"), 42, 144, false, 8).unwrap();
    handler.get_and_clear_pending_events();
    assert_eq!(
        handler.htlc_intercepted(42, InterceptId([0; 32]), 500_000),
        Ok(InterceptDecision::OpenChannelRequested)
    );
    assert_eq!(
        handler.get_and_clear_pending_events(),
        vec![Event::LSPS2Service(LSPS2ServiceEvent::OpenChannel {
            their_network_key: other,
            amt_to_forward_msat: 450_000,
            opening_fee_msat: 50_000,
            user_channel_id: 8,
            intercept_scid: 42,
        })]
    );
}

#[test]
fn events_can_be_taken_one_by_one() {
    let mut handler = service();
    assert_eq!(handler.next_event(), None);
    assert_eq!(handler.wait_next_event(), WaitStep::Block);
    handler.handle_message(get_info("r1", None), &client(), NOW).unwrap();
    handler.handle_message(get_info("r2", None), &client(), NOW).unwrap();
    handler.handle_message(get_info("r3", None), &client(), NOW).unwrap();
    let first = Event::LSPS2Service(LSPS2ServiceEvent::GetInfo {
        request_id: id("r1"),
        counterparty_node_id: client(),
        token: None,
    });
    let second = Event::LSPS2Service(LSPS2ServiceEvent::GetInfo {
        request_id: id("r2"),
        counterparty_node_id: client(),
        token: None,
    });
    let third = Event::LSPS2Service(LSPS2ServiceEvent::GetInfo {
        request_id: id("r3"),
        counterparty_node_id: client(),
        token: None,
    });
    assert_eq!(handler.next_event(), Some(first));
    assert_eq!(handler.wait_next_event(), WaitStep::Deliver { event: second, wake_next: true });
    assert_eq!(handler.wait_next_event(), WaitStep::Deliver { event: third, wake_next: false });
    assert_eq!(handler.next_event(), None);
}

#[test]
fn the_handler_speaks_through_the_queues_it_was_given() {
    let mut messages = MessageQueue::new();
    messages.enqueue(&client(), buy_error("r0", 202, "earlier").1);
    let mut events = EventQueue::new();
    events.enqueue(open_channel(1, 1, 1, 1));
    let mut handler =
        LSPS2ServiceHandler::new(messages, events, LSPS2ServiceConfig { promise_secret: SECRET });
    handler.handle_message(get_info("r1", None), &client(), NOW).unwrap();
    handler.invalid_token_provided(&client(), id("r1")).unwrap();
    assert_eq!(handler.pending_events_len(), 2);
    assert_eq!(handler.pending_msgs_len(), 2);
    assert_eq!(handler.get_and_clear_pending_events().len(), 2);
    assert_eq!(handler.get_and_clear_pending_msgs().len(), 2);
}
