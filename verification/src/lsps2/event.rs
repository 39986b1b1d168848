//! What the service asks of its host.
use crate::ids::NodeId;
use crate::lsps0::msgs::RequestId;
use crate::lsps2::msgs::{optional_text, OpeningFeeParams};
use vstd::prelude::*;

verus! {

/// An event that the host of the service must answer.
#[derive(Debug, Clone, PartialEq, Eq)]
pub enum LSPS2ServiceEvent {
    /// A client asks for the fee menu. The host answers with the menu, or
    /// says that the token is invalid.
    GetInfo { request_id: RequestId, counterparty_node_id: NodeId, token: Option<String> },
    /// A client wants to buy a channel on the terms of a valid menu entry.
    /// The host answers with the parameters for the client's invoice.
    BuyRequest {
        request_id: RequestId,
        counterparty_node_id: NodeId,
        opening_fee_params: OpeningFeeParams,
        payment_size_msat: Option<u64>,
    },
    /// A client's payment has arrived in full. The host opens a channel to
    /// the client and reports when it is ready.
    OpenChannel {
        their_network_key: NodeId,
        amt_to_forward_msat: u64,
        opening_fee_msat: u64,
        user_channel_id: u128,
        intercept_scid: u64,
    },
}

/// The mathematical content of an [`LSPS2ServiceEvent`].
pub enum LSPS2ServiceEventView {
    GetInfo { request_id: Seq<char>, counterparty_node_id: NodeId, token: Option<Seq<char>> },
    BuyRequest {
        request_id: Seq<char>,
        counterparty_node_id: NodeId,
        opening_fee_params: OpeningFeeParams,
        payment_size_msat: Option<u64>,
    },
    OpenChannel {
        their_network_key: NodeId,
        amt_to_forward_msat: u64,
        opening_fee_msat: u64,
        user_channel_id: u128,
        intercept_scid: u64,
    },
}

impl View for LSPS2ServiceEvent {
    type V = LSPS2ServiceEventView;

    open spec fn view(&self) -> LSPS2ServiceEventView {
        match self {
            LSPS2ServiceEvent::GetInfo {
                request_id,
                counterparty_node_id,
                token,
            } => LSPS2ServiceEventView::GetInfo {
                request_id: request_id@,
                counterparty_node_id: *counterparty_node_id,
                token: optional_text(*token),
            },
            LSPS2ServiceEvent::BuyRequest {
                request_id,
                counterparty_node_id,
                opening_fee_params,
                payment_size_msat,
            } => LSPS2ServiceEventView::BuyRequest {
                request_id: request_id@,
                counterparty_node_id: *counterparty_node_id,
                opening_fee_params: *opening_fee_params,
                payment_size_msat: *payment_size_msat,
            },
            LSPS2ServiceEvent::OpenChannel {
                their_network_key,
                amt_to_forward_msat,
                opening_fee_msat,
                user_channel_id,
                intercept_scid,
            } => LSPS2ServiceEventView::OpenChannel {
                their_network_key: *their_network_key,
                amt_to_forward_msat: *amt_to_forward_msat,
                opening_fee_msat: *opening_fee_msat,
                user_channel_id: *user_channel_id,
                intercept_scid: *intercept_scid,
            },
        }
    }
}

} // verus!
