//! The requests and responses of the just-in-time channel protocol.
use crate::lsps0::msgs::{RequestId, ResponseError, ResponseErrorView};
use vstd::prelude::*;

verus! {

/// Error code of a `get_info` response: the token is unknown or stale.
pub const LSPS2_GET_INFO_REQUEST_UNRECOGNIZED_OR_STALE_TOKEN_ERROR_CODE: i32 = 200;

/// Error code of a `buy` response: the fee parameters are expired or were
/// not issued by this service.
pub const LSPS2_BUY_REQUEST_INVALID_OPENING_FEE_PARAMS_ERROR_CODE: i32 = 201;

/// Error code of a `buy` response: the payment is too small.
pub const LSPS2_BUY_REQUEST_PAYMENT_SIZE_TOO_SMALL_ERROR_CODE: i32 = 202;

/// Error code of a `buy` response: the payment is too large.
pub const LSPS2_BUY_REQUEST_PAYMENT_SIZE_TOO_LARGE_ERROR_CODE: i32 = 203;

/// A request for the fee menu.
#[derive(Debug, PartialEq, Eq)]
pub struct GetInfoRequest {
    /// A token that may entitle the client to special terms.
    pub token: Option<String>,
}

/// The mathematical content of a [`GetInfoRequest`].
pub struct GetInfoRequestView {
    pub token: Option<Seq<char>>,
}

/// The content of an optional string.
pub open spec fn optional_text(text: Option<String>) -> Option<Seq<char>> {
    match text {
        Some(t) => Some(t@),
        None => None,
    }
}

impl View for GetInfoRequest {
    type V = GetInfoRequestView;

    open spec fn view(&self) -> GetInfoRequestView {
        GetInfoRequestView { token: optional_text(self.token) }
    }
}

impl Clone for GetInfoRequest {
    fn clone(&self) -> (copy: GetInfoRequest)
        ensures
            copy == *self,
    {
        let token = match &self.token {
            Some(t) => Some(t.clone()),
            None => None,
        };
        GetInfoRequest { token }
    }
}

/// One entry of the fee menu before the service has signed it.
#[derive(Clone, Copy, Debug, PartialEq, Eq)]
pub struct RawOpeningFeeParams {
    /// The least fee charged for opening a channel, in millisatoshi.
    pub min_fee_msat: u64,
    /// The fee in parts per million of the payment size.
    pub proportional: u32,
    /// The last second, counted from the Unix epoch, at which the entry holds.
    pub valid_until: u64,
    /// The number of blocks for which the service keeps the channel open.
    pub min_lifetime: u32,
    /// The largest delay, in blocks, that the client may impose on the service.
    pub max_client_to_self_delay: u32,
    /// The smallest payment the service accepts, in millisatoshi.
    pub min_payment_size_msat: u64,
    /// The largest payment the service accepts, in millisatoshi.
    pub max_payment_size_msat: u64,
}

/// One entry of the fee menu, with the promise that binds it to the service.
#[derive(Clone, Copy, Debug, PartialEq, Eq)]
pub struct OpeningFeeParams {
    /// The least fee charged for opening a channel, in millisatoshi.
    pub min_fee_msat: u64,
    /// The fee in parts per million of the payment size.
    pub proportional: u32,
    /// The last second, counted from the Unix epoch, at which the entry holds.
    pub valid_until: u64,
    /// The number of blocks for which the service keeps the channel open.
    pub min_lifetime: u32,
    /// The largest delay, in blocks, that the client may impose on the service.
    pub max_client_to_self_delay: u32,
    /// The smallest payment the service accepts, in millisatoshi.
    pub min_payment_size_msat: u64,
    /// The largest payment the service accepts, in millisatoshi.
    pub max_payment_size_msat: u64,
    /// The authentication code of the other fields under the service's secret.
    pub promise: [u8; 32],
}

impl OpeningFeeParams {
    /// The entry without its promise.
    pub open spec fn raw(self) -> RawOpeningFeeParams {
        RawOpeningFeeParams {
            min_fee_msat: self.min_fee_msat,
            proportional: self.proportional,
            valid_until: self.valid_until,
            min_lifetime: self.min_lifetime,
            max_client_to_self_delay: self.max_client_to_self_delay,
            min_payment_size_msat: self.min_payment_size_msat,
            max_payment_size_msat: self.max_payment_size_msat,
        }
    }

    /// Strips the promise from the entry.
    pub fn to_raw(&self) -> (raw: RawOpeningFeeParams)
        ensures
            raw == self.raw(),
    {
        RawOpeningFeeParams {
            min_fee_msat: self.min_fee_msat,
            proportional: self.proportional,
            valid_until: self.valid_until,
            min_lifetime: self.min_lifetime,
            max_client_to_self_delay: self.max_client_to_self_delay,
            min_payment_size_msat: self.min_payment_size_msat,
            max_payment_size_msat: self.max_payment_size_msat,
        }
    }
}

/// A request to buy a just-in-time channel on the terms of one menu entry.
#[derive(Clone, Copy, Debug, PartialEq, Eq)]
pub struct BuyRequest {
    /// The menu entry that the client picked.
    pub opening_fee_params: OpeningFeeParams,
    /// The size of the payment where the invoice fixes it. Without it the
    /// payment must arrive in one part.
    pub payment_size_msat: Option<u64>,
}

/// A request of a client.
#[derive(Debug, Clone, PartialEq, Eq)]
pub enum LSPS2Request {
    /// A request for the fee menu.
    GetInfo(GetInfoRequest),
    /// A request to buy a channel.
    Buy(BuyRequest),
}

/// The mathematical content of an [`LSPS2Request`].
pub enum LSPS2RequestView {
    GetInfo(GetInfoRequestView),
    Buy(BuyRequest),
}

impl View for LSPS2Request {
    type V = LSPS2RequestView;

    open spec fn view(&self) -> LSPS2RequestView {
        match self {
            LSPS2Request::GetInfo(request) => LSPS2RequestView::GetInfo(request@),
            LSPS2Request::Buy(request) => LSPS2RequestView::Buy(*request),
        }
    }
}

/// The fee menu that answers a `get_info` request.
#[derive(Debug, Clone, PartialEq, Eq)]
pub struct GetInfoResponse {
    /// The signed entries, in the order in which the host gave them.
    pub opening_fee_params_menu: Vec<OpeningFeeParams>,
}

impl View for GetInfoResponse {
    type V = Seq<OpeningFeeParams>;

    open spec fn view(&self) -> Seq<OpeningFeeParams> {
        self.opening_fee_params_menu@
    }
}

/// What the client needs to write its invoice.
#[derive(Clone, Copy, Debug, PartialEq, Eq)]
pub struct BuyResponse {
    /// The short channel id to put into the invoice's route hint.
    pub intercept_scid: u64,
    /// The expiry delta to put into the invoice's route hint.
    pub lsp_cltv_expiry_delta: u32,
    /// Whether the client has to trust the service to broadcast the funding
    /// transaction.
    pub client_trusts_lsp: bool,
}

/// A response of the service.
#[derive(Debug, Clone, PartialEq, Eq)]
pub enum LSPS2Response {
    /// The fee menu.
    GetInfo(GetInfoResponse),
    /// The fee menu was refused.
    GetInfoError(ResponseError),
    /// The invoice parameters of a bought channel.
    Buy(BuyResponse),
    /// The purchase was refused.
    BuyError(ResponseError),
}

/// The mathematical content of an [`LSPS2Response`].
pub enum LSPS2ResponseView {
    GetInfo(Seq<OpeningFeeParams>),
    GetInfoError(ResponseErrorView),
    Buy(BuyResponse),
    BuyError(ResponseErrorView),
}

impl View for LSPS2Response {
    type V = LSPS2ResponseView;

    open spec fn view(&self) -> LSPS2ResponseView {
        match self {
            LSPS2Response::GetInfo(response) => LSPS2ResponseView::GetInfo(response@),
            LSPS2Response::GetInfoError(error) => LSPS2ResponseView::GetInfoError(error@),
            LSPS2Response::Buy(response) => LSPS2ResponseView::Buy(*response),
            LSPS2Response::BuyError(error) => LSPS2ResponseView::BuyError(error@),
        }
    }
}

/// A message of the protocol, in either direction.
#[derive(Debug, Clone, PartialEq, Eq)]
pub enum LSPS2Message {
    /// A request, with the identifier the client chose for it.
    Request(RequestId, LSPS2Request),
    /// A response, with the identifier of the request it answers.
    Response(RequestId, LSPS2Response),
}

/// The mathematical content of an [`LSPS2Message`].
pub enum LSPS2MessageView {
    Request(Seq<char>, LSPS2RequestView),
    Response(Seq<char>, LSPS2ResponseView),
}

impl View for LSPS2Message {
    type V = LSPS2MessageView;

    open spec fn view(&self) -> LSPS2MessageView {
        match self {
            LSPS2Message::Request(id, request) => LSPS2MessageView::Request(id@, request@),
            LSPS2Message::Response(id, response) => LSPS2MessageView::Response(id@, response@),
        }
    }
}

} // verus!
