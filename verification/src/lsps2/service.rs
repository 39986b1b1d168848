//! The service side of the just-in-time channel protocol.
//!
//! The handler takes the requests of peers, the answers of the host and the
//! reports of the node, and keeps the record of what each peer has asked for
//! and bought. It speaks to the peers through a queue of messages and to the
//! host through a queue of events. It never calls the node: where the node
//! has something to do, the handler says what, and the caller does it.
use crate::assoc_list::AssocList;
use crate::events::{event_views, Event, EventQueue, WaitStep};
use crate::ids::NodeId;
use crate::lsps0::msgs::{LSPSMessage, RequestId, ResponseError};
use crate::lsps2::buy::{buy_rejection, check_buy_request, BuyRejection};
use crate::lsps2::channel::{ChannelStateError, InterceptedHTLC, OutboundJITChannel};
use crate::lsps2::event::LSPS2ServiceEvent;
use crate::lsps2::forwarding::calculate_amount_to_forward_per_htlc;
use crate::lsps2::model::{
    invalid_token_response, is_signed_menu, lemma_channel_ready_keeps_consistency,
    lemma_consistency_ignores_queues, lemma_get_info_answer_keeps_consistency,
    lemma_htlc_intercepted_keeps_consistency,
    lemma_invoice_parameters_keep_consistency, lemma_message_keeps_consistency,
    lemma_without_pending_request_keeps_consistency, spec_forwards_over, ServiceView,
};
use crate::lsps2::msgs::{
    BuyRequest, BuyResponse, GetInfoRequest, GetInfoResponse, LSPS2Message, LSPS2MessageView,
    LSPS2Request, LSPS2RequestView, LSPS2Response, LSPS2ResponseView, OpeningFeeParams,
    RawOpeningFeeParams, LSPS2_GET_INFO_REQUEST_UNRECOGNIZED_OR_STALE_TOKEN_ERROR_CODE,
};
use crate::lsps2::peer::{ChannelReadyError, HtlcOutcome, PeerState, PeerStateView};
use crate::lsps2::utils::is_signed;
use crate::message_queue::{message_views, MessageQueue};
use lightning::ln::channelmanager::InterceptId;
use lightning::ln::ChannelId;
use std::collections::HashMap;
use vstd::prelude::*;

verus! {

broadcast use vstd::std_specs::hash::group_hash_axioms;

/// Server-side configuration options for JIT channels.
#[derive(Clone, Debug)]
pub struct LSPS2ServiceConfig {
    /// Used to calculate the promise for channel parameters supplied to
    /// clients.
    ///
    /// Note: If this changes then old promises given out will be considered
    /// invalid.
    pub promise_secret: [u8; 32],
}

/// Why the service ignores a message of a peer.
#[derive(Clone, Copy, Debug, PartialEq, Eq)]
pub enum ProtocolError {
    /// The peer wanted to buy a channel and was refused. The peer has been
    /// told.
    BuyRejected(BuyRejection),
    /// The peer sent a response, which only a service sends.
    UnexpectedResponse,
}

/// How the host or the node misused the service.
#[derive(Clone, Copy, Debug, PartialEq, Eq)]
pub enum ServiceError {
    /// The service keeps no state for the peer.
    NoPeerState,
    /// No `get_info` request of the peer waits under the request id.
    NoPendingGetInfoRequest,
    /// No `buy` request of the peer waits under the request id.
    NoPendingBuyRequest,
    /// The intercept scid is on record for a peer that the service keeps no
    /// state for.
    NoPeerForInterceptScid,
    /// The channel could not be made ready.
    ChannelReady(ChannelReadyError),
}

/// What the caller does with an HTLC that the node has intercepted.
#[derive(Clone, Copy, Debug, PartialEq, Eq)]
pub enum InterceptDecision {
    /// The service gave out no such intercept scid, or the channel it was
    /// given out for is gone: nothing is done.
    NotOurs,
    /// The HTLC is part of a payment that is not complete: it is held.
    Held,
    /// The HTLC completed a payment: it is held, and the host has been asked
    /// to open the channel.
    OpenChannelRequested,
    /// The channel refused the HTLC and has been taken off the record. The
    /// caller fails the HTLC at the node.
    Fail { intercept_id: InterceptId, reason: ChannelStateError },
}

/// An HTLC that the caller forwards over a channel that has become ready.
#[derive(Clone, Copy, Debug, PartialEq, Eq)]
pub struct HtlcForward {
    /// The node's identifier of the HTLC.
    pub intercept_id: InterceptId,
    /// The channel to forward over.
    pub next_hop_channel_id: ChannelId,
    /// The peer at the other end of the channel.
    pub next_node_id: NodeId,
    /// The amount to forward, in millisatoshi.
    pub amt_to_forward_msat: u64,
}

/// The contents of the given peer states, each under its peer.
pub open spec fn peer_views(peers: Map<NodeId, PeerState>) -> Map<NodeId, PeerStateView> {
    peers.map_values(|peer: PeerState| peer@)
}

/// The main object allowing to send and receive LSPS2 messages.
pub struct LSPS2ServiceHandler {
    pending_messages: MessageQueue,
    pending_events: EventQueue,
    per_peer_state: AssocList<NodeId, PeerState>,
    peer_by_intercept_scid: HashMap<u64, NodeId>,
    config: LSPS2ServiceConfig,
}

impl View for LSPS2ServiceHandler {
    type V = ServiceView;

    closed spec fn view(&self) -> ServiceView {
        ServiceView {
            pending_messages: self.pending_messages@,
            pending_events: self.pending_events@,
            per_peer_state: peer_views(self.per_peer_state@),
            peer_by_intercept_scid: self.peer_by_intercept_scid@,
            promise_secret: self.config.promise_secret@,
        }
    }
}

/// Signs each entry of a fee menu under the given secret.
pub fn sign_menu(raw_menu: Vec<RawOpeningFeeParams>, promise_secret: &[u8; 32]) -> (menu: Vec<
    OpeningFeeParams,
>)
    ensures
        is_signed_menu(raw_menu@, promise_secret@, menu@),
{
    let mut menu: Vec<OpeningFeeParams> = Vec::new();
    let mut i: usize = 0;
    while i < raw_menu.len()
        invariant
            0 <= i <= raw_menu@.len(),
            menu@.len() == i,
            forall|j: int|
                0 <= j < i ==> is_signed(raw_menu@[j], promise_secret@, #[trigger] menu@[j]),
        decreases raw_menu@.len() - i,
    {
        menu.push(raw_menu[i].into_opening_fee_params(promise_secret));
        i += 1;
    }
    menu
}

/// Writes the instructions to forward the given amounts over the given
/// channel to the given peer.
pub fn forwards_over(amounts: Vec<(InterceptId, u64)>, channel_id: &ChannelId, peer: &NodeId) -> (forwards:
    Vec<HtlcForward>)
    ensures
        forwards@ == spec_forwards_over(amounts@, *channel_id, *peer),
{
    let mut forwards: Vec<HtlcForward> = Vec::new();
    let mut i: usize = 0;
    while i < amounts.len()
        invariant
            0 <= i <= amounts@.len(),
            forwards@.len() == i,
            forall|j: int|
                0 <= j < i ==> forwards@[j] == spec_forwards_over(amounts@, *channel_id, *peer)[j],
        decreases amounts@.len() - i,
    {
        forwards.push(
            HtlcForward {
                intercept_id: amounts[i].0,
                next_hop_channel_id: *channel_id,
                next_node_id: *peer,
                amt_to_forward_msat: amounts[i].1,
            },
        );
        i += 1;
    }
    assert(forwards@ =~= spec_forwards_over(amounts@, *channel_id, *peer));
    forwards
}

impl LSPS2ServiceHandler {
    /// Whether the handler is in order. Every handler that this module
    /// hands out is.
    pub open spec fn wf(&self) -> bool {
        self.peers_in_order() && self@.is_consistent()
    }

    /// Whether the states on record are in order.
    pub closed spec fn peers_in_order(&self) -> bool {
        &&& self.per_peer_state.wf()
        &&& forall|peer: NodeId| #[trigger]
            self.per_peer_state@.contains_key(peer) ==> self.per_peer_state@[peer].wf()
    }

    /// Constructs a `LSPS2ServiceHandler` that speaks through the given
    /// queues and signs with the secret of the given configuration. It
    /// knows no peer yet.
    pub fn new(
        pending_messages: MessageQueue,
        pending_events: EventQueue,
        config: LSPS2ServiceConfig,
    ) -> (handler: LSPS2ServiceHandler)
        ensures
            handler.wf(),
            handler@ == (ServiceView {
                pending_messages: pending_messages@,
                pending_events: pending_events@,
                per_peer_state: Map::empty(),
                peer_by_intercept_scid: Map::empty(),
                promise_secret: config.promise_secret@,
            }),
    {
        let handler = LSPS2ServiceHandler {
            pending_messages,
            pending_events,
            per_peer_state: AssocList::new(),
            peer_by_intercept_scid: HashMap::new(),
            config,
        };
        assert(handler@.per_peer_state =~= Map::empty());
        handler
    }

    /// Puts a response to the given request into the queue of messages for
    /// the given peer.
    fn enqueue_response(
        &mut self,
        counterparty_node_id: &NodeId,
        request_id: RequestId,
        response: LSPS2Response,
    )
        ensures
            final(self).peers_in_order() == old(self).peers_in_order(),
            final(self)@ == old(self)@.with_response(
                *counterparty_node_id,
                request_id@,
                response@,
            ),
    {
        self.pending_messages.enqueue(
            counterparty_node_id,
            LSPSMessage::LSPS2(LSPS2Message::Response(request_id, response)),
        );
    }

    /// Puts an event into the queue for the host.
    fn enqueue_event(&mut self, event: LSPS2ServiceEvent)
        ensures
            final(self).peers_in_order() == old(self).peers_in_order(),
            final(self)@ == old(self)@.with_event(event@),
    {
        self.pending_events.enqueue(Event::LSPS2Service(event));
    }

    /// Takes the state of the given peer off the record, if there is one.
    /// The caller puts it back with [`Self::put_peer`].
    fn take_peer(&mut self, counterparty_node_id: &NodeId) -> (state: Option<PeerState>)
        requires
            old(self).peers_in_order(),
        ensures
            final(self).peers_in_order(),
            final(self)@ == old(self)@.without_peer(*counterparty_node_id),
            match state {
                Some(state) => {
                    &&& old(self)@.per_peer_state.contains_key(*counterparty_node_id)
                    &&& old(self)@.per_peer_state[*counterparty_node_id] == state@
                    &&& state.wf()
                },
                None => !old(self)@.per_peer_state.contains_key(*counterparty_node_id),
            },
    {
        let state = self.per_peer_state.remove(counterparty_node_id);
        assert(self@.per_peer_state =~= old(self)@.per_peer_state.remove(*counterparty_node_id));
        state
    }

    /// Puts the state of the given peer on the record from which it was
    /// taken.
    fn put_peer(
        &mut self,
        counterparty_node_id: &NodeId,
        state: PeerState,
        Ghost(taken_from): Ghost<ServiceView>,
    )
        requires
            old(self).peers_in_order(),
            old(self)@ == taken_from.without_peer(*counterparty_node_id),
            state.wf(),
        ensures
            final(self).peers_in_order(),
            final(self)@ == taken_from.with_peer(*counterparty_node_id, state@),
    {
        self.per_peer_state.insert(*counterparty_node_id, state);
        assert(self@.per_peer_state =~= old(self)@.per_peer_state.insert(
            *counterparty_node_id,
            state@,
        ));
        assert(self@.per_peer_state =~= taken_from.per_peer_state.insert(
            *counterparty_node_id,
            state@,
        ));
    }

    /// Takes a request for the fee menu: the request is put on record, for a
    /// peer met for the first time on a fresh state, and the host is told.
    fn handle_get_info_request(
        &mut self,
        request_id: RequestId,
        counterparty_node_id: &NodeId,
        params: GetInfoRequest,
    ) -> (result: Result<(), ProtocolError>)
        requires
            old(self).wf(),
        ensures
            final(self).wf(),
            final(self)@ == old(self)@.after_get_info_request(
                request_id@,
                *counterparty_node_id,
                params@,
            ),
            result == Ok::<(), ProtocolError>(()),
    {
        let mut peer_state = match self.take_peer(counterparty_node_id) {
            Some(state) => state,
            None => PeerState::new(),
        };
        peer_state.insert_pending_request(request_id.clone(), LSPS2Request::GetInfo(params.clone()));
        self.put_peer(counterparty_node_id, peer_state, Ghost(old(self)@));
        self.enqueue_event(
            LSPS2ServiceEvent::GetInfo {
                request_id,
                counterparty_node_id: *counterparty_node_id,
                token: params.token,
            },
        );
        proof {
            lemma_message_keeps_consistency(
                old(self)@,
                LSPS2MessageView::Request(request_id@, LSPS2RequestView::GetInfo(params@)),
                *counterparty_node_id,
                0,
            );
        }
        Ok(())
    }

    /// Takes a request to buy a channel at the given second. One that the
    /// service refuses is answered with the reason and changes nothing else.
    /// One that it accepts is put on record, and the host is told.
    fn handle_buy_request(
        &mut self,
        request_id: RequestId,
        counterparty_node_id: &NodeId,
        params: BuyRequest,
        now_unix_secs: u64,
    ) -> (result: Result<(), ProtocolError>)
        requires
            old(self).wf(),
        ensures
            final(self).wf(),
            final(self)@ == old(self)@.after_buy_request(
                request_id@,
                *counterparty_node_id,
                params,
                now_unix_secs,
            ),
            result == match buy_rejection(params, old(self)@.promise_secret, now_unix_secs) {
                Some(rejection) => Err::<(), ProtocolError>(ProtocolError::BuyRejected(rejection)),
                None => Ok::<(), ProtocolError>(()),
            },
    {
        proof {
            lemma_message_keeps_consistency(
                old(self)@,
                LSPS2MessageView::Request(request_id@, LSPS2RequestView::Buy(params)),
                *counterparty_node_id,
                now_unix_secs,
            );
        }
        if let Some(rejection) = check_buy_request(
            &params,
            &self.config.promise_secret,
            now_unix_secs,
        ) {
            let error = ResponseError { code: rejection.code(), message: rejection.message() };
            self.enqueue_response(counterparty_node_id, request_id, LSPS2Response::BuyError(error));
            return Err(ProtocolError::BuyRejected(rejection));
        }
        let mut peer_state = match self.take_peer(counterparty_node_id) {
            Some(state) => state,
            None => PeerState::new(),
        };
        peer_state.insert_pending_request(request_id.clone(), LSPS2Request::Buy(params));
        self.put_peer(counterparty_node_id, peer_state, Ghost(old(self)@));
        self.enqueue_event(
            LSPS2ServiceEvent::BuyRequest {
                request_id,
                counterparty_node_id: *counterparty_node_id,
                opening_fee_params: params.opening_fee_params,
                payment_size_msat: params.payment_size_msat,
            },
        );
        Ok(())
    }

    /// Takes a message that a peer has sent, at the given second counted
    /// from the Unix epoch.
    ///
    /// A request for the fee menu is put on record and handed to the host.
    /// A request to buy a channel is checked first: one that the service
    /// refuses is answered at once with the reason and returned as an
    /// error, one that it accepts is put on record and handed to the host.
    /// A response is an error and changes nothing.
    pub fn handle_message(
        &mut self,
        message: LSPS2Message,
        counterparty_node_id: &NodeId,
        now_unix_secs: u64,
    ) -> (result: Result<(), ProtocolError>)
        requires
            old(self).wf(),
        ensures
            final(self).wf(),
            final(self)@ == old(self)@.after_message(
                message@,
                *counterparty_node_id,
                now_unix_secs,
            ),
            result == match old(self)@.message_error(message@, now_unix_secs) {
                Some(error) => Err::<(), ProtocolError>(error),
                None => Ok::<(), ProtocolError>(()),
            },
    {
        match message {
            LSPS2Message::Request(request_id, request) => match request {
                LSPS2Request::GetInfo(params) => self.handle_get_info_request(
                    request_id,
                    counterparty_node_id,
                    params,
                ),
                LSPS2Request::Buy(params) => self.handle_buy_request(
                    request_id,
                    counterparty_node_id,
                    params,
                    now_unix_secs,
                ),
            },
            LSPS2Message::Response(_, _) => Err(ProtocolError::UnexpectedResponse),
        }
    }

    /// Takes the `get_info` request of the given peer that waits under the
    /// given id off the record. Where there is none, nothing changes.
    fn take_pending_get_info(&mut self, counterparty_node_id: &NodeId, request_id: &RequestId) -> (result:
        Result<(), ServiceError>)
        requires
            old(self).wf(),
        ensures
            match old(self)@.get_info_answer_error(*counterparty_node_id, request_id@) {
                Some(error) => {
                    &&& result == Err::<(), ServiceError>(error)
                    &&& final(self).wf()
                    &&& final(self)@ == old(self)@
                },
                None => {
                    &&& result == Ok::<(), ServiceError>(())
                    &&& final(self).peers_in_order()
                    &&& final(self)@ == old(self)@.without_pending_request(
                        *counterparty_node_id,
                        request_id@,
                    )
                },
            },
    {
        let mut peer_state = match self.take_peer(counterparty_node_id) {
            Some(state) => state,
            None => {
                assert(self@.per_peer_state =~= old(self)@.per_peer_state);
                return Err(ServiceError::NoPeerState);
            },
        };
        let waits = match peer_state.pending_request(request_id) {
            Some(LSPS2Request::GetInfo(_)) => true,
            _ => false,
        };
        if waits {
            let _ = peer_state.remove_pending_request(request_id);
        }
        self.put_peer(counterparty_node_id, peer_state, Ghost(old(self)@));
        if waits {
            Ok(())
        } else {
            assert(self@.per_peer_state =~= old(self)@.per_peer_state);
            Err(ServiceError::NoPendingGetInfoRequest)
        }
    }

    /// Takes the `buy` request of the given peer that waits under the given
    /// id off the record and returns it. Where there is none, nothing
    /// changes.
    fn take_pending_buy(&mut self, counterparty_node_id: &NodeId, request_id: &RequestId) -> (result:
        Result<BuyRequest, ServiceError>)
        requires
            old(self).wf(),
        ensures
            match result {
                Ok(request) => {
                    &&& old(self)@.pending_request(*counterparty_node_id, request_id@) == Some(
                        LSPS2RequestView::Buy(request),
                    )
                    &&& final(self).wf()
                    &&& final(self)@ == old(self)@.without_pending_request(
                        *counterparty_node_id,
                        request_id@,
                    )
                },
                Err(error) => {
                    &&& old(self)@.buy_answer_error(*counterparty_node_id, request_id@) == Some(
                        error,
                    )
                    &&& final(self).wf()
                    &&& final(self)@ == old(self)@
                },
            },
    {
        proof {
            lemma_without_pending_request_keeps_consistency(
                old(self)@,
                *counterparty_node_id,
                request_id@,
            );
        }
        let mut peer_state = match self.take_peer(counterparty_node_id) {
            Some(state) => state,
            None => {
                assert(self@.per_peer_state =~= old(self)@.per_peer_state);
                return Err(ServiceError::NoPeerState);
            },
        };
        let waits = match peer_state.pending_request(request_id) {
            Some(LSPS2Request::Buy(_)) => true,
            _ => false,
        };
        let request = if waits {
            peer_state.remove_pending_request(request_id)
        } else {
            None
        };
        self.put_peer(counterparty_node_id, peer_state, Ghost(old(self)@));
        match request {
            Some(LSPS2Request::Buy(buy_request)) => Ok(buy_request),
            _ => {
                assert(self@.per_peer_state =~= old(self)@.per_peer_state);
                Err(ServiceError::NoPendingBuyRequest)
            },
        }
    }

    /// Used by the host to tell a client that asked for the fee menu that
    /// its token is invalid.
    ///
    /// Answers the `get_info` request that waits under the given id with an
    /// error and takes it off the record. Where no such request waits, the
    /// call fails and changes nothing.
    pub fn invalid_token_provided(
        &mut self,
        counterparty_node_id: &NodeId,
        request_id: RequestId,
    ) -> (result: Result<(), ServiceError>)
        requires
            old(self).wf(),
        ensures
            final(self).wf(),
            final(self)@ == old(self)@.after_get_info_answer(
                *counterparty_node_id,
                request_id@,
                LSPS2ResponseView::GetInfoError(invalid_token_response()),
            ),
            result == match old(self)@.get_info_answer_error(*counterparty_node_id, request_id@) {
                Some(error) => Err::<(), ServiceError>(error),
                None => Ok::<(), ServiceError>(()),
            },
    {
        proof {
            lemma_get_info_answer_keeps_consistency(
                old(self)@,
                *counterparty_node_id,
                request_id@,
                LSPS2ResponseView::GetInfoError(invalid_token_response()),
            );
        }
        match self.take_pending_get_info(counterparty_node_id, &request_id) {
            Ok(()) => {
                let response = LSPS2Response::GetInfoError(
                    ResponseError {
                        code: LSPS2_GET_INFO_REQUEST_UNRECOGNIZED_OR_STALE_TOKEN_ERROR_CODE,
                        message: "an unrecognized or stale token was provided".to_string(),
                    },
                );
                self.enqueue_response(counterparty_node_id, request_id, response);
                Ok(())
            },
            Err(error) => Err(error),
        }
    }

    /// Used by the host to give the fee menu to a client that asked for it.
    ///
    /// Signs each entry of the menu, answers the `get_info` request that
    /// waits under the given id with the signed menu and takes the request
    /// off the record. Where no such request waits, the call fails and
    /// changes nothing.
    pub fn opening_fee_params_generated(
        &mut self,
        counterparty_node_id: &NodeId,
        request_id: RequestId,
        opening_fee_params_menu: Vec<RawOpeningFeeParams>,
    ) -> (result: Result<(), ServiceError>)
        requires
            old(self).wf(),
        ensures
            final(self).wf(),
            match old(self)@.get_info_answer_error(*counterparty_node_id, request_id@) {
                Some(error) => {
                    &&& result == Err::<(), ServiceError>(error)
                    &&& final(self)@ == old(self)@
                },
                None => {
                    &&& result == Ok::<(), ServiceError>(())
                    &&& exists|menu: Seq<OpeningFeeParams>|
                        {
                            &&& is_signed_menu(
                                opening_fee_params_menu@,
                                old(self)@.promise_secret,
                                menu,
                            )
                            &&& final(self)@ == #[trigger] old(self)@.after_get_info_answer(
                                *counterparty_node_id,
                                request_id@,
                                LSPS2ResponseView::GetInfo(menu),
                            )
                        }
                },
            },
    {
        match self.take_pending_get_info(counterparty_node_id, &request_id) {
            Ok(()) => {
                let menu = sign_menu(opening_fee_params_menu, &self.config.promise_secret);
                let response = LSPS2Response::GetInfo(
                    GetInfoResponse { opening_fee_params_menu: menu },
                );
                proof {
                    lemma_get_info_answer_keeps_consistency(
                        old(self)@,
                        *counterparty_node_id,
                        request_id@,
                        response@,
                    );
                }
                self.enqueue_response(counterparty_node_id, request_id, response);
                assert(self@ == old(self)@.after_get_info_answer(
                    *counterparty_node_id,
                    request_id@,
                    LSPS2ResponseView::GetInfo(menu@),
                ));
                Ok(())
            },
            Err(error) => Err(error),
        }
    }

    /// Used by the host to give a client that bought a channel the intercept
    /// scid and the expiry delta for its invoice.
    ///
    /// Answers the `buy` request that waits under the given id and takes it
    /// off the record: the scid is put on record for the client, a channel
    /// that awaits its payment is put on record under the scid and the user
    /// channel id, and the client is told the parameters. Where no such
    /// request waits, the call fails and changes nothing.
    pub fn invoice_parameters_generated(
        &mut self,
        counterparty_node_id: &NodeId,
        request_id: RequestId,
        intercept_scid: u64,
        cltv_expiry_delta: u32,
        client_trusts_lsp: bool,
        user_channel_id: u128,
    ) -> (result: Result<(), ServiceError>)
        requires
            old(self).wf(),
        ensures
            final(self).wf(),
            final(self)@ == old(self)@.after_invoice_parameters(
                *counterparty_node_id,
                request_id@,
                intercept_scid,
                cltv_expiry_delta,
                client_trusts_lsp,
                user_channel_id,
            ),
            result == match old(self)@.buy_answer_error(*counterparty_node_id, request_id@) {
                Some(error) => Err::<(), ServiceError>(error),
                None => Ok::<(), ServiceError>(()),
            },
    {
        proof {
            lemma_invoice_parameters_keep_consistency(
                old(self)@,
                *counterparty_node_id,
                request_id@,
                intercept_scid,
                cltv_expiry_delta,
                client_trusts_lsp,
                user_channel_id,
            );
        }
        let buy_request = match self.take_pending_buy(counterparty_node_id, &request_id) {
            Ok(buy_request) => buy_request,
            Err(error) => {
                return Err(error);
            },
        };
        let ghost answered = self@;
        let outbound_jit_channel = OutboundJITChannel::new(
            buy_request.payment_size_msat,
            buy_request.opening_fee_params,
            user_channel_id,
        );
        let mut peer_state = match self.take_peer(counterparty_node_id) {
            Some(state) => state,
            None => PeerState::new(),
        };
        peer_state.insert_outbound_channel(intercept_scid, outbound_jit_channel);
        self.put_peer(counterparty_node_id, peer_state, Ghost(answered));
        self.peer_by_intercept_scid.insert(intercept_scid, *counterparty_node_id);
        self.enqueue_response(
            counterparty_node_id,
            request_id,
            LSPS2Response::Buy(
                BuyResponse {
                    intercept_scid,
                    lsp_cltv_expiry_delta: cltv_expiry_delta,
                    client_trusts_lsp,
                },
            ),
        );
        assert(self@.per_peer_state =~= old(self)@.after_invoice_parameters(
            *counterparty_node_id,
            request_id@,
            intercept_scid,
            cltv_expiry_delta,
            client_trusts_lsp,
            user_channel_id,
        ).per_peer_state);
        Ok(())
    }

    /// Takes the node's report that it has intercepted an HTLC, and decides
    /// what is done with it.
    ///
    /// An HTLC under an intercept scid that the service did not give out, or
    /// whose channel is gone, is not the service's business. Else the
    /// channel under the scid takes the HTLC. Where that completes the
    /// payment, the host is asked to open the channel. Where the channel
    /// refuses the HTLC, the channel is taken off the record, with every
    /// user channel id that led to it, and the decision is to fail the HTLC.
    pub fn htlc_intercepted(
        &mut self,
        intercept_scid: u64,
        intercept_id: InterceptId,
        expected_outbound_amount_msat: u64,
    ) -> (result: Result<InterceptDecision, ServiceError>)
        requires
            old(self).wf(),
        ensures
            final(self).wf(),
            final(self)@ == old(self)@.after_htlc_intercepted(
                intercept_scid,
                InterceptedHTLC { intercept_id, expected_outbound_amount_msat },
            ),
            result == old(self)@.intercept_decision(
                intercept_scid,
                InterceptedHTLC { intercept_id, expected_outbound_amount_msat },
            ),
            result is Ok,
    {
        let htlc = InterceptedHTLC { intercept_id, expected_outbound_amount_msat };
        proof {
            lemma_htlc_intercepted_keeps_consistency(old(self)@, intercept_scid, htlc);
        }
        let counterparty_node_id = match self.peer_by_intercept_scid.get(&intercept_scid) {
            Some(peer) => *peer,
            None => {
                return Ok(InterceptDecision::NotOurs);
            },
        };
        let mut peer_state = match self.take_peer(&counterparty_node_id) {
            Some(state) => state,
            None => {
                return Err(ServiceError::NoPeerForInterceptScid);
            },
        };
        let outcome = peer_state.htlc_intercepted(intercept_scid, htlc);
        self.put_peer(&counterparty_node_id, peer_state, Ghost(old(self)@));
        match outcome {
            HtlcOutcome::NoChannel => Ok(InterceptDecision::NotOurs),
            HtlcOutcome::AwaitingPayment => Ok(InterceptDecision::Held),
            HtlcOutcome::OpenChannel { opening_fee_msat, amt_to_forward_msat, user_channel_id } => {
                self.enqueue_event(
                    LSPS2ServiceEvent::OpenChannel {
                        their_network_key: counterparty_node_id,
                        amt_to_forward_msat,
                        opening_fee_msat,
                        user_channel_id,
                        intercept_scid,
                    },
                );
                Ok(InterceptDecision::OpenChannelRequested)
            },
            HtlcOutcome::Refused(reason) => Ok(InterceptDecision::Fail { intercept_id, reason }),
        }
    }

    /// Takes the host's report that the channel it knows under the given
    /// user channel id is open to the given peer, and returns the HTLCs that
    /// the caller now forwards over it, in the order in which they were
    /// intercepted, each with its amount after the opening fee.
    pub fn channel_ready(
        &mut self,
        user_channel_id: u128,
        channel_id: &ChannelId,
        counterparty_node_id: &NodeId,
    ) -> (result: Result<Vec<HtlcForward>, ServiceError>)
        requires
            old(self).wf(),
        ensures
            final(self).wf(),
            final(self)@ == old(self)@.after_channel_ready(user_channel_id, *counterparty_node_id),
            match result {
                Ok(forwards) => old(self)@.channel_ready_forwards(
                    user_channel_id,
                    *channel_id,
                    *counterparty_node_id,
                ) == Ok::<Seq<HtlcForward>, ServiceError>(forwards@),
                Err(error) => old(self)@.channel_ready_forwards(
                    user_channel_id,
                    *channel_id,
                    *counterparty_node_id,
                ) == Err::<Seq<HtlcForward>, ServiceError>(error),
            },
    {
        proof {
            lemma_channel_ready_keeps_consistency(
                old(self)@,
                user_channel_id,
                *counterparty_node_id,
            );
        }
        let mut peer_state = match self.take_peer(counterparty_node_id) {
            Some(state) => state,
            None => {
                assert(self@.per_peer_state =~= old(self)@.per_peer_state);
                return Err(ServiceError::NoPeerState);
            },
        };
        let outcome = peer_state.channel_ready(user_channel_id);
        self.put_peer(counterparty_node_id, peer_state, Ghost(old(self)@));
        match outcome {
            Ok((htlcs, total_amt_to_forward_msat)) => {
                let amounts_to_forward_msat = calculate_amount_to_forward_per_htlc(
                    htlcs.as_slice(),
                    total_amt_to_forward_msat,
                );
                Ok(forwards_over(amounts_to_forward_msat, channel_id, counterparty_node_id))
            },
            Err(error) => Err(ServiceError::ChannelReady(error)),
        }
    }

    /// The number of messages that wait to be sent.
    pub fn pending_msgs_len(&self) -> (count: usize)
        ensures
            count == self@.pending_messages.len(),
    {
        self.pending_messages.len()
    }

    /// The number of events that wait for the host.
    pub fn pending_events_len(&self) -> (count: usize)
        ensures
            count == self@.pending_events.len(),
    {
        self.pending_events.len()
    }

    /// Takes all messages that wait to be sent, in their order.
    pub fn get_and_clear_pending_msgs(&mut self) -> (messages: Vec<(NodeId, LSPSMessage)>)
        requires
            old(self).wf(),
        ensures
            final(self).wf(),
            message_views(messages@) == old(self)@.pending_messages,
            final(self)@ == (ServiceView { pending_messages: Seq::empty(), ..old(self)@ }),
    {
        let messages = self.pending_messages.get_and_clear_pending_msgs();
        proof {
            assert(self@.pending_messages =~= Seq::empty());
            lemma_consistency_ignores_queues(old(self)@, self@);
        }
        messages
    }

    /// Takes all events that wait for the host, in their order.
    pub fn get_and_clear_pending_events(&mut self) -> (events: Vec<Event>)
        requires
            old(self).wf(),
        ensures
            final(self).wf(),
            event_views(events@) == old(self)@.pending_events,
            final(self)@ == (ServiceView { pending_events: Seq::empty(), ..old(self)@ }),
    {
        let events = self.pending_events.get_and_clear_pending_events();
        proof {
            assert(self@.pending_events =~= Seq::empty());
            lemma_consistency_ignores_queues(old(self)@, self@);
        }
        events
    }

    /// Takes the first event that waits for the host, if there is one.
    pub fn next_event(&mut self) -> (next: Option<Event>)
        requires
            old(self).wf(),
        ensures
            final(self).wf(),
            match next {
                Some(event) => {
                    &&& old(self)@.pending_events.len() > 0
                    &&& event@ == old(self)@.pending_events[0]
                    &&& final(self)@ == (ServiceView {
                        pending_events: old(self)@.pending_events.drop_first(),
                        ..old(self)@
                    })
                },
                None => old(self)@.pending_events.len() == 0 && final(self)@ == old(self)@,
            },
    {
        let next = self.pending_events.next_event();
        proof {
            lemma_consistency_ignores_queues(old(self)@, self@);
        }
        next
    }

    /// One step of a consumer that waits for the next event: the first
    /// event if there is one, with the word whether more are left for
    /// another waiter; else the instruction to sleep.
    pub fn wait_next_event(&mut self) -> (step: WaitStep)
        requires
            old(self).wf(),
        ensures
            final(self).wf(),
            match step {
                WaitStep::Deliver { event, wake_next } => {
                    &&& old(self)@.pending_events.len() > 0
                    &&& event@ == old(self)@.pending_events[0]
                    &&& wake_next == (old(self)@.pending_events.len() > 1)
                    &&& final(self)@ == (ServiceView {
                        pending_events: old(self)@.pending_events.drop_first(),
                        ..old(self)@
                    })
                },
                WaitStep::Block => old(self)@.pending_events.len() == 0 && final(self)@ == old(
                    self,
                )@,
            },
    {
        let step = self.pending_events.wait_next_event();
        proof {
            lemma_consistency_ignores_queues(old(self)@, self@);
        }
        step
    }
}

} // verus!
