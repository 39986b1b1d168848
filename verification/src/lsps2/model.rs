//! The record that the service keeps, as a mathematical value, with what
//! each message, answer and report makes of it, and what always holds of it.
use crate::events::EventView;
use crate::ids::NodeId;
use crate::lsps0::msgs::{LSPSMessageView, ResponseErrorView};
use crate::lsps2::buy::buy_rejection;
use crate::lsps2::channel::{ChannelView, InterceptedHTLC};
use crate::lsps2::event::LSPS2ServiceEventView;
use crate::lsps2::forwarding::spec_amounts_to_forward;
use crate::lsps2::msgs::{
    BuyRequest, BuyResponse, GetInfoRequestView, LSPS2MessageView, LSPS2RequestView,
    LSPS2ResponseView, OpeningFeeParams, RawOpeningFeeParams,
};
use crate::lsps2::peer::{
    channels_advanced, keeps_intercept_scids, lemma_after_channel_ready, lemma_after_htlc,
    lemma_channels_only_advance, lemma_consistency_ignores_requests, lemma_with_outbound_channel,
    HtlcOutcome, PeerStateView,
};
use crate::lsps2::service::{HtlcForward, InterceptDecision, ProtocolError, ServiceError};
use crate::lsps2::utils::is_signed;
use lightning::ln::channelmanager::InterceptId;
use lightning::ln::ChannelId;
use vstd::prelude::*;

verus! {

/// The mathematical content of the service's record.
pub struct ServiceView {
    /// The messages that wait to be sent, each with the peer it is for.
    pub pending_messages: Seq<(NodeId, LSPSMessageView)>,
    /// The events that wait for the host.
    pub pending_events: Seq<EventView>,
    /// The state of each peer that has sent a request.
    pub per_peer_state: Map<NodeId, PeerStateView>,
    /// The peer that each intercept scid was given out for.
    pub peer_by_intercept_scid: Map<u64, NodeId>,
    /// The secret under which the service signs its fee menus.
    pub promise_secret: Seq<u8>,
}

/// The error response to a `get_info` request with an invalid token.
pub open spec fn invalid_token_response() -> ResponseErrorView {
    ResponseErrorView { code: 200, message: "an unrecognized or stale token was provided"@ }
}

/// Whether `menu` is `raw_menu` signed under `secret`, entry by entry.
pub open spec fn is_signed_menu(
    raw_menu: Seq<RawOpeningFeeParams>,
    secret: Seq<u8>,
    menu: Seq<OpeningFeeParams>,
) -> bool {
    &&& menu.len() == raw_menu.len()
    &&& forall|i: int| 0 <= i < raw_menu.len() ==> is_signed(raw_menu[i], secret, #[trigger] menu[i])
}

impl ServiceView {
    /// What always holds of the service's record: each peer's state is
    /// consistent; and each intercept scid was given out for a peer that the
    /// service keeps state for and that has a channel under the scid, unless
    /// that channel was taken away after it refused an HTLC.
    pub open spec fn is_consistent(self) -> bool {
        &&& forall|peer: NodeId| #[trigger]
            self.per_peer_state.contains_key(peer) ==> self.per_peer_state[peer].is_consistent()
        &&& forall|intercept_scid: u64| #[trigger]
            self.peer_by_intercept_scid.contains_key(intercept_scid) ==> {
                &&& self.per_peer_state.contains_key(self.peer_by_intercept_scid[intercept_scid])
                &&& self.per_peer_state[self.peer_by_intercept_scid[intercept_scid]].knows_intercept_scid(
                intercept_scid)
            }
    }

    /// The state of the given peer, or that of a peer just met where the
    /// service has none.
    pub open spec fn peer_or_new(self, peer: NodeId) -> PeerStateView {
        if self.per_peer_state.contains_key(peer) {
            self.per_peer_state[peer]
        } else {
            PeerStateView::initial()
        }
    }

    /// The record without the state of the given peer.
    pub open spec fn without_peer(self, peer: NodeId) -> ServiceView {
        ServiceView { per_peer_state: self.per_peer_state.remove(peer), ..self }
    }

    /// The record with the given state for the given peer.
    pub open spec fn with_peer(self, peer: NodeId, state: PeerStateView) -> ServiceView {
        ServiceView { per_peer_state: self.per_peer_state.insert(peer, state), ..self }
    }

    /// The record with one more response waiting to be sent to the given
    /// peer.
    pub open spec fn with_response(
        self,
        peer: NodeId,
        request_id: Seq<char>,
        response: LSPS2ResponseView,
    ) -> ServiceView {
        ServiceView {
            pending_messages: self.pending_messages.push(
                (peer, LSPSMessageView::LSPS2(LSPS2MessageView::Response(request_id, response))),
            ),
            ..self
        }
    }

    /// The record with one more event waiting for the host.
    pub open spec fn with_event(self, event: LSPS2ServiceEventView) -> ServiceView {
        ServiceView {
            pending_events: self.pending_events.push(EventView::LSPS2Service(event)),
            ..self
        }
    }

    /// The record after a peer has asked for the fee menu: the request waits
    /// for the host's answer, and the host is told of it.
    pub open spec fn after_get_info_request(
        self,
        request_id: Seq<char>,
        peer: NodeId,
        request: GetInfoRequestView,
    ) -> ServiceView {
        self.with_peer(
            peer,
            self.peer_or_new(peer).with_pending_request(
                request_id,
                LSPS2RequestView::GetInfo(request),
            ),
        ).with_event(
            LSPS2ServiceEventView::GetInfo {
                request_id,
                counterparty_node_id: peer,
                token: request.token,
            },
        )
    }

    /// The record after a peer has asked to buy a channel at the given
    /// second. A request that the service refuses is answered at once with
    /// the reason. One that it accepts waits for the host's answer, and the
    /// host is told of it.
    pub open spec fn after_buy_request(
        self,
        request_id: Seq<char>,
        peer: NodeId,
        request: BuyRequest,
        now_unix_secs: u64,
    ) -> ServiceView {
        match buy_rejection(request, self.promise_secret, now_unix_secs) {
            Some(rejection) => self.with_response(
                peer,
                request_id,
                LSPS2ResponseView::BuyError(rejection.spec_response()),
            ),
            None => self.with_peer(
                peer,
                self.peer_or_new(peer).with_pending_request(
                    request_id,
                    LSPS2RequestView::Buy(request),
                ),
            ).with_event(
                LSPS2ServiceEventView::BuyRequest {
                    request_id,
                    counterparty_node_id: peer,
                    opening_fee_params: request.opening_fee_params,
                    payment_size_msat: request.payment_size_msat,
                },
            ),
        }
    }

    /// The record after a message of a peer has come in at the given second.
    pub open spec fn after_message(
        self,
        message: LSPS2MessageView,
        peer: NodeId,
        now_unix_secs: u64,
    ) -> ServiceView {
        match message {
            LSPS2MessageView::Request(
                request_id,
                LSPS2RequestView::GetInfo(request),
            ) => self.after_get_info_request(request_id, peer, request),
            LSPS2MessageView::Request(
                request_id,
                LSPS2RequestView::Buy(request),
            ) => self.after_buy_request(request_id, peer, request, now_unix_secs),
            LSPS2MessageView::Response(_, _) => self,
        }
    }

    /// Why the service ignores a message of a peer that comes in at the
    /// given second, or `None` where it takes it.
    pub open spec fn message_error(
        self,
        message: LSPS2MessageView,
        now_unix_secs: u64,
    ) -> Option<ProtocolError> {
        match message {
            LSPS2MessageView::Request(_, LSPS2RequestView::GetInfo(_)) => None,
            LSPS2MessageView::Request(_, LSPS2RequestView::Buy(request)) => match buy_rejection(
                request,
                self.promise_secret,
                now_unix_secs,
            ) {
                Some(rejection) => Some(ProtocolError::BuyRejected(rejection)),
                None => None,
            },
            LSPS2MessageView::Response(_, _) => Some(ProtocolError::UnexpectedResponse),
        }
    }

    /// The record without the request of the given peer that waited under
    /// the given id. Where the service keeps no state for the peer, nothing
    /// changes.
    pub open spec fn without_pending_request(self, peer: NodeId, request_id: Seq<char>) -> ServiceView {
        if self.per_peer_state.contains_key(peer) {
            self.with_peer(peer, self.per_peer_state[peer].without_pending_request(request_id))
        } else {
            self
        }
    }

    /// The request of the given peer that waits under the given id, if
    /// there is one.
    pub open spec fn pending_request(self, peer: NodeId, request_id: Seq<char>) -> Option<
        LSPS2RequestView,
    > {
        if self.per_peer_state.contains_key(peer)
            && self.per_peer_state[peer].pending_requests.contains_key(request_id) {
            Some(self.per_peer_state[peer].pending_requests[request_id])
        } else {
            None
        }
    }

    /// Why the host cannot answer a `get_info` request of the given peer
    /// under the given id, or `None` where it can.
    pub open spec fn get_info_answer_error(self, peer: NodeId, request_id: Seq<char>) -> Option<
        ServiceError,
    > {
        if !self.per_peer_state.contains_key(peer) {
            Some(ServiceError::NoPeerState)
        } else {
            match self.pending_request(peer, request_id) {
                Some(LSPS2RequestView::GetInfo(_)) => None,
                _ => Some(ServiceError::NoPendingGetInfoRequest),
            }
        }
    }

    /// Why the host cannot answer a `buy` request of the given peer under
    /// the given id, or `None` where it can.
    pub open spec fn buy_answer_error(self, peer: NodeId, request_id: Seq<char>) -> Option<
        ServiceError,
    > {
        if !self.per_peer_state.contains_key(peer) {
            Some(ServiceError::NoPeerState)
        } else {
            match self.pending_request(peer, request_id) {
                Some(LSPS2RequestView::Buy(_)) => None,
                _ => Some(ServiceError::NoPendingBuyRequest),
            }
        }
    }

    /// The record after the host has answered a `get_info` request with the
    /// given response. Where such a request of the peer waits under the id,
    /// it is taken off the record and the response is sent. Else nothing
    /// changes.
    pub open spec fn after_get_info_answer(
        self,
        peer: NodeId,
        request_id: Seq<char>,
        response: LSPS2ResponseView,
    ) -> ServiceView {
        if self.get_info_answer_error(peer, request_id) is None {
            self.without_pending_request(peer, request_id).with_response(
                peer,
                request_id,
                response,
            )
        } else {
            self
        }
    }

    /// The record after the host has given the invoice parameters for a
    /// `buy` request. Where such a request of the peer waits under the id,
    /// it is taken off the record, the intercept scid is on record for the
    /// peer, the peer has a new channel under it that awaits its payment on
    /// the terms of the request, and the peer is told the parameters. Else
    /// nothing changes.
    pub open spec fn after_invoice_parameters(
        self,
        peer: NodeId,
        request_id: Seq<char>,
        intercept_scid: u64,
        cltv_expiry_delta: u32,
        client_trusts_lsp: bool,
        user_channel_id: u128,
    ) -> ServiceView {
        match self.pending_request(peer, request_id) {
            Some(LSPS2RequestView::Buy(request)) => ServiceView {
                peer_by_intercept_scid: self.peer_by_intercept_scid.insert(intercept_scid, peer),
                ..self
            }.with_peer(
                peer,
                self.per_peer_state[peer].without_pending_request(
                    request_id,
                ).with_outbound_channel(
                    intercept_scid,
                    ChannelView::initial(
                        request.payment_size_msat,
                        request.opening_fee_params,
                        user_channel_id,
                    ),
                ),
            ).with_response(
                peer,
                request_id,
                LSPS2ResponseView::Buy(
                    BuyResponse {
                        intercept_scid,
                        lsp_cltv_expiry_delta: cltv_expiry_delta,
                        client_trusts_lsp,
                    },
                ),
            ),
            _ => self,
        }
    }

    /// What the caller does with an HTLC intercepted under the given scid,
    /// or how the service was misused.
    pub open spec fn intercept_decision(
        self,
        intercept_scid: u64,
        htlc: InterceptedHTLC,
    ) -> Result<InterceptDecision, ServiceError> {
        if !self.peer_by_intercept_scid.contains_key(intercept_scid) {
            Ok(InterceptDecision::NotOurs)
        } else {
            let peer = self.peer_by_intercept_scid[intercept_scid];
            if !self.per_peer_state.contains_key(peer) {
                Err(ServiceError::NoPeerForInterceptScid)
            } else {
                match self.per_peer_state[peer].htlc_outcome(intercept_scid, htlc) {
                    HtlcOutcome::NoChannel => Ok(InterceptDecision::NotOurs),
                    HtlcOutcome::AwaitingPayment => Ok(InterceptDecision::Held),
                    HtlcOutcome::OpenChannel { .. } => Ok(InterceptDecision::OpenChannelRequested),
                    HtlcOutcome::Refused(reason) => Ok(
                        InterceptDecision::Fail { intercept_id: htlc.intercept_id, reason },
                    ),
                }
            }
        }
    }

    /// The record after an HTLC was intercepted under the given scid. The
    /// channel that the scid was given out for has taken the HTLC, and where
    /// that completed the payment, the host is asked to open the channel. A
    /// channel that refused the HTLC is gone, with every user channel id
    /// that led to it; the scid stays on record for its peer.
    pub open spec fn after_htlc_intercepted(
        self,
        intercept_scid: u64,
        htlc: InterceptedHTLC,
    ) -> ServiceView {
        if !self.peer_by_intercept_scid.contains_key(intercept_scid) {
            self
        } else {
            let peer = self.peer_by_intercept_scid[intercept_scid];
            if !self.per_peer_state.contains_key(peer) {
                self
            } else {
                let taken = self.with_peer(
                    peer,
                    self.per_peer_state[peer].after_htlc(intercept_scid, htlc),
                );
                match self.per_peer_state[peer].htlc_outcome(intercept_scid, htlc) {
                    HtlcOutcome::OpenChannel {
                        opening_fee_msat,
                        amt_to_forward_msat,
                        user_channel_id,
                    } => taken.with_event(
                        LSPS2ServiceEventView::OpenChannel {
                            their_network_key: peer,
                            amt_to_forward_msat,
                            opening_fee_msat,
                            user_channel_id,
                            intercept_scid,
                        },
                    ),
                    _ => taken,
                }
            }
        }
    }

    /// What the report that a channel to the given peer is open comes to:
    /// the HTLCs to forward over it, each with its amount, or how the
    /// service was misused.
    pub open spec fn channel_ready_forwards(
        self,
        user_channel_id: u128,
        channel_id: ChannelId,
        peer: NodeId,
    ) -> Result<Seq<HtlcForward>, ServiceError> {
        if !self.per_peer_state.contains_key(peer) {
            Err(ServiceError::NoPeerState)
        } else {
            match self.per_peer_state[peer].channel_ready_outcome(user_channel_id) {
                Ok((htlcs, amt_to_forward_msat)) => Ok(
                    spec_forwards_over(
                        spec_amounts_to_forward(htlcs, amt_to_forward_msat),
                        channel_id,
                        peer,
                    ),
                ),
                Err(error) => Err(ServiceError::ChannelReady(error)),
            }
        }
    }

    /// The record after the report that a channel to the given peer is
    /// open: the channel is ready, if the peer has it and its opening was
    /// pending.
    pub open spec fn after_channel_ready(self, user_channel_id: u128, peer: NodeId) -> ServiceView {
        if self.per_peer_state.contains_key(peer) {
            self.with_peer(peer, self.per_peer_state[peer].after_channel_ready(user_channel_id))
        } else {
            self
        }
    }
}

/// The instructions to forward the given amounts over the given channel to
/// the given peer, in the order of the amounts.
pub open spec fn spec_forwards_over(
    amounts: Seq<(InterceptId, u64)>,
    channel_id: ChannelId,
    peer: NodeId,
) -> Seq<HtlcForward> {
    Seq::new(
        amounts.len(),
        |i: int|
            HtlcForward {
                intercept_id: amounts[i].0,
                next_hop_channel_id: channel_id,
                next_node_id: peer,
                amt_to_forward_msat: amounts[i].1,
            },
    )
}

/// The record stays consistent when the state of one peer is replaced by a
/// consistent state that knows every intercept scid that the peer knew.
pub proof fn lemma_peer_update_is_consistent(before: ServiceView, peer: NodeId, state: PeerStateView)
    requires
        before.is_consistent(),
        state.is_consistent(),
        keeps_intercept_scids(before.peer_or_new(peer), state),
    ensures
        before.with_peer(peer, state).is_consistent(),
{
    let after = before.with_peer(peer, state);
    assert forall|intercept_scid: u64| #[trigger]
        after.peer_by_intercept_scid.contains_key(intercept_scid) implies {
        &&& after.per_peer_state.contains_key(after.peer_by_intercept_scid[intercept_scid])
        &&& after.per_peer_state[after.peer_by_intercept_scid[intercept_scid]].knows_intercept_scid(
        intercept_scid)
    } by {
        assert(before.peer_by_intercept_scid.contains_key(intercept_scid));
        let owner = before.peer_by_intercept_scid[intercept_scid];
        assert(before.per_peer_state.contains_key(owner));
        if owner == peer {
            assert(before.peer_or_new(peer).knows_intercept_scid(intercept_scid));
        }
    }
    assert forall|other: NodeId| #[trigger]
        after.per_peer_state.contains_key(other) implies after.per_peer_state[other].is_consistent() by {
        if other != peer {
            assert(before.per_peer_state.contains_key(other));
        }
    }
}

/// Whether every peer on record before is on record after, and each of its
/// channels is gone or in the stage it was in or in the next.
pub open spec fn peers_advanced(before: ServiceView, after: ServiceView) -> bool {
    forall|peer: NodeId| #[trigger]
        before.per_peer_state.contains_key(peer) ==> {
            &&& after.per_peer_state.contains_key(peer)
            &&& channels_advanced(before.per_peer_state[peer], after.per_peer_state[peer])
        }
}

/// What the node reports sets no channel back: after an intercepted HTLC,
/// and after the report that a channel is open, every channel on record is
/// in the stage it was in or in the next.
pub proof fn lemma_node_reports_only_advance_channels(
    before: ServiceView,
    intercept_scid: u64,
    htlc: InterceptedHTLC,
    user_channel_id: u128,
    peer: NodeId,
)
    ensures
        peers_advanced(before, before.after_htlc_intercepted(intercept_scid, htlc)),
        peers_advanced(before, before.after_channel_ready(user_channel_id, peer)),
{
    let after_htlc = before.after_htlc_intercepted(intercept_scid, htlc);
    assert forall|other: NodeId| #[trigger] before.per_peer_state.contains_key(other) implies {
        &&& after_htlc.per_peer_state.contains_key(other)
        &&& channels_advanced(before.per_peer_state[other], after_htlc.per_peer_state[other])
    } by {
        lemma_channels_only_advance(
            before.per_peer_state[other],
            intercept_scid,
            htlc,
            user_channel_id,
        );
    }
    let after_ready = before.after_channel_ready(user_channel_id, peer);
    assert forall|other: NodeId| #[trigger] before.per_peer_state.contains_key(other) implies {
        &&& after_ready.per_peer_state.contains_key(other)
        &&& channels_advanced(before.per_peer_state[other], after_ready.per_peer_state[other])
    } by {
        lemma_channels_only_advance(
            before.per_peer_state[other],
            intercept_scid,
            htlc,
            user_channel_id,
        );
    }
}

/// Whether the record is consistent does not depend on what waits in the
/// queues.
pub proof fn lemma_consistency_ignores_queues(before: ServiceView, after: ServiceView)
    requires
        before.is_consistent(),
        after.per_peer_state == before.per_peer_state,
        after.peer_by_intercept_scid == before.peer_by_intercept_scid,
    ensures
        after.is_consistent(),
{
}

/// The record stays consistent when a message of a peer comes in.
pub proof fn lemma_message_keeps_consistency(
    before: ServiceView,
    message: LSPS2MessageView,
    peer: NodeId,
    now_unix_secs: u64,
)
    requires
        before.is_consistent(),
    ensures
        before.after_message(message, peer, now_unix_secs).is_consistent(),
{
    let after = before.after_message(message, peer, now_unix_secs);
    match message {
        LSPS2MessageView::Request(request_id, request) => {
            let refused = request matches LSPS2RequestView::Buy(buy) && buy_rejection(
                buy,
                before.promise_secret,
                now_unix_secs,
            ) is Some;
            if refused {
                lemma_consistency_ignores_queues(before, after);
            } else {
                let state = before.peer_or_new(peer).with_pending_request(request_id, request);
                lemma_consistency_ignores_requests(before.peer_or_new(peer), state);
                lemma_peer_update_is_consistent(before, peer, state);
                lemma_consistency_ignores_queues(before.with_peer(peer, state), after);
            }
        },
        LSPS2MessageView::Response(_, _) => {},
    }
}

/// The record stays consistent when a request is taken off it.
pub proof fn lemma_without_pending_request_keeps_consistency(
    before: ServiceView,
    peer: NodeId,
    request_id: Seq<char>,
)
    requires
        before.is_consistent(),
    ensures
        before.without_pending_request(peer, request_id).is_consistent(),
{
    if before.per_peer_state.contains_key(peer) {
        let state = before.per_peer_state[peer].without_pending_request(request_id);
        lemma_consistency_ignores_requests(before.per_peer_state[peer], state);
        lemma_peer_update_is_consistent(before, peer, state);
    }
}

/// The record stays consistent when the host answers a `get_info` request.
pub proof fn lemma_get_info_answer_keeps_consistency(
    before: ServiceView,
    peer: NodeId,
    request_id: Seq<char>,
    response: LSPS2ResponseView,
)
    requires
        before.is_consistent(),
    ensures
        before.after_get_info_answer(peer, request_id, response).is_consistent(),
{
    if before.get_info_answer_error(peer, request_id) is None {
        lemma_without_pending_request_keeps_consistency(before, peer, request_id);
        lemma_consistency_ignores_queues(
            before.without_pending_request(peer, request_id),
            before.after_get_info_answer(peer, request_id, response),
        );
    }
}

/// The record stays consistent when the host gives the invoice parameters
/// for a `buy` request: the intercept scid goes on record together with the
/// channel that backs it.
pub proof fn lemma_invoice_parameters_keep_consistency(
    before: ServiceView,
    peer: NodeId,
    request_id: Seq<char>,
    intercept_scid: u64,
    cltv_expiry_delta: u32,
    client_trusts_lsp: bool,
    user_channel_id: u128,
)
    requires
        before.is_consistent(),
    ensures
        before.after_invoice_parameters(
            peer,
            request_id,
            intercept_scid,
            cltv_expiry_delta,
            client_trusts_lsp,
            user_channel_id,
        ).is_consistent(),
{
    let after = before.after_invoice_parameters(
        peer,
        request_id,
        intercept_scid,
        cltv_expiry_delta,
        client_trusts_lsp,
        user_channel_id,
    );
    lemma_without_pending_request_keeps_consistency(before, peer, request_id);
    if let Some(LSPS2RequestView::Buy(request)) = before.pending_request(peer, request_id) {
        let answered = before.per_peer_state[peer].without_pending_request(request_id);
        let channel = ChannelView::initial(
            request.payment_size_msat,
            request.opening_fee_params,
            user_channel_id,
        );
        let state = answered.with_outbound_channel(intercept_scid, channel);
        lemma_consistency_ignores_requests(before.per_peer_state[peer], answered);
        lemma_with_outbound_channel(answered, intercept_scid, channel);
        assert forall|scid: u64| #[trigger]
            before.per_peer_state[peer].knows_intercept_scid(scid) implies state.knows_intercept_scid(
            scid,
        ) by {
            assert(answered.knows_intercept_scid(scid));
        }
        lemma_peer_update_is_consistent(before, peer, state);
        let updated = before.with_peer(peer, state);
        assert forall|scid: u64| #[trigger] after.peer_by_intercept_scid.contains_key(scid) implies {
            &&& after.per_peer_state.contains_key(after.peer_by_intercept_scid[scid])
            &&& after.per_peer_state[after.peer_by_intercept_scid[scid]].knows_intercept_scid(scid)
        } by {
            if scid != intercept_scid {
                assert(updated.peer_by_intercept_scid.contains_key(scid));
            }
        }
        assert forall|other: NodeId| #[trigger]
            after.per_peer_state.contains_key(other) implies after.per_peer_state[other].is_consistent() by {
            assert(updated.per_peer_state.contains_key(other));
        }
    }
}

/// The record stays consistent when the node reports an intercepted HTLC.
pub proof fn lemma_htlc_intercepted_keeps_consistency(
    before: ServiceView,
    intercept_scid: u64,
    htlc: InterceptedHTLC,
)
    requires
        before.is_consistent(),
    ensures
        before.after_htlc_intercepted(intercept_scid, htlc).is_consistent(),
        before.intercept_decision(intercept_scid, htlc) is Ok,
{
    if before.peer_by_intercept_scid.contains_key(intercept_scid) {
        let peer = before.peer_by_intercept_scid[intercept_scid];
        let state = before.per_peer_state[peer].after_htlc(intercept_scid, htlc);
        lemma_after_htlc(before.per_peer_state[peer], intercept_scid, htlc);
        lemma_peer_update_is_consistent(before, peer, state);
        lemma_consistency_ignores_queues(
            before.with_peer(peer, state),
            before.after_htlc_intercepted(intercept_scid, htlc),
        );
    }
}

/// A channel that refuses an HTLC is gone from its peer's record, and no
/// user channel id of the peer leads to its intercept scid any more.
pub proof fn lemma_refusing_channel_is_gone(
    before: ServiceView,
    intercept_scid: u64,
    htlc: InterceptedHTLC,
)
    requires
        before.is_consistent(),
        before.intercept_decision(intercept_scid, htlc) matches Ok(InterceptDecision::Fail { .. }),
    ensures
        ({
            let peer = before.peer_by_intercept_scid[intercept_scid];
            let state = before.after_htlc_intercepted(intercept_scid, htlc).per_peer_state[peer];
            &&& !state.outbound_channels_by_intercept_scid.contains_key(intercept_scid)
            &&& forall|user_channel_id: u128| #[trigger]
                state.intercept_scid_by_user_channel_id.contains_key(user_channel_id)
                    ==> state.intercept_scid_by_user_channel_id[user_channel_id] != intercept_scid
        }),
{
    let peer = before.peer_by_intercept_scid[intercept_scid];
    lemma_after_htlc(before.per_peer_state[peer], intercept_scid, htlc);
}

/// The record stays consistent when a channel is reported open.
pub proof fn lemma_channel_ready_keeps_consistency(
    before: ServiceView,
    user_channel_id: u128,
    peer: NodeId,
)
    requires
        before.is_consistent(),
    ensures
        before.after_channel_ready(user_channel_id, peer).is_consistent(),
{
    if before.per_peer_state.contains_key(peer) {
        let state = before.per_peer_state[peer].after_channel_ready(user_channel_id);
        lemma_after_channel_ready(before.per_peer_state[peer], user_channel_id);
        lemma_peer_update_is_consistent(before, peer, state);
    }
}

} // verus!
