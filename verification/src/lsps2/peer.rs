//! What the service keeps for one peer: the requests that wait for the
//! host's answer and the channels that the peer has bought.
use crate::assoc_list::{without_value, AssocList};
use crate::lsps0::msgs::RequestId;
use crate::lsps2::channel::{
    lemma_channel_ready_progress, lemma_htlc_intercepted_progress, lemma_pending_channel_is_funded,
    lemma_ready_channel_is_funded, stage_rank, ChannelStateError, ChannelStateView, ChannelView,
    InterceptedHTLC, OutboundJITChannel,
};
use crate::lsps2::msgs::{LSPS2Request, LSPS2RequestView};
use std::collections::HashMap;
use vstd::prelude::*;

verus! {

broadcast use vstd::std_specs::hash::group_hash_axioms;

/// The contents of the given channels, each under its key.
pub open spec fn channel_views(channels: Map<u64, OutboundJITChannel>) -> Map<u64, ChannelView> {
    channels.map_values(|channel: OutboundJITChannel| channel@)
}

/// The contents of the given requests, each under its key.
pub open spec fn request_views(requests: Map<Seq<char>, LSPS2Request>) -> Map<
    Seq<char>,
    LSPS2RequestView,
> {
    requests.map_values(|request: LSPS2Request| request@)
}

/// Whether every channel on record before is either gone after, or on
/// record under the same user channel id, in the same stage or the next.
pub open spec fn channels_advanced(before: PeerStateView, after: PeerStateView) -> bool {
    forall|intercept_scid: u64| #[trigger]
        after.outbound_channels_by_intercept_scid.contains_key(intercept_scid)
            && before.outbound_channels_by_intercept_scid.contains_key(intercept_scid) ==> {
            let old_channel = before.outbound_channels_by_intercept_scid[intercept_scid];
            let new_channel = after.outbound_channels_by_intercept_scid[intercept_scid];
            &&& new_channel.user_channel_id == old_channel.user_channel_id
            &&& stage_rank(old_channel.state.stage()) <= stage_rank(new_channel.state.stage())
                <= stage_rank(old_channel.state.stage()) + 1
        }
}

/// What an intercepted HTLC came to at the peer it was for.
#[derive(Clone, Copy, Debug, PartialEq, Eq)]
pub enum HtlcOutcome {
    /// The peer has no channel under the intercept scid.
    NoChannel,
    /// The HTLC was taken and the payment is not complete.
    AwaitingPayment,
    /// The HTLC completed the payment: the host is to open the channel.
    OpenChannel { opening_fee_msat: u64, amt_to_forward_msat: u64, user_channel_id: u128 },
    /// The channel refused the HTLC and has been taken off the record.
    Refused(ChannelStateError),
}

/// Why a peer's channel could not be made ready.
#[derive(Clone, Copy, Debug, PartialEq, Eq)]
pub enum ChannelReadyError {
    /// The peer has bought no channel under the user channel id.
    UnknownUserChannelId,
    /// The user channel id leads to no channel. No state that is in order
    /// gives this.
    ChannelNotFound,
    /// The channel refused the report.
    Refused(ChannelStateError),
}

/// The state that the service keeps for one peer.
pub struct PeerState {
    outbound_channels_by_intercept_scid: HashMap<u64, OutboundJITChannel>,
    intercept_scid_by_user_channel_id: AssocList<u128, u64>,
    pending_requests: AssocList<RequestId, LSPS2Request>,
    failed_intercept_scids: Ghost<Set<u64>>,
}

/// The mathematical content of a [`PeerState`].
pub struct PeerStateView {
    /// The channels that the peer has bought, by intercept scid.
    pub outbound_channels_by_intercept_scid: Map<u64, ChannelView>,
    /// The intercept scid of each channel, by the host's name for it.
    pub intercept_scid_by_user_channel_id: Map<u128, u64>,
    /// The requests that wait for the host's answer, by request id.
    pub pending_requests: Map<Seq<char>, LSPS2RequestView>,
    /// The intercept scids whose channel was taken away because it refused
    /// an HTLC, and that have not been given to a new channel since.
    pub failed_intercept_scids: Set<u64>,
}

impl View for PeerState {
    type V = PeerStateView;

    closed spec fn view(&self) -> PeerStateView {
        PeerStateView {
            outbound_channels_by_intercept_scid: channel_views(
                self.outbound_channels_by_intercept_scid@,
            ),
            intercept_scid_by_user_channel_id: self.intercept_scid_by_user_channel_id@,
            pending_requests: request_views(self.pending_requests@),
            failed_intercept_scids: self.failed_intercept_scids@,
        }
    }
}

impl PeerStateView {
    /// The state of a peer that the service has just met.
    pub open spec fn initial() -> PeerStateView {
        PeerStateView {
            outbound_channels_by_intercept_scid: Map::empty(),
            intercept_scid_by_user_channel_id: Map::empty(),
            pending_requests: Map::empty(),
            failed_intercept_scids: Set::empty(),
        }
    }

    /// Whether the intercept scid names a channel of the peer, or named one
    /// that was taken away because it refused an HTLC.
    pub open spec fn knows_intercept_scid(self, intercept_scid: u64) -> bool {
        self.outbound_channels_by_intercept_scid.contains_key(intercept_scid)
            || self.failed_intercept_scids.contains(intercept_scid)
    }

    /// What always holds of a peer's state: every intercept scid on record
    /// under a user channel id names a channel of the peer; no channel on
    /// record counts as failed; and every channel past its first stage has
    /// something to forward and the HTLCs to cover it.
    pub open spec fn is_consistent(self) -> bool {
        &&& forall|user_channel_id: u128| #[trigger]
            self.intercept_scid_by_user_channel_id.contains_key(user_channel_id)
                ==> self.outbound_channels_by_intercept_scid.contains_key(
                self.intercept_scid_by_user_channel_id[user_channel_id],
            )
        &&& forall|intercept_scid: u64| #[trigger]
            self.outbound_channels_by_intercept_scid.contains_key(intercept_scid)
                ==> !self.failed_intercept_scids.contains(intercept_scid)
        &&& forall|intercept_scid: u64| #[trigger]
            self.outbound_channels_by_intercept_scid.contains_key(intercept_scid)
                ==> self.outbound_channels_by_intercept_scid[intercept_scid].state.is_funded()
    }

    /// The state with one more request waiting for the host's answer. A
    /// request that waited under the same id is forgotten.
    pub open spec fn with_pending_request(
        self,
        request_id: Seq<char>,
        request: LSPS2RequestView,
    ) -> PeerStateView {
        PeerStateView {
            pending_requests: self.pending_requests.insert(request_id, request),
            ..self
        }
    }

    /// The state without the request that waited under the given id.
    pub open spec fn without_pending_request(self, request_id: Seq<char>) -> PeerStateView {
        PeerStateView { pending_requests: self.pending_requests.remove(request_id), ..self }
    }

    /// The state with a channel under the given intercept scid, on record
    /// under the channel's user channel id.
    pub open spec fn with_outbound_channel(
        self,
        intercept_scid: u64,
        channel: ChannelView,
    ) -> PeerStateView {
        PeerStateView {
            outbound_channels_by_intercept_scid: self.outbound_channels_by_intercept_scid.insert(
                intercept_scid,
                channel,
            ),
            intercept_scid_by_user_channel_id: self.intercept_scid_by_user_channel_id.insert(
                channel.user_channel_id,
                intercept_scid,
            ),
            failed_intercept_scids: self.failed_intercept_scids.remove(intercept_scid),
            ..self
        }
    }

    /// The state without the channel under the given intercept scid, which
    /// has refused an HTLC: the channel is gone, and with it every user
    /// channel id that led to it.
    pub open spec fn without_failed_channel(self, intercept_scid: u64) -> PeerStateView {
        PeerStateView {
            outbound_channels_by_intercept_scid: self.outbound_channels_by_intercept_scid.remove(
                intercept_scid,
            ),
            intercept_scid_by_user_channel_id: without_value(
                self.intercept_scid_by_user_channel_id,
                intercept_scid,
            ),
            failed_intercept_scids: self.failed_intercept_scids.insert(intercept_scid),
            ..self
        }
    }

    /// What an HTLC intercepted under the given scid comes to.
    pub open spec fn htlc_outcome(self, intercept_scid: u64, htlc: InterceptedHTLC) -> HtlcOutcome {
        if !self.outbound_channels_by_intercept_scid.contains_key(intercept_scid) {
            HtlcOutcome::NoChannel
        } else {
            let channel = self.outbound_channels_by_intercept_scid[intercept_scid];
            match channel.state.htlc_intercepted(htlc) {
                Ok(ChannelStateView::PendingChannelOpen {
                    opening_fee_msat,
                    amt_to_forward_msat,
                    ..
                }) => HtlcOutcome::OpenChannel {
                    opening_fee_msat,
                    amt_to_forward_msat,
                    user_channel_id: channel.user_channel_id,
                },
                Ok(_) => HtlcOutcome::AwaitingPayment,
                Err(error) => HtlcOutcome::Refused(error),
            }
        }
    }

    /// The state after an HTLC was intercepted under the given scid. Where
    /// there is a channel under the scid, it has taken the HTLC, or it has
    /// refused it and is gone.
    pub open spec fn after_htlc(self, intercept_scid: u64, htlc: InterceptedHTLC) -> PeerStateView {
        if !self.outbound_channels_by_intercept_scid.contains_key(intercept_scid) {
            self
        } else {
            let channel = self.outbound_channels_by_intercept_scid[intercept_scid];
            match channel.state.htlc_intercepted(htlc) {
                Ok(state) => PeerStateView {
                    outbound_channels_by_intercept_scid:
                        self.outbound_channels_by_intercept_scid.insert(
                        intercept_scid,
                        ChannelView { state, ..channel },
                    ),
                    ..self
                },
                Err(_) => self.without_failed_channel(intercept_scid),
            }
        }
    }

    /// What the report that the channel under the given user channel id is
    /// open comes to: the HTLCs to forward with the total amount, or the
    /// reason why the report was refused.
    pub open spec fn channel_ready_outcome(self, user_channel_id: u128) -> Result<
        (Seq<InterceptedHTLC>, u64),
        ChannelReadyError,
    > {
        if !self.intercept_scid_by_user_channel_id.contains_key(user_channel_id) {
            Err(ChannelReadyError::UnknownUserChannelId)
        } else {
            let intercept_scid = self.intercept_scid_by_user_channel_id[user_channel_id];
            if !self.outbound_channels_by_intercept_scid.contains_key(intercept_scid) {
                Err(ChannelReadyError::ChannelNotFound)
            } else {
                match self.outbound_channels_by_intercept_scid[intercept_scid].state {
                    ChannelStateView::PendingChannelOpen { htlcs, amt_to_forward_msat, .. } => Ok(
                        (htlcs, amt_to_forward_msat),
                    ),
                    state => Err(
                        ChannelReadyError::Refused(
                            ChannelStateError::UnexpectedChannelReady(state.stage()),
                        ),
                    ),
                }
            }
        }
    }

    /// The state after the report that the channel under the given user
    /// channel id is open: that channel is ready, if its opening was
    /// pending.
    pub open spec fn after_channel_ready(self, user_channel_id: u128) -> PeerStateView {
        if self.channel_ready_outcome(user_channel_id) is Ok {
            let intercept_scid = self.intercept_scid_by_user_channel_id[user_channel_id];
            let channel = self.outbound_channels_by_intercept_scid[intercept_scid];
            PeerStateView {
                outbound_channels_by_intercept_scid:
                    self.outbound_channels_by_intercept_scid.insert(
                    intercept_scid,
                    ChannelView { state: channel.state.channel_ready()->Ok_0, ..channel },
                ),
                ..self
            }
        } else {
            self
        }
    }
}

/// Whether every intercept scid that a peer knew before, it knows after.
pub open spec fn keeps_intercept_scids(before: PeerStateView, after: PeerStateView) -> bool {
    forall|intercept_scid: u64| #[trigger]
        before.knows_intercept_scid(intercept_scid) ==> after.knows_intercept_scid(intercept_scid)
}

/// A consistent state stays consistent, and knows every intercept scid it
/// knew, when a request is put on record or taken off it.
pub proof fn lemma_consistency_ignores_requests(before: PeerStateView, after: PeerStateView)
    requires
        before.is_consistent(),
        after == (PeerStateView { pending_requests: after.pending_requests, ..before }),
    ensures
        after.is_consistent(),
        keeps_intercept_scids(before, after),
{
}

/// A consistent state stays consistent, and knows every intercept scid it
/// knew, when a channel with something to forward is put on record.
pub proof fn lemma_with_outbound_channel(
    before: PeerStateView,
    intercept_scid: u64,
    channel: ChannelView,
)
    requires
        before.is_consistent(),
        channel.state.is_funded(),
    ensures
        before.with_outbound_channel(intercept_scid, channel).is_consistent(),
        before.with_outbound_channel(intercept_scid, channel).knows_intercept_scid(intercept_scid),
        keeps_intercept_scids(before, before.with_outbound_channel(intercept_scid, channel)),
{
}

/// A consistent state stays consistent, and knows every intercept scid it
/// knew, when an HTLC is intercepted: the channel that takes it has what it
/// must forward, and the channel that refuses it is gone with every user
/// channel id that led to it.
pub proof fn lemma_after_htlc(before: PeerStateView, intercept_scid: u64, htlc: InterceptedHTLC)
    requires
        before.is_consistent(),
    ensures
        before.after_htlc(intercept_scid, htlc).is_consistent(),
        keeps_intercept_scids(before, before.after_htlc(intercept_scid, htlc)),
        before.htlc_outcome(intercept_scid, htlc) is Refused ==> {
            let after = before.after_htlc(intercept_scid, htlc);
            &&& !after.outbound_channels_by_intercept_scid.contains_key(intercept_scid)
            &&& forall|user_channel_id: u128| #[trigger]
                after.intercept_scid_by_user_channel_id.contains_key(user_channel_id)
                    ==> after.intercept_scid_by_user_channel_id[user_channel_id] != intercept_scid
        },
{
    if before.outbound_channels_by_intercept_scid.contains_key(intercept_scid) {
        lemma_pending_channel_is_funded(
            before.outbound_channels_by_intercept_scid[intercept_scid].state,
            htlc,
        );
    }
}

/// A consistent state stays consistent, and knows every intercept scid it
/// knew, when a channel is reported open.
pub proof fn lemma_after_channel_ready(before: PeerStateView, user_channel_id: u128)
    requires
        before.is_consistent(),
    ensures
        before.after_channel_ready(user_channel_id).is_consistent(),
        keeps_intercept_scids(before, before.after_channel_ready(user_channel_id)),
{
    if before.channel_ready_outcome(user_channel_id) is Ok {
        let scid = before.intercept_scid_by_user_channel_id[user_channel_id];
        lemma_ready_channel_is_funded(before.outbound_channels_by_intercept_scid[scid].state);
    }
}

/// In a consistent state every user channel id on record leads to a
/// channel.
pub proof fn lemma_user_channel_id_leads_to_channel(state: PeerStateView, user_channel_id: u128)
    requires
        state.is_consistent(),
    ensures
        state.channel_ready_outcome(user_channel_id) != Err::<
            (Seq<InterceptedHTLC>, u64),
            ChannelReadyError,
        >(ChannelReadyError::ChannelNotFound),
{
}

/// Neither an intercepted HTLC nor the report that a channel is open sets a
/// channel of the peer back: each channel that is still on record keeps its
/// name and is in the stage it was in or in the next.
pub proof fn lemma_channels_only_advance(
    before: PeerStateView,
    intercept_scid: u64,
    htlc: InterceptedHTLC,
    user_channel_id: u128,
)
    ensures
        channels_advanced(before, before.after_htlc(intercept_scid, htlc)),
        channels_advanced(before, before.after_channel_ready(user_channel_id)),
{
    if before.outbound_channels_by_intercept_scid.contains_key(intercept_scid) {
        lemma_htlc_intercepted_progress(
            before.outbound_channels_by_intercept_scid[intercept_scid].state,
            htlc,
        );
    }
    if before.channel_ready_outcome(user_channel_id) is Ok {
        let scid = before.intercept_scid_by_user_channel_id[user_channel_id];
        lemma_channel_ready_progress(before.outbound_channels_by_intercept_scid[scid].state);
    }
}

impl PeerState {
    /// Whether the state is in order. Every state that this module hands
    /// out is.
    pub open spec fn wf(&self) -> bool {
        self.lists_in_order() && self@.is_consistent()
    }

    /// Whether the lists on record are in order.
    pub closed spec fn lists_in_order(&self) -> bool {
        self.pending_requests.wf() && self.intercept_scid_by_user_channel_id.wf()
    }

    /// The state of a peer that the service has just met: no request, no
    /// channel.
    pub fn new() -> (state: PeerState)
        ensures
            state.wf(),
            state@ == PeerStateView::initial(),
    {
        let state = PeerState {
            outbound_channels_by_intercept_scid: HashMap::new(),
            pending_requests: AssocList::new(),
            intercept_scid_by_user_channel_id: AssocList::new(),
            failed_intercept_scids: Ghost(Set::empty()),
        };
        assert(state@.outbound_channels_by_intercept_scid =~= Map::empty());
        assert(state@.pending_requests =~= Map::empty());
        state
    }

    /// Puts a request on record until the host has answered it.
    pub fn insert_pending_request(&mut self, request_id: RequestId, request: LSPS2Request)
        requires
            old(self).wf(),
        ensures
            final(self).wf(),
            final(self)@ == old(self)@.with_pending_request(request_id@, request@),
    {
        let ghost id = request_id@;
        let ghost content = request@;
        self.pending_requests.insert(request_id, request);
        proof {
            assert(self@.pending_requests =~= old(self)@.pending_requests.insert(id, content));
            lemma_consistency_ignores_requests(old(self)@, self@);
        }
    }

    /// The request that waits under the given id, if there is one.
    pub fn pending_request(&self, request_id: &RequestId) -> (request: Option<&LSPS2Request>)
        requires
            self.wf(),
        ensures
            match request {
                Some(r) => self@.pending_requests.contains_key(request_id@)
                    && self@.pending_requests[request_id@] == r@,
                None => !self@.pending_requests.contains_key(request_id@),
            },
    {
        self.pending_requests.get(request_id)
    }

    /// Takes the request under the given id off the record and returns it,
    /// if there is one.
    pub fn remove_pending_request(&mut self, request_id: &RequestId) -> (request: Option<
        LSPS2Request,
    >)
        requires
            old(self).wf(),
        ensures
            final(self).wf(),
            final(self)@ == old(self)@.without_pending_request(request_id@),
            match request {
                Some(r) => old(self)@.pending_requests.contains_key(request_id@) && old(
                    self,
                )@.pending_requests[request_id@] == r@,
                None => !old(self)@.pending_requests.contains_key(request_id@),
            },
    {
        let request = self.pending_requests.remove(request_id);
        proof {
            assert(self@.pending_requests =~= old(self)@.pending_requests.remove(request_id@));
            lemma_consistency_ignores_requests(old(self)@, self@);
        }
        request
    }

    /// Puts a channel on record under the given intercept scid, and the scid
    /// under the channel's user channel id. A channel that was on record
    /// under the scid is replaced.
    pub fn insert_outbound_channel(&mut self, intercept_scid: u64, channel: OutboundJITChannel)
        requires
            old(self).wf(),
            channel@.state.is_funded(),
        ensures
            final(self).wf(),
            final(self)@ == old(self)@.with_outbound_channel(intercept_scid, channel@),
    {
        let ghost content = channel@;
        self.intercept_scid_by_user_channel_id.insert(channel.user_channel_id(), intercept_scid);
        self.outbound_channels_by_intercept_scid.insert(intercept_scid, channel);
        self.failed_intercept_scids = Ghost(self.failed_intercept_scids@.remove(intercept_scid));
        proof {
            assert(self@.outbound_channels_by_intercept_scid =~= old(
                self,
            )@.outbound_channels_by_intercept_scid.insert(intercept_scid, content));
            lemma_with_outbound_channel(old(self)@, intercept_scid, content);
        }
    }

    /// Hands an HTLC intercepted under the given scid to the channel on
    /// record under it, and tells what it came to. A channel that refuses
    /// the HTLC is taken off the record, with every user channel id that led
    /// to it.
    pub fn htlc_intercepted(&mut self, intercept_scid: u64, htlc: InterceptedHTLC) -> (outcome:
        HtlcOutcome)
        requires
            old(self).wf(),
        ensures
            final(self).wf(),
            final(self)@ == old(self)@.after_htlc(intercept_scid, htlc),
            outcome == old(self)@.htlc_outcome(intercept_scid, htlc),
    {
        proof {
            lemma_after_htlc(old(self)@, intercept_scid, htlc);
        }
        let mut channel = match self.outbound_channels_by_intercept_scid.remove(&intercept_scid) {
            Some(channel) => channel,
            None => {
                assert(self@.outbound_channels_by_intercept_scid =~= old(
                    self,
                )@.outbound_channels_by_intercept_scid);
                return HtlcOutcome::NoChannel;
            },
        };
        let ghost before = channel@;
        let user_channel_id = channel.user_channel_id();
        assert(old(self)@.outbound_channels_by_intercept_scid.contains_key(intercept_scid));
        match channel.htlc_intercepted(htlc) {
            Ok(open_request) => {
                let ghost after = channel@;
                self.outbound_channels_by_intercept_scid.insert(intercept_scid, channel);
                proof {
                    lemma_htlc_intercepted_progress(before.state, htlc);
                    assert(after == ChannelView { state: after.state, ..before });
                    assert(self@.outbound_channels_by_intercept_scid =~= old(
                        self,
                    )@.outbound_channels_by_intercept_scid.insert(intercept_scid, after));
                }
                match open_request {
                    Some((opening_fee_msat, amt_to_forward_msat)) => HtlcOutcome::OpenChannel {
                        opening_fee_msat,
                        amt_to_forward_msat,
                        user_channel_id,
                    },
                    None => HtlcOutcome::AwaitingPayment,
                }
            },
            Err(error) => {
                self.intercept_scid_by_user_channel_id.remove_value(intercept_scid);
                self.failed_intercept_scids = Ghost(
                    self.failed_intercept_scids@.insert(intercept_scid),
                );
                assert(self@.outbound_channels_by_intercept_scid =~= old(
                    self,
                )@.outbound_channels_by_intercept_scid.remove(intercept_scid));
                HtlcOutcome::Refused(error)
            },
        }
    }

    /// Takes the host's report that the channel it knows under the given
    /// user channel id is open, and returns the HTLCs to forward over it
    /// with the total amount to forward. A channel that refuses the report
    /// stays as it was.
    pub fn channel_ready(&mut self, user_channel_id: u128) -> (outcome: Result<
        (Vec<InterceptedHTLC>, u64),
        ChannelReadyError,
    >)
        requires
            old(self).wf(),
        ensures
            final(self).wf(),
            final(self)@ == old(self)@.after_channel_ready(user_channel_id),
            match outcome {
                Ok((htlcs, amt_to_forward_msat)) => old(self)@.channel_ready_outcome(
                    user_channel_id,
                ) == Ok::<(Seq<InterceptedHTLC>, u64), ChannelReadyError>(
                    (htlcs@, amt_to_forward_msat),
                ),
                Err(error) => old(self)@.channel_ready_outcome(user_channel_id) == Err::<
                    (Seq<InterceptedHTLC>, u64),
                    ChannelReadyError,
                >(error),
            },
    {
        proof {
            lemma_after_channel_ready(old(self)@, user_channel_id);
        }
        let intercept_scid = match self.intercept_scid_by_user_channel_id.get(&user_channel_id) {
            Some(scid) => *scid,
            None => {
                return Err(ChannelReadyError::UnknownUserChannelId);
            },
        };
        let mut channel = match self.outbound_channels_by_intercept_scid.remove(&intercept_scid) {
            Some(channel) => channel,
            None => {
                assert(self@.outbound_channels_by_intercept_scid =~= old(
                    self,
                )@.outbound_channels_by_intercept_scid);
                return Err(ChannelReadyError::ChannelNotFound);
            },
        };
        let ghost before = channel@;
        let result = channel.channel_ready();
        let ghost after = channel@;
        self.outbound_channels_by_intercept_scid.insert(intercept_scid, channel);
        proof {
            assert(old(self)@.outbound_channels_by_intercept_scid.contains_key(intercept_scid));
            assert(self@.outbound_channels_by_intercept_scid =~= old(
                self,
            )@.outbound_channels_by_intercept_scid.insert(intercept_scid, after));
            assert(after == ChannelView { state: after.state, ..before });
            if result is Err {
                assert(self@.outbound_channels_by_intercept_scid =~= old(
                    self,
                )@.outbound_channels_by_intercept_scid);
            }
        }
        match result {
            Ok(forward) => Ok(forward),
            Err(error) => Err(ChannelReadyError::Refused(error)),
        }
    }
}

} // verus!
