//! The client-side connection manager's state: whether a live socket is
//! held, its write handle, and the two tables of in-flight waits.
//!
//! The runtime around it owns the socket and the timers; every decision on
//! that state is taken here. `W` is the write handle, `S` a request's reply
//! slot, `T` a feedback slot and `Fb` a feedback value.

use vstd::prelude::*;
use crate::slots::SlotTable;
use crate::wire::{IPCMessageType, ResponsePayload};

verus! {

/// The errors a caller of the connection manager can see.
pub enum IPCError {
    /// The bus address was not configured.
    MissingEnvironmentVariable,
    /// Every connection attempt failed.
    ConnectionFailed { path: String, reason: String },
    /// A write was attempted with no live socket.
    NotConnected,
    /// An envelope could not be encoded.
    SerializationError(String),
    /// Writing to the socket failed.
    WriteError(String),
    /// No reply arrived within the reply window.
    Timeout,
    /// The reader ended before the awaited reply arrived.
    ChannelClosed,
}

/// An incoming envelope, decoded by kind.
pub enum Inbound<Fb> {
    /// A reply to the request with this id.
    Reply { id: String, payload: ResponsePayload },
    /// Feedback for the review with this id.
    Feedback { review_id: String, feedback: Fb },
    /// Someone asks which sessions are present.
    PresenceQuery,
    /// Any other traffic on the bus.
    Other,
}

/// How the reader treats an envelope of a given kind.
#[derive(Debug, Clone, Copy, PartialEq, Eq, Structural)]
pub enum Dispatch {
    /// Decode the payload as a reply and resolve the request with its id.
    Reply,
    /// Decode the payload as feedback and resolve the waiting review.
    Feedback,
    /// Answer with a presence announcement.
    PresenceQuery,
    /// Every other kind: traffic between other participants.
    Ignore,
}

/// The treatment of each kind: replies, feedback and presence queries are
/// handled, everything else on the bus is ignored.
pub open spec fn dispatch_spec(k: IPCMessageType) -> Dispatch {
    match k {
        IPCMessageType::Response => Dispatch::Reply,
        IPCMessageType::UserFeedback => Dispatch::Feedback,
        IPCMessageType::Marco => Dispatch::PresenceQuery,
        _ => Dispatch::Ignore,
    }
}

/// How the reader treats an envelope of kind `k`.
pub fn dispatch_of(k: IPCMessageType) -> (r: Dispatch)
    ensures
        r == dispatch_spec(k),
{
    match k {
        IPCMessageType::Response => Dispatch::Reply,
        IPCMessageType::UserFeedback => Dispatch::Feedback,
        IPCMessageType::Marco => Dispatch::PresenceQuery,
        _ => Dispatch::Ignore,
    }
}

/// Where the reader hands an incoming envelope.
#[allow(inconsistent_fields)]
pub enum Routed<S, T, Fb> {
    /// Resolve this request slot with the reply.
    Reply { slot: S, payload: ResponsePayload },
    /// Resolve this feedback slot.
    Feedback { slot: T, feedback: Fb },
    /// Answer with a presence announcement for this origin tag.
    AnnouncePresence { origin_tag: u32 },
    /// Addressed to someone else, or to nobody: ignore it.
    Dropped,
}

/// How the wait for a reply ended.
pub enum WaitOutcome {
    Replied(ResponsePayload),
    TimedOut,
    Closed,
}

/// The abstract state of a connection manager.
pub struct ConnView<W, S, T> {
    pub connected: bool,
    pub writer: Option<W>,
    pub requests: Map<Seq<char>, S>,
    pub feedback: Map<Seq<char>, T>,
    pub owner_id: u32,
    pub origin_tag: u32,
}

/// The state after a connection was made with write handle `w`.
pub open spec fn attached<W, S, T>(v: ConnView<W, S, T>, w: W) -> ConnView<W, S, T> {
    ConnView { connected: true, writer: Some(w), ..v }
}

/// The state after the reader saw the connection die: disconnected, no
/// write handle, every in-flight request evicted.
pub open spec fn detached<W, S, T>(v: ConnView<W, S, T>) -> ConnView<W, S, T> {
    ConnView { connected: false, writer: None, requests: Map::empty(), ..v }
}

/// The state after a request slot was registered under `id`.
pub open spec fn with_request<W, S, T>(v: ConnView<W, S, T>, id: Seq<char>, s: S) -> ConnView<
    W,
    S,
    T,
> {
    ConnView { requests: v.requests.insert(id, s), ..v }
}

/// The state after the request slot under `id`, if any, was removed.
pub open spec fn without_request<W, S, T>(v: ConnView<W, S, T>, id: Seq<char>) -> ConnView<
    W,
    S,
    T,
> {
    ConnView { requests: v.requests.remove(id), ..v }
}

/// The state after a feedback slot was registered under `id`.
pub open spec fn with_feedback<W, S, T>(v: ConnView<W, S, T>, id: Seq<char>, t: T) -> ConnView<
    W,
    S,
    T,
> {
    ConnView { feedback: v.feedback.insert(id, t), ..v }
}

/// The state after the feedback slot under `id`, if any, was removed.
pub open spec fn without_feedback<W, S, T>(v: ConnView<W, S, T>, id: Seq<char>) -> ConnView<
    W,
    S,
    T,
> {
    ConnView { feedback: v.feedback.remove(id), ..v }
}

/// The new state and the routing of one incoming envelope. A reply or a
/// feedback resolves the matching slot and removes it; one with no
/// matching slot belongs to another session and is dropped.
pub open spec fn route_spec<W, S, T, Fb>(v: ConnView<W, S, T>, ev: Inbound<Fb>) -> (
    ConnView<W, S, T>,
    Routed<S, T, Fb>,
) {
    match ev {
        Inbound::Reply { id, payload } => if v.requests.contains_key(id@) {
            (without_request(v, id@), Routed::Reply { slot: v.requests[id@], payload })
        } else {
            (v, Routed::Dropped)
        },
        Inbound::Feedback { review_id, feedback } => if v.feedback.contains_key(review_id@) {
            (
                without_feedback(v, review_id@),
                Routed::Feedback { slot: v.feedback[review_id@], feedback },
            )
        } else {
            (v, Routed::Dropped)
        },
        Inbound::PresenceQuery => (v, Routed::AnnouncePresence { origin_tag: v.origin_tag }),
        Inbound::Other => (v, Routed::Dropped),
    }
}

/// A reply is handed to the caller that waits for it: once a slot is
/// registered under `id`, a reply carrying `id` resolves exactly that slot
/// with exactly that payload, and the slot leaves the table, so a second
/// reply with the same id resolves nothing.
pub proof fn lemma_reply_reaches_its_caller<W, S, T, Fb>(
    v: ConnView<W, S, T>,
    id: String,
    slot: S,
    payload: ResponsePayload,
    again: ResponsePayload,
)
    ensures
        ({
            let (after, routed) = route_spec::<W, S, T, Fb>(
                with_request(v, id@, slot),
                Inbound::Reply { id, payload },
            );
            &&& routed == Routed::<S, T, Fb>::Reply { slot, payload }
            &&& after.requests == v.requests.remove(id@)
            &&& route_spec::<W, S, T, Fb>(after, Inbound::Reply { id, payload: again }).1
                == Routed::<S, T, Fb>::Dropped
        }),
{
    assert(v.requests.insert(id@, slot).remove(id@) =~= v.requests.remove(id@));
}

/// Replies for other ids, such as those of sibling sessions on the same
/// bus, leave a registered slot where it is.
pub proof fn lemma_foreign_reply_keeps_slot<W, S, T, Fb>(
    v: ConnView<W, S, T>,
    id: Seq<char>,
    other: String,
    payload: ResponsePayload,
)
    requires
        other@ != id,
    ensures
        ({
            let after = route_spec::<W, S, T, Fb>(v, Inbound::Reply { id: other, payload }).0;
            &&& after.requests.contains_key(id) == v.requests.contains_key(id)
            &&& v.requests.contains_key(id) ==> after.requests[id] == v.requests[id]
        }),
{
}

/// No leak on timeout: registering a fresh id and then timing out leaves
/// the request table as it was, with the same count.
pub proof fn lemma_timeout_leaves_no_entry<W, S, T>(v: ConnView<W, S, T>, id: Seq<char>, slot: S)
    requires
        v.requests.dom().finite(),
        !v.requests.contains_key(id),
    ensures
        without_request(with_request(v, id, slot), id) == v,
        without_request(with_request(v, id, slot), id).requests.len() == v.requests.len(),
{
    assert(v.requests.insert(id, slot).remove(id) =~= v.requests);
}

/// Self-healing: after the connection died and was cleared, the next
/// connection attempt to the same bus succeeds in making the manager
/// connected again, with no request left over from the dead connection and
/// feedback waits kept.
pub proof fn lemma_reconnect_after_loss<W, S, T>(v: ConnView<W, S, T>, w: W)
    ensures
        !detached(v).connected,
        attached(detached(v), w).connected,
        attached(detached(v), w).writer == Some(w),
        attached(detached(v), w).requests.is_empty(),
        attached(detached(v), w).feedback == v.feedback,
        attached(detached(v), w).owner_id == v.owner_id,
        attached(detached(v), w).origin_tag == v.origin_tag,
{
    assert(attached(detached(v), w).requests =~= Map::<Seq<char>, S>::empty());
}

/// The connection manager's state.
pub struct ConnectionState<W, S, T> {
    connected: bool,
    writer: Option<W>,
    requests: SlotTable<S>,
    feedback: SlotTable<T>,
    owner_id: u32,
    origin_tag: u32,
}

impl<W, S, T> ConnectionState<W, S, T> {
    /// The abstract state.
    pub closed spec fn view(&self) -> ConnView<W, S, T> {
        ConnView {
            connected: self.connected,
            writer: self.writer,
            requests: self.requests@,
            feedback: self.feedback@,
            owner_id: self.owner_id,
            origin_tag: self.origin_tag,
        }
    }

    /// `connected` holds exactly when a write handle is present, and the
    /// tables are well formed.
    pub closed spec fn wf(&self) -> bool {
        &&& self.requests.wf()
        &&& self.feedback.wf()
        &&& self.connected == self.writer is Some
    }

    /// A disconnected manager for the bus of `owner_id`, acting for the
    /// session tagged `origin_tag`.
    pub fn new(owner_id: u32, origin_tag: u32) -> (r: Self)
        ensures
            r.wf(),
            !r@.connected,
            r@.writer is None,
            r@.requests == Map::<Seq<char>, S>::empty(),
            r@.feedback == Map::<Seq<char>, T>::empty(),
            r@.owner_id == owner_id,
            r@.origin_tag == origin_tag,
    {
        ConnectionState {
            connected: false,
            writer: None,
            requests: SlotTable::new(),
            feedback: SlotTable::new(),
            owner_id,
            origin_tag,
        }
    }

    pub fn is_connected(&self) -> (r: bool)
        ensures
            r == self@.connected,
    {
        self.connected
    }

    pub fn owner_id(&self) -> (r: u32)
        ensures
            r == self@.owner_id,
    {
        self.owner_id
    }

    pub fn origin_tag(&self) -> (r: u32)
        ensures
            r == self@.origin_tag,
    {
        self.origin_tag
    }

    /// Number of requests awaiting a reply.
    pub fn pending_requests(&self) -> (n: usize)
        requires
            self.wf(),
        ensures
            self@.requests.dom().finite(),
            n == self@.requests.len(),
    {
        self.requests.len()
    }

    /// Number of feedback waits outstanding.
    pub fn pending_feedback(&self) -> (n: usize)
        requires
            self.wf(),
        ensures
            self@.feedback.dom().finite(),
            n == self@.feedback.len(),
    {
        self.feedback.len()
    }

    /// Whether a request slot is registered under `id`.
    pub fn is_pending(&self, id: &String) -> (r: bool)
        requires
            self.wf(),
        ensures
            r == self@.requests.contains_key(id@),
    {
        self.requests.contains(id)
    }

    /// Records a new connection with write handle `w`. Only a disconnected
    /// manager connects, so no second reader is ever started.
    pub fn attach(&mut self, w: W)
        requires
            old(self).wf(),
            !old(self)@.connected,
        ensures
            final(self).wf(),
            final(self)@ == attached(old(self)@, w),
    {
        self.writer = Some(w);
        self.connected = true;
    }

    /// Clears a dead connection: drops the write handle, flips the flag
    /// and evicts every in-flight request. Returns how many were evicted.
    pub fn detach(&mut self) -> (n: usize)
        requires
            old(self).wf(),
        ensures
            final(self).wf(),
            final(self)@ == detached(old(self)@),
            old(self)@.requests.dom().finite(),
            n == old(self)@.requests.len(),
    {
        self.connected = false;
        self.writer = None;
        self.requests.clear()
    }

    /// The write handle of the live connection.
    pub fn writer(&self) -> (r: Result<&W, IPCError>)
        requires
            self.wf(),
        ensures
            self@.connected ==> (r matches Ok(w) && self@.writer == Some(*w)),
            !self@.connected ==> r matches Err(IPCError::NotConnected),
    {
        match &self.writer {
            Some(w) => Ok(w),
            None => Err(IPCError::NotConnected),
        }
    }

    /// Registers the reply slot of a request about to be sent under `id`.
    /// Hands back a slot that held that id before, if any.
    pub fn register_request(&mut self, id: String, slot: S) -> (prev: Option<S>)
        requires
            old(self).wf(),
        ensures
            final(self).wf(),
            final(self)@ == with_request(old(self)@, id@, slot),
            prev == (if old(self)@.requests.contains_key(id@) {
                Some(old(self)@.requests[id@])
            } else {
                None
            }),
    {
        self.requests.insert(id, slot)
    }

    /// Registers a feedback slot for the review `review_id`.
    pub fn register_feedback(&mut self, review_id: String, slot: T) -> (prev: Option<T>)
        requires
            old(self).wf(),
        ensures
            final(self).wf(),
            final(self)@ == with_feedback(old(self)@, review_id@, slot),
            prev == (if old(self)@.feedback.contains_key(review_id@) {
                Some(old(self)@.feedback[review_id@])
            } else {
                None
            }),
    {
        self.feedback.insert(review_id, slot)
    }

    /// Routes one incoming envelope; see `route_spec`.
    pub fn route<Fb>(&mut self, ev: Inbound<Fb>) -> (r: Routed<S, T, Fb>)
        requires
            old(self).wf(),
        ensures
            final(self).wf(),
            (final(self)@, r) == route_spec(old(self)@, ev),
    {
        match ev {
            Inbound::Reply { id, payload } => {
                let r = match self.requests.take(&id) {
                    Some(slot) => Routed::Reply { slot, payload },
                    None => Routed::Dropped,
                };
                proof {
                    assert(self@.requests =~= old(self)@.requests.remove(id@));
                    if !old(self)@.requests.contains_key(id@) {
                        assert(self@.requests =~= old(self)@.requests);
                    }
                }
                r
            },
            Inbound::Feedback { review_id, feedback } => {
                let r = match self.feedback.take(&review_id) {
                    Some(slot) => Routed::Feedback { slot, feedback },
                    None => Routed::Dropped,
                };
                proof {
                    assert(self@.feedback =~= old(self)@.feedback.remove(review_id@));
                    if !old(self)@.feedback.contains_key(review_id@) {
                        assert(self@.feedback =~= old(self)@.feedback);
                    }
                }
                r
            },
            Inbound::PresenceQuery => Routed::AnnouncePresence { origin_tag: self.origin_tag },
            Inbound::Other => Routed::Dropped,
        }
    }

    /// Ends the wait for the reply to request `id`. A timeout removes the
    /// orphaned slot before it is reported, so no entry is left behind.
    pub fn finish_wait(&mut self, id: &String, outcome: WaitOutcome) -> (r: Result<
        ResponsePayload,
        IPCError,
    >)
        requires
            old(self).wf(),
        ensures
            final(self).wf(),
            outcome matches WaitOutcome::Replied(p) ==> (r == Ok::<ResponsePayload, IPCError>(p)
                && final(self)@ == old(self)@),
            outcome is TimedOut ==> (r matches Err(IPCError::Timeout)
                && final(self)@ == without_request(old(self)@, id@)),
            outcome is Closed ==> (r matches Err(IPCError::ChannelClosed)
                && final(self)@ == old(self)@),
    {
        match outcome {
            WaitOutcome::Replied(p) => Ok(p),
            WaitOutcome::TimedOut => {
                let _ = self.requests.take(id);
                Err(IPCError::Timeout)
            },
            WaitOutcome::Closed => Err(IPCError::ChannelClosed),
        }
    }

    /// Ends the wait for feedback on `review_id`. When the slot was dropped
    /// before any feedback came, its registration is removed and a
    /// broken-pipe style error is reported.
    pub fn finish_feedback_wait<Fb>(&mut self, review_id: &String, outcome: Option<Fb>) -> (r:
        Result<Fb, IPCError>)
        requires
            old(self).wf(),
        ensures
            final(self).wf(),
            outcome matches Some(f) ==> (r == Ok::<Fb, IPCError>(f) && final(self)@ == old(self)@),
            outcome is None ==> (r matches Err(IPCError::ConnectionFailed { .. })
                && final(self)@ == without_feedback(old(self)@, review_id@)),
    {
        match outcome {
            Some(f) => Ok(f),
            None => {
                let _ = self.feedback.take(review_id);
                Err(
                    IPCError::ConnectionFailed {
                        path: "user_feedback".to_owned(),
                        reason: "User feedback channel closed".to_owned(),
                    },
                )
            },
        }
    }
}

} // verus!
