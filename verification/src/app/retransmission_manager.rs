//! Reliable delivery of Confirmable messages: message ids, matching of replies to sends, and
//! the retransmission schedule (RFC 7252, section 4.2).
use vstd::prelude::*;
use vstd::laws_eq::obeys_concrete_eq;
use vstd::string::StringExecFns;
use vstd::arithmetic::power2::{lemma2_to64, lemma_pow2_pos, lemma_pow2_strictly_increases, lemma_pow2_unfold, pow2};

use crate::app::assoc::{
    keys_distinct, lemma_keys_distinct_push, lemma_keys_distinct_remove, lemma_keys_distinct_update,
    lemma_map_of_pairs_contains, lemma_map_of_pairs_push, lemma_map_of_pairs_remove,
    lemma_map_of_pairs_update, lemma_map_of_pairs_value, map_of_pairs,
};
use crate::app::codes::{message_type_name, message_type_name_spec, MessageType};

verus! {

/// CoAP message id.
pub type MessageId = u16;

/// The header fields that reliable sending sets on an outgoing message.
#[derive(Debug, Copy, Clone, PartialEq, Eq, Structural)]
pub struct MessageHeader {
    pub message_type: MessageType,
    pub message_id: MessageId,
}

/// A sent Confirmable message awaiting its reply: its id and the peer it went to.
#[derive(Debug, Clone)]
pub struct MessageKey<Endpoint> {
    pub message_id: MessageId,
    pub peer: Endpoint,
}

impl<Endpoint> MessageKey<Endpoint> {
    /// The key of a message with this header sent to `peer`.
    pub fn new(header: &MessageHeader, peer: Endpoint) -> (r: Self)
        ensures
            r.message_id == header.message_id,
            r.peer == peer,
    {
        MessageKey { message_id: header.message_id, peer }
    }
}

/// Whether two endpoints are equal, by `Endpoint`'s own `==`.
pub(crate) fn same_endpoint<Endpoint: PartialEq>(a: &Endpoint, b: &Endpoint) -> (r: bool)
    requires
        obeys_concrete_eq::<Endpoint>(),
    ensures
        r == (*a == *b),
{
    proof {
        reveal(obeys_concrete_eq);
    }
    a.eq(b)
}

/// A message id drawn at random with `rand::random`; nothing is known of its value.
#[verifier::external_body]
fn random_message_id() -> (r: MessageId) {
    rand::random::<u16>()
}

/// A duration in nanoseconds drawn at random from `low..=high` with `rand::random_range`,
/// which samples within the inclusive range it is given (and panics on an empty one, which
/// the precondition excludes).
#[verifier::external_body]
fn random_timeout_nanos(low: u128, high: u128) -> (r: u128)
    requires
        low <= high,
    ensures
        low <= r <= high,
{
    rand::random_range(low..=high)
}

/// Whether a reply of this type can acknowledge or reject a Confirmable message.
pub open spec fn is_reply_type(t: MessageType) -> bool {
    t == MessageType::Acknowledgement || t == MessageType::Reset
}

/// Tracks Confirmable messages that await an Acknowledgement or Reset, and hands out
/// message ids.  `H` is whatever the sender waits on for the reply.
pub struct RetransmissionManager<Endpoint, H> {
    next_message_id: MessageId,
    unacknowledged_messages: Vec<(MessageKey<Endpoint>, H)>,
}

impl<Endpoint, H> RetransmissionManager<Endpoint, H> {
    spec fn abs(&self) -> Seq<((MessageId, Endpoint), H)> {
        self.unacknowledged_messages@.map_values(
            |p: (MessageKey<Endpoint>, H)| ((p.0.message_id, p.0.peer), p.1),
        )
    }

    /// No (message id, peer) pair is awaited twice.
    pub closed spec fn wf(&self) -> bool {
        keys_distinct(self.abs())
    }

    /// The id the next send will use.
    pub closed spec fn next_id(&self) -> MessageId {
        self.next_message_id
    }

    /// The awaited replies: (message id, peer) to the handle of the waiting sender.
    pub closed spec fn pending(&self) -> Map<(MessageId, Endpoint), H> {
        map_of_pairs(self.abs())
    }

    /// A manager that awaits nothing and starts numbering at a random message id.
    pub fn new() -> (r: Self)
        ensures
            r.wf(),
            r.pending() == Map::<(MessageId, Endpoint), H>::empty(),
    {
        Self::with_message_id(random_message_id())
    }

    /// A manager that awaits nothing and starts numbering at `initial_message_id`.
    pub fn with_message_id(initial_message_id: MessageId) -> (r: Self)
        ensures
            r.wf(),
            r.next_id() == initial_message_id,
            r.pending() == Map::<(MessageId, Endpoint), H>::empty(),
    {
        let r = RetransmissionManager { next_message_id: initial_message_id, unacknowledged_messages: Vec::new() };
        assert(r.abs() =~= Seq::<((MessageId, Endpoint), H)>::empty());
        r
    }

    fn find(&self, message_id: MessageId, peer: &Endpoint) -> (r: Option<usize>)
        where Endpoint: PartialEq,
        requires
            obeys_concrete_eq::<Endpoint>(),
        ensures
            r matches Some(i) ==> i < self.abs().len() && self.abs()[i as int].0 == (message_id, *peer),
            r is None ==> !self.pending().contains_key((message_id, *peer)),
    {
        let mut i: usize = 0;
        while i < self.unacknowledged_messages.len()
            invariant
                obeys_concrete_eq::<Endpoint>(),
                i <= self.abs().len(),
                self.abs().len() == self.unacknowledged_messages@.len(),
                forall|j: int| 0 <= j < i ==> #[trigger] self.abs()[j].0 != (message_id, *peer),
            decreases self.unacknowledged_messages@.len() - i,
        {
            let k = &self.unacknowledged_messages[i].0;
            if k.message_id == message_id && same_endpoint(&k.peer, peer) {
                return Some(i);
            }
            i = i + 1;
        }
        proof {
            lemma_map_of_pairs_contains(self.abs(), (message_id, *peer));
            if self.pending().contains_key((message_id, *peer)) {
                let j = choose|j: int| 0 <= j < self.abs().len() && #[trigger] self.abs()[j].0 == (message_id, *peer);
                assert(self.abs()[j].0 != (message_id, *peer));
            }
        }
        None
    }

    /// Handles an Acknowledgement or Reset that may answer one of our Confirmable messages.
    /// When it does, the message is no longer awaited and the waiting sender's handle is
    /// returned; otherwise (another message type, or an unknown id/peer) nothing changes and
    /// `None` is returned.
    pub fn maybe_handle_reply(&mut self, reply_type: MessageType, message_id: MessageId, peer: &Endpoint) -> (r: Option<H>)
        where Endpoint: PartialEq,
        requires
            old(self).wf(),
            obeys_concrete_eq::<Endpoint>(),
        ensures
            final(self).wf(),
            final(self).next_id() == old(self).next_id(),
            is_reply_type(reply_type) && old(self).pending().contains_key((message_id, *peer)) ==> {
                &&& r == Some(old(self).pending()[(message_id, *peer)])
                &&& final(self).pending() == old(self).pending().remove((message_id, *peer))
            },
            !(is_reply_type(reply_type) && old(self).pending().contains_key((message_id, *peer))) ==> {
                &&& r is None
                &&& final(self).pending() == old(self).pending()
            },
    {
        match reply_type {
            MessageType::Acknowledgement | MessageType::Reset => {},
            _ => {
                return None;
            },
        }
        let ghost old_abs = self.abs();
        match self.find(message_id, peer) {
            Some(i) => {
                proof {
                    lemma_map_of_pairs_value(old_abs, i as int);
                    lemma_map_of_pairs_remove(old_abs, i as int);
                    lemma_keys_distinct_remove(old_abs, i as int);
                }
                let (_key, handle) = self.unacknowledged_messages.remove(i);
                assert(self.abs() =~= old_abs.remove(i as int));
                Some(handle)
            },
            None => None,
        }
    }

    /// Prepares a reliable send of a message to `peer`: the message becomes Confirmable and
    /// takes the next message id, and `handle` awaits its reply.  Returns the handle of an
    /// earlier send that awaited the same (id, peer) pair, which that sender must be told
    /// about (an internal error).
    pub fn send_reliably(&mut self, header: &mut MessageHeader, peer: Endpoint, handle: H) -> (r: Option<H>)
        where Endpoint: PartialEq,
        requires
            old(self).wf(),
            obeys_concrete_eq::<Endpoint>(),
        ensures
            final(self).wf(),
            final(header).message_id == old(self).next_id(),
            final(header).message_type == MessageType::Confirmable,
            final(self).next_id() == old(self).next_id().wrapping_add(1),
            final(self).pending() == old(self).pending().insert((old(self).next_id(), peer), handle),
            r == (if old(self).pending().contains_key((old(self).next_id(), peer)) {
                Some(old(self).pending()[(old(self).next_id(), peer)])
            } else {
                None
            }),
    {
        let id = self.next_message_id;
        header.message_id = id;
        self.next_message_id = self.next_message_id.wrapping_add(1);
        header.message_type = MessageType::Confirmable;
        let ghost old_abs = self.abs();
        match self.find(id, &peer) {
            Some(i) => {
                proof {
                    lemma_map_of_pairs_value(old_abs, i as int);
                    lemma_map_of_pairs_update(old_abs, i as int, handle);
                    lemma_keys_distinct_update(old_abs, i as int, handle);
                }
                let mut h = handle;
                std::mem::swap(&mut self.unacknowledged_messages[i].1, &mut h);
                assert(self.abs() =~= old_abs.update(i as int, (old_abs[i as int].0, self.unacknowledged_messages@[i as int].1)));
                Some(h)
            },
            None => {
                proof {
                    lemma_map_of_pairs_push(old_abs, (id, peer), handle);
                    lemma_keys_distinct_push(old_abs, (id, peer), handle);
                }
                let key = MessageKey { message_id: id, peer };
                self.unacknowledged_messages.push((key, handle));
                assert(self.abs() =~= old_abs.push(((id, peer), handle)));
                None
            },
        }
    }
}

/// What the sender of a Confirmable message learns while it waits.
#[derive(Debug, Clone)]
pub enum ReplyEvent {
    Waiting,
    PeerResponse(MessageType),
    InternalError(String),
}

/// Why a reliable send failed.
#[derive(Debug)]
pub enum SendFailed {
    /// No reply after this many transmissions.
    NoReply(usize),
    /// The peer answered with a Reset.
    Reset,
    /// The message could not be handed to the transport.
    TransmissionError(String),
    /// The send was disturbed, e.g. its id was reused by another send.
    InternalError(String),
}

/// What the sender does next.
#[derive(Debug)]
pub enum RetryAction {
    /// Transmit the message (again) and wait at most `timeout_nanos` for a reply.
    Transmit { timeout_nanos: u128 },
    /// Keep waiting, at most `timeout_nanos`, for a reply.
    Wait { timeout_nanos: u128 },
    /// The send is over.
    Finish(Result<(), SendFailed>),
}

/// The largest duration, in nanoseconds, that `std::time::Duration` holds.
pub open spec fn duration_max_nanos() -> nat {
    18446744073709551615 * 1000000000 + 999999999
}

/// Retransmission schedule of one Confirmable message: the first transmission waits for
/// the initial timeout, each retransmission waits twice as long as the one before, and after
/// `max_retransmit` retransmissions the send gives up.
pub struct RetryState {
    attempt: usize,
    max_retransmit: usize,
    current_timeout: u128,
    next_timeout: u128,
}

/// Abstract retry state: (attempt, max_retransmit, current timeout, next timeout).
pub type RetryView = (usize, usize, u128, u128);

/// The state after the first transmission.
pub open spec fn retry_start_spec(max_retransmit: usize, initial_timeout: u128) -> RetryView {
    (0, max_retransmit, initial_timeout, (2 * initial_timeout) as u128)
}

/// The state after a timeout: the next attempt when one remains, otherwise unchanged.
pub open spec fn retry_timeout_spec(v: RetryView) -> RetryView {
    if v.0 < v.1 {
        ((v.0 + 1) as usize, v.1, v.3, (2 * v.3) as u128)
    } else {
        v
    }
}

/// Whether the timeout of the attempt after `v` can be doubled within `Duration`'s range.
pub open spec fn retry_timeout_ok(v: RetryView) -> bool {
    v.0 < v.1 ==> 2 * v.3 <= duration_max_nanos()
}

impl View for RetryState {
    type V = RetryView;

    closed spec fn view(&self) -> RetryView {
        (self.attempt, self.max_retransmit, self.current_timeout, self.next_timeout)
    }
}

impl RetryState {
    /// Starts a reliable send: transmit now and wait `initial_timeout_nanos` (drawn by the
    /// caller from the acknowledgement timeout range).
    pub fn start(max_retransmit: usize, initial_timeout_nanos: u128) -> (r: (Self, RetryAction))
        requires
            max_retransmit < usize::MAX,
            initial_timeout_nanos <= duration_max_nanos(),
            2 * initial_timeout_nanos <= duration_max_nanos(),
        ensures
            r.0@ == retry_start_spec(max_retransmit, initial_timeout_nanos),
            r.1 == (RetryAction::Transmit { timeout_nanos: initial_timeout_nanos }),
    {
        let s = RetryState {
            attempt: 0,
            max_retransmit,
            current_timeout: initial_timeout_nanos,
            next_timeout: initial_timeout_nanos * 2,
        };
        (s, RetryAction::Transmit { timeout_nanos: initial_timeout_nanos })
    }

    /// Starts a reliable send whose initial timeout is drawn at random from
    /// `low_nanos..=high_nanos` (the acknowledgement timeout range).
    pub fn start_random(max_retransmit: usize, low_nanos: u128, high_nanos: u128) -> (r: (Self, RetryAction))
        requires
            max_retransmit < usize::MAX,
            low_nanos <= high_nanos,
            2 * high_nanos <= duration_max_nanos(),
        ensures
            r.1 matches RetryAction::Transmit { timeout_nanos } && low_nanos <= timeout_nanos <= high_nanos
                && r.0@ == retry_start_spec(max_retransmit, timeout_nanos),
    {
        let t = random_timeout_nanos(low_nanos, high_nanos);
        Self::start(max_retransmit, t)
    }

    /// Whether the next timeout can be handled without leaving `Duration`'s range.
    pub fn timeout_ok(&self) -> (r: bool)
        ensures
            r == retry_timeout_ok(self@),
    {
        self.attempt >= self.max_retransmit || self.next_timeout <= 9223372036854775807999999999
    }

    /// No reply came in time: retransmit with a doubled timeout, or give up with
    /// `NoReply(max_retransmit + 1)` once all retransmissions are spent.
    pub fn on_timeout(&mut self) -> (r: RetryAction)
        requires
            old(self)@.1 < usize::MAX,
            retry_timeout_ok(old(self)@),
        ensures
            final(self)@ == retry_timeout_spec(old(self)@),
            old(self)@.0 < old(self)@.1 ==> r == (RetryAction::Transmit { timeout_nanos: old(self)@.3 }),
            old(self)@.0 >= old(self)@.1 ==> r == RetryAction::Finish(
                Err(SendFailed::NoReply((old(self)@.1 + 1) as usize)),
            ),
    {
        if self.attempt < self.max_retransmit {
            self.attempt = self.attempt + 1;
            self.current_timeout = self.next_timeout;
            self.next_timeout = self.next_timeout * 2;
            RetryAction::Transmit { timeout_nanos: self.current_timeout }
        } else {
            RetryAction::Finish(Err(SendFailed::NoReply(self.max_retransmit + 1)))
        }
    }

    /// Something was heard about the message: an Acknowledgement ends the send successfully,
    /// a Reset or an internal error ends it with that failure, any other reply type is an
    /// internal error, and no news means waiting on with the current timeout.
    pub fn on_reply(&self, event: &ReplyEvent) -> (r: RetryAction)
        ensures
            match *event {
                ReplyEvent::Waiting => r == (RetryAction::Wait { timeout_nanos: self@.2 }),
                ReplyEvent::PeerResponse(MessageType::Acknowledgement) => r == RetryAction::Finish(Ok(())),
                ReplyEvent::PeerResponse(MessageType::Reset) => r == RetryAction::Finish(Err(SendFailed::Reset)),
                ReplyEvent::PeerResponse(t) => r matches RetryAction::Finish(Err(SendFailed::InternalError(m)))
                    && m@ == "unexpected t="@ + message_type_name_spec(t),
                ReplyEvent::InternalError(e) => r matches RetryAction::Finish(Err(SendFailed::InternalError(m)))
                    && m@ == e@,
            },
    {
        match event {
            ReplyEvent::Waiting => RetryAction::Wait { timeout_nanos: self.current_timeout },
            ReplyEvent::PeerResponse(MessageType::Acknowledgement) => RetryAction::Finish(Ok(())),
            ReplyEvent::PeerResponse(MessageType::Reset) => RetryAction::Finish(Err(SendFailed::Reset)),
            ReplyEvent::PeerResponse(t) => {
                let mut m = String::from_str("unexpected t=");
                m.append(message_type_name(*t));
                RetryAction::Finish(Err(SendFailed::InternalError(m)))
            },
            ReplyEvent::InternalError(e) => RetryAction::Finish(
                Err(SendFailed::InternalError(e.clone())),
            ),
        }
    }

    /// The transport refused the message: the send fails with that error.
    pub fn on_send_error(&self, message: String) -> (r: RetryAction)
        ensures
            r matches RetryAction::Finish(Err(SendFailed::TransmissionError(m))) && m == message,
    {
        RetryAction::Finish(Err(SendFailed::TransmissionError(message)))
    }
}

/// The id the next send uses after `n` sends, starting from `start`.
pub open spec fn id_after(start: MessageId, n: nat) -> MessageId
    decreases n,
{
    if n == 0 {
        start
    } else {
        id_after(start, (n - 1) as nat).wrapping_add(1)
    }
}

proof fn lemma_id_after(start: MessageId, n: nat)
    ensures
        id_after(start, n) == (start + n) % 0x10000,
    decreases n,
{
    if n > 0 {
        lemma_id_after(start, (n - 1) as nat);
    }
}

/// Message ids are handed out consecutively, modulo 2^16: the sends `i` and `j` of fewer than
/// 65536 consecutive sends never share an id.
pub proof fn law_consecutive_sends_have_distinct_ids(start: MessageId, i: nat, j: nat)
    requires
        i < j < 0x10000,
    ensures
        id_after(start, i) == (start + i) % 0x10000,
        id_after(start, i) != id_after(start, j),
{
    lemma_id_after(start, i);
    lemma_id_after(start, j);
}

/// A reply reaches the send it answers: once a send awaits `(id, peer)` with handle `h`, an
/// Acknowledgement or Reset for `(id, peer)` yields `h` and leaves the awaited replies as they
/// were before that send, without `(id, peer)`.
pub proof fn law_reply_reaches_its_send<Endpoint, H>(
    pending: Map<(MessageId, Endpoint), H>,
    id: MessageId,
    peer: Endpoint,
    h: H,
)
    ensures
        pending.insert((id, peer), h).contains_key((id, peer)),
        pending.insert((id, peer), h)[(id, peer)] == h,
        pending.insert((id, peer), h).remove((id, peer)) == pending.remove((id, peer)),
{
    assert(pending.insert((id, peer), h).remove((id, peer)) =~= pending.remove((id, peer)));
}

/// The retry state after `k` timeouts.
pub open spec fn retry_after(v: RetryView, k: nat) -> RetryView
    decreases k,
{
    if k == 0 {
        v
    } else {
        retry_timeout_spec(retry_after(v, (k - 1) as nat))
    }
}

/// Exponential back-off: after `k <= max_retransmit` timeouts the send is at attempt `k`,
/// waiting `initial · 2^k`, and every one of these timeouts stays within `Duration`'s range.
/// After `max_retransmit` timeouts no retransmission is left, so the next timeout ends the
/// send with `NoReply(max_retransmit + 1)`: one transmission and `max_retransmit`
/// retransmissions.
pub proof fn law_retry_backoff(max_retransmit: usize, initial: u128, k: nat)
    requires
        k <= max_retransmit,
        initial * pow2((max_retransmit + 1) as nat) <= duration_max_nanos(),
    ensures
        retry_after(retry_start_spec(max_retransmit, initial), k) == (
            k as usize,
            max_retransmit,
            (initial * pow2(k)) as u128,
            (initial * pow2(k + 1)) as u128,
        ),
        retry_timeout_ok(retry_after(retry_start_spec(max_retransmit, initial), k)),
    decreases k,
{
    let m1 = (max_retransmit + 1) as nat;
    lemma_pow2_pos(m1);
    lemma_pow2_strictly_increases(k, m1);
    lemma_pow2_unfold(k + 1);
    assert(initial * pow2(k) <= initial * pow2(m1)) by (nonlinear_arith)
        requires
            pow2(k) < pow2(m1),
    ;
    assert(initial * pow2(k + 1) == 2 * (initial * pow2(k))) by (nonlinear_arith)
        requires
            pow2(k + 1) == 2 * pow2(k),
    ;
    if k + 1 <= m1 {
        if k + 1 < m1 {
            lemma_pow2_strictly_increases(k + 1, m1);
        }
        assert(initial * pow2(k + 1) <= initial * pow2(m1)) by (nonlinear_arith)
            requires
                pow2(k + 1) <= pow2(m1),
        ;
    }
    if k == 0 {
        lemma2_to64();
        assert(pow2(0) == 1 && pow2(1) == 2);
    } else {
        law_retry_backoff(max_retransmit, initial, (k - 1) as nat);
        lemma_pow2_unfold(k);
        assert(initial * pow2(k) == 2 * (initial * pow2((k - 1) as nat))) by (nonlinear_arith)
            requires
                pow2(k) == 2 * pow2((k - 1) as nat),
        ;
    }
    if k < max_retransmit {
        lemma_pow2_unfold(k + 2);
        lemma_pow2_strictly_increases(k + 1, m1);
        if k + 2 < m1 {
            lemma_pow2_strictly_increases(k + 2, m1);
        }
        assert(initial * pow2(k + 2) <= initial * pow2(m1)) by (nonlinear_arith)
            requires
                pow2(k + 2) <= pow2(m1),
        ;
        assert(initial * pow2(k + 2) == 2 * (initial * pow2(k + 1))) by (nonlinear_arith)
            requires
                pow2(k + 2) == 2 * pow2(k + 1),
        ;
    }
}

} // verus!
