//! The handlers of one resource: which handler serves a request, and how a change of an
//! observed resource turns into a notification.
use vstd::prelude::*;

use crate::app::assoc::{
    keys_distinct, lemma_keys_distinct_push, lemma_keys_distinct_update, lemma_map_of_pairs_contains,
    lemma_map_of_pairs_push, lemma_map_of_pairs_update, lemma_map_of_pairs_value, map_of_pairs,
};
use crate::app::codes::{RequestType, ResponseType};
use crate::app::error::CoapError;
use crate::app::observers::NotificationState;
use crate::app::option_value::{be_minimal, encode_u32_option};
use crate::app::request_type_key::{method_index, RequestTypeKey};
use crate::app::u24::u24;

verus! {

/// Abstract form of keyed handlers.
pub open spec fn keyed<H>(s: Seq<(RequestTypeKey, H)>) -> Seq<(nat, H)> {
    s.map_values(|p: (RequestTypeKey, H)| (p.0@, p.1))
}

/// Per-method request handlers of type `H`, each key held once.
pub struct HandlerTable<H> {
    entries: Vec<(RequestTypeKey, H)>,
}

impl<H> HandlerTable<H> {
    /// No key is held twice.
    pub closed spec fn wf(&self) -> bool {
        keys_distinct(keyed(self.entries@))
    }

    /// The handlers by key number (0 matches every method).
    pub closed spec fn view(&self) -> Map<nat, H> {
        map_of_pairs(keyed(self.entries@))
    }

    /// No handlers.
    pub fn new() -> (r: Self)
        ensures
            r.wf(),
            r.view() == Map::<nat, H>::empty(),
    {
        let r = HandlerTable { entries: Vec::new() };
        assert(keyed(r.entries@) =~= Seq::<(nat, H)>::empty());
        r
    }

    fn find(&self, key: RequestTypeKey) -> (r: Option<usize>)
        ensures
            r matches Some(i) ==> i < self.entries@.len() && self.entries@[i as int].0@ == key@,
            r is None ==> !self.view().contains_key(key@),
    {
        let mut i: usize = 0;
        while i < self.entries.len()
            invariant
                i <= self.entries@.len(),
                forall|j: int| 0 <= j < i ==> #[trigger] keyed(self.entries@)[j].0 != key@,
            decreases self.entries@.len() - i,
        {
            if self.entries[i].0.same(&key) {
                return Some(i);
            }
            i = i + 1;
        }
        proof {
            lemma_map_of_pairs_contains(keyed(self.entries@), key@);
        }
        None
    }

    /// Sets the handler for `key`, replacing an earlier one.
    pub fn insert(&mut self, key: RequestTypeKey, handler: H)
        requires
            old(self).wf(),
        ensures
            final(self).wf(),
            final(self).view() == old(self).view().insert(key@, handler),
    {
        let ghost old_abs = keyed(self.entries@);
        match self.find(key) {
            Some(i) => {
                proof {
                    lemma_map_of_pairs_update(old_abs, i as int, handler);
                    lemma_keys_distinct_update(old_abs, i as int, handler);
                }
                self.entries.set(i, (key, handler));
                assert(keyed(self.entries@) =~= old_abs.update(i as int, (old_abs[i as int].0, handler)));
            },
            None => {
                proof {
                    lemma_map_of_pairs_push(old_abs, key@, handler);
                    lemma_keys_distinct_push(old_abs, key@, handler);
                }
                self.entries.push((key, handler));
                assert(keyed(self.entries@) =~= old_abs.push((key@, handler)));
            },
        }
    }

    /// The handler held for `key`, if any.
    pub fn get(&self, key: RequestTypeKey) -> (r: Option<&H>)
        requires
            self.wf(),
        ensures
            r == (if self.view().contains_key(key@) {
                Some(&self.view()[key@])
            } else {
                None
            }),
    {
        match self.find(key) {
            Some(i) => {
                proof {
                    lemma_map_of_pairs_value(keyed(self.entries@), i as int);
                }
                Some(&self.entries[i].1)
            },
            None => None,
        }
    }
}

/// The handlers and settings of one resource.  `H` handles requests; `O` is the observable
/// resource, when observation is supported.
pub struct ResourceHandler<H, O> {
    pub handlers: HandlerTable<H>,
    pub observable: Option<O>,
    pub block_transfer: bool,
}

/// Which handler key serves a request of `method`: the method's own key when a handler is
/// registered for it, else the catch-all key 0 when one is, else none.
pub open spec fn serving_key<H>(handlers: Map<nat, H>, method: RequestType) -> Option<nat> {
    if handlers.contains_key(method_index(method)) {
        Some(method_index(method))
    } else if handlers.contains_key(0) {
        Some(0)
    } else {
        None
    }
}

impl<H, O> ResourceHandler<H, O> {
    /// The handler for a request of `method`; 4.05 Method Not Allowed when neither the method
    /// nor the catch-all key has one.
    pub fn handler_for(&self, method: RequestType) -> (r: Result<&H, CoapError>)
        requires
            self.handlers.wf(),
        ensures
            match serving_key(self.handlers@, method) {
                Some(k) => r == Ok::<&H, CoapError>(&self.handlers@[k]),
                None => r matches Err(e) && e.code == Some(ResponseType::MethodNotAllowed)
                    && e.message@ == "Method not allowed"@,
            },
    {
        match self.handlers.get(RequestTypeKey::from(method)) {
            Some(h) => Ok(h),
            None => match self.handlers.get(RequestTypeKey::new_match_all()) {
                Some(h) => Ok(h),
                None => Err(CoapError::method_not_allowed()),
            },
        }
    }
}

/// What an observing session does with a notification state it is woken up with.
#[derive(Debug, Copy, Clone, PartialEq, Eq, Structural)]
pub enum NotificationStep {
    /// The initial sequence number was already answered by the registration's response.
    AlreadyAnswered,
    /// The resource changed: generate a fresh response and send it as sequence number `n`.
    Notify(u24),
}

/// The step for `state`.
pub fn notification_step(state: NotificationState) -> (r: NotificationStep)
    ensures
        match state {
            NotificationState::InitialSequence(_) => r == NotificationStep::AlreadyAnswered,
            NotificationState::ResourceChanged(n) => r == NotificationStep::Notify(n),
        },
{
    match state {
        NotificationState::InitialSequence(_) => NotificationStep::AlreadyAnswered,
        NotificationState::ResourceChanged(n) => NotificationStep::Notify(n),
    }
}

/// The Observe option a notification for sequence number `change_num` is sent with (always as
/// a Confirmable message): the handler's own Observe value when its response has one
/// (`None`: keep it), otherwise `change_num` encoded as an option value.
pub fn notification_observe_value(response_observe: Option<&Vec<u8>>, change_num: u24) -> (r: Option<Vec<u8>>)
    ensures
        response_observe is Some ==> r is None,
        response_observe is None ==> (r matches Some(v) && v@ == be_minimal(change_num@)),
{
    match response_observe {
        Some(_) => None,
        None => Some(encode_u32_option(change_num.value())),
    }
}

/// Whether the handler produces the response: only when block-wise transfer did not answer
/// the request itself (with a cached block).
pub fn handler_answers(block_intercepted: bool) -> (r: bool)
    ensures
        r == !block_intercepted,
{
    !block_intercepted
}

/// Whether an observe session goes on.
#[derive(Debug, Copy, Clone, PartialEq, Eq, Structural)]
pub enum SessionControl {
    Continue,
    Stop,
}

/// The peer a notification goes to: the observer that registered, provided a response was
/// produced and the observer is known; `None` ends the observe session.
pub fn notification_peer<Endpoint>(response_produced: bool, source: Option<Endpoint>) -> (r: Option<Endpoint>)
    ensures
        r == (if response_produced {
            source
        } else {
            None
        }),
{
    if response_produced {
        source
    } else {
        None
    }
}

/// The session after sending a notification: it goes on after a delivered notification and
/// ends (the observer is dropped) when the reliable send failed.
pub fn session_after_send<E>(sent: &Result<(), E>) -> (r: SessionControl)
    ensures
        r == (if sent is Ok {
            SessionControl::Continue
        } else {
            SessionControl::Stop
        }),
{
    match sent {
        Ok(()) => SessionControl::Continue,
        Err(_) => SessionControl::Stop,
    }
}

/// A handler serves only its own method (or, as the catch-all, the methods without one): when
/// only a handler for the known method `registered` is held, a request of any other known
/// method finds no handler (4.05), and a request of `registered` finds that handler.
pub proof fn law_handler_serves_only_its_method<H>(registered: RequestType, asked: RequestType, h: H)
    requires
        registered != RequestType::UnKnown,
    ensures
        serving_key(Map::<nat, H>::empty().insert(method_index(registered), h), registered)
            == Some(method_index(registered)),
        asked != registered && asked != RequestType::UnKnown ==> serving_key(
            Map::<nat, H>::empty().insert(method_index(registered), h),
            asked,
        ) is None,
{
    crate::app::request_type_key::law_method_keys_are_distinct(asked, registered);
    crate::app::request_type_key::law_method_keys_are_distinct(registered, asked);
}

} // verus!
