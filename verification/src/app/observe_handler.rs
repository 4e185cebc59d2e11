//! Observe registrations (RFC 7641): which peers observe which paths, and the checks a
//! registration request goes through.
use vstd::prelude::*;
use vstd::laws_eq::obeys_concrete_eq;

use crate::app::assoc::{
    keys_distinct, lemma_keys_distinct_push, lemma_keys_distinct_remove, lemma_keys_distinct_update,
    lemma_map_of_pairs_contains, lemma_map_of_pairs_len, lemma_map_of_pairs_push,
    lemma_map_of_pairs_remove, lemma_map_of_pairs_update, lemma_map_of_pairs_value, map_of_pairs,
};
use crate::app::error::CoapError;
use crate::app::codes::ResponseType;
use crate::app::observers::{random_initial_sequence, state_change_num, NotificationState, Observers};
use crate::app::option_value::{be_value, decode_u32_option};
use crate::app::path_matcher::{key_from_path, path_key, segs};
use crate::app::retransmission_manager::same_endpoint;
use crate::app::text::{bytes_eq, remove_all, remove_occurrences};

verus! {

/// The two meaningful values of the Observe option in a request.
#[derive(Debug, Copy, Clone, PartialEq, Eq, Structural)]
pub enum ObserveOption {
    Register,
    Deregister,
}

/// The Observe option was present but held neither 0 (register) nor 1 (deregister).
#[derive(Debug, Copy, Clone, PartialEq, Eq, Structural)]
pub struct InvalidObserve;

/// The Observe flag of a request whose first Observe option value is `first` (as
/// `CoapRequest::get_observe_flag` reads it): absent, 0 = register, 1 = deregister, anything
/// else (including a value longer than four bytes) invalid.
pub open spec fn observe_flag_spec(first: Option<Seq<u8>>) -> Option<Result<ObserveOption, InvalidObserve>> {
    match first {
        None => None,
        Some(b) => if b.len() > 4 {
            Some(Err(InvalidObserve))
        } else if be_value(b) == 0 {
            Some(Ok(ObserveOption::Register))
        } else if be_value(b) == 1 {
            Some(Ok(ObserveOption::Deregister))
        } else {
            Some(Err(InvalidObserve))
        },
    }
}

/// The Observe flag of a request, from its first Observe option value.
pub fn observe_flag(first: Option<&Vec<u8>>) -> (r: Option<Result<ObserveOption, InvalidObserve>>)
    ensures
        r == observe_flag_spec(
            match first {
                Some(b) => Some(b@),
                None => None,
            },
        ),
{
    match first {
        None => None,
        Some(b) => match decode_u32_option(b) {
            None => Some(Err(InvalidObserve)),
            Some(0) => Some(Ok(ObserveOption::Register)),
            Some(1) => Some(Ok(ObserveOption::Deregister)),
            Some(_) => Some(Err(InvalidObserve)),
        },
    }
}

/// A peer's registration: the peer and the token of its observe request.
#[derive(Debug, Clone)]
pub struct RegistrationKey<Endpoint> {
    peer: Endpoint,
    token: Vec<u8>,
}

impl<Endpoint> View for RegistrationKey<Endpoint> {
    type V = (Endpoint, Seq<u8>);

    closed spec fn view(&self) -> (Endpoint, Seq<u8>) {
        (self.peer, self.token@)
    }
}

impl<Endpoint> RegistrationKey<Endpoint> {
    pub fn new(peer: Endpoint, token: Vec<u8>) -> (r: Self)
        ensures
            r@ == (peer, token@),
    {
        RegistrationKey { peer, token }
    }
}

/// The facts about an incoming request that decide what its Observe option asks for.
pub struct RegistrationRequest<Endpoint> {
    /// The first Observe option value of the request, if it has one.
    pub observe_option: Option<Vec<u8>>,
    /// The request's path.
    pub path: String,
    /// `None` when no response has been prepared; otherwise the prepared response's first
    /// Observe option value, if it has one.
    pub response_observe_option: Option<Option<Vec<u8>>>,
    /// The peer that sent the request.
    pub source: Option<Endpoint>,
    /// The request's token.
    pub token: Vec<u8>,
}

/// What a request asks of the observe registrations.
pub enum RegistrationPlan<Endpoint> {
    /// Nothing (no Observe option).
    NoChange,
    /// Register `key` as an observer of `path`; `response_has_observe` tells whether the
    /// prepared response already carries an Observe value.
    Register { path: String, key: RegistrationKey<Endpoint>, response_has_observe: bool },
    /// Remove the registration `key` of `path`.
    Deregister { path: String, key: RegistrationKey<Endpoint> },
}

/// The message of the bad-request error for an invalid Observe option.
pub open spec fn invalid_observe_message() -> Seq<char> {
    "CoAP error: invalid observe option number"@
}

/// Checks a request's Observe option and decides what it asks for.  In order: no Observe
/// option means no change; an invalid one is a 4.00; a missing prepared response, an invalid
/// Observe value in that response, or a missing source are internal errors (5.00).
pub fn plan_registration<Endpoint>(request: RegistrationRequest<Endpoint>) -> (r: Result<RegistrationPlan<Endpoint>, CoapError>)
    ensures
        ({
            let flag = observe_flag_spec(
                match request.observe_option {
                    Some(b) => Some(b@),
                    None => None,
                },
            );
            match flag {
                None => r matches Ok(RegistrationPlan::NoChange),
                Some(Err(_)) => r matches Err(e) && e.code == Some(ResponseType::BadRequest)
                    && e.message@ == invalid_observe_message(),
                Some(Ok(option)) => if request.response_observe_option is None {
                    r matches Err(e) && e.code == Some(ResponseType::InternalServerError)
                        && e.message@ == "No response prepared"@
                } else if request.response_observe_option matches Some(Some(v)) && v@.len() > 4 {
                    r matches Err(e) && e.code == Some(ResponseType::InternalServerError)
                        && e.message@ == "Invalid Observe option in prepared response"@
                } else if request.source is None {
                    r matches Err(e) && e.code == Some(ResponseType::InternalServerError)
                        && e.message@ == "Missing source!"@
                } else if option == ObserveOption::Register {
                    r matches Ok(RegistrationPlan::Register { path, key, response_has_observe })
                        && path@ == request.path@ && key@ == (request.source->0, request.token@)
                        && response_has_observe == (request.response_observe_option matches Some(Some(_)))
                } else {
                    r matches Ok(RegistrationPlan::Deregister { path, key })
                        && path@ == request.path@ && key@ == (request.source->0, request.token@)
                },
            }
        }),
{
    let flag = match request.observe_option {
        Some(ref b) => observe_flag(Some(b)),
        None => observe_flag(None),
    };
    let option = match flag {
        None => {
            return Ok(RegistrationPlan::NoChange);
        },
        Some(Err(_)) => {
            return Err(CoapError::bad_request("CoAP error: invalid observe option number"));
        },
        Some(Ok(o)) => o,
    };
    let response_has_observe = match request.response_observe_option {
        None => {
            return Err(CoapError::internal("No response prepared"));
        },
        Some(None) => false,
        Some(Some(ref v)) => {
            if decode_u32_option(v).is_none() {
                return Err(CoapError::internal("Invalid Observe option in prepared response"));
            }
            true
        },
    };
    let peer = match request.source {
        None => {
            return Err(CoapError::internal("Missing source!"));
        },
        Some(p) => p,
    };
    let key = RegistrationKey::new(peer, request.token);
    match option {
        ObserveOption::Register => Ok(RegistrationPlan::Register { path: request.path, key, response_has_observe }),
        ObserveOption::Deregister => Ok(RegistrationPlan::Deregister { path: request.path, key }),
    }
}

/// The Observe value to put into the response of a new registration: the current sequence
/// number, unless the handler already chose one.
pub fn observe_value_to_set(response_has_observe: bool, current_state: NotificationState) -> (r: Option<u32>)
    ensures
        r == (if response_has_observe {
            None
        } else {
            Some(state_change_num(current_state)@ as u32)
        }),
{
    if response_has_observe {
        None
    } else {
        Some(u32::from(current_state.change_num()))
    }
}

/// The registrations of `m` under path `p`.
pub open spec fn keys_of_path<Endpoint, R>(m: Map<RegistrationView<Endpoint>, R>, p: Seq<char>) -> Set<RegistrationView<Endpoint>> {
    m.dom().filter(|k: RegistrationView<Endpoint>| k.0 == p)
}

/// `h` is the termination handle of one of the registrations of `m` under path `p`.
pub open spec fn is_handle_of_path<Endpoint, R>(m: Map<RegistrationView<Endpoint>, R>, p: Seq<char>, h: R) -> bool {
    exists|k: RegistrationView<Endpoint>| #[trigger] keys_of_path(m, p).contains(k) && m[k] == h
}

/// All registrations of `old_reg` under path `p` ended: `rest` is what remains, and `hs`
/// holds the termination handle of each ended registration, once.
pub open spec fn registrations_ended<Endpoint, R>(
    old_reg: Map<RegistrationView<Endpoint>, R>,
    p: Seq<char>,
    rest: Map<RegistrationView<Endpoint>, R>,
    hs: Seq<R>,
) -> bool {
    &&& rest == old_reg.remove_keys(keys_of_path(old_reg, p))
    &&& hs.len() == keys_of_path(old_reg, p).len()
    &&& forall|i: int| 0 <= i < hs.len() ==> #[trigger] is_handle_of_path(old_reg, p, hs[i])
    &&& forall|k: RegistrationView<Endpoint>|
        #[trigger] keys_of_path(old_reg, p).contains(k) ==> exists|i: int| 0 <= i < hs.len() && hs[i] == old_reg[k]
}

/// What a sweep that removed the registrations `gk` of path `p` (each once, with their
/// handles `hs`) from `old_reg` leaves and collects, once no registration of `p` remains.
proof fn lemma_collected_handles<Endpoint, R>(
    old_reg: Map<RegistrationView<Endpoint>, R>,
    p: Seq<char>,
    gk: Seq<RegistrationView<Endpoint>>,
    hs: Seq<R>,
    rest: Map<RegistrationView<Endpoint>, R>,
)
    requires
        rest == old_reg.remove_keys(gk.to_set()),
        forall|k: RegistrationView<Endpoint>| #[trigger] rest.contains_key(k) ==> k.0 != p,
        gk.no_duplicates(),
        hs.len() == gk.len(),
        forall|i: int|
            0 <= i < gk.len() ==> (#[trigger] gk[i]).0 == p && old_reg.contains_key(gk[i]) && hs[i] == old_reg[gk[i]],
    ensures
        registrations_ended(old_reg, p, rest, hs),
{
    let kp = keys_of_path(old_reg, p);
    assert(kp =~= gk.to_set()) by {
        assert forall|k2: RegistrationView<Endpoint>| kp.contains(k2) implies gk.to_set().contains(k2) by {
            if !gk.to_set().contains(k2) {
                assert(rest.contains_key(k2));
            }
        }
        assert forall|k2: RegistrationView<Endpoint>| gk.to_set().contains(k2) implies kp.contains(k2) by {
            let x = choose|x: int| 0 <= x < gk.len() && gk[x] == k2;
            assert(gk[x].0 == p);
        }
    }
    gk.unique_seq_to_set();
    assert forall|i: int| 0 <= i < hs.len() implies #[trigger] is_handle_of_path(old_reg, p, hs[i]) by {
        assert(gk.to_set().contains(gk[i]));
        assert(kp.contains(gk[i]));
    }
    assert forall|k2: RegistrationView<Endpoint>| #[trigger] kp.contains(k2) implies exists|i: int|
        0 <= i < hs.len() && hs[i] == old_reg[k2] by {
        assert(gk.to_set().contains(k2));
        let x = choose|x: int| 0 <= x < gk.len() && gk[x] == k2;
        assert(hs[x] == old_reg[k2]);
    }
}

/// Abstract registration key: (path, peer, token).
pub type RegistrationView<Endpoint> = (Seq<char>, (Endpoint, Seq<u8>));

/// Observe registrations of one observable resource, grouped by path.  `N` is how the
/// observers of a path are notified; `R` is how one registration is terminated.
pub struct ObserveHandler<Endpoint, N, R> {
    path_prefix: String,
    notifiers: Vec<(String, N)>,
    registrations: Vec<((String, RegistrationKey<Endpoint>), R)>,
}

impl<Endpoint, N, R> ObserveHandler<Endpoint, N, R> {
    spec fn abs_notifiers(&self) -> Seq<(Seq<char>, N)> {
        self.notifiers@.map_values(|p: (String, N)| (p.0@, p.1))
    }

    spec fn abs_registrations(&self) -> Seq<(RegistrationView<Endpoint>, R)> {
        self.registrations@.map_values(
            |p: ((String, RegistrationKey<Endpoint>), R)| ((p.0.0@, p.0.1@), p.1),
        )
    }

    /// Paths and registrations are each held once, and every registration's path has a
    /// notifier.
    pub closed spec fn wf(&self) -> bool {
        &&& keys_distinct(self.abs_notifiers())
        &&& keys_distinct(self.abs_registrations())
        &&& forall|k: RegistrationView<Endpoint>|
            #[trigger] self.registered().contains_key(k) ==> self.notified().contains_key(k.0)
    }

    /// The observed paths and their notifiers.
    pub closed spec fn notified(&self) -> Map<Seq<char>, N> {
        map_of_pairs(self.abs_notifiers())
    }

    /// The registrations and their termination handles.
    pub closed spec fn registered(&self) -> Map<RegistrationView<Endpoint>, R> {
        map_of_pairs(self.abs_registrations())
    }

    /// The path prefix of the observable resource.
    pub closed spec fn prefix(&self) -> Seq<char> {
        self.path_prefix@
    }

    /// No registrations, for the resource at `path_prefix`.
    pub fn new(path_prefix: String) -> (r: Self)
        ensures
            r.wf(),
            r.prefix() == path_prefix@,
            r.notified() == Map::<Seq<char>, N>::empty(),
            r.registered() == Map::<RegistrationView<Endpoint>, R>::empty(),
    {
        let r = ObserveHandler { path_prefix, notifiers: Vec::new(), registrations: Vec::new() };
        assert(r.abs_notifiers() =~= Seq::<(Seq<char>, N)>::empty());
        assert(r.abs_registrations() =~= Seq::<(RegistrationView<Endpoint>, R)>::empty());
        r
    }

    /// The key of `path` relative to the resource: the path with the resource's prefix removed,
    /// split into segments.
    pub fn relative_path_key(&self, path: &str) -> (r: Vec<String>)
        ensures
            segs(r@) == path_key(remove_occurrences(path@, self.prefix())),
    {
        let relative = remove_all(path, self.path_prefix.as_str());
        key_from_path(relative.as_str())
    }

    /// The observers handle for `path` when it becomes observed: keyed by the path relative
    /// to the resource, starting from a random sequence number.
    pub fn new_observers(&self, path: &str) -> (r: Observers)
        ensures
            r.key() == path_key(remove_occurrences(path@, self.prefix())),
    {
        Observers::new(self.relative_path_key(path), random_initial_sequence())
    }

    fn find_notifier(&self, path: &String) -> (r: Option<usize>)
        ensures
            r matches Some(i) ==> i < self.abs_notifiers().len() && self.abs_notifiers()[i as int].0 == path@,
            r is None ==> !self.notified().contains_key(path@),
    {
        let mut i: usize = 0;
        while i < self.notifiers.len()
            invariant
                i <= self.abs_notifiers().len(),
                self.abs_notifiers().len() == self.notifiers@.len(),
                forall|j: int| 0 <= j < i ==> #[trigger] self.abs_notifiers()[j].0 != path@,
            decreases self.notifiers@.len() - i,
        {
            if self.notifiers[i].0 == *path {
                return Some(i);
            }
            i = i + 1;
        }
        proof {
            lemma_map_of_pairs_contains(self.abs_notifiers(), path@);
            if self.notified().contains_key(path@) {
                let j = choose|j: int| 0 <= j < self.abs_notifiers().len() && #[trigger] self.abs_notifiers()[j].0 == path@;
                assert(self.abs_notifiers()[j].0 != path@);
            }
        }
        None
    }

    fn find_registration(&self, path: &String, key: &RegistrationKey<Endpoint>) -> (r: Option<usize>)
        where Endpoint: PartialEq,
        requires
            obeys_concrete_eq::<Endpoint>(),
        ensures
            r matches Some(i) ==> i < self.abs_registrations().len() && self.abs_registrations()[i as int].0 == (path@, key@),
            r is None ==> !self.registered().contains_key((path@, key@)),
    {
        let mut i: usize = 0;
        while i < self.registrations.len()
            invariant
                obeys_concrete_eq::<Endpoint>(),
                i <= self.abs_registrations().len(),
                self.abs_registrations().len() == self.registrations@.len(),
                forall|j: int| 0 <= j < i ==> #[trigger] self.abs_registrations()[j].0 != (path@, key@),
            decreases self.registrations@.len() - i,
        {
            let k = &self.registrations[i].0;
            if k.0 == *path && same_endpoint(&k.1.peer, &key.peer) && bytes_eq(&k.1.token, &key.token) {
                return Some(i);
            }
            i = i + 1;
        }
        proof {
            lemma_map_of_pairs_contains(self.abs_registrations(), (path@, key@));
            if self.registered().contains_key((path@, key@)) {
                let j = choose|j: int| 0 <= j < self.abs_registrations().len() && #[trigger] self.abs_registrations()[j].0 == (path@, key@);
                assert(self.abs_registrations()[j].0 != (path@, key@));
            }
        }
        None
    }

    /// Whether `path` is observed.
    pub fn contains_path(&self, path: &String) -> (r: bool)
        ensures
            r == self.notified().contains_key(path@),
    {
        match self.find_notifier(path) {
            Some(i) => {
                proof {
                    lemma_map_of_pairs_contains(self.abs_notifiers(), path@);
                    assert(self.abs_notifiers()[i as int].0 == path@);
                }
                true
            },
            None => false,
        }
    }

    /// The notifier of `path`, if it is observed.
    pub fn notifier(&self, path: &String) -> (r: Option<&N>)
        requires
            self.wf(),
        ensures
            r == (if self.notified().contains_key(path@) {
                Some(&self.notified()[path@])
            } else {
                None
            }),
    {
        match self.find_notifier(path) {
            Some(i) => {
                proof {
                    lemma_map_of_pairs_value(self.abs_notifiers(), i as int);
                }
                Some(&self.notifiers[i].1)
            },
            None => None,
        }
    }

    /// Registers `key` as an observer of `path` with termination handle `handle`.  When
    /// `path` is not observed yet, it becomes observed with `new_notifier` (which must then
    /// be given); otherwise `new_notifier` is dropped.  Returns the handle of an earlier
    /// registration under the same key, which is replaced and must be terminated.
    pub fn register(&mut self, path: String, key: RegistrationKey<Endpoint>, handle: R, new_notifier: Option<N>) -> (r: Option<R>)
        where Endpoint: PartialEq,
        requires
            old(self).wf(),
            obeys_concrete_eq::<Endpoint>(),
            old(self).notified().contains_key(path@) || new_notifier is Some,
        ensures
            final(self).wf(),
            final(self).prefix() == old(self).prefix(),
            final(self).notified() == notified_after_register(old(self).notified(), path@, new_notifier->0),
            final(self).registered() == old(self).registered().insert((path@, key@), handle),
            r == (if old(self).registered().contains_key((path@, key@)) {
                Some(old(self).registered()[(path@, key@)])
            } else {
                None
            }),
    {
        let ghost old_n = self.abs_notifiers();
        let ghost old_r = self.abs_registrations();
        let ghost k = (path@, key@);
        if !self.contains_path(&path) {
            let n = new_notifier.unwrap();
            proof {
                lemma_map_of_pairs_push(old_n, path@, n);
                lemma_keys_distinct_push(old_n, path@, n);
            }
            self.notifiers.push((path.clone(), n));
            assert(self.abs_notifiers() =~= old_n.push((path@, n)));
        }
        let ghost mid_n = self.abs_notifiers();
        assert(map_of_pairs(mid_n).contains_key(path@));
        let found = self.find_registration(&path, &key);
        let result = match found {
            Some(i) => {
                proof {
                    lemma_map_of_pairs_value(old_r, i as int);
                    lemma_map_of_pairs_update(old_r, i as int, handle);
                    lemma_keys_distinct_update(old_r, i as int, handle);
                }
                let mut h = handle;
                std::mem::swap(&mut self.registrations[i].1, &mut h);
                assert(self.abs_registrations() =~= old_r.update(i as int, (old_r[i as int].0, self.registrations@[i as int].1)));
                Some(h)
            },
            None => {
                proof {
                    lemma_map_of_pairs_push(old_r, k, handle);
                    lemma_keys_distinct_push(old_r, k, handle);
                }
                self.registrations.push(((path, key), handle));
                assert(self.abs_registrations() =~= old_r.push((k, handle)));
                None
            },
        };
        assert forall|k2: RegistrationView<Endpoint>| #[trigger] self.registered().contains_key(k2) implies self.notified().contains_key(k2.0) by {
            if k2 != k {
                assert(old(self).registered().contains_key(k2));
            }
        }
        result
    }

    /// Removes the registration `key` of `path`, returning its termination handle if it was
    /// registered.
    pub fn deregister(&mut self, path: &String, key: &RegistrationKey<Endpoint>) -> (r: Option<R>)
        where Endpoint: PartialEq,
        requires
            old(self).wf(),
            obeys_concrete_eq::<Endpoint>(),
        ensures
            final(self).wf(),
            final(self).prefix() == old(self).prefix(),
            final(self).notified() == old(self).notified(),
            final(self).registered() == old(self).registered().remove((path@, key@)),
            r == (if old(self).registered().contains_key((path@, key@)) {
                Some(old(self).registered()[(path@, key@)])
            } else {
                None
            }),
    {
        let ghost old_r = self.abs_registrations();
        match self.find_registration(path, key) {
            Some(i) => {
                proof {
                    lemma_map_of_pairs_value(old_r, i as int);
                    lemma_map_of_pairs_remove(old_r, i as int);
                    lemma_keys_distinct_remove(old_r, i as int);
                }
                let (_k, h) = self.registrations.remove(i);
                assert(self.abs_registrations() =~= old_r.remove(i as int));
                assert forall|k2: RegistrationView<Endpoint>| #[trigger] self.registered().contains_key(k2) implies self.notified().contains_key(k2.0) by {
                    assert(old(self).registered().contains_key(k2));
                }
                Some(h)
            },
            None => {
                assert(old(self).registered().remove((path@, key@)) =~= old(self).registered());
                None
            },
        }
    }

    fn find_path_registration(&self, path: &String) -> (r: Option<usize>)
        requires
            self.wf(),
        ensures
            r matches Some(i) ==> i < self.abs_registrations().len() && self.abs_registrations()[i as int].0.0 == path@,
            r is None ==> forall|k: RegistrationView<Endpoint>| #[trigger] self.registered().contains_key(k) ==> k.0 != path@,
    {
        let mut i: usize = 0;
        while i < self.registrations.len()
            invariant
                i <= self.abs_registrations().len(),
                self.abs_registrations().len() == self.registrations@.len(),
                forall|j: int| 0 <= j < i ==> #[trigger] self.abs_registrations()[j].0.0 != path@,
            decreases self.registrations@.len() - i,
        {
            if (self.registrations[i].0).0 == *path {
                return Some(i);
            }
            i = i + 1;
        }
        proof {
            assert forall|k: RegistrationView<Endpoint>| #[trigger] self.registered().contains_key(k) implies k.0 != path@ by {
                lemma_map_of_pairs_contains(self.abs_registrations(), k);
                let j = choose|j: int| 0 <= j < self.abs_registrations().len() && #[trigger] self.abs_registrations()[j].0 == k;
                assert(self.abs_registrations()[j].0.0 != path@);
            }
        }
        None
    }

    /// The observable resource stopped being active for `path`: the path is no longer
    /// observed and all its registrations end; their termination handles are returned.
    /// `None` when the path was not observed (nothing changes then).
    pub fn end_of_activity(&mut self, path: &String) -> (r: Option<Vec<R>>)
        requires
            old(self).wf(),
        ensures
            final(self).wf(),
            final(self).prefix() == old(self).prefix(),
            match r {
                None => {
                    &&& !old(self).notified().contains_key(path@)
                    &&& final(self).notified() == old(self).notified()
                    &&& final(self).registered() == old(self).registered()
                },
                Some(handles) => {
                    &&& old(self).notified().contains_key(path@)
                    &&& final(self).notified() == old(self).notified().remove(path@)
                    &&& registrations_ended(old(self).registered(), path@, final(self).registered(), handles@)
                },
            },
    {
        let j = match self.find_notifier(path) {
            None => {
                return None;
            },
            Some(j) => j,
        };
        proof {
            lemma_map_of_pairs_contains(self.abs_notifiers(), path@);
        }
        let ghost old_reg = self.registered();
        let ghost p = path@;
        let mut handles: Vec<R> = Vec::new();
        let ghost mut gk: Seq<RegistrationView<Endpoint>> = Seq::empty();
        assert(old_reg.remove_keys(gk.to_set()) =~= old_reg);
        loop
            invariant
                self.wf(),
                self.notified() == old(self).notified(),
                self.prefix() == old(self).prefix(),
                j < self.abs_notifiers().len(),
                self.abs_notifiers() == old(self).abs_notifiers(),
                old(self).abs_notifiers()[j as int].0 == p,
                p == path@,
                old_reg == old(self).registered(),
                self.registered() == old_reg.remove_keys(gk.to_set()),
                gk.no_duplicates(),
                handles@.len() == gk.len(),
                forall|i: int|
                    0 <= i < gk.len() ==> (#[trigger] gk[i]).0 == p && old_reg.contains_key(gk[i]) && handles@[i]
                        == old_reg[gk[i]],
            ensures
                forall|k2: RegistrationView<Endpoint>| #[trigger] self.registered().contains_key(k2) ==> k2.0 != p,
            decreases self.registrations@.len(),
        {
            match self.find_path_registration(path) {
                None => {
                    break;
                },
                Some(i) => {
                    let ghost old_abs = self.abs_registrations();
                    let ghost k = old_abs[i as int].0;
                    proof {
                        lemma_map_of_pairs_value(old_abs, i as int);
                        lemma_map_of_pairs_remove(old_abs, i as int);
                        lemma_keys_distinct_remove(old_abs, i as int);
                        assert(!gk.to_set().contains(k));
                    }
                    let (_key, h) = self.registrations.remove(i);
                    assert(self.abs_registrations() =~= old_abs.remove(i as int));
                    handles.push(h);
                    proof {
                        gk.lemma_push_to_set_commute(k);
                        assert(self.registered() =~= old_reg.remove_keys(gk.push(k).to_set()));
                        assert forall|x: int, y: int| 0 <= x < gk.push(k).len() && 0 <= y < gk.push(k).len() && x != y implies gk.push(k)[x] != gk.push(k)[y] by {
                            if x < gk.len() && y < gk.len() {
                            } else if x < gk.len() {
                                assert(gk.to_set().contains(gk[x]));
                            } else {
                                assert(gk.to_set().contains(gk[y]));
                            }
                        }
                        gk = gk.push(k);
                        assert forall|k2: RegistrationView<Endpoint>| #[trigger] self.registered().contains_key(k2) implies self.notified().contains_key(k2.0) by {
                            assert(old(self).registered().contains_key(k2));
                        }
                    }
                },
            }
        }
        let ghost old_n = self.abs_notifiers();
        proof {
            lemma_map_of_pairs_remove(old_n, j as int);
            lemma_keys_distinct_remove(old_n, j as int);
        }
        self.notifiers.remove(j);
        assert(self.abs_notifiers() =~= old_n.remove(j as int));
        proof {
            assert forall|k2: RegistrationView<Endpoint>| #[trigger] self.registered().contains_key(k2) implies self.notified().contains_key(k2.0) by {
                assert(k2.0 != p);
                assert(old(self).registered().contains_key(k2));
            }
            lemma_collected_handles(old_reg, p, gk, handles@, self.registered());
        }
        Some(handles)
    }
}

/// Deregistering a registration that was just made yields its termination handle and leaves
/// the registrations as they were before it, without that key.
pub proof fn law_deregister_undoes_register<Endpoint, R>(
    registered: Map<RegistrationView<Endpoint>, R>,
    key: RegistrationView<Endpoint>,
    handle: R,
)
    ensures
        registered.insert(key, handle).contains_key(key),
        registered.insert(key, handle)[key] == handle,
        registered.insert(key, handle).remove(key) == registered.remove(key),
{
    assert(registered.insert(key, handle).remove(key) =~= registered.remove(key));
}

/// When a path's activity ends, none of its registrations remain, and every registration of
/// another path stays with its handle.
pub proof fn law_no_registration_outlives_its_path<Endpoint, R>(
    old_reg: Map<RegistrationView<Endpoint>, R>,
    p: Seq<char>,
    rest: Map<RegistrationView<Endpoint>, R>,
    hs: Seq<R>,
)
    requires
        registrations_ended(old_reg, p, rest, hs),
    ensures
        forall|k: RegistrationView<Endpoint>| #[trigger] rest.contains_key(k) ==> k.0 != p,
        forall|k: RegistrationView<Endpoint>|
            old_reg.contains_key(k) && k.0 != p ==> #[trigger] rest.contains_key(k) && rest[k] == old_reg[k],
{
    assert forall|k: RegistrationView<Endpoint>| #[trigger] rest.contains_key(k) implies k.0 != p by {
        if k.0 == p {
            assert(keys_of_path(old_reg, p).contains(k));
        }
    }
    assert forall|k: RegistrationView<Endpoint>|
        old_reg.contains_key(k) && k.0 != p implies #[trigger] rest.contains_key(k) && rest[k] == old_reg[k] by {
        assert(!keys_of_path(old_reg, p).contains(k));
    }
}

/// The observed paths after a registration for `path`: unchanged when `path` is observed
/// already, otherwise with `path` observed through `new_notifier` (see `register`).
pub open spec fn notified_after_register<N>(notified: Map<Seq<char>, N>, path: Seq<char>, new_notifier: N) -> Map<
    Seq<char>,
    N,
> {
    if notified.contains_key(path) {
        notified
    } else {
        notified.insert(path, new_notifier)
    }
}

/// The activity of an observable resource runs once per observed path: a registration for an
/// observed path keeps the path's notifier (no second activity starts, whatever notifier a
/// later registration brings), and only after the activity ended (`end_of_activity` removed
/// the path) does a registration observe the path afresh, with its own notifier.
pub proof fn law_activity_once_per_observed_path<N>(notified: Map<Seq<char>, N>, path: Seq<char>, first: N, later: N)
    ensures
        notified_after_register(notified_after_register(notified, path, first), path, later)
            == notified_after_register(notified, path, first),
        notified.contains_key(path) ==> notified_after_register(notified, path, first) == notified,
        !notified.contains_key(path) ==> notified_after_register(notified, path, first)[path] == first,
        notified_after_register(notified.remove(path), path, later)[path] == later,
{
}

} // verus!
