//! Observe sequence numbers and the handle resources use to announce changes.
use vstd::prelude::*;

use crate::app::path_matcher::segs;
use crate::app::text::join_with;
use crate::app::u24::{u24, u24_modulus};
use vstd::string::StringExecFns;

verus! {

/// What observers of a path are told: the sequence number to start from, or that the
/// resource changed and the new sequence number.
#[derive(Copy, Clone)]
pub enum NotificationState {
    InitialSequence(u24),
    ResourceChanged(u24),
}

/// The sequence number a notification state carries.
pub open spec fn state_change_num(state: NotificationState) -> u24 {
    match state {
        NotificationState::InitialSequence(n) => n,
        NotificationState::ResourceChanged(n) => n,
    }
}

impl NotificationState {
    /// The sequence number this state carries.
    pub fn change_num(&self) -> (r: u24)
        ensures
            r == state_change_num(*self),
    {
        match self {
            NotificationState::InitialSequence(n) => *n,
            NotificationState::ResourceChanged(n) => *n,
        }
    }
}

/// Three bytes drawn at random with `rand::random`; nothing is known of their values.
#[verifier::external_body]
fn random_bytes3() -> (r: [u8; 3]) {
    rand::random::<[u8; 3]>()
}

/// A random starting sequence number, for the observers of a path that becomes observed.
pub fn random_initial_sequence() -> (r: u24) {
    u24::from_le_bytes(random_bytes3())
}

/// The sequence-number side of an `Observers` handle: the path (relative to the
/// observable resource) it serves and the last sequence number announced.
pub struct Observers {
    relative_path_key: Vec<String>,
    change_num: u24,
}

impl Observers {
    /// The relative path's segments.
    pub closed spec fn key(&self) -> Seq<Seq<char>> {
        segs(self.relative_path_key@)
    }

    /// The last sequence number announced (initially the starting one).
    pub closed spec fn sequence(&self) -> u24 {
        self.change_num
    }

    /// A handle for the path `relative_path_key` whose observers start at `change_num`.
    pub fn new(relative_path_key: Vec<String>, change_num: u24) -> (r: Self)
        ensures
            r.key() == segs(relative_path_key@),
            r.sequence() == change_num,
    {
        Observers { relative_path_key, change_num }
    }

    /// The state observers start in: `InitialSequence` with the starting number.
    pub fn initial_state(&self) -> (r: NotificationState)
        ensures
            r == NotificationState::InitialSequence(self.sequence()),
    {
        NotificationState::InitialSequence(self.change_num)
    }

    /// The relative path's segments, copied.
    pub fn relative_path_key(&self) -> (r: Vec<String>)
        ensures
            segs(r@) == self.key(),
    {
        let mut r: Vec<String> = Vec::new();
        let mut i: usize = 0;
        while i < self.relative_path_key.len()
            invariant
                i <= self.relative_path_key@.len(),
                segs(r@) == segs(self.relative_path_key@).take(i as int),
            decreases self.relative_path_key@.len() - i,
        {
            let ghost before = r@;
            r.push(self.relative_path_key[i].clone());
            assert(segs(r@) =~= segs(before).push(self.relative_path_key@[i as int]@));
            assert(segs(self.relative_path_key@).take(i as int + 1) =~= segs(self.relative_path_key@).take(i as int).push(
                self.relative_path_key@[i as int]@,
            ));
            i = i + 1;
        }
        assert(segs(self.relative_path_key@).take(i as int) =~= segs(self.relative_path_key@));
        r
    }

    /// The relative path: its segments joined by '/'.
    pub fn relative_path(&self) -> (r: String)
        ensures
            r@ == join_with(self.key(), "/"@),
    {
        let mut r = String::new();
        let mut i: usize = 0;
        while i < self.relative_path_key.len()
            invariant
                i <= self.relative_path_key@.len(),
                r@ == join_with(segs(self.relative_path_key@).take(i as int), "/"@),
            decreases self.relative_path_key@.len() - i,
        {
            let ghost k = segs(self.relative_path_key@);
            assert(k.take(i as int + 1).drop_last() =~= k.take(i as int));
            if i > 0 {
                r.append("/");
            } else {
                assert(r@ + k[0] =~= k[0]);
            }
            r.append(self.relative_path_key[i].as_str());
            i = i + 1;
        }
        assert(segs(self.relative_path_key@).take(i as int) =~= segs(self.relative_path_key@));
        r
    }

    /// Announces a change: the sequence number advances by one (modulo 2^24) and observers
    /// are to be told `ResourceChanged` with the new number.
    pub fn notify_change(&mut self) -> (r: NotificationState)
        ensures
            final(self).key() == old(self).key(),
            final(self).sequence()@ == (old(self).sequence()@ + 1) % u24_modulus(),
            final(self).sequence()@ == sequence_after(old(self).sequence()@, 1),
            r == NotificationState::ResourceChanged(final(self).sequence()),
    {
        self.change_num = self.change_num.wrapping_add(u24::from(1u8));
        proof {
            reveal_with_fuel(sequence_after, 2);
        }
        NotificationState::ResourceChanged(self.change_num)
    }
}

/// The sequence number after `k` announced changes, starting from `c`: each change advances
/// it by one, modulo 2^24.
pub open spec fn sequence_after(c: nat, k: nat) -> nat
    decreases k,
{
    if k == 0 {
        c
    } else {
        (sequence_after(c, (k - 1) as nat) + 1) % u24_modulus()
    }
}

/// After `k` calls of `notify_change` from sequence number `c`, the sequence number (and
/// the `ResourceChanged` state announced last) is `c + k` modulo 2^24.
pub proof fn law_sequence_after_k_changes(c: nat, k: nat)
    requires
        c < u24_modulus(),
    ensures
        sequence_after(c, k) == (c + k) % u24_modulus(),
    decreases k,
{
    if k > 0 {
        law_sequence_after_k_changes(c, (k - 1) as nat);
        let m = u24_modulus() as int;
        let prev = (c + k - 1) % m;
        assert((prev + 1) % m == ((c + k) as int) % m) by {
            vstd::arithmetic::div_mod::lemma_add_mod_noop(c + k - 1, 1, m);
            vstd::arithmetic::div_mod::lemma_small_mod(1, m as nat);
        }
    }
}

} // verus!
