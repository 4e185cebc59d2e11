//! Lookup of values by path with inexact (longest-prefix) matching.
use vstd::prelude::*;

use crate::app::assoc::{
    keys_distinct, lemma_map_of_pairs_contains, lemma_map_of_pairs_len, lemma_map_of_pairs_remove,
    lemma_map_of_pairs_update, lemma_map_of_pairs_value, map_of_pairs,
};
use crate::app::text::{join_with, push_char};

verus! {

/// Abstract form of a path: its segments as character sequences.
pub open spec fn segs(s: Seq<String>) -> Seq<Seq<char>> {
    s.map_values(|x: String| x@)
}

/// The pieces of `cur + rest` when split at every '/', where `cur` is the piece
/// under construction.
pub open spec fn split_pieces(cur: Seq<char>, rest: Seq<char>) -> Seq<Seq<char>>
    decreases rest.len(),
{
    if rest.len() == 0 {
        seq![cur]
    } else if rest[0] == '/' {
        seq![cur] + split_pieces(Seq::empty(), rest.drop_first())
    } else {
        split_pieces(cur.push(rest[0]), rest.drop_first())
    }
}

/// The non-empty members of `pieces`, in order.
pub open spec fn non_empty(pieces: Seq<Seq<char>>) -> Seq<Seq<char>>
    decreases pieces.len(),
{
    if pieces.len() == 0 {
        Seq::empty()
    } else if pieces[0].len() == 0 {
        non_empty(pieces.drop_first())
    } else {
        seq![pieces[0]] + non_empty(pieces.drop_first())
    }
}

/// The key of a canonical path string such as "/foo/bar": its non-empty '/'-separated
/// segments.
pub open spec fn path_key(path: Seq<char>) -> Seq<Seq<char>> {
    non_empty(split_pieces(Seq::empty(), path))
}

proof fn lemma_non_empty_append(a: Seq<Seq<char>>, b: Seq<Seq<char>>)
    ensures
        non_empty(a + b) == non_empty(a) + non_empty(b),
    decreases a.len(),
{
    if a.len() == 0 {
        assert(a + b =~= b);
    } else {
        assert((a + b).drop_first() =~= a.drop_first() + b);
        lemma_non_empty_append(a.drop_first(), b);
    }
}

/// Splits a path string into its non-empty segments, e.g. "/a//b/" gives ["a", "b"].
pub fn key_from_path(path: &str) -> (key: Vec<String>)
    ensures
        segs(key@) == path_key(path@),
{
    let n = path.unicode_len();
    let mut key: Vec<String> = Vec::new();
    let mut cur = String::new();
    let mut i: usize = 0;
    assert(path@.skip(0) =~= path@);
    assert(segs(key@) + non_empty(split_pieces(cur@, path@)) =~= non_empty(split_pieces(cur@, path@)));
    while i < n
        invariant
            n == path@.len(),
            i <= n,
            path_key(path@) == segs(key@) + non_empty(split_pieces(cur@, path@.skip(i as int))),
        decreases n - i,
    {
        let c = path.get_char(i);
        let ghost rest = path@.skip(i as int);
        assert(rest.drop_first() =~= path@.skip(i as int + 1));
        if c == '/' {
            proof {
                lemma_non_empty_append(seq![cur@], split_pieces(Seq::empty(), rest.drop_first()));
                reveal_with_fuel(non_empty, 2);
            }
            if cur.unicode_len() > 0 {
                let ghost before = key@;
                key.push(cur);
                assert(segs(key@) =~= segs(before) + seq![cur@]);
            }
            cur = String::new();
        } else {
            push_char(&mut cur, c);
        }
        i = i + 1;
    }
    assert(path@.skip(n as int) =~= Seq::<char>::empty());
    reveal_with_fuel(non_empty, 2);
    if cur.unicode_len() > 0 {
        let ghost before = key@;
        key.push(cur);
        assert(segs(key@) =~= segs(before) + seq![cur@]);
    } else {
        assert(segs(key@) + Seq::<Seq<char>>::empty() =~= segs(key@));
    }
    key
}

/// The result of a lookup: the matched value together with the number of leading path
/// segments that the match covered.  `&input[matched_index..]` is the unmatched rest.
pub struct MatchedResult<'a, V> {
    pub value: &'a V,
    pub matched_index: usize,
}

/// The depths `d` (from `depth` down to 0) at which the first `d` segments of `path`
/// form a key of `m`, in decreasing order.
pub open spec fn matching_depths<V>(m: Map<Seq<Seq<char>>, V>, path: Seq<Seq<char>>, depth: int) -> Seq<int>
    decreases depth + 1,
{
    if depth < 0 {
        Seq::empty()
    } else if m.contains_key(path.take(depth)) {
        seq![depth] + matching_depths(m, path, depth - 1)
    } else {
        matching_depths(m, path, depth - 1)
    }
}

/// Whether `v` is the value held for some key of `m`.
pub open spec fn is_value_of<V>(m: Map<Seq<Seq<char>>, V>, v: V) -> bool {
    exists|k: Seq<Seq<char>>| m.contains_key(k) && m[k] == v
}

/// Whether one of `a` and `b` is a prefix of the other.
pub open spec fn related_paths(a: Seq<Seq<char>>, b: Seq<Seq<char>>) -> bool {
    ||| a.len() <= b.len() && b.take(a.len() as int) == a
    ||| b.len() <= a.len() && a.take(b.len() as int) == b
}

/// Whether `v` is the value held for some key of `m` related to `path`.
pub open spec fn is_related_value<V>(m: Map<Seq<Seq<char>>, V>, path: Seq<Seq<char>>, v: V) -> bool {
    exists|k: Seq<Seq<char>>| m.contains_key(k) && related_paths(k, path) && m[k] == v
}

/// Abstract form of the stored entries.
pub open spec fn abs_entries<V>(e: Seq<(Vec<String>, V)>) -> Seq<(Seq<Seq<char>>, V)> {
    e.map_values(|p: (Vec<String>, V)| (segs(p.0@), p.1))
}

/// Lookup mechanism that uses inexact matching of input paths by finding the most specific
/// match.  See [`PathMatcher::lookup`].
pub struct PathMatcher<V> {
    entries: Vec<(Vec<String>, V)>,
}

impl<V> PathMatcher<V> {
    /// No key occurs twice.
    pub closed spec fn wf(&self) -> bool {
        keys_distinct(abs_entries(self.entries@))
    }

    /// The key/value mapping held.
    pub closed spec fn view(&self) -> Map<Seq<Seq<char>>, V> {
        map_of_pairs(abs_entries(self.entries@))
    }

    proof fn lemma_entry(&self, i: int)
        requires
            self.wf(),
            0 <= i < self.entries@.len(),
        ensures
            self.view().contains_key(segs(self.entries@[i].0@)),
            self.view()[segs(self.entries@[i].0@)] == self.entries@[i].1,
    {
        lemma_map_of_pairs_value(abs_entries(self.entries@), i);
    }

    proof fn lemma_absent(&self, k: Seq<Seq<char>>)
        requires
            forall|j: int| 0 <= j < self.entries@.len() ==> segs(#[trigger] self.entries@[j].0@) != k,
        ensures
            !self.view().contains_key(k),
    {
        let a = abs_entries(self.entries@);
        lemma_map_of_pairs_contains(a, k);
        if exists|j: int| 0 <= j < a.len() && #[trigger] a[j].0 == k {
            let j = choose|j: int| 0 <= j < a.len() && #[trigger] a[j].0 == k;
            assert(segs(self.entries@[j].0@) == k);
        }
    }

    /// Index of the entry with key `path[..depth]`, if any.
    fn find(&self, path: &[String], depth: usize) -> (r: Option<usize>)
        requires
            depth <= path@.len(),
        ensures
            r matches Some(i) ==> i < self.entries@.len() && segs(self.entries@[i as int].0@) == segs(
                path@,
            ).take(depth as int),
            r is None ==> !self.view().contains_key(segs(path@).take(depth as int)),
    {
        let mut i: usize = 0;
        while i < self.entries.len()
            invariant
                depth <= path@.len(),
                i <= self.entries@.len(),
                forall|j: int| 0 <= j < i ==> segs(#[trigger] self.entries@[j].0@) != segs(path@).take(depth as int),
            decreases self.entries@.len() - i,
        {
            if key_is_prefix(&self.entries[i].0, path, depth) {
                return Some(i);
            }
            i = i + 1;
        }
        proof {
            self.lemma_absent(segs(path@).take(depth as int));
        }
        None
    }

    /// An empty matcher.
    pub fn new_empty() -> (r: Self)
        ensures
            r.wf(),
            r.view() == Map::<Seq<Seq<char>>, V>::empty(),
    {
        let r = PathMatcher { entries: Vec::new() };
        assert(abs_entries(r.entries@) =~= Seq::<(Seq<Seq<char>>, V)>::empty());
        r
    }

    /// Builds a matcher from key/value pairs; a later pair replaces an earlier one with the
    /// same key.
    pub fn from_pairs(pairs: Vec<(Vec<String>, V)>) -> (r: Self)
        ensures
            r.wf(),
            r.view() == map_of_pairs(abs_entries(pairs@)),
    {
        let ghost abs = abs_entries(pairs@);
        let mut r = Self::new_empty();
        let mut rest = pairs;
        let mut taken: Vec<(Vec<String>, V)> = Vec::new();
        // Reverse so that popping yields the pairs in the order given.
        while rest.len() > 0
            invariant
                abs_entries(rest@) + abs_entries(taken@).reverse() == abs,
            decreases rest@.len(),
        {
            let ghost before_rest = rest@;
            let ghost before_taken = taken@;
            let p = rest.pop().unwrap();
            taken.push(p);
            assert(abs_entries(before_rest) =~= abs_entries(rest@).push((segs(p.0@), p.1)));
            assert(abs_entries(taken@) =~= abs_entries(before_taken).push((segs(p.0@), p.1)));
            assert(abs_entries(taken@).reverse() =~= seq![(segs(p.0@), p.1)] + abs_entries(before_taken).reverse());
        }
        assert(abs_entries(rest@) =~= Seq::<(Seq<Seq<char>>, V)>::empty());
        let ghost k0 = taken@.len();
        while taken.len() > 0
            invariant
                r.wf(),
                taken@.len() <= k0,
                abs_entries(taken@).reverse() == abs.skip(k0 - taken@.len()),
                abs.len() == k0,
                r.view() == map_of_pairs(abs.take(k0 - taken@.len())),
            decreases taken@.len(),
        {
            let ghost before = taken@;
            let p = taken.pop().unwrap();
            let ghost done = k0 - before.len();
            assert(abs_entries(before) =~= abs_entries(taken@).push((segs(p.0@), p.1)));
            assert(abs_entries(before).reverse() =~= seq![(segs(p.0@), p.1)] + abs_entries(taken@).reverse());
            assert(abs.skip(done)[0] == abs[done]);
            assert(abs[done] == (segs(p.0@), p.1));
            assert(abs.skip(done + 1) =~= abs.skip(done).drop_first());
            assert(abs.take(done + 1).drop_last() =~= abs.take(done));
            let (key, value) = p;
            r.insert(key, value);
        }
        assert(abs.take(k0 as int) =~= abs);
        r
    }

    /// Builds a matcher from canonical path strings such as "/foo/bar" (see
    /// [`key_from_path`]).  A later pair replaces an earlier one with the same key.
    pub fn from_path_strings(src: Vec<(String, V)>) -> (r: Self)
        ensures
            r.wf(),
            r.view() == map_of_pairs(src@.map_values(|p: (String, V)| (path_key(p.0@), p.1))),
    {
        let ghost abs = src@.map_values(|p: (String, V)| (path_key(p.0@), p.1));
        let mut pairs: Vec<(Vec<String>, V)> = Vec::new();
        let mut rest = src;
        let mut taken: Vec<(String, V)> = Vec::new();
        while rest.len() > 0
            invariant
                rest@.map_values(|p: (String, V)| (path_key(p.0@), p.1)) + taken@.map_values(
                    |p: (String, V)| (path_key(p.0@), p.1),
                ).reverse() == abs,
            decreases rest@.len(),
        {
            let ghost before_rest = rest@;
            let ghost before_taken = taken@;
            let p = rest.pop().unwrap();
            taken.push(p);
            assert(before_rest.map_values(|p: (String, V)| (path_key(p.0@), p.1)) =~= rest@.map_values(
                |p: (String, V)| (path_key(p.0@), p.1),
            ).push((path_key(p.0@), p.1)));
            assert(taken@.map_values(|p: (String, V)| (path_key(p.0@), p.1)).reverse() =~= seq![
                (path_key(p.0@), p.1),
            ] + before_taken.map_values(|p: (String, V)| (path_key(p.0@), p.1)).reverse());
        }
        assert(rest@.map_values(|p: (String, V)| (path_key(p.0@), p.1)) =~= Seq::<
            (Seq<Seq<char>>, V),
        >::empty());
        let ghost k0 = taken@.len();
        while taken.len() > 0
            invariant
                taken@.len() <= k0,
                abs.len() == k0,
                taken@.map_values(|p: (String, V)| (path_key(p.0@), p.1)).reverse() == abs.skip(
                    k0 - taken@.len(),
                ),
                abs_entries(pairs@) == abs.take(k0 - taken@.len()),
            decreases taken@.len(),
        {
            let ghost before = taken@;
            let ghost before_pairs = pairs@;
            let p = taken.pop().unwrap();
            let ghost done = k0 - before.len();
            assert(before.map_values(|p: (String, V)| (path_key(p.0@), p.1)) =~= taken@.map_values(
                |p: (String, V)| (path_key(p.0@), p.1),
            ).push((path_key(p.0@), p.1)));
            assert(before.map_values(|p: (String, V)| (path_key(p.0@), p.1)).reverse() =~= seq![
                (path_key(p.0@), p.1),
            ] + taken@.map_values(|p: (String, V)| (path_key(p.0@), p.1)).reverse());
            assert(abs.skip(done)[0] == abs[done]);
            assert(abs[done] == (path_key(p.0@), p.1));
            assert(abs.skip(done + 1) =~= abs.skip(done).drop_first());
            let (path, value) = p;
            let key = key_from_path(path.as_str());
            pairs.push((key, value));
            assert(abs_entries(pairs@) =~= abs_entries(before_pairs).push((path_key(path@), value)));
            assert(abs.take(done + 1) =~= abs.take(done).push(abs[done]));
        }
        assert(abs.take(k0 as int) =~= abs);
        Self::from_pairs(pairs)
    }

    /// Finds the most specific match for `path`: the value whose key is the longest prefix
    /// of `path`, together with that prefix's length.
    pub fn lookup(&self, path: &[String]) -> (r: Option<MatchedResult<'_, V>>)
        requires
            self.wf(),
        ensures
            match r {
                None => forall|d: int|
                    0 <= d <= path@.len() ==> !self.view().contains_key(#[trigger] segs(path@).take(d)),
                Some(m) => {
                    &&& m.matched_index <= path@.len()
                    &&& self.view().contains_key(segs(path@).take(m.matched_index as int))
                    &&& *m.value == self.view()[segs(path@).take(m.matched_index as int)]
                    &&& forall|d: int|
                        m.matched_index < d <= path@.len() ==> !self.view().contains_key(
                            #[trigger] segs(path@).take(d),
                        )
                },
            },
    {
        let mut d: usize = path.len();
        loop
            invariant
                self.wf(),
                d <= path@.len(),
                forall|e: int| d < e <= path@.len() ==> !self.view().contains_key(#[trigger] segs(path@).take(e)),
            decreases d,
        {
            match self.find(path, d) {
                Some(i) => {
                    proof {
                        self.lemma_entry(i as int);
                    }
                    return Some(MatchedResult { value: &self.entries[i].1, matched_index: d });
                },
                None => {},
            }
            if d == 0 {
                return None;
            }
            d = d - 1;
        }
    }

    /// Like [`PathMatcher::lookup`] but returns every match, most specific first.  For
    /// example with path "/foo/bar" and keys "/foo", "/foo/bar", "/baz" the result holds
    /// the matches for "/foo/bar" and "/foo".
    pub fn match_all(&self, path: &[String]) -> (r: Vec<MatchedResult<'_, V>>)
        requires
            self.wf(),
        ensures
            r@.map_values(|m: MatchedResult<'_, V>| m.matched_index as int) == matching_depths(
                self.view(),
                segs(path@),
                path@.len() as int,
            ),
            forall|i: int|
                0 <= i < r@.len() ==> {
                    &&& self.view().contains_key(segs(path@).take(#[trigger] r@[i].matched_index as int))
                    &&& *r@[i].value == self.view()[segs(path@).take(r@[i].matched_index as int)]
                },
    {
        let mut result: Vec<MatchedResult<'_, V>> = Vec::new();
        let mut d: usize = path.len();
        loop
            invariant
                self.wf(),
                d <= path@.len(),
                result@.map_values(|m: MatchedResult<'_, V>| m.matched_index as int) + matching_depths(
                    self.view(),
                    segs(path@),
                    d as int,
                ) == matching_depths(self.view(), segs(path@), path@.len() as int),
                forall|i: int|
                    0 <= i < result@.len() ==> {
                        &&& self.view().contains_key(segs(path@).take(#[trigger] result@[i].matched_index as int))
                        &&& *result@[i].value == self.view()[segs(path@).take(result@[i].matched_index as int)]
                    },
            decreases d,
        {
            let ghost before = result@;
            match self.find(path, d) {
                Some(i) => {
                    proof {
                        self.lemma_entry(i as int);
                    }
                    result.push(MatchedResult { value: &self.entries[i].1, matched_index: d });
                    assert(result@.map_values(|m: MatchedResult<'_, V>| m.matched_index as int) =~= before.map_values(
                        |m: MatchedResult<'_, V>| m.matched_index as int,
                    ) + seq![d as int]);
                },
                None => {},
            }
            if d == 0 {
                assert(matching_depths(self.view(), segs(path@), -1) =~= Seq::<int>::empty());
                return result;
            }
            d = d - 1;
        }
    }

    /// Associates `value` with `key`, returning the value previously held for it.
    pub fn insert(&mut self, key: Vec<String>, value: V) -> (r: Option<V>)
        requires
            old(self).wf(),
        ensures
            final(self).wf(),
            final(self).view() == old(self).view().insert(segs(key@), value),
            r == (if old(self).view().contains_key(segs(key@)) {
                Some(old(self).view()[segs(key@)])
            } else {
                None
            }),
    {
        let ghost k = segs(key@);
        let ghost old_abs = abs_entries(self.entries@);
        let found = self.find(key.as_slice(), key.len());
        assert(segs(key@).take(key@.len() as int) =~= k);
        match found {
            Some(i) => {
                proof {
                    self.lemma_entry(i as int);
                    lemma_map_of_pairs_update(old_abs, i as int, value);
                }
                let mut v = value;
                std::mem::swap(&mut self.entries[i].1, &mut v);
                assert(abs_entries(self.entries@) =~= old_abs.update(i as int, (k, self.entries@[i as int].1)));
                Some(v)
            },
            None => {
                self.entries.push((key, value));
                assert(abs_entries(self.entries@) =~= old_abs.push((k, value)));
                assert(abs_entries(self.entries@).drop_last() =~= old_abs);
                proof {
                    lemma_map_of_pairs_contains(old_abs, k);
                    assert forall|a: int, b: int|
                        0 <= a < abs_entries(self.entries@).len() && 0 <= b < abs_entries(self.entries@).len() && a != b
                        implies #[trigger] abs_entries(self.entries@)[a].0 != #[trigger] abs_entries(self.entries@)[b].0 by {
                        if a < old_abs.len() && b < old_abs.len() {
                            assert(old_abs[a].0 != old_abs[b].0);
                        } else if a < old_abs.len() {
                            assert(old_abs[a].0 != k);
                        } else {
                            assert(old_abs[b].0 != k);
                        }
                    }
                }
                None
            },
        }
    }

    /// Removes the entry for `key`, returning its value if it was present.
    pub fn remove(&mut self, key: &[String]) -> (r: Option<V>)
        requires
            old(self).wf(),
        ensures
            final(self).wf(),
            final(self).view() == old(self).view().remove(segs(key@)),
            r == (if old(self).view().contains_key(segs(key@)) {
                Some(old(self).view()[segs(key@)])
            } else {
                None
            }),
    {
        let ghost k = segs(key@);
        let ghost old_abs = abs_entries(self.entries@);
        let found = self.find(key, key.len());
        assert(segs(key@).take(key@.len() as int) =~= k);
        match found {
            Some(i) => {
                proof {
                    self.lemma_entry(i as int);
                    lemma_map_of_pairs_remove(old_abs, i as int);
                }
                let e = self.entries.remove(i);
                assert(abs_entries(self.entries@) =~= old_abs.remove(i as int));
                assert forall|a: int, b: int|
                    0 <= a < abs_entries(self.entries@).len() && 0 <= b < abs_entries(self.entries@).len() && a != b
                    implies #[trigger] abs_entries(self.entries@)[a].0 != #[trigger] abs_entries(self.entries@)[b].0 by {
                    let a2 = if a < i { a } else { a + 1 };
                    let b2 = if b < i { b } else { b + 1 };
                    assert(old_abs[a2].0 != old_abs[b2].0);
                }
                Some(e.1)
            },
            None => {
                assert(old(self).view().remove(k) =~= old(self).view());
                None
            },
        }
    }

    /// The value held for exactly `path`, if any.
    pub fn lookup_exact(&self, path: &[String]) -> (r: Option<&V>)
        requires
            self.wf(),
        ensures
            r == (if self.view().contains_key(segs(path@)) {
                Some(&self.view()[segs(path@)])
            } else {
                None
            }),
    {
        assert(segs(path@).take(path@.len() as int) =~= segs(path@));
        match self.find(path, path.len()) {
            Some(i) => {
                proof {
                    self.lemma_entry(i as int);
                }
                Some(&self.entries[i].1)
            },
            None => None,
        }
    }

    /// All values held, one per key.
    pub fn values(&self) -> (r: Vec<&V>)
        requires
            self.wf(),
        ensures
            forall|i: int| 0 <= i < r@.len() ==> is_value_of(self.view(), *#[trigger] r@[i]),
            forall|k: Seq<Seq<char>>|
                #[trigger] self.view().contains_key(k) ==> exists|i: int|
                    0 <= i < r@.len() && *r@[i] == self.view()[k],
            r@.len() == self.view().dom().len(),
    {
        let mut r: Vec<&V> = Vec::new();
        let mut i: usize = 0;
        while i < self.entries.len()
            invariant
                self.wf(),
                i <= self.entries@.len(),
                r@.len() == i,
                forall|j: int| 0 <= j < i ==> *#[trigger] r@[j] == self.entries@[j].1,
            decreases self.entries@.len() - i,
        {
            r.push(&self.entries[i].1);
            i = i + 1;
        }
        proof {
            self.lemma_values_cover(r@);
            self.lemma_values_sound(r@);
            self.lemma_len();
        }
        r
    }

    /// The values whose keys are related to `path` (one of the two is a prefix of the other),
    /// each once: for the path "a/b" the keys "a/b/c", "a/b", "a" and the empty key, but not
    /// "x".
    pub fn match_related(&self, path: &[String]) -> (r: Vec<&V>)
        requires
            self.wf(),
        ensures
            forall|i: int|
                0 <= i < r@.len() ==> is_related_value(self.view(), segs(path@), *#[trigger] r@[i]),
            forall|k: Seq<Seq<char>>|
                #[trigger] self.view().contains_key(k) && related_paths(k, segs(path@)) ==> exists|i: int|
                    0 <= i < r@.len() && *r@[i] == self.view()[k],
            r@.len() == self.view().dom().filter(|k: Seq<Seq<char>>| related_paths(k, segs(path@))).len(),
    {
        let ghost p = segs(path@);
        let ghost a = abs_entries(self.entries@);
        let mut r: Vec<&V> = Vec::new();
        let ghost mut ks: Seq<Seq<Seq<char>>> = Seq::empty();
        let ghost mut idx: Seq<int> = Seq::empty();
        let mut j: usize = 0;
        while j < self.entries.len()
            invariant
                self.wf(),
                a == abs_entries(self.entries@),
                p == segs(path@),
                j <= self.entries@.len(),
                r@.len() == ks.len(),
                idx.len() == ks.len(),
                forall|t: int|
                    0 <= t < ks.len() ==> 0 <= #[trigger] idx[t] < j && a[idx[t]].0 == ks[t] && *r@[t] == a[idx[t]].1
                        && related_paths(ks[t], p),
                forall|t: int, u: int| 0 <= t < u < idx.len() ==> #[trigger] idx[t] < #[trigger] idx[u],
                forall|m: int|
                    0 <= m < j && related_paths(#[trigger] a[m].0, p) ==> exists|t: int| 0 <= t < idx.len() && idx[t] == m,
            decreases self.entries@.len() - j,
        {
            let key = &self.entries[j].0;
            let rel = if key.len() <= path.len() {
                key_is_prefix(key, path, key.len())
            } else {
                starts_with(key, path)
            };
            proof {
                assert(a[j as int].0 == segs(key@));
                assert(segs(key@).take(segs(key@).len() as int) =~= segs(key@));
            }
            if rel {
                r.push(&self.entries[j].1);
                proof {
                    let old_idx = idx;
                    ks = ks.push(a[j as int].0);
                    idx = idx.push(j as int);
                    assert forall|m: int|
                        0 <= m < j + 1 && related_paths(#[trigger] a[m].0, p) implies exists|t: int|
                            0 <= t < idx.len() && idx[t] == m by {
                        if m < j {
                            let t = choose|t: int| 0 <= t < old_idx.len() && old_idx[t] == m;
                            assert(idx[t] == m);
                        } else {
                            assert(idx[idx.len() - 1] == m);
                        }
                    }
                }
            } else {
                proof {
                    assert forall|m: int|
                        0 <= m < j + 1 && related_paths(#[trigger] a[m].0, p) implies exists|t: int|
                            0 <= t < idx.len() && idx[t] == m by {
                        if m == j {
                            assert(!related_paths(a[m].0, p));
                        }
                    }
                }
            }
            j = j + 1;
        }
        proof {
            self.lemma_related_result(r@, ks, idx, p);
        }
        r
    }

    proof fn lemma_related_result(&self, r: Seq<&V>, ks: Seq<Seq<Seq<char>>>, idx: Seq<int>, p: Seq<Seq<char>>)
        requires
            self.wf(),
            r.len() == ks.len(),
            idx.len() == ks.len(),
            forall|t: int|
                0 <= t < ks.len() ==> 0 <= #[trigger] idx[t] < self.entries@.len() && abs_entries(self.entries@)[idx[t]].0
                    == ks[t] && *r[t] == abs_entries(self.entries@)[idx[t]].1 && related_paths(ks[t], p),
            forall|t: int, u: int| 0 <= t < u < idx.len() ==> #[trigger] idx[t] < #[trigger] idx[u],
            forall|m: int|
                0 <= m < self.entries@.len() && related_paths(#[trigger] abs_entries(self.entries@)[m].0, p)
                    ==> exists|t: int| 0 <= t < idx.len() && idx[t] == m,
        ensures
            forall|i: int| 0 <= i < r.len() ==> is_related_value(self.view(), p, *#[trigger] r[i]),
            forall|k: Seq<Seq<char>>|
                #[trigger] self.view().contains_key(k) && related_paths(k, p) ==> exists|i: int|
                    0 <= i < r.len() && *r[i] == self.view()[k],
            r.len() == self.view().dom().filter(|k: Seq<Seq<char>>| related_paths(k, p)).len(),
    {
        let a = abs_entries(self.entries@);
        assert forall|i: int| 0 <= i < r.len() implies is_related_value(self.view(), p, *#[trigger] r[i]) by {
            lemma_map_of_pairs_value(a, idx[i]);
            assert(self.view().contains_key(ks[i]) && self.view()[ks[i]] == *r[i]);
        }
        assert forall|k: Seq<Seq<char>>|
            #[trigger] self.view().contains_key(k) && related_paths(k, p) implies exists|i: int|
                0 <= i < r.len() && *r[i] == self.view()[k] by {
            lemma_map_of_pairs_contains(a, k);
            let m = choose|m: int| 0 <= m < a.len() && #[trigger] a[m].0 == k;
            let t = choose|t: int| 0 <= t < idx.len() && idx[t] == m;
            lemma_map_of_pairs_value(a, m);
            assert(*r[t] == self.view()[k]);
        }
        let f = self.view().dom().filter(|k: Seq<Seq<char>>| related_paths(k, p));
        assert(ks.no_duplicates()) by {
            assert forall|x: int, y: int| 0 <= x < ks.len() && 0 <= y < ks.len() && x != y implies ks[x] != ks[y] by {
                if x < y {
                    assert(idx[x] < idx[y]);
                } else {
                    assert(idx[y] < idx[x]);
                }
                assert(a[idx[x]].0 != a[idx[y]].0);
            }
        }
        assert(ks.to_set() =~= f) by {
            assert forall|k: Seq<Seq<char>>| ks.to_set().contains(k) implies f.contains(k) by {
                let t = choose|t: int| 0 <= t < ks.len() && ks[t] == k;
                lemma_map_of_pairs_value(a, idx[t]);
            }
            assert forall|k: Seq<Seq<char>>| f.contains(k) implies ks.to_set().contains(k) by {
                lemma_map_of_pairs_contains(a, k);
                let m = choose|m: int| 0 <= m < a.len() && #[trigger] a[m].0 == k;
                let t = choose|t: int| 0 <= t < idx.len() && idx[t] == m;
                assert(ks[t] == k);
            }
        }
        ks.unique_seq_to_set();
    }

    proof fn lemma_values_sound(&self, r: Seq<&V>)
        requires
            self.wf(),
            r.len() == self.entries@.len(),
            forall|j: int| 0 <= j < r.len() ==> *#[trigger] r[j] == self.entries@[j].1,
        ensures
            forall|i: int| 0 <= i < r.len() ==> is_value_of(self.view(), *#[trigger] r[i]),
    {
        assert forall|i: int| 0 <= i < r.len() implies is_value_of(self.view(), *#[trigger] r[i]) by {
            self.lemma_entry(i);
            let k = segs(self.entries@[i].0@);
            assert(self.view().contains_key(k) && self.view()[k] == *r[i]);
        }
    }

    proof fn lemma_values_cover(&self, r: Seq<&V>)
        requires
            self.wf(),
            r.len() == self.entries@.len(),
            forall|j: int| 0 <= j < r.len() ==> *#[trigger] r[j] == self.entries@[j].1,
        ensures
            forall|k: Seq<Seq<char>>|
                #[trigger] self.view().contains_key(k) ==> exists|i: int|
                    0 <= i < r.len() && *r[i] == self.view()[k],
    {
        let a = abs_entries(self.entries@);
        assert forall|k: Seq<Seq<char>>| #[trigger] self.view().contains_key(k) implies exists|i: int|
            0 <= i < r.len() && *r[i] == self.view()[k] by {
            lemma_map_of_pairs_contains(a, k);
            let j = choose|j: int| 0 <= j < a.len() && #[trigger] a[j].0 == k;
            assert(a[j] == (segs(self.entries@[j].0@), self.entries@[j].1));
            self.lemma_entry(j);
            assert(*r[j] == self.view()[k]);
        }
    }

    proof fn lemma_len(&self)
        requires
            self.wf(),
        ensures
            self.view().dom().finite(),
            self.view().dom().len() == self.entries@.len(),
    {
        let a = abs_entries(self.entries@);
        let keys = a.map_values(|p: (Seq<Seq<char>>, V)| p.0);
        assert forall|k: Seq<Seq<char>>| self.view().dom().contains(k) <==> keys.to_set().contains(k) by {
            lemma_map_of_pairs_contains(a, k);
            if keys.contains(k) {
                let j = choose|j: int| 0 <= j < keys.len() && keys[j] == k;
                assert(a[j].0 == k);
            }
            if self.view().dom().contains(k) {
                let j = choose|j: int| 0 <= j < a.len() && #[trigger] a[j].0 == k;
                assert(keys[j] == k);
            }
        }
        assert(self.view().dom() =~= keys.to_set());
        assert(keys.no_duplicates()) by {
            assert forall|x: int, y: int| 0 <= x < keys.len() && 0 <= y < keys.len() && x != y implies keys[x] != keys[y] by {
                assert(a[x].0 != a[y].0);
            }
        }
        keys.unique_seq_to_set();
    }
}

/// Whether `path` starts with all of `prefix`.
fn starts_with(path: &Vec<String>, prefix: &[String]) -> (r: bool)
    ensures
        r == (prefix@.len() <= path@.len() && segs(path@).take(prefix@.len() as int) == segs(prefix@)),
{
    if prefix.len() > path.len() {
        return false;
    }
    let mut j: usize = 0;
    while j < prefix.len()
        invariant
            prefix@.len() <= path@.len(),
            j <= prefix@.len(),
            forall|t: int| 0 <= t < j ==> path@[t]@ == prefix@[t]@,
        decreases prefix@.len() - j,
    {
        if path[j] != prefix[j] {
            assert(segs(path@).take(prefix@.len() as int)[j as int] != segs(prefix@)[j as int]);
            return false;
        }
        j = j + 1;
    }
    assert(segs(path@).take(prefix@.len() as int) =~= segs(prefix@));
    true
}

/// Whether `key` equals the first `depth` segments of `path`.
fn key_is_prefix(key: &Vec<String>, path: &[String], depth: usize) -> (r: bool)
    requires
        depth <= path@.len(),
    ensures
        r == (segs(key@) == segs(path@).take(depth as int)),
{
    if key.len() != depth {
        proof {
            assert(segs(key@).len() != segs(path@).take(depth as int).len());
        }
        return false;
    }
    let mut j: usize = 0;
    while j < depth
        invariant
            key@.len() == depth,
            depth <= path@.len(),
            j <= depth,
            forall|t: int| 0 <= t < j ==> key@[t]@ == path@[t]@,
        decreases depth - j,
    {
        if key[j] != path[j] {
            assert(segs(key@)[j as int] != segs(path@).take(depth as int)[j as int]);
            return false;
        }
        j = j + 1;
    }
    assert(segs(key@) =~= segs(path@).take(depth as int));
    true
}

proof fn lemma_matching_depths<V>(m: Map<Seq<Seq<char>>, V>, path: Seq<Seq<char>>, depth: int)
    ensures
        forall|d: int|
            #[trigger] matching_depths(m, path, depth).contains(d) <==> (0 <= d <= depth && m.contains_key(
                path.take(d),
            )),
        forall|i: int, j: int|
            0 <= i < j < matching_depths(m, path, depth).len() ==> #[trigger] matching_depths(m, path, depth)[i]
                > #[trigger] matching_depths(m, path, depth)[j],
    decreases depth + 1,
{
    if depth >= 0 {
        lemma_matching_depths(m, path, depth - 1);
        let rest = matching_depths(m, path, depth - 1);
        if m.contains_key(path.take(depth)) {
            let s = seq![depth] + rest;
            assert(matching_depths(m, path, depth) == s);
            assert forall|d: int| #[trigger] s.contains(d) <==> (0 <= d <= depth && m.contains_key(path.take(d))) by {
                if s.contains(d) {
                    let k = choose|k: int| 0 <= k < s.len() && s[k] == d;
                    if k > 0 {
                        assert(rest[k - 1] == d);
                        assert(rest.contains(d));
                    }
                }
                if 0 <= d <= depth && m.contains_key(path.take(d)) {
                    if d == depth {
                        assert(s[0] == d);
                    } else {
                        assert(rest.contains(d));
                        let k = choose|k: int| 0 <= k < rest.len() && rest[k] == d;
                        assert(s[k + 1] == d);
                    }
                }
            }
            assert forall|i: int, j: int| 0 <= i < j < s.len() implies #[trigger] s[i] > #[trigger] s[j] by {
                if i == 0 {
                    assert(s[j] == rest[j - 1]);
                    assert(rest.contains(rest[j - 1]));
                } else {
                    assert(s[i] == rest[i - 1] && s[j] == rest[j - 1]);
                }
            }
        }
    }
}

/// `match_all` reports every match and nothing else: a depth `d` is among its results exactly
/// when the first `d` segments of the path form a key, and the results come deepest first,
/// each depth once.
pub proof fn law_match_all_reports_exactly_the_matches<V>(m: Map<Seq<Seq<char>>, V>, path: Seq<Seq<char>>)
    ensures
        forall|d: int|
            #[trigger] matching_depths(m, path, path.len() as int).contains(d) <==> (0 <= d <= path.len()
                && m.contains_key(path.take(d))),
        forall|i: int, j: int|
            0 <= i < j < matching_depths(m, path, path.len() as int).len() ==> #[trigger] matching_depths(
                m,
                path,
                path.len() as int,
            )[i] > #[trigger] matching_depths(m, path, path.len() as int)[j],
{
    lemma_matching_depths(m, path, path.len() as int);
}

/// The most specific match, which `lookup` returns, is the first of the matches that
/// `match_all` returns, and `lookup` finds nothing exactly when `match_all` returns nothing.
pub proof fn law_lookup_is_first_of_match_all<V>(m: Map<Seq<Seq<char>>, V>, path: Seq<Seq<char>>)
    ensures
        matching_depths(m, path, path.len() as int).len() == 0 <==> forall|d: int|
            0 <= d <= path.len() ==> !m.contains_key(#[trigger] path.take(d)),
        matching_depths(m, path, path.len() as int).len() > 0 ==> {
            let d0 = matching_depths(m, path, path.len() as int)[0];
            &&& 0 <= d0 <= path.len()
            &&& m.contains_key(path.take(d0))
            &&& forall|d: int| d0 < d <= path.len() ==> !m.contains_key(#[trigger] path.take(d))
        },
{
    let md = matching_depths(m, path, path.len() as int);
    lemma_matching_depths(m, path, path.len() as int);
    if md.len() == 0 {
        assert forall|d: int| 0 <= d <= path.len() implies !m.contains_key(#[trigger] path.take(d)) by {
            if m.contains_key(path.take(d)) {
                assert(md.contains(d));
            }
        }
    } else {
        assert(md.contains(md[0]));
        assert forall|d: int| md[0] < d <= path.len() implies !m.contains_key(#[trigger] path.take(d)) by {
            if m.contains_key(path.take(d)) {
                assert(md.contains(d));
                let k = choose|k: int| 0 <= k < md.len() && md[k] == d;
                if k > 0 {
                    assert(md[0] > md[k]);
                }
            }
        }
    }
    if forall|d: int| 0 <= d <= path.len() ==> !m.contains_key(#[trigger] path.take(d)) {
        if md.len() > 0 {
            assert(md.contains(md[0]));
        }
    }
}

/// Once `key` is inserted, looking up exactly `key` matches all of it and yields the
/// inserted value.
pub proof fn law_inserted_key_is_matched_whole<V>(m: Map<Seq<Seq<char>>, V>, key: Seq<Seq<char>>, value: V)
    ensures
        matching_depths(m.insert(key, value), key, key.len() as int).len() > 0,
        matching_depths(m.insert(key, value), key, key.len() as int)[0] == key.len(),
        m.insert(key, value)[key.take(key.len() as int)] == value,
{
    assert(key.take(key.len() as int) =~= key);
}

proof fn lemma_split_pieces_nonempty(cur: Seq<char>, rest: Seq<char>)
    ensures
        split_pieces(cur, rest).len() >= 1,
    decreases rest.len(),
{
    if rest.len() > 0 {
        if rest[0] == '/' {
            lemma_split_pieces_nonempty(Seq::empty(), rest.drop_first());
        } else {
            lemma_split_pieces_nonempty(cur.push(rest[0]), rest.drop_first());
        }
    }
}

proof fn lemma_split_pieces_no_slash(cur: Seq<char>, rest: Seq<char>)
    requires
        !cur.contains('/'),
    ensures
        forall|i: int|
            0 <= i < split_pieces(cur, rest).len() ==> !(#[trigger] split_pieces(cur, rest)[i]).contains('/'),
    decreases rest.len(),
{
    if rest.len() > 0 {
        if rest[0] == '/' {
            lemma_split_pieces_no_slash(Seq::empty(), rest.drop_first());
            let t = split_pieces(Seq::<char>::empty(), rest.drop_first());
            assert forall|i: int| 0 <= i < (seq![cur] + t).len() implies !(#[trigger] (seq![cur] + t)[i]).contains('/') by {
                if i > 0 {
                    assert((seq![cur] + t)[i] == t[i - 1]);
                }
            }
        } else {
            assert(split_pieces(cur, rest) == split_pieces(cur.push(rest[0]), rest.drop_first()));
            assert(!cur.push(rest[0]).contains('/')) by {
                if cur.push(rest[0]).contains('/') {
                    let j = choose|j: int| 0 <= j < cur.push(rest[0]).len() && cur.push(rest[0])[j] == '/';
                    if j < cur.len() {
                        assert(cur[j] == '/');
                    }
                }
            }
            lemma_split_pieces_no_slash(cur.push(rest[0]), rest.drop_first());
        }
    } else {
        assert(split_pieces(cur, rest)[0] == cur);
    }
}

proof fn lemma_non_empty_keeps(pieces: Seq<Seq<char>>)
    ensures
        forall|i: int| 0 <= i < non_empty(pieces).len() ==> (#[trigger] non_empty(pieces)[i]).len() > 0,
        forall|i: int| 0 <= i < non_empty(pieces).len() ==> pieces.contains(#[trigger] non_empty(pieces)[i]),
    decreases pieces.len(),
{
    if pieces.len() > 0 {
        lemma_non_empty_keeps(pieces.drop_first());
        let t = non_empty(pieces.drop_first());
        assert forall|i: int| 0 <= i < t.len() implies pieces.contains(#[trigger] t[i]) by {
            let j = choose|j: int| 0 <= j < pieces.drop_first().len() && pieces.drop_first()[j] == t[i];
            assert(pieces[j + 1] == t[i]);
        }
        if pieces[0].len() > 0 {
            let s = seq![pieces[0]] + t;
            assert forall|i: int| 0 <= i < s.len() implies (#[trigger] s[i]).len() > 0 && pieces.contains(s[i]) by {
                if i == 0 {
                    assert(pieces[0] == s[0]);
                } else {
                    assert(s[i] == t[i - 1]);
                }
            }
        }
    }
}

/// The pieces of `x + y`: those of `x`, its last piece continuing into `y`.
proof fn lemma_split_pieces_concat(cur: Seq<char>, x: Seq<char>, y: Seq<char>)
    ensures
        split_pieces(cur, x + y) == split_pieces(cur, x).drop_last() + split_pieces(split_pieces(cur, x).last(), y),
    decreases x.len(),
{
    lemma_split_pieces_nonempty(cur, x);
    if x.len() == 0 {
        assert(x + y =~= y);
        assert(seq![cur].drop_last() + split_pieces(cur, y) =~= split_pieces(cur, y));
    } else {
        assert((x + y).drop_first() =~= x.drop_first() + y);
        assert((x + y)[0] == x[0]);
        if x[0] == '/' {
            lemma_split_pieces_concat(Seq::empty(), x.drop_first(), y);
            let t = split_pieces(Seq::<char>::empty(), x.drop_first());
            lemma_split_pieces_nonempty(Seq::empty(), x.drop_first());
            assert((seq![cur] + t).drop_last() =~= seq![cur] + t.drop_last());
            assert((seq![cur] + t).last() == t.last());
            assert(seq![cur] + (t.drop_last() + split_pieces(t.last(), y)) =~= (seq![cur] + t).drop_last()
                + split_pieces(t.last(), y));
        } else {
            lemma_split_pieces_concat(cur.push(x[0]), x.drop_first(), y);
        }
    }
}

/// A piece without '/' continues the piece under construction.
proof fn lemma_split_pieces_word(cur: Seq<char>, w: Seq<char>)
    requires
        !w.contains('/'),
    ensures
        split_pieces(cur, w) == seq![cur + w],
    decreases w.len(),
{
    if w.len() == 0 {
        assert(cur + w =~= cur);
    } else {
        assert(w[0] != '/') by {
            if w[0] == '/' {
                assert(w.contains(w[0]));
            }
        }
        assert(!w.drop_first().contains('/')) by {
            if w.drop_first().contains('/') {
                let j = choose|j: int| 0 <= j < w.drop_first().len() && w.drop_first()[j] == '/';
                assert(w[j + 1] == '/');
            }
        }
        lemma_split_pieces_word(cur.push(w[0]), w.drop_first());
        assert(cur.push(w[0]) + w.drop_first() =~= cur + w);
    }
}

proof fn lemma_split_join(segments: Seq<Seq<char>>)
    requires
        segments.len() >= 1,
        forall|i: int| 0 <= i < segments.len() ==> !(#[trigger] segments[i]).contains('/'),
    ensures
        split_pieces(Seq::empty(), join_with(segments, "/"@)) == segments,
    decreases segments.len(),
{
    if segments.len() == 1 {
        lemma_split_pieces_word(Seq::empty(), segments[0]);
        assert(Seq::<char>::empty() + segments[0] =~= segments[0]);
        assert(seq![segments[0]] =~= segments);
    } else {
        let init = segments.drop_last();
        assert forall|i: int| 0 <= i < init.len() implies !(#[trigger] init[i]).contains('/') by {
            assert(init[i] == segments[i]);
        }
        lemma_split_join(init);
        let a = join_with(init, "/"@);
        let l = segments.last();
        assert(!l.contains('/'));
        reveal_strlit("/");
        assert(join_with(segments, "/"@) == a + ("/"@ + l)) by {
            assert(a + "/"@ + l =~= a + ("/"@ + l));
        }
        lemma_split_pieces_concat(Seq::empty(), a, "/"@ + l);
        let p = split_pieces(Seq::<char>::empty(), a);
        assert(("/"@ + l)[0] == '/');
        assert(("/"@ + l).drop_first() =~= l);
        lemma_split_pieces_word(Seq::empty(), l);
        assert(Seq::<char>::empty() + l =~= l);
        assert(split_pieces(p.last(), "/"@ + l) =~= seq![p.last()] + seq![l]);
        assert(p.drop_last() + (seq![p.last()] + seq![l]) =~= segments);
    }
}

proof fn lemma_non_empty_identity(pieces: Seq<Seq<char>>)
    requires
        forall|i: int| 0 <= i < pieces.len() ==> (#[trigger] pieces[i]).len() > 0,
    ensures
        non_empty(pieces) == pieces,
    decreases pieces.len(),
{
    if pieces.len() > 0 {
        assert forall|i: int| 0 <= i < pieces.drop_first().len() implies (#[trigger] pieces.drop_first()[i]).len() > 0 by {
            assert(pieces.drop_first()[i] == pieces[i + 1]);
        }
        lemma_non_empty_identity(pieces.drop_first());
        assert(seq![pieces[0]] + pieces.drop_first() =~= pieces);
    }
}

/// The segments of a path's key are non-empty and hold no '/'.
pub proof fn law_key_segments_are_nonempty_and_slash_free(path: Seq<char>)
    ensures
        forall|i: int|
            0 <= i < path_key(path).len() ==> (#[trigger] path_key(path)[i]).len() > 0 && !path_key(path)[i].contains(
                '/',
            ),
{
    let pieces = split_pieces(Seq::empty(), path);
    lemma_split_pieces_no_slash(Seq::empty(), path);
    lemma_non_empty_keeps(pieces);
    assert forall|i: int| 0 <= i < path_key(path).len() implies (#[trigger] path_key(path)[i]).len() > 0
        && !path_key(path)[i].contains('/') by {
        let j = choose|j: int| 0 <= j < pieces.len() && pieces[j] == path_key(path)[i];
        assert(!pieces[j].contains('/'));
    }
}

/// Joining a path's key with '/' and splitting it again gives the key back.
pub proof fn law_key_of_joined_key(path: Seq<char>)
    ensures
        path_key(join_with(path_key(path), "/"@)) == path_key(path),
{
    let k = path_key(path);
    law_key_segments_are_nonempty_and_slash_free(path);
    if k.len() == 0 {
        assert(join_with(k, "/"@) == Seq::<char>::empty());
        assert(split_pieces(Seq::empty(), Seq::<char>::empty()) == seq![Seq::<char>::empty()]);
        reveal_with_fuel(non_empty, 2);
        assert(non_empty(seq![Seq::<char>::empty()]) =~= Seq::<Seq<char>>::empty());
    } else {
        assert forall|i: int| 0 <= i < k.len() implies !(#[trigger] k[i]).contains('/') by {}
        lemma_split_join(k);
        lemma_non_empty_identity(k);
    }
}

/// A leading '/' does not change a path's key.
pub proof fn law_key_ignores_leading_slash(path: Seq<char>)
    ensures
        path_key("/"@ + path) == path_key(path),
{
    reveal_strlit("/");
    let q = "/"@ + path;
    assert(q[0] == '/');
    assert(q.drop_first() =~= path);
    assert(split_pieces(Seq::empty(), q) == seq![Seq::<char>::empty()] + split_pieces(Seq::empty(), path));
    lemma_non_empty_append(seq![Seq::<char>::empty()], split_pieces(Seq::empty(), path));
    reveal_with_fuel(non_empty, 2);
    assert(non_empty(seq![Seq::<char>::empty()]) =~= Seq::<Seq<char>>::empty());
    assert(Seq::<Seq<char>>::empty() + non_empty(split_pieces(Seq::empty(), path)) =~= non_empty(
        split_pieces(Seq::empty(), path),
    ));
}

/// Abstract form of path-string pairs: each path by its key.
pub open spec fn keyed_paths<V>(src: Seq<(String, V)>) -> Seq<(Seq<Seq<char>>, V)> {
    src.map_values(|p: (String, V)| (path_key(p.0@), p.1))
}

/// When no two of the given paths have the same key, the matcher `from_path_strings` builds
/// (whose contents are `map_of_pairs(keyed_paths(src))`) finds every pair by its path's key
/// and holds exactly as many keys, hence values, as pairs were given.
pub proof fn law_distinct_path_strings_are_all_found<V>(src: Seq<(String, V)>)
    requires
        keys_distinct(keyed_paths(src)),
    ensures
        forall|i: int|
            0 <= i < src.len() ==> {
                &&& map_of_pairs(keyed_paths(src)).contains_key(path_key((#[trigger] src[i]).0@))
                &&& map_of_pairs(keyed_paths(src))[path_key(src[i].0@)] == src[i].1
            },
        map_of_pairs(keyed_paths(src)).dom().len() == src.len(),
{
    assert forall|i: int| 0 <= i < src.len() implies {
        &&& map_of_pairs(keyed_paths(src)).contains_key(path_key((#[trigger] src[i]).0@))
        &&& map_of_pairs(keyed_paths(src))[path_key(src[i].0@)] == src[i].1
    } by {
        lemma_map_of_pairs_value(keyed_paths(src), i);
    }
    lemma_map_of_pairs_len(keyed_paths(src));
}

} // verus!
