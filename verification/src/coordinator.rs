//! Per-key coalescing of concurrent cold requests.
//!
//! Two requests racing on one cache key would both fetch, both transform and
//! both attempt the exclusive create. The registry below decides, per key,
//! which request leads: the first to begin becomes the leader and does the
//! work; every other request for the same key that begins before the leader
//! finishes is a follower and is handed the leader's result by the
//! surrounding process. The decision logic lives here; the process only
//! serializes calls to it.

use crate::memstore::str_eq;
use vstd::prelude::*;

verus! {

/// What `begin` decided: the set of in-flight keys afterwards, and whether
/// the caller leads.
pub open spec fn begin_model(s: Set<Seq<char>>, k: Seq<char>) -> (bool, Set<Seq<char>>) {
    if s.contains(k) {
        (false, s)
    } else {
        (true, s.insert(k))
    }
}

/// The set of keys a list of strings stands for.
pub open spec fn keys_of(es: Seq<String>) -> Set<Seq<char>> {
    Set::new(|k: Seq<char>| exists|i: int| 0 <= i < es.len() && es[i]@ == k)
}

/// The registry of cache keys with a resolution in flight.
pub struct Coordinator {
    pub in_flight: Vec<String>,
}

impl View for Coordinator {
    type V = Set<Seq<char>>;

    open spec fn view(&self) -> Set<Seq<char>> {
        keys_of(self.in_flight@)
    }
}

impl Coordinator {
    /// No key is listed twice.
    pub open spec fn inv(self) -> bool {
        forall|i: int, j: int|
            0 <= i < j < self.in_flight@.len() ==> self.in_flight@[i]@ != self.in_flight@[j]@
    }

    /// An empty registry.
    pub fn new() -> (r: Coordinator)
        ensures
            r@ == Set::<Seq<char>>::empty(),
            r.inv(),
    {
        let c = Coordinator { in_flight: Vec::new() };
        proof {
            assert(c@ =~= Set::<Seq<char>>::empty());
        }
        c
    }

    /// Whether a key has a resolution in flight.
    fn holds(&self, k: &str) -> (r: bool)
        ensures
            r == self@.contains(k@),
    {
        let n: usize = self.in_flight.len();
        let mut i: usize = 0;
        while i < n
            invariant
                0 <= i <= n,
                n == self.in_flight@.len(),
                forall|j: int| 0 <= j < i ==> self.in_flight@[j]@ != k@,
            decreases n - i,
        {
            if str_eq(self.in_flight[i].as_str(), k) {
                return true;
            }
            i = i + 1;
        }
        false
    }

    /// Begin a resolution for a key. The caller leads exactly when no
    /// resolution for that key is already in flight; a leader's key is
    /// registered until `finish`.
    pub fn begin(&mut self, k: &str) -> (leader: bool)
        requires
            old(self).inv(),
        ensures
            final(self).inv(),
            (leader, final(self)@) == begin_model(old(self)@, k@),
    {
        if self.holds(k) {
            return false;
        }
        let key = String::from_str(k);
        self.in_flight.push(key);
        proof {
            assert forall|i: int, j: int|
                0 <= i < j < self.in_flight@.len() implies self.in_flight@[i]@
                != self.in_flight@[j]@ by {
                if j + 1 == self.in_flight@.len() {
                    assert(!old(self)@.contains(k@));
                }
            }
            assert forall|x: Seq<char>| self@.contains(x) == old(self)@.insert(k@).contains(
                x,
            ) by {
                if self@.contains(x) {
                    let j = choose|j: int|
                        0 <= j < self.in_flight@.len() && self.in_flight@[j]@ == x;
                    if j + 1 < self.in_flight@.len() {
                        assert(old(self).in_flight@[j]@ == x);
                    } else {
                        assert(x == k@);
                    }
                }
                if old(self)@.insert(k@).contains(x) {
                    if x == k@ {
                        assert(self.in_flight@[self.in_flight@.len() - 1]@ == x);
                    } else {
                        let j = choose|j: int|
                            0 <= j < old(self).in_flight@.len() && old(self).in_flight@[j]@ == x;
                        assert(self.in_flight@[j]@ == x);
                    }
                }
            }
            assert(self@ =~= old(self)@.insert(k@));
        }
        true
    }

    /// End the resolution for a key, removing it from the registry.
    pub fn finish(&mut self, k: &str)
        requires
            old(self).inv(),
        ensures
            final(self).inv(),
            final(self)@ == old(self)@.remove(k@),
    {
        let n: usize = self.in_flight.len();
        let mut i: usize = 0;
        while i < n
            invariant
                0 <= i <= n,
                n == self.in_flight@.len(),
                old(self).inv(),
                self == old(self),
                forall|j: int| 0 <= j < i ==> self.in_flight@[j]@ != k@,
            decreases n - i,
        {
            if str_eq(self.in_flight[i].as_str(), k) {
                self.in_flight.remove(i);
                proof {
                    assert forall|a: int, b: int|
                        0 <= a < b < self.in_flight@.len() implies self.in_flight@[a]@
                        != self.in_flight@[b]@ by {
                        if a < i as int {
                            if b < i as int {
                                assert(old(self).in_flight@[a]@ != old(self).in_flight@[b]@);
                            } else {
                                assert(old(self).in_flight@[a]@ != old(self).in_flight@[b + 1]@);
                            }
                        } else {
                            assert(old(self).in_flight@[a + 1]@ != old(self).in_flight@[b + 1]@);
                        }
                    }
                    assert forall|x: Seq<char>| self@.contains(x) == old(self)@.remove(
                        k@,
                    ).contains(x) by {
                        if self@.contains(x) {
                            let j = choose|j: int|
                                0 <= j < self.in_flight@.len() && self.in_flight@[j]@ == x;
                            if j < i as int {
                                assert(old(self).in_flight@[j]@ == x);
                            } else {
                                assert(old(self).in_flight@[j + 1]@ == x);
                            }
                        }
                        if old(self)@.remove(k@).contains(x) {
                            let j = choose|j: int|
                                0 <= j < old(self).in_flight@.len() && old(self).in_flight@[j]@
                                    == x;
                            if j < i as int {
                                assert(self.in_flight@[j]@ == x);
                            } else if j > i as int {
                                assert(self.in_flight@[j - 1]@ == x);
                            }
                        }
                    }
                    assert(self@ =~= old(self)@.remove(k@));
                }
                return ;
            }
            i = i + 1;
        }
        proof {
            assert(!self@.contains(k@));
            assert(self@ =~= old(self)@.remove(k@));
        }
    }
}

/// Requests for one key coalesce: while a leader's resolution for `k` is in
/// flight, a second `begin` for `k` never leads, so at most one fetch and one
/// transform are started for that key.
pub proof fn lemma_single_flight(s: Set<Seq<char>>, k: Seq<char>)
    ensures
        ({
            let first = begin_model(s, k);
            let second = begin_model(first.1, k);
            first.0 ==> !second.0
        }),
{
}

} // verus!
