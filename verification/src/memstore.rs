//! An in-memory disk store: the same contract as the filesystem tier
//! (existence check, read-all, exclusive create), backed by a vector, so the
//! resolution pipeline can be driven against it in tests.
//!
//! Its view is a map from location to bytes; earlier entries win, and
//! exclusive create refuses a location that is already present, so the store
//! never holds two entries for one location.

use crate::resolver::StoreError;
use vstd::prelude::*;
use vstd::slice::slice_to_vec;

verus! {

/// Compare two strings character by character.
pub fn str_eq(a: &str, b: &str) -> (r: bool)
    ensures
        r == (a@ == b@),
{
    let na: usize = a.unicode_len();
    let nb: usize = b.unicode_len();
    if na != nb {
        return false;
    }
    let mut i: usize = 0;
    while i < na
        invariant
            0 <= i <= na,
            na == a@.len(),
            na == b@.len(),
            forall|j: int| 0 <= j < i ==> a@[j] == b@[j],
        decreases na - i,
    {
        if a.get_char(i) != b.get_char(i) {
            return false;
        }
        i = i + 1;
    }
    proof {
        assert(a@ =~= b@);
    }
    true
}

/// The map a list of entries stands for; an earlier entry shadows a later
/// one with the same location.
pub open spec fn entries_map(es: Seq<(String, Vec<u8>)>) -> Map<Seq<char>, Seq<u8>>
    decreases es.len(),
{
    if es.len() == 0 {
        Map::empty()
    } else {
        entries_map(es.skip(1)).insert(es[0].0@, es[0].1@)
    }
}

/// A location is in the map exactly when some entry holds it.
proof fn lemma_entries_map_domain(es: Seq<(String, Vec<u8>)>, k: Seq<char>)
    ensures
        entries_map(es).contains_key(k) <==> exists|i: int| 0 <= i < es.len() && es[i].0@ == k,
    decreases es.len(),
{
    if es.len() > 0 {
        lemma_entries_map_domain(es.skip(1), k);
        if entries_map(es).contains_key(k) {
            if es[0].0@ != k {
                let j = choose|j: int| 0 <= j < es.skip(1).len() && es.skip(1)[j].0@ == k;
                assert(es[j + 1].0@ == k);
            }
        }
        if exists|i: int| 0 <= i < es.len() && es[i].0@ == k {
            let i = choose|i: int| 0 <= i < es.len() && es[i].0@ == k;
            if i > 0 {
                assert(es.skip(1)[i - 1].0@ == k);
            }
        }
    }
}

/// The first entry for a location gives the map's value there.
proof fn lemma_entries_map_first(es: Seq<(String, Vec<u8>)>, k: Seq<char>, i: int)
    requires
        0 <= i < es.len(),
        es[i].0@ == k,
        forall|j: int| 0 <= j < i ==> es[j].0@ != k,
    ensures
        entries_map(es).contains_key(k),
        entries_map(es)[k] == es[i].1@,
    decreases i,
{
    if i > 0 {
        assert(es.skip(1)[i - 1].0@ == k);
        assert(forall|j: int| 0 <= j < i - 1 ==> es.skip(1)[j].0@ != k);
        lemma_entries_map_first(es.skip(1), k, i - 1);
    }
}

/// Appending an entry for an absent location inserts it into the map.
proof fn lemma_entries_map_push(es: Seq<(String, Vec<u8>)>, e: (String, Vec<u8>))
    requires
        !entries_map(es).contains_key(e.0@),
    ensures
        entries_map(es.push(e)) == entries_map(es).insert(e.0@, e.1@),
    decreases es.len(),
{
    if es.len() == 0 {
        assert(es.push(e).skip(1) =~= Seq::<(String, Vec<u8>)>::empty());
        assert(es.push(e)[0] == e);
        assert(entries_map(es.push(e).skip(1)) == Map::<Seq<char>, Seq<u8>>::empty());
        assert(entries_map(es) == Map::<Seq<char>, Seq<u8>>::empty());
        assert(entries_map(es.push(e)) =~= entries_map(es).insert(e.0@, e.1@));
    } else {
        assert(es.push(e).skip(1) =~= es.skip(1).push(e));
        assert(entries_map(es) == entries_map(es.skip(1)).insert(es[0].0@, es[0].1@));
        assert(!entries_map(es.skip(1)).contains_key(e.0@));
        lemma_entries_map_push(es.skip(1), e);
        assert(es.push(e)[0] == es[0]);
        assert(entries_map(es.push(e)) == entries_map(es.skip(1).push(e)).insert(
            es[0].0@,
            es[0].1@,
        ));
        assert(entries_map(es.push(e)) == entries_map(es.skip(1)).insert(e.0@, e.1@).insert(
            es[0].0@,
            es[0].1@,
        ));
        assert(es[0].0@ != e.0@);
        assert(entries_map(es.push(e)) =~= entries_map(es).insert(e.0@, e.1@));
    }
}

/// An in-memory store of whole files, keyed by location.
pub struct MemStore {
    pub entries: Vec<(String, Vec<u8>)>,
}

impl View for MemStore {
    type V = Map<Seq<char>, Seq<u8>>;

    open spec fn view(&self) -> Map<Seq<char>, Seq<u8>> {
        entries_map(self.entries@)
    }
}

impl MemStore {
    /// An empty store.
    pub fn new() -> (r: MemStore)
        ensures
            r@ == Map::<Seq<char>, Seq<u8>>::empty(),
    {
        MemStore { entries: Vec::new() }
    }

    /// Whether a location holds a file.
    pub fn exists_at(&self, p: &str) -> (r: bool)
        ensures
            r == self@.contains_key(p@),
    {
        let n: usize = self.entries.len();
        let mut i: usize = 0;
        while i < n
            invariant
                0 <= i <= n,
                n == self.entries@.len(),
                forall|j: int| 0 <= j < i ==> self.entries@[j].0@ != p@,
            decreases n - i,
        {
            if str_eq(self.entries[i].0.as_str(), p) {
                proof {
                    lemma_entries_map_domain(self.entries@, p@);
                }
                return true;
            }
            i = i + 1;
        }
        proof {
            lemma_entries_map_domain(self.entries@, p@);
        }
        false
    }

    /// Read the whole file at a location, if present.
    pub fn read_all(&self, p: &str) -> (r: Option<Vec<u8>>)
        ensures
            r is Some <==> self@.contains_key(p@),
            r matches Some(b) ==> b@ == self@[p@],
    {
        let n: usize = self.entries.len();
        let mut i: usize = 0;
        while i < n
            invariant
                0 <= i <= n,
                n == self.entries@.len(),
                forall|j: int| 0 <= j < i ==> self.entries@[j].0@ != p@,
            decreases n - i,
        {
            if str_eq(self.entries[i].0.as_str(), p) {
                proof {
                    lemma_entries_map_first(self.entries@, p@, i as int);
                }
                return Some(slice_to_vec(self.entries[i].1.as_slice()));
            }
            i = i + 1;
        }
        proof {
            lemma_entries_map_domain(self.entries@, p@);
        }
        None
    }

    /// Exclusively create a file: fails if the location already holds one,
    /// otherwise stores the bytes.
    pub fn write_new(&mut self, p: &str, bytes: Vec<u8>) -> (r: Result<(), StoreError>)
        ensures
            r is Ok <==> !old(self)@.contains_key(p@),
            r is Ok ==> final(self)@ == old(self)@.insert(p@, bytes@),
            r is Err ==> final(self)@ == old(self)@ && r == Err::<(), StoreError>(
                StoreError::AlreadyExists,
            ),
    {
        if self.exists_at(p) {
            return Err(StoreError::AlreadyExists);
        }
        let key = String::from_str(p);
        proof {
            lemma_entries_map_push(self.entries@, (key, bytes));
        }
        self.entries.push((key, bytes));
        Ok(())
    }
}

/// Reading back what an exclusive create just stored returns exactly the
/// written bytes: the store-then-read path introduces no corruption.
pub proof fn lemma_write_then_read(m: Map<Seq<char>, Seq<u8>>, p: Seq<char>, b: Seq<u8>)
    ensures
        m.insert(p, b).contains_key(p),
        m.insert(p, b)[p] == b,
{
}

} // verus!
