//! Cache laws: what whole resolutions do, proved over the transition
//! relation of the resolver.
//!
//! A [`WorldModel`] is a faithful environment: a disk store answering
//! existence checks, reads and exclusive creates; an origin answering
//! fetches (and counting them); and the deterministic transformer.
//! [`run_from`] drives [`spec_step`] against it until the machine finishes.
//! The lemmas then state the cache policy: a present derivative is served
//! as-is with no fetch, no transform and no write; a cold key costs exactly
//! one fetch and fills both tiers; a second size for a known path costs no
//! further fetch.

use crate::paths::origin_url_of;
use crate::resolver::{
    at_phase, derived_loc, origin_loc, spec_step, Action, Event, FetchError, Phase, ResolveError,
    ResolverModel, StoreError,
};
use crate::transform::{png_resized, TransformError};
use vstd::prelude::*;

verus! {

/// The resolver's environment: disk store contents, origin contents, and a
/// count of the fetches the origin has answered.
pub struct WorldModel {
    pub store: Map<Seq<char>, Seq<u8>>,
    pub origin: Map<Seq<char>, Seq<u8>>,
    pub fetches: nat,
}

/// How a faithful environment answers one action.
///
/// Reads return the stored bytes; an exclusive create fails exactly on a
/// present target and otherwise adds the entry; a fetch is counted and
/// returns the origin's bytes; a transform is answered by the deterministic
/// transformer. A `Finish` action asks nothing of the environment.
pub open spec fn world_answer(w: WorldModel, a: Action<Seq<char>, Seq<u8>>) -> (
    WorldModel,
    Event<Seq<u8>>,
) {
    match a {
        Action::CheckExists { path } => (w, Event::Exists { found: w.store.contains_key(path) }),
        Action::ReadFile { path } => (
            w,
            Event::<Seq<u8>>::ReadDone {
                read: if w.store.contains_key(path) {
                    Ok(w.store[path])
                } else {
                    Err(StoreError::Io)
                },
            },
        ),
        Action::FetchUrl { url } => (
            WorldModel { fetches: w.fetches + 1, ..w },
            Event::<Seq<u8>>::FetchDone {
                fetch: if w.origin.contains_key(url) {
                    Ok(w.origin[url])
                } else {
                    Err(FetchError::Network)
                },
            },
        ),
        Action::WriteNew { path, bytes } => if w.store.contains_key(path) {
            (w, Event::<Seq<u8>>::WriteDone { write: Err(StoreError::AlreadyExists) })
        } else {
            (
                WorldModel { store: w.store.insert(path, bytes), ..w },
                Event::<Seq<u8>>::WriteDone { write: Ok(()) },
            )
        },
        Action::Transform { src, width, height } => (
            w,
            Event::<Seq<u8>>::TransformDone {
                transform: match png_resized(src, width, height) {
                    Some(p) => Ok(p),
                    None => Err(TransformError::Decode),
                },
            },
        ),
        Action::Finish { .. } => (w, Event::Exists { found: false }),
    }
}

/// Drive the machine against the environment until it emits `Finish` (or
/// fuel runs out). Returns the final model, the last action, the final
/// world, and every action emitted, first to last.
pub open spec fn run_from(
    m: ResolverModel,
    a: Action<Seq<char>, Seq<u8>>,
    w: WorldModel,
    fuel: nat,
) -> (ResolverModel, Action<Seq<char>, Seq<u8>>, WorldModel, Seq<Action<Seq<char>, Seq<u8>>>)
    decreases fuel,
{
    if fuel == 0 || a is Finish {
        (m, a, w, seq![a])
    } else {
        let wa = world_answer(w, a);
        let s = spec_step(m, wa.1);
        let rest = run_from(s.0, s.1, wa.0, (fuel - 1) as nat);
        (rest.0, rest.1, rest.2, seq![a] + rest.3)
    }
}

/// The first action of a fresh resolution: the derivative existence check.
pub open spec fn first_action(m: ResolverModel) -> Action<Seq<char>, Seq<u8>> {
    Action::<Seq<char>, Seq<u8>>::CheckExists { path: derived_loc(m) }
}

/// The derivative location is never the origin location: its relative part
/// is longer by the token and its separator.
pub proof fn lemma_locs_distinct(m: ResolverModel)
    requires
        m.token.len() > 0,
    ensures
        derived_loc(m) != origin_loc(m),
{
    assert(derived_loc(m).len() == m.root.len() + 1 + m.token.len() + 1 + m.path.len());
    assert(origin_loc(m).len() == m.root.len() + 1 + m.path.len());
}

/// Distinct size tokens give distinct derivative locations for the same
/// root and path.
pub proof fn lemma_derived_locs_distinct(m1: ResolverModel, m2: ResolverModel)
    requires
        m1.root == m2.root,
        m1.path == m2.path,
        m1.token != m2.token,
    ensures
        derived_loc(m1) != derived_loc(m2),
{
    if derived_loc(m1) == derived_loc(m2) {
        assert(derived_loc(m1).len() == m1.root.len() + 1 + m1.token.len() + 1 + m1.path.len());
        assert(derived_loc(m2).len() == m2.root.len() + 1 + m2.token.len() + 1 + m2.path.len());
        assert(m1.token.len() == m2.token.len());
        assert forall|i: int| 0 <= i < m1.token.len() implies m1.token[i] == m2.token[i] by {
            assert(derived_loc(m1)[m1.root.len() + 1 + i] == m1.token[i]);
            assert(derived_loc(m2)[m2.root.len() + 1 + i] == m2.token[i]);
        }
        assert(m1.token =~= m2.token);
    }
}

/// A present derivative is authoritative: the resolution reads it and
/// returns its bytes; the origin is never consulted, nothing is fetched,
/// nothing is transformed, nothing is written.
pub proof fn lemma_derivative_hit(m: ResolverModel, w: WorldModel, fuel: nat)
    requires
        m.phase is CheckingDerived,
        w.store.contains_key(derived_loc(m)),
        fuel >= 2,
    ensures
        ({
            let b = w.store[derived_loc(m)];
            let r = run_from(m, first_action(m), w, fuel);
            &&& r.0 == at_phase(m, Phase::Done { bytes: b })
            &&& r.1 == (Action::<Seq<char>, Seq<u8>>::Finish { result: Ok::<Seq<u8>, ResolveError>(b) })
            &&& r.2 == w
            &&& r.3 =~= seq![
                first_action(m),
                Action::<Seq<char>, Seq<u8>>::ReadFile { path: derived_loc(m) },
                Action::<Seq<char>, Seq<u8>>::Finish { result: Ok(b) },
            ]
        }),
{
    let b = w.store[derived_loc(m)];
    let a0 = first_action(m);
    let wa0 = world_answer(w, a0);
    assert(wa0 == (w, Event::<Seq<u8>>::Exists { found: true }));
    let s1 = spec_step(m, wa0.1);
    let m1 = at_phase(m, Phase::ReadingDerived);
    assert(s1 == (m1, Action::<Seq<char>, Seq<u8>>::ReadFile { path: derived_loc(m) }));
    let wa1 = world_answer(w, s1.1);
    assert(wa1 == (w, Event::<Seq<u8>>::ReadDone { read: Ok::<Seq<u8>, StoreError>(b) }));
    let s2 = spec_step(m1, wa1.1);
    assert(s2 == (
        at_phase(m, Phase::Done { bytes: b }),
        Action::<Seq<char>, Seq<u8>>::Finish { result: Ok::<Seq<u8>, ResolveError>(b) },
    ));
    let r2 = run_from(s2.0, s2.1, w, ((fuel - 1) as nat - 1) as nat);
    assert(r2 == (s2.0, s2.1, w, seq![s2.1]));
    let r1 = run_from(s1.0, s1.1, w, (fuel - 1) as nat);
    assert(r1 == (r2.0, r2.1, r2.2, seq![s1.1] + r2.3));
    let r0 = run_from(m, a0, w, fuel);
    assert(r0 == (r1.0, r1.1, r1.2, seq![a0] + r1.3));
    assert(r0.3 =~= seq![a0, s1.1, s2.1]);
}

/// A cold key: nothing is cached, the origin holds the asset, and the
/// transform succeeds. The resolution fetches exactly once, writes the
/// origin asset and the derivative, and returns the derivative's bytes.
pub proof fn lemma_cold_resolution(m: ResolverModel, w: WorldModel, fuel: nat)
    requires
        m.phase is CheckingDerived,
        m.token.len() > 0,
        !w.store.contains_key(derived_loc(m)),
        !w.store.contains_key(origin_loc(m)),
        w.origin.contains_key(origin_url_of(m.path)),
        png_resized(w.origin[origin_url_of(m.path)], m.width, m.height) is Some,
        fuel >= 8,
    ensures
        ({
            let src = w.origin[origin_url_of(m.path)];
            let png = png_resized(src, m.width, m.height)->0;
            let r = run_from(m, first_action(m), w, fuel);
            &&& r.0 == at_phase(m, Phase::Done { bytes: png })
            &&& r.1 == (Action::<Seq<char>, Seq<u8>>::Finish { result: Ok::<Seq<u8>, ResolveError>(png) })
            &&& r.2.store == w.store.insert(origin_loc(m), src).insert(derived_loc(m), png)
            &&& r.2.origin == w.origin
            &&& r.2.fetches == w.fetches + 1
            &&& r.3 =~= seq![
                first_action(m),
                Action::<Seq<char>, Seq<u8>>::CheckExists { path: origin_loc(m) },
                Action::<Seq<char>, Seq<u8>>::FetchUrl { url: origin_url_of(m.path) },
                Action::<Seq<char>, Seq<u8>>::WriteNew { path: origin_loc(m), bytes: src },
                Action::<Seq<char>, Seq<u8>>::ReadFile { path: origin_loc(m) },
                Action::<Seq<char>, Seq<u8>>::Transform { src, width: m.width, height: m.height },
                Action::<Seq<char>, Seq<u8>>::WriteNew { path: derived_loc(m), bytes: png },
                Action::<Seq<char>, Seq<u8>>::Finish { result: Ok(png) },
            ]
        }),
{
    lemma_locs_distinct(m);
    let src = w.origin[origin_url_of(m.path)];
    let png = png_resized(src, m.width, m.height)->0;
    let a0 = first_action(m);
    let wa0 = world_answer(w, a0);
    assert(wa0 == (w, Event::<Seq<u8>>::Exists { found: false }));
    let s1 = spec_step(m, wa0.1);
    let m1 = at_phase(m, Phase::CheckingOrigin);
    assert(s1 == (m1, Action::<Seq<char>, Seq<u8>>::CheckExists { path: origin_loc(m) }));
    let wa1 = world_answer(w, s1.1);
    assert(wa1 == (w, Event::<Seq<u8>>::Exists { found: false }));
    let s2 = spec_step(m1, wa1.1);
    let m2 = at_phase(m, Phase::Fetching);
    assert(s2 == (m2, Action::<Seq<char>, Seq<u8>>::FetchUrl { url: origin_url_of(m.path) }));
    let wa2 = world_answer(w, s2.1);
    let w1 = WorldModel { fetches: w.fetches + 1, ..w };
    assert(wa2 == (w1, Event::<Seq<u8>>::FetchDone { fetch: Ok::<Seq<u8>, FetchError>(src) }));
    let s3 = spec_step(m2, wa2.1);
    let m3 = at_phase(m, Phase::WritingOrigin);
    assert(s3 == (m3, Action::<Seq<char>, Seq<u8>>::WriteNew { path: origin_loc(m), bytes: src }));
    let wa3 = world_answer(w1, s3.1);
    let w2 = WorldModel { store: w.store.insert(origin_loc(m), src), ..w1 };
    assert(wa3 == (w2, Event::<Seq<u8>>::WriteDone { write: Ok::<(), StoreError>(()) }));
    let s4 = spec_step(m3, wa3.1);
    let m4 = at_phase(m, Phase::ReadingOrigin);
    assert(s4 == (m4, Action::<Seq<char>, Seq<u8>>::ReadFile { path: origin_loc(m) }));
    let wa4 = world_answer(w2, s4.1);
    assert(w2.store[origin_loc(m)] == src);
    assert(wa4 == (w2, Event::<Seq<u8>>::ReadDone { read: Ok::<Seq<u8>, StoreError>(src) }));
    let s5 = spec_step(m4, wa4.1);
    let m5 = at_phase(m, Phase::Transforming);
    assert(s5 == (m5, Action::<Seq<char>, Seq<u8>>::Transform { src, width: m.width, height: m.height }));
    let wa5 = world_answer(w2, s5.1);
    assert(wa5 == (w2, Event::<Seq<u8>>::TransformDone { transform: Ok::<Seq<u8>, TransformError>(png) }));
    let s6 = spec_step(m5, wa5.1);
    let m6 = at_phase(m, Phase::WritingDerived { png });
    assert(s6 == (m6, Action::<Seq<char>, Seq<u8>>::WriteNew { path: derived_loc(m), bytes: png }));
    assert(!w2.store.contains_key(derived_loc(m)));
    let wa6 = world_answer(w2, s6.1);
    let w3 = WorldModel { store: w2.store.insert(derived_loc(m), png), ..w2 };
    assert(wa6 == (w3, Event::<Seq<u8>>::WriteDone { write: Ok::<(), StoreError>(()) }));
    let s7 = spec_step(m6, wa6.1);
    assert(s7 == (
        at_phase(m, Phase::Done { bytes: png }),
        Action::<Seq<char>, Seq<u8>>::Finish { result: Ok::<Seq<u8>, ResolveError>(png) },
    ));
    let r7 = run_from(s7.0, s7.1, w3, (fuel - 7) as nat);
    assert(r7 == (s7.0, s7.1, w3, seq![s7.1]));
    let r6 = run_from(s6.0, s6.1, w2, (fuel - 6) as nat);
    assert((fuel - 6) as nat != 0 && !(s6.1 is Finish));
    assert(((fuel - 6) as nat - 1) as nat == (fuel - 7) as nat);
    assert(r6 == (r7.0, r7.1, r7.2, seq![s6.1] + r7.3));
    let r5 = run_from(s5.0, s5.1, w2, (fuel - 5) as nat);
    assert(((fuel - 5) as nat - 1) as nat == (fuel - 6) as nat);
    assert(r5 == (r6.0, r6.1, r6.2, seq![s5.1] + r6.3));
    let r4 = run_from(s4.0, s4.1, w2, (fuel - 4) as nat);
    assert(((fuel - 4) as nat - 1) as nat == (fuel - 5) as nat);
    assert(r4 == (r5.0, r5.1, r5.2, seq![s4.1] + r5.3));
    let r3 = run_from(s3.0, s3.1, w1, (fuel - 3) as nat);
    assert(((fuel - 3) as nat - 1) as nat == (fuel - 4) as nat);
    assert(r3 == (r4.0, r4.1, r4.2, seq![s3.1] + r4.3));
    let r2 = run_from(s2.0, s2.1, w, (fuel - 2) as nat);
    assert(((fuel - 2) as nat - 1) as nat == (fuel - 3) as nat);
    assert(r2 == (r3.0, r3.1, r3.2, seq![s2.1] + r3.3));
    let r1 = run_from(s1.0, s1.1, w, (fuel - 1) as nat);
    assert(((fuel - 1) as nat - 1) as nat == (fuel - 2) as nat);
    assert(r1 == (r2.0, r2.1, r2.2, seq![s1.1] + r2.3));
    let r0 = run_from(m, a0, w, fuel);
    assert(r0 == (r1.0, r1.1, r1.2, seq![a0] + r1.3));
    assert(r0.3 =~= seq![a0, s1.1, s2.1, s3.1, s4.1, s5.1, s6.1, s7.1]);
    assert(w3.store == w.store.insert(origin_loc(m), src).insert(derived_loc(m), png));
}

/// The origin tier is warm but the derivative is missing: the resolution
/// reads the origin asset, transforms it and writes only the derivative;
/// nothing is fetched.
pub proof fn lemma_origin_hit(m: ResolverModel, w: WorldModel, fuel: nat)
    requires
        m.phase is CheckingDerived,
        !w.store.contains_key(derived_loc(m)),
        w.store.contains_key(origin_loc(m)),
        png_resized(w.store[origin_loc(m)], m.width, m.height) is Some,
        fuel >= 6,
    ensures
        ({
            let src = w.store[origin_loc(m)];
            let png = png_resized(src, m.width, m.height)->0;
            let r = run_from(m, first_action(m), w, fuel);
            &&& r.0 == at_phase(m, Phase::Done { bytes: png })
            &&& r.1 == (Action::<Seq<char>, Seq<u8>>::Finish { result: Ok::<Seq<u8>, ResolveError>(png) })
            &&& r.2.store == w.store.insert(derived_loc(m), png)
            &&& r.2.origin == w.origin
            &&& r.2.fetches == w.fetches
            &&& r.3 =~= seq![
                first_action(m),
                Action::<Seq<char>, Seq<u8>>::CheckExists { path: origin_loc(m) },
                Action::<Seq<char>, Seq<u8>>::ReadFile { path: origin_loc(m) },
                Action::<Seq<char>, Seq<u8>>::Transform { src, width: m.width, height: m.height },
                Action::<Seq<char>, Seq<u8>>::WriteNew { path: derived_loc(m), bytes: png },
                Action::<Seq<char>, Seq<u8>>::Finish { result: Ok(png) },
            ]
        }),
{
    let src = w.store[origin_loc(m)];
    let png = png_resized(src, m.width, m.height)->0;
    let a0 = first_action(m);
    let wa0 = world_answer(w, a0);
    assert(wa0 == (w, Event::<Seq<u8>>::Exists { found: false }));
    let s1 = spec_step(m, wa0.1);
    let m1 = at_phase(m, Phase::CheckingOrigin);
    assert(s1 == (m1, Action::<Seq<char>, Seq<u8>>::CheckExists { path: origin_loc(m) }));
    let wa1 = world_answer(w, s1.1);
    assert(wa1 == (w, Event::<Seq<u8>>::Exists { found: true }));
    let s2 = spec_step(m1, wa1.1);
    let m2 = at_phase(m, Phase::ReadingOrigin);
    assert(s2 == (m2, Action::<Seq<char>, Seq<u8>>::ReadFile { path: origin_loc(m) }));
    let wa2 = world_answer(w, s2.1);
    assert(wa2 == (w, Event::<Seq<u8>>::ReadDone { read: Ok::<Seq<u8>, StoreError>(src) }));
    let s3 = spec_step(m2, wa2.1);
    let m3 = at_phase(m, Phase::Transforming);
    assert(s3 == (m3, Action::<Seq<char>, Seq<u8>>::Transform { src, width: m.width, height: m.height }));
    let wa3 = world_answer(w, s3.1);
    assert(wa3 == (w, Event::<Seq<u8>>::TransformDone { transform: Ok::<Seq<u8>, TransformError>(png) }));
    let s4 = spec_step(m3, wa3.1);
    let m4 = at_phase(m, Phase::WritingDerived { png });
    assert(s4 == (m4, Action::<Seq<char>, Seq<u8>>::WriteNew { path: derived_loc(m), bytes: png }));
    let wa4 = world_answer(w, s4.1);
    let w1 = WorldModel { store: w.store.insert(derived_loc(m), png), ..w };
    assert(wa4 == (w1, Event::<Seq<u8>>::WriteDone { write: Ok::<(), StoreError>(()) }));
    let s5 = spec_step(m4, wa4.1);
    assert(s5 == (
        at_phase(m, Phase::Done { bytes: png }),
        Action::<Seq<char>, Seq<u8>>::Finish { result: Ok::<Seq<u8>, ResolveError>(png) },
    ));
    let r5 = run_from(s5.0, s5.1, w1, (fuel - 5) as nat);
    assert(r5 == (s5.0, s5.1, w1, seq![s5.1]));
    let r4 = run_from(s4.0, s4.1, w, (fuel - 4) as nat);
    assert(((fuel - 4) as nat - 1) as nat == (fuel - 5) as nat);
    assert(r4 == (r5.0, r5.1, r5.2, seq![s4.1] + r5.3));
    let r3 = run_from(s3.0, s3.1, w, (fuel - 3) as nat);
    assert(((fuel - 3) as nat - 1) as nat == (fuel - 4) as nat);
    assert(r3 == (r4.0, r4.1, r4.2, seq![s3.1] + r4.3));
    let r2 = run_from(s2.0, s2.1, w, (fuel - 2) as nat);
    assert(((fuel - 2) as nat - 1) as nat == (fuel - 3) as nat);
    assert(r2 == (r3.0, r3.1, r3.2, seq![s2.1] + r3.3));
    let r1 = run_from(s1.0, s1.1, w, (fuel - 1) as nat);
    assert(((fuel - 1) as nat - 1) as nat == (fuel - 2) as nat);
    assert(r1 == (r2.0, r2.1, r2.2, seq![s1.1] + r2.3));
    let r0 = run_from(m, a0, w, fuel);
    assert(r0 == (r1.0, r1.1, r1.2, seq![a0] + r1.3));
    assert(r0.3 =~= seq![a0, s1.1, s2.1, s3.1, s4.1, s5.1]);
}

/// Resolving the same cache key twice in sequence returns byte-identical
/// output both times, and the second resolution performs no fetch, no
/// transform and no write.
pub proof fn lemma_same_key_twice(m: ResolverModel, w: WorldModel, fuel: nat)
    requires
        m.phase is CheckingDerived,
        m.token.len() > 0,
        !w.store.contains_key(derived_loc(m)),
        !w.store.contains_key(origin_loc(m)),
        w.origin.contains_key(origin_url_of(m.path)),
        png_resized(w.origin[origin_url_of(m.path)], m.width, m.height) is Some,
        fuel >= 8,
    ensures
        ({
            let png = png_resized(w.origin[origin_url_of(m.path)], m.width, m.height)->0;
            let first = run_from(m, first_action(m), w, fuel);
            let second = run_from(m, first_action(m), first.2, fuel);
            &&& first.1 == (Action::<Seq<char>, Seq<u8>>::Finish { result: Ok::<Seq<u8>, ResolveError>(png) })
            &&& second.1 == (Action::<Seq<char>, Seq<u8>>::Finish { result: Ok::<Seq<u8>, ResolveError>(png) })
            &&& second.2 == first.2
            &&& forall|i: int|
                0 <= i < second.3.len() ==> !((#[trigger] second.3[i]) is FetchUrl) && !(
                second.3[i] is Transform) && !(second.3[i] is WriteNew)
        }),
{
    lemma_locs_distinct(m);
    lemma_cold_resolution(m, w, fuel);
    let png = png_resized(w.origin[origin_url_of(m.path)], m.width, m.height)->0;
    let first = run_from(m, first_action(m), w, fuel);
    assert(first.2.store.contains_key(derived_loc(m)));
    assert(first.2.store[derived_loc(m)] == png);
    lemma_derivative_hit(m, first.2, fuel);
    let second = run_from(m, first_action(m), first.2, fuel);
    assert(second.3 =~= seq![
        first_action(m),
        Action::<Seq<char>, Seq<u8>>::ReadFile { path: derived_loc(m) },
        Action::<Seq<char>, Seq<u8>>::Finish { result: Ok(png) },
    ]);
    assert forall|i: int|
        0 <= i < second.3.len() implies !((#[trigger] second.3[i]) is FetchUrl) && !(second.3[i]
        is Transform) && !(second.3[i] is WriteNew) by {
        if i == 0 {
        } else if i == 1 {
        } else {
            assert(i == 2);
        }
    }
}

/// For one logical path, requesting two distinct sizes in sequence costs
/// exactly one origin fetch: the second resolution reuses the origin tier
/// and fetches nothing.
pub proof fn lemma_two_sizes_one_fetch(
    ma: ResolverModel,
    mb: ResolverModel,
    w: WorldModel,
    fuel: nat,
)
    requires
        ma.phase is CheckingDerived,
        mb.phase is CheckingDerived,
        mb.root == ma.root,
        mb.path == ma.path,
        ma.token.len() > 0,
        mb.token.len() > 0,
        mb.token != ma.token,
        !w.store.contains_key(derived_loc(ma)),
        !w.store.contains_key(derived_loc(mb)),
        !w.store.contains_key(origin_loc(ma)),
        w.origin.contains_key(origin_url_of(ma.path)),
        png_resized(w.origin[origin_url_of(ma.path)], ma.width, ma.height) is Some,
        png_resized(w.origin[origin_url_of(ma.path)], mb.width, mb.height) is Some,
        fuel >= 8,
    ensures
        ({
            let src = w.origin[origin_url_of(ma.path)];
            let first = run_from(ma, first_action(ma), w, fuel);
            let second = run_from(mb, first_action(mb), first.2, fuel);
            &&& first.1 == (Action::<Seq<char>, Seq<u8>>::Finish {
                result: Ok::<Seq<u8>, ResolveError>(png_resized(src, ma.width, ma.height)->0),
            })
            &&& second.1 == (Action::<Seq<char>, Seq<u8>>::Finish {
                result: Ok::<Seq<u8>, ResolveError>(png_resized(src, mb.width, mb.height)->0),
            })
            &&& second.2.fetches == w.fetches + 1
            &&& forall|i: int| 0 <= i < second.3.len() ==> !((#[trigger] second.3[i]) is FetchUrl)
        }),
{
    lemma_locs_distinct(ma);
    lemma_locs_distinct(mb);
    lemma_derived_locs_distinct(ma, mb);
    lemma_cold_resolution(ma, w, fuel);
    let src = w.origin[origin_url_of(ma.path)];
    let first = run_from(ma, first_action(ma), w, fuel);
    assert(origin_loc(mb) == origin_loc(ma));
    assert(!first.2.store.contains_key(derived_loc(mb)));
    assert(first.2.store.contains_key(origin_loc(mb)));
    assert(first.2.store[origin_loc(mb)] == src);
    lemma_origin_hit(mb, first.2, fuel);
    let second = run_from(mb, first_action(mb), first.2, fuel);
    assert(second.3 =~= seq![
        first_action(mb),
        Action::<Seq<char>, Seq<u8>>::CheckExists { path: origin_loc(mb) },
        Action::<Seq<char>, Seq<u8>>::ReadFile { path: origin_loc(mb) },
        Action::<Seq<char>, Seq<u8>>::Transform {
            src,
            width: mb.width,
            height: mb.height,
        },
        Action::<Seq<char>, Seq<u8>>::WriteNew {
            path: derived_loc(mb),
            bytes: png_resized(src, mb.width, mb.height)->0,
        },
        Action::<Seq<char>, Seq<u8>>::Finish {
            result: Ok(png_resized(src, mb.width, mb.height)->0),
        },
    ]);
    assert forall|i: int| 0 <= i < second.3.len() implies !((#[trigger] second.3[i])
        is FetchUrl) by {
        if i == 0 {
        } else if i == 1 {
        } else if i == 2 {
        } else if i == 3 {
        } else if i == 4 {
        } else {
            assert(i == 5);
        }
    }
}

} // verus!
