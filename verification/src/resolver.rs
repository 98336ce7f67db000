//! The cache resolver: a state machine that turns one parsed request
//! (target size + logical path) into final response bytes, implementing the
//! fetch-once / transform-once policy over the two cache tiers.
//!
//! The machine owns no I/O. Each [`Resolver::step`] consumes one [`Event`]
//! (the outcome of the previous action) and emits the next [`Action`]; the
//! surrounding process performs filesystem, network and transform work and
//! feeds the outcome back. The transition relation is stated once, as the
//! spec function [`spec_step`], and `step` is proved to follow it exactly.
//!
//! An exclusive create that fails because the target already exists is
//! treated as benign on both tiers: the sibling writer stored the same
//! content (the transform is deterministic and the origin is assumed
//! stable), so the machine proceeds instead of surfacing a spurious error.

use crate::paths::{derived_rel, is_safe_path, joined, origin_url_of};
use crate::paths::{derived_rel_of, join_under, origin_url, path_is_safe};
use crate::size::Size;
use crate::transform::TransformError;
use vstd::prelude::*;
use vstd::slice::slice_to_vec;

verus! {

/// Why a whole resolution failed.
#[derive(Clone, Copy, Debug, PartialEq, Eq, Structural)]
pub enum ResolveError {
    /// The logical path was rejected before any filesystem use.
    Input,
    /// The origin fetch failed at the transport level.
    OriginUnavailable,
    /// A disk store operation failed.
    Storage,
    /// The origin bytes are not a decodable image.
    Decode,
    /// Re-encoding the resized image failed.
    Encode,
}

/// Why a disk store operation failed, as reported by the environment.
#[derive(Clone, Copy, Debug, PartialEq, Eq, Structural)]
pub enum StoreError {
    /// An exclusive create found the target already present.
    AlreadyExists,
    /// Any other I/O failure.
    Io,
}

/// Why an origin fetch failed, as reported by the environment.
#[derive(Clone, Copy, Debug, PartialEq, Eq, Structural)]
pub enum FetchError {
    /// The transport failed (DNS, connection, timeout).
    Network,
}

/// What the resolver asks its environment to do next.
///
/// `S` is the string and `B` the byte-buffer representation: executable code
/// uses `Action<String, Vec<u8>>`, the model uses `Action<Seq<char>, Seq<u8>>`.
pub enum Action<S, B> {
    /// Ask the disk store whether a file exists.
    CheckExists { path: S },
    /// Read a whole file from the disk store.
    ReadFile { path: S },
    /// Fetch raw bytes from the origin.
    FetchUrl { url: S },
    /// Exclusively create a file with the given bytes, making parent
    /// directories first.
    WriteNew { path: S, bytes: B },
    /// Transform bytes to a PNG of exactly `width` x `height`
    /// (the library's own `transform_to_png` does this).
    Transform { src: B, width: u32, height: u32 },
    /// The resolution is over; this is its outcome.
    Finish { result: Result<B, ResolveError> },
}

/// The outcome of the previous [`Action`], fed back into the machine.
pub enum Event<B> {
    /// Outcome of `CheckExists`.
    Exists { found: bool },
    /// Outcome of `ReadFile`.
    ReadDone { read: Result<B, StoreError> },
    /// Outcome of `FetchUrl`.
    FetchDone { fetch: Result<B, FetchError> },
    /// Outcome of `WriteNew`.
    WriteDone { write: Result<(), StoreError> },
    /// Outcome of `Transform`.
    TransformDone { transform: Result<B, TransformError> },
}

/// Where a resolution stands.
pub enum Phase<B> {
    /// Asking whether the derivative exists; this precedes everything else.
    CheckingDerived,
    /// The derivative exists and is being read back.
    ReadingDerived,
    /// Asking whether the origin asset exists.
    CheckingOrigin,
    /// Fetching the origin asset from the remote host.
    Fetching,
    /// Writing the fetched origin bytes to the origin tier.
    WritingOrigin,
    /// Reading the origin asset back from the origin tier.
    ReadingOrigin,
    /// Resizing and re-encoding the origin bytes.
    Transforming,
    /// Writing the encoded derivative to the derivative tier.
    WritingDerived { png: B },
    /// Finished with response bytes.
    Done { bytes: B },
    /// Finished with an error.
    Failed { err: ResolveError },
}

/// The mathematical value of a [`Resolver`].
pub struct ResolverModel {
    pub root: Seq<char>,
    pub token: Seq<char>,
    pub width: u32,
    pub height: u32,
    pub path: Seq<char>,
    pub phase: Phase<Seq<u8>>,
}

/// The on-disk location of the origin asset.
pub open spec fn origin_loc(m: ResolverModel) -> Seq<char> {
    joined(m.root, m.path)
}

/// The on-disk location of the derivative for this request's literal token.
pub open spec fn derived_loc(m: ResolverModel) -> Seq<char> {
    joined(m.root, derived_rel(m.token, m.path))
}

impl Phase<Vec<u8>> {
    /// The phase with byte buffers abstracted to sequences.
    pub open spec fn model(self) -> Phase<Seq<u8>> {
        match self {
            Phase::CheckingDerived => Phase::CheckingDerived,
            Phase::ReadingDerived => Phase::ReadingDerived,
            Phase::CheckingOrigin => Phase::CheckingOrigin,
            Phase::Fetching => Phase::Fetching,
            Phase::WritingOrigin => Phase::WritingOrigin,
            Phase::ReadingOrigin => Phase::ReadingOrigin,
            Phase::Transforming => Phase::Transforming,
            Phase::WritingDerived { png } => Phase::WritingDerived { png: png@ },
            Phase::Done { bytes } => Phase::Done { bytes: bytes@ },
            Phase::Failed { err } => Phase::Failed { err },
        }
    }
}

impl View for Action<String, Vec<u8>> {
    type V = Action<Seq<char>, Seq<u8>>;

    open spec fn view(&self) -> Action<Seq<char>, Seq<u8>> {
        match self {
            Action::CheckExists { path } => Action::CheckExists { path: path@ },
            Action::ReadFile { path } => Action::ReadFile { path: path@ },
            Action::FetchUrl { url } => Action::FetchUrl { url: url@ },
            Action::WriteNew { path, bytes } => Action::WriteNew { path: path@, bytes: bytes@ },
            Action::Transform { src, width, height } => Action::Transform {
                src: src@,
                width: *width,
                height: *height,
            },
            Action::Finish { result } => Action::Finish {
                result: match result {
                    Ok(b) => Ok(b@),
                    Err(e) => Err(*e),
                },
            },
        }
    }
}

impl View for Event<Vec<u8>> {
    type V = Event<Seq<u8>>;

    open spec fn view(&self) -> Event<Seq<u8>> {
        match self {
            Event::Exists { found } => Event::Exists { found: *found },
            Event::ReadDone { read: r } => Event::ReadDone {
                read: match r {
                    Ok(b) => Ok(b@),
                    Err(e) => Err(*e),
                },
            },
            Event::FetchDone { fetch: r } => Event::FetchDone {
                fetch: match r {
                    Ok(b) => Ok(b@),
                    Err(e) => Err(*e),
                },
            },
            Event::WriteDone { write: r } => Event::WriteDone { write: *r },
            Event::TransformDone { transform: r } => Event::TransformDone {
                transform: match r {
                    Ok(b) => Ok(b@),
                    Err(e) => Err(*e),
                },
            },
        }
    }
}

/// Which event variant a phase is waiting for. Terminal phases expect none.
pub open spec fn expects(p: Phase<Seq<u8>>, e: Event<Seq<u8>>) -> bool {
    match (p, e) {
        (Phase::CheckingDerived, Event::Exists { .. }) => true,
        (Phase::ReadingDerived, Event::ReadDone { .. }) => true,
        (Phase::CheckingOrigin, Event::Exists { .. }) => true,
        (Phase::Fetching, Event::FetchDone { .. }) => true,
        (Phase::WritingOrigin, Event::WriteDone { .. }) => true,
        (Phase::ReadingOrigin, Event::ReadDone { .. }) => true,
        (Phase::Transforming, Event::TransformDone { .. }) => true,
        (Phase::WritingDerived { .. }, Event::WriteDone { .. }) => true,
        _ => false,
    }
}

/// The model with another phase.
pub open spec fn at_phase(m: ResolverModel, p: Phase<Seq<u8>>) -> ResolverModel {
    ResolverModel { phase: p, ..m }
}

/// A failing transition: the machine stops with `err`.
pub open spec fn fail_with(m: ResolverModel, err: ResolveError) -> (
    ResolverModel,
    Action<Seq<char>, Seq<u8>>,
) {
    (at_phase(m, Phase::Failed { err }), Action::Finish { result: Err(err) })
}

/// The error a failed transform surfaces as.
pub open spec fn transform_fail(te: TransformError) -> ResolveError {
    match te {
        TransformError::Decode => ResolveError::Decode,
        TransformError::Encode => ResolveError::Encode,
    }
}

/// The transition relation of the resolver, stated once.
///
/// The derivative check precedes everything; a derivative, once present, is
/// authoritative and the origin is never re-consulted. An `AlreadyExists`
/// outcome of an exclusive create is benign on both tiers (the sibling
/// writer stored the same content), so the machine proceeds.
pub open spec fn spec_step(m: ResolverModel, e: Event<Seq<u8>>) -> (
    ResolverModel,
    Action<Seq<char>, Seq<u8>>,
) {
    match (m.phase, e) {
        (Phase::CheckingDerived, Event::Exists { found }) => if found {
            (at_phase(m, Phase::ReadingDerived), Action::ReadFile { path: derived_loc(m) })
        } else {
            (at_phase(m, Phase::CheckingOrigin), Action::CheckExists { path: origin_loc(m) })
        },
        (Phase::ReadingDerived, Event::ReadDone { read: r }) => match r {
            Ok(b) => (at_phase(m, Phase::Done { bytes: b }), Action::Finish { result: Ok(b) }),
            Err(_) => fail_with(m, ResolveError::Storage),
        },
        (Phase::CheckingOrigin, Event::Exists { found }) => if found {
            (at_phase(m, Phase::ReadingOrigin), Action::ReadFile { path: origin_loc(m) })
        } else {
            (at_phase(m, Phase::Fetching), Action::FetchUrl { url: origin_url_of(m.path) })
        },
        (Phase::Fetching, Event::FetchDone { fetch: r }) => match r {
            Ok(b) => (
                at_phase(m, Phase::WritingOrigin),
                Action::WriteNew { path: origin_loc(m), bytes: b },
            ),
            Err(_) => fail_with(m, ResolveError::OriginUnavailable),
        },
        (Phase::WritingOrigin, Event::WriteDone { write: r }) => match r {
            Err(StoreError::Io) => fail_with(m, ResolveError::Storage),
            _ => (at_phase(m, Phase::ReadingOrigin), Action::ReadFile { path: origin_loc(m) }),
        },
        (Phase::ReadingOrigin, Event::ReadDone { read: r }) => match r {
            Ok(b) => (
                at_phase(m, Phase::Transforming),
                Action::Transform { src: b, width: m.width, height: m.height },
            ),
            Err(_) => fail_with(m, ResolveError::Storage),
        },
        (Phase::Transforming, Event::TransformDone { transform: r }) => match r {
            Ok(png) => (
                at_phase(m, Phase::WritingDerived { png }),
                Action::WriteNew { path: derived_loc(m), bytes: png },
            ),
            Err(te) => fail_with(m, transform_fail(te)),
        },
        (Phase::WritingDerived { png }, Event::WriteDone { write: r }) => match r {
            Err(StoreError::Io) => fail_with(m, ResolveError::Storage),
            _ => (at_phase(m, Phase::Done { bytes: png }), Action::Finish { result: Ok(png) }),
        },
        _ => fail_with(m, ResolveError::Input),
    }
}

/// A fresh model for one request, before any action was answered.
pub open spec fn fresh_model(root: Seq<char>, size: Size, path: Seq<char>) -> ResolverModel {
    ResolverModel {
        root,
        token: size.token@,
        width: size.width,
        height: size.height,
        path,
        phase: Phase::CheckingDerived,
    }
}

/// Copy a byte buffer.
fn copy_bytes(v: &Vec<u8>) -> (r: Vec<u8>)
    ensures
        r@ == v@,
{
    slice_to_vec(v.as_slice())
}

/// One in-flight resolution. Locations are computed once, at construction.
pub struct Resolver {
    pub root: String,
    pub size: Size,
    pub path: String,
    pub oloc: String,
    pub dloc: String,
    pub url: String,
    pub phase: Phase<Vec<u8>>,
}

impl Resolver {
    /// The mathematical value of this resolver.
    pub open spec fn model(self) -> ResolverModel {
        ResolverModel {
            root: self.root@,
            token: self.size.token@,
            width: self.size.width,
            height: self.size.height,
            path: self.path@,
            phase: self.phase.model(),
        }
    }

    /// Well-formedness: the size is parsed, the path is safe, and the cached
    /// location strings agree with the model.
    pub open spec fn inv(self) -> bool {
        &&& self.size.wf()
        &&& is_safe_path(self.path@)
        &&& self.oloc@ == origin_loc(self.model())
        &&& self.dloc@ == derived_loc(self.model())
        &&& self.url@ == origin_url_of(self.path@)
    }

    /// Start a resolution for a parsed size and a normalized logical path.
    ///
    /// Rejects any path that [`is_safe_path`] refuses, before any filesystem
    /// use. On success the machine waits for the answer to the returned
    /// `CheckExists` on the derivative location: that check precedes even the
    /// origin check.
    pub fn new(root: &str, size: Size, path: &str) -> (r: Result<
        (Resolver, Action<String, Vec<u8>>),
        ResolveError,
    >)
        requires
            size.wf(),
        ensures
            r is Ok <==> is_safe_path(path@),
            r matches Ok(p) ==> {
                &&& p.0.inv()
                &&& p.0.model() == fresh_model(root@, size, path@)
                &&& p.1@ == Action::<Seq<char>, Seq<u8>>::CheckExists {
                    path: derived_loc(fresh_model(root@, size, path@)),
                }
            },
            r matches Err(err) ==> err == ResolveError::Input,
    {
        if !path_is_safe(path) {
            return Err(ResolveError::Input);
        }
        let oloc = join_under(root, path);
        let drel = derived_rel_of(size.token.as_str(), path);
        let dloc = join_under(root, drel.as_str());
        let url = origin_url(path);
        let first = Action::CheckExists { path: dloc.clone() };
        let res = Resolver {
            root: String::from_str(root),
            size,
            path: String::from_str(path),
            oloc,
            dloc,
            url,
            phase: Phase::CheckingDerived,
        };
        Ok((res, first))
    }

    /// Whether the machine is waiting for this kind of event.
    pub fn wants(&self, e: &Event<Vec<u8>>) -> (r: bool)
        ensures
            r == expects(self.model().phase, e@),
    {
        match (&self.phase, e) {
            (Phase::CheckingDerived, Event::Exists { .. }) => true,
            (Phase::ReadingDerived, Event::ReadDone { .. }) => true,
            (Phase::CheckingOrigin, Event::Exists { .. }) => true,
            (Phase::Fetching, Event::FetchDone { .. }) => true,
            (Phase::WritingOrigin, Event::WriteDone { .. }) => true,
            (Phase::ReadingOrigin, Event::ReadDone { .. }) => true,
            (Phase::Transforming, Event::TransformDone { .. }) => true,
            (Phase::WritingDerived { .. }, Event::WriteDone { .. }) => true,
            _ => false,
        }
    }

    /// Consume the outcome of the previous action and emit the next one.
    ///
    /// Follows [`spec_step`] exactly.
    pub fn step(&mut self, e: Event<Vec<u8>>) -> (a: Action<String, Vec<u8>>)
        requires
            old(self).inv(),
            expects(old(self).model().phase, e@),
        ensures
            final(self).inv(),
            final(self).model() == spec_step(old(self).model(), e@).0,
            a@ == spec_step(old(self).model(), e@).1,
    {
        match (&self.phase, e) {
            (Phase::CheckingDerived, Event::Exists { found }) => {
                if found {
                    self.phase = Phase::ReadingDerived;
                    Action::ReadFile { path: self.dloc.clone() }
                } else {
                    self.phase = Phase::CheckingOrigin;
                    Action::CheckExists { path: self.oloc.clone() }
                }
            },
            (Phase::ReadingDerived, Event::ReadDone { read: r }) => match r {
                Ok(b) => {
                    let out = copy_bytes(&b);
                    self.phase = Phase::Done { bytes: b };
                    Action::Finish { result: Ok(out) }
                },
                Err(_) => {
                    self.phase = Phase::Failed { err: ResolveError::Storage };
                    Action::Finish { result: Err(ResolveError::Storage) }
                },
            },
            (Phase::CheckingOrigin, Event::Exists { found }) => {
                if found {
                    self.phase = Phase::ReadingOrigin;
                    Action::ReadFile { path: self.oloc.clone() }
                } else {
                    self.phase = Phase::Fetching;
                    Action::FetchUrl { url: self.url.clone() }
                }
            },
            (Phase::Fetching, Event::FetchDone { fetch: r }) => match r {
                Ok(b) => {
                    self.phase = Phase::WritingOrigin;
                    Action::WriteNew { path: self.oloc.clone(), bytes: b }
                },
                Err(_) => {
                    self.phase = Phase::Failed { err: ResolveError::OriginUnavailable };
                    Action::Finish { result: Err(ResolveError::OriginUnavailable) }
                },
            },
            (Phase::WritingOrigin, Event::WriteDone { write: r }) => match r {
                Err(StoreError::Io) => {
                    self.phase = Phase::Failed { err: ResolveError::Storage };
                    Action::Finish { result: Err(ResolveError::Storage) }
                },
                _ => {
                    self.phase = Phase::ReadingOrigin;
                    Action::ReadFile { path: self.oloc.clone() }
                },
            },
            (Phase::ReadingOrigin, Event::ReadDone { read: r }) => match r {
                Ok(b) => {
                    let w = self.size.width;
                    let h = self.size.height;
                    self.phase = Phase::Transforming;
                    Action::Transform { src: b, width: w, height: h }
                },
                Err(_) => {
                    self.phase = Phase::Failed { err: ResolveError::Storage };
                    Action::Finish { result: Err(ResolveError::Storage) }
                },
            },
            (Phase::Transforming, Event::TransformDone { transform: r }) => match r {
                Ok(png) => {
                    let out = copy_bytes(&png);
                    self.phase = Phase::WritingDerived { png };
                    Action::WriteNew { path: self.dloc.clone(), bytes: out }
                },
                Err(te) => {
                    let err = match te {
                        TransformError::Decode => ResolveError::Decode,
                        TransformError::Encode => ResolveError::Encode,
                    };
                    self.phase = Phase::Failed { err };
                    Action::Finish { result: Err(err) }
                },
            },
            (Phase::WritingDerived { png }, Event::WriteDone { write: r }) => match r {
                Err(StoreError::Io) => {
                    self.phase = Phase::Failed { err: ResolveError::Storage };
                    Action::Finish { result: Err(ResolveError::Storage) }
                },
                _ => {
                    let out = copy_bytes(png);
                    let out2 = copy_bytes(png);
                    self.phase = Phase::Done { bytes: out };
                    Action::Finish { result: Ok(out2) }
                },
            },
            _ => {
                proof {
                    assert(false);
                }
                vstd::pervasive::unreached()
            },
        }
    }
}

} // verus!
