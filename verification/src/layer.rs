//! One-shot stack composition and per-request modifiers: the layer that
//! consumes its service constructor exactly once, the modifier wrapper,
//! and the built-in origin and user-agent modifiers.

use vstd::prelude::*;

use crate::client::{GrpcRequest, Origin};
use crate::headers::{ascii_bytes, ascii_literal_bytes, clone_bytes, lookup};

verus! {

/// The diagnostic for a layer whose constructor was already consumed.
#[derive(Clone, Copy, Debug, PartialEq, Eq, Structural)]
pub struct LayerReused;

/// A layer built from a one-shot service constructor. The constructor
/// moves its captures into the service it builds, so it can run only
/// once; a second use is a detected usage error, not undefined behavior.
#[derive(Debug)]
pub struct LayerFnOnce<F> {
    pub f: Option<F>,
}

impl<F> LayerFnOnce<F> {
    pub fn new(f: F) -> (r: Self)
        ensures
            r.f == Some(f),
    {
        LayerFnOnce { f: Some(f) }
    }

    /// Wrap `inner` by running the constructor. The first call returns the
    /// built service; every later call reports the reuse.
    pub fn layer<S, Out>(&mut self, inner: S) -> (r: Result<Out, LayerReused>) where
        F: FnOnce(S) -> Out,

        requires
            old(self).f matches Some(g) ==> call_requires(g, (inner,)),
        ensures
            final(self).f is None,
            match old(self).f {
                Some(g) => r matches Ok(out) && call_ensures(g, (inner,), out),
                None => r is Err,
            },
    {
        match self.f.take() {
            Some(g) => Ok(g(inner)),
            None => Err(LayerReused),
        }
    }
}

/// A service wrapped with a per-request modifier, applied once per call
/// before the inner service sees the request.
#[derive(Debug)]
pub struct ModifierFn<T, M> {
    pub inner: T,
    pub modifier_fn: M,
}

impl<T, M> ModifierFn<T, M> {
    pub fn new(inner: T, modifier_fn: M) -> (r: Self)
        ensures
            r.inner == inner,
            r.modifier_fn == modifier_fn,
    {
        ModifierFn { inner, modifier_fn }
    }

    /// A one-shot layer that will wrap a service with this modifier.
    pub fn new_layer_once(modifier_fn: M) -> (r: LayerFnOnce<impl FnOnce(T) -> ModifierFn<T, M>>)
        ensures
            r.f matches Some(g) && (forall|inner: T| call_requires(g, (inner,))) && (forall|
                inner: T,
                out: ModifierFn<T, M>,
            |
                call_ensures(g, (inner,), out) ==> out.inner == inner && out.modifier_fn
                    == modifier_fn),
    {
        LayerFnOnce::new(
            (|inner: T| -> (out: ModifierFn<T, M>)
                ensures
                    out.inner == inner,
                    out.modifier_fn == modifier_fn,
                {
                    ModifierFn { inner, modifier_fn }
                }),
        )
    }
}

/// The default per-request modifier: the request goes through unchanged.
pub fn default_modifier(req: GrpcRequest) -> (r: GrpcRequest)
    ensures
        r == req,
{
    req
}

/// The diagnostic for a rewrite origin without a scheme or an authority.
#[derive(Clone, Copy, Debug, PartialEq, Eq, Structural)]
pub struct InvalidOrigin;

/// Rewrites the target of every request to the configured origin.
#[derive(Debug)]
pub struct AddOrigin {
    pub scheme: Vec<u8>,
    pub authority: Vec<u8>,
}

impl AddOrigin {
    /// A rewrite needs both a scheme and an authority; an origin missing
    /// either is refused, and no stack is built over it.
    pub fn new(origin: &Origin) -> (r: Result<Self, InvalidOrigin>)
        ensures
            match r {
                Ok(a) => origin@.scheme.len() > 0 && origin@.authority.len() > 0 && a.scheme@
                    == origin@.scheme && a.authority@ == origin@.authority,
                Err(_) => origin@.scheme.len() == 0 || origin@.authority.len() == 0,
            },
    {
        if origin.scheme.len() == 0 || origin.authority.len() == 0 {
            return Err(InvalidOrigin);
        }
        Ok(
            AddOrigin {
                scheme: clone_bytes(&origin.scheme),
                authority: clone_bytes(&origin.authority),
            },
        )
    }

    /// Replace the request's scheme and authority; path and headers stay.
    pub fn apply(&self, req: GrpcRequest) -> (r: GrpcRequest)
        ensures
            r.scheme@ == self.scheme@,
            r.authority@ == self.authority@,
            r.path@ == req.path@,
            r.headers@ == req.headers@,
    {
        GrpcRequest {
            scheme: clone_bytes(&self.scheme),
            authority: clone_bytes(&self.authority),
            path: req.path,
            headers: req.headers,
        }
    }
}

impl Clone for AddOrigin {
    fn clone(&self) -> (r: Self)
        ensures
            r.scheme@ == self.scheme@,
            r.authority@ == self.authority@,
    {
        AddOrigin { scheme: clone_bytes(&self.scheme), authority: clone_bytes(&self.authority) }
    }
}

pub open spec fn user_agent_name() -> Seq<u8> {
    ascii_bytes("user-agent"@)
}

/// Sets the `user-agent` header, keeping one the caller already set.
#[derive(Debug)]
pub struct UserAgent {
    pub value: Vec<u8>,
}

impl Clone for UserAgent {
    fn clone(&self) -> (r: Self)
        ensures
            r.value@ == self.value@,
    {
        UserAgent { value: clone_bytes(&self.value) }
    }
}

impl UserAgent {
    pub fn new(value: Vec<u8>) -> (r: Self)
        ensures
            r.value@ == value@,
    {
        UserAgent { value }
    }

    /// Set `user-agent` if the caller did not; never overwrite one. A
    /// second application changes nothing.
    pub fn apply(&self, req: GrpcRequest) -> (r: GrpcRequest)
        ensures
            r.scheme@ == req.scheme@,
            r.authority@ == req.authority@,
            r.path@ == req.path@,
            (match lookup(req.headers@, user_agent_name()) {
                Some(v) => r.headers@ == req.headers@,
                None => lookup(r.headers@, user_agent_name()) == Some(self.value@) && (forall|
                    m: Seq<u8>,
                |
                    m != user_agent_name() ==> lookup(r.headers@, m) == lookup(req.headers@, m)),
            }),
    {
        proof {
            reveal_strlit("user-agent");
        }
        let name = ascii_literal_bytes("user-agent");
        let mut req = req;
        if !req.headers.contains(name.as_slice()) {
            req.headers.insert(name, clone_bytes(&self.value));
        }
        req
    }
}

} // verus!
