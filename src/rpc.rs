//! Handle through which remote callers reach a node's client, and the
//! error codes it answers with.
use std::marker::PhantomData;
use std::sync::Arc;
use vstd::prelude::*;

verus! {

/// A handle on a node's client, shared with the caller.
pub struct Iris<C, M> {
    client: Arc<C>,
    _marker: PhantomData<M>,
}

impl<C, M> Iris<C, M> {
    /// The client this handle reaches.
    pub closed spec fn client_spec(&self) -> Arc<C> {
        self.client
    }

    /// A handle on `client`.
    pub fn new(client: Arc<C>) -> (r: Self)
        ensures
            r.client_spec() == client,
    {
        Iris { client, _marker: PhantomData }
    }

    /// The client this handle reaches.
    pub fn client(&self) -> (r: &Arc<C>)
        ensures
            *r == self.client_spec(),
    {
        &self.client
    }
}

/// Failures reported to remote callers.
#[derive(PartialEq, Eq, Structural, Clone, Copy, Debug)]
pub enum Error {
    RuntimeError,
    DecodeError,
}

/// The numeric code of an error.
pub open spec fn error_code(e: Error) -> i64 {
    match e {
        Error::RuntimeError => 1,
        Error::DecodeError => 2,
    }
}

impl From<Error> for i64 {
    fn from(e: Error) -> (r: i64) {
        match e {
            Error::RuntimeError => 1,
            Error::DecodeError => 2,
        }
    }
}

impl vstd::std_specs::convert::FromSpecImpl<Error> for i64 {
    open spec fn obeys_from_spec() -> bool {
        true
    }

    open spec fn from_spec(e: Error) -> i64 {
        error_code(e)
    }
}

} // verus!
