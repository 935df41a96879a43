//! The handle through which a server reads the ledger.

use std::marker::PhantomData;
use std::sync::Arc;
use vstd::prelude::*;

verus! {

/// The implementation of the lending pool's read interface: a shared
/// reference to the client that gives access to the ledger, marked with the
/// type `P` of the blocks that the client reads.
pub struct LendingPoolApiImpl<C, P> {
    client: Arc<C>,
    _marker: PhantomData<P>,
}

impl<C, P> LendingPoolApiImpl<C, P> {
    /// The client that the handle was made with.
    pub closed spec fn spec_client(&self) -> Arc<C> {
        self.client
    }

    /// Creates a new handle on `client`.
    pub fn new(client: Arc<C>) -> (r: Self)
        ensures
            r.spec_client() == client,
    {
        Self { client, _marker: PhantomData }
    }

    /// The client that the handle was made with.
    pub fn client(&self) -> (r: &Arc<C>)
        ensures
            *r == self.spec_client(),
    {
        &self.client
    }
}

} // verus!
