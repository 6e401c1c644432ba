//! The client of a worker.
use vstd::prelude::*;

verus! {

/// The client of a worker, which is reached at an endpoint.
#[derive(Debug)]
pub struct GrpcWorkerClient {
    endpoint: String,
}

impl GrpcWorkerClient {
    /// Where the worker is reached.
    pub closed spec fn address(self) -> Seq<char> {
        self.endpoint@
    }

    /// The client of the worker at an endpoint.
    pub fn new(endpoint: String) -> (r: Self)
        ensures
            r.address() == endpoint@,
    {
        GrpcWorkerClient { endpoint }
    }

    /// Where the worker is reached.
    pub fn endpoint(&self) -> (r: &str)
        ensures
            r@ == self.address(),
    {
        self.endpoint.as_str()
    }
}

} // verus!
