//! Static description of one inference backend.

use vstd::prelude::*;

verus! {

/// Configuration of a single backend: its identity, its network address, the
/// admission limit on concurrently dispatched requests, and its traffic-split
/// weight, given in relative integer parts (a pair of backends weighted 7 and
/// 3 receives a 70%/30% split).
///
/// The descriptor is immutable after construction; the set of descriptors is
/// fixed for the orchestrator's lifetime.
pub struct ModelConfig {
    pub id: String,
    pub endpoint: String,
    pub max_requests_per_second: u32,
    pub weight: u64,
}

impl ModelConfig {
    pub fn new(id: &str, endpoint: &str, max_requests_per_second: u32, weight: u64) -> (r: Self)
        ensures
            r.id@ == id@,
            r.endpoint@ == endpoint@,
            r.max_requests_per_second == max_requests_per_second,
            r.weight == weight,
    {
        Self { id: id.to_owned(), endpoint: endpoint.to_owned(), max_requests_per_second, weight }
    }
}

impl Clone for ModelConfig {
    fn clone(&self) -> (r: Self)
        ensures
            r == *self,
    {
        Self {
            id: self.id.clone(),
            endpoint: self.endpoint.clone(),
            max_requests_per_second: self.max_requests_per_second,
            weight: self.weight,
        }
    }
}

} // verus!
