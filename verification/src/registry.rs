//! Registry of the configured backend descriptors.

use vstd::prelude::*;

use crate::config::ModelConfig;

verus! {

/// Holds the fixed, ordered set of configured backends for listing.
pub struct ModelRegistry {
    models: Vec<ModelConfig>,
}

impl ModelRegistry {
    /// The registered descriptors, in configuration order.
    pub closed spec fn spec_models(&self) -> Seq<ModelConfig> {
        self.models@
    }

    pub fn new(models: Vec<ModelConfig>) -> (r: Self)
        ensures
            r.spec_models() == models@,
    {
        Self { models }
    }

    /// Every registered descriptor, in configuration order.
    pub fn list_models(&self) -> (r: &Vec<ModelConfig>)
        ensures
            r@ == self.spec_models(),
    {
        &self.models
    }
}

} // verus!
