//! Lookup of a backend descriptor by its identity.

use vstd::prelude::*;

use crate::config::ModelConfig;

verus! {

/// Holds the configured backends and answers lookups by identity.
pub struct ModelManager {
    models: Vec<ModelConfig>,
}

impl ModelManager {
    /// The managed descriptors, in configuration order.
    pub closed spec fn spec_models(&self) -> Seq<ModelConfig> {
        self.models@
    }

    pub fn new(models: Vec<ModelConfig>) -> (r: Self)
        ensures
            r.spec_models() == models@,
    {
        Self { models }
    }

    /// The first descriptor whose identity equals `id`, if any.
    pub fn get_model(&self, id: &str) -> (r: Option<&ModelConfig>)
        ensures
            match r {
                Some(m) => exists|i: int|
                    {
                        &&& 0 <= i < self.spec_models().len()
                        &&& #[trigger] self.spec_models()[i] == *m
                        &&& self.spec_models()[i].id@ == id@
                        &&& forall|j: int| 0 <= j < i ==> self.spec_models()[j].id@ != id@
                    },
                None => forall|i: int|
                    0 <= i < self.spec_models().len() ==> self.spec_models()[i].id@ != id@,
            },
    {
        let key: String = id.to_owned();
        let mut i: usize = 0;
        while i < self.models.len()
            invariant
                key@ == id@,
                i <= self.models.len(),
                forall|j: int| 0 <= j < i ==> self.spec_models()[j].id@ != id@,
            decreases self.models.len() - i,
        {
            if self.models[i].id == key {
                let m = &self.models[i];
                proof {
                    assert(self.spec_models()[i as int] == *m);
                    assert(self.spec_models()[i as int].id@ == id@);
                }
                return Some(m);
            }
            i = i + 1;
        }
        None
    }
}

} // verus!
