//! Weighted, load-aware backend selection with admission control.
//!
//! Selection walks the backends in their fixed configuration order,
//! subtracting each backend's weight from a uniform draw; the first backend
//! at which the remainder drops below its weight is the weighted candidate.
//! A saturated candidate (in-flight count at its limit) is passed over in
//! favour of the least-loaded backend still under its limit; when every
//! backend is at its limit, selection reports no capacity.

use vstd::prelude::*;

use crate::config::ModelConfig;

verus! {

/// Sum of the weights of the first `n` backends.
pub open spec fn prefix_weight(models: Seq<ModelConfig>, n: int) -> int
    decreases n,
{
    if n <= 0 {
        0
    } else {
        prefix_weight(models, n - 1) + models[n - 1].weight
    }
}

/// Sum of all backend weights.
pub open spec fn total_weight(models: Seq<ModelConfig>) -> int {
    prefix_weight(models, models.len() as int)
}

/// The weighted walk, started at backend `i` with `draw` still to spend:
/// the first index at or after `i` whose weight exceeds the remainder.
pub open spec fn weighted_pick_from(models: Seq<ModelConfig>, draw: int, i: int) -> int
    decreases models.len() - i,
{
    if i < 0 || i >= models.len() {
        i
    } else if draw < models[i].weight {
        i
    } else {
        weighted_pick_from(models, draw - models[i].weight, i + 1)
    }
}

/// The weighted candidate for a draw: the first backend whose cumulative
/// weight exceeds the draw.
pub open spec fn weighted_pick(models: Seq<ModelConfig>, draw: int) -> int {
    weighted_pick_from(models, draw, 0)
}

/// Weights are non-negative, so cumulative weight grows with the index.
proof fn lemma_prefix_weight_monotone(models: Seq<ModelConfig>, i: int, j: int)
    requires
        i <= j,
    ensures
        prefix_weight(models, i) <= prefix_weight(models, j),
    decreases j - i,
{
    if i < j {
        lemma_prefix_weight_monotone(models, i, j - 1);
    }
}

/// The weighted walk lands on the backend whose cumulative-weight interval
/// contains the draw.
proof fn lemma_weighted_pick_from(models: Seq<ModelConfig>, draw: int, i: int)
    requires
        0 <= i <= models.len(),
        0 <= draw,
        draw + prefix_weight(models, i) < total_weight(models),
    ensures
        i <= weighted_pick_from(models, draw, i) < models.len(),
        prefix_weight(models, weighted_pick_from(models, draw, i)) <= draw + prefix_weight(
            models,
            i,
        ) < prefix_weight(models, weighted_pick_from(models, draw, i) + 1),
    decreases models.len() - i,
{
    if i == models.len() {
        lemma_prefix_weight_monotone(models, i, models.len() as int);
        assert(false);
    } else if draw < models[i].weight {
    } else {
        lemma_weighted_pick_from(models, draw - models[i].weight, i + 1);
    }
}

/// Weighted fairness: a draw selects backend `i` exactly when it falls in
/// that backend's cumulative-weight interval, an interval of one draw per
/// weight unit. Over a uniform draw from `[0, total)`, each backend is
/// therefore the weighted candidate with probability `weight / total`.
pub proof fn lemma_weighted_share(models: Seq<ModelConfig>, draw: int, i: int)
    requires
        0 <= draw < total_weight(models),
        0 <= i < models.len(),
    ensures
        weighted_pick(models, draw) == i <==> (prefix_weight(models, i) <= draw < prefix_weight(
            models,
            i + 1,
        )),
{
    lemma_weighted_pick_from(models, draw, 0);
    let p = weighted_pick(models, draw);
    if p != i {
        if p < i {
            lemma_prefix_weight_monotone(models, p + 1, i);
        } else {
            lemma_prefix_weight_monotone(models, i + 1, p);
        }
    }
}

/// Distributes requests across the configured backends, keeping one live
/// in-flight count per backend as the admission-control signal.
pub struct LoadBalancer {
    models: Vec<ModelConfig>,
    request_counts: Vec<u32>,
}

impl LoadBalancer {
    /// The fixed, ordered backend descriptors.
    pub closed spec fn spec_models(&self) -> Seq<ModelConfig> {
        self.models@
    }

    /// The live in-flight count of each backend, in backend order.
    pub closed spec fn spec_counts(&self) -> Seq<u32> {
        self.request_counts@
    }

    /// Backend `i` may admit another request: its in-flight count is below
    /// its configured limit.
    pub open spec fn spec_eligible(&self, i: int) -> bool {
        self.spec_counts()[i] < self.spec_models()[i].max_requests_per_second
    }

    /// Well-formedness: one count per backend, no count ever above its limit,
    /// distinct backend identities, and a total weight a draw can range over.
    pub open spec fn wf(&self) -> bool {
        &&& self.spec_counts().len() == self.spec_models().len()
        &&& forall|i: int|
            0 <= i < self.spec_models().len() ==> self.spec_counts()[i]
                <= self.spec_models()[i].max_requests_per_second
        &&& forall|i: int, j: int|
            0 <= i < j < self.spec_models().len() ==> self.spec_models()[i].id@
                != self.spec_models()[j].id@
        &&& total_weight(self.spec_models()) <= u64::MAX
    }

    /// Backend `i` is the least-loaded eligible backend, earliest in the
    /// fixed order among equals.
    pub open spec fn spec_least_loaded(&self, i: int) -> bool {
        &&& 0 <= i < self.spec_models().len()
        &&& self.spec_eligible(i)
        &&& forall|k: int|
            0 <= k < self.spec_models().len() && self.spec_eligible(k) ==> self.spec_counts()[i]
                <= self.spec_counts()[k]
        &&& forall|k: int|
            0 <= k < i ==> !self.spec_eligible(k) || self.spec_counts()[k]
                > self.spec_counts()[i]
    }

    /// Builds a balancer over the given descriptors with every in-flight
    /// count at zero. Identities must be distinct and the summed weight must
    /// fit the width of a draw.
    pub fn new(models: Vec<ModelConfig>) -> (r: Self)
        requires
            forall|i: int, j: int|
                0 <= i < j < models@.len() ==> models@[i].id@ != models@[j].id@,
            total_weight(models@) <= u64::MAX,
        ensures
            r.wf(),
            r.spec_models() == models@,
            r.spec_counts().len() == models@.len(),
            forall|i: int| 0 <= i < models@.len() ==> r.spec_counts()[i] == 0,
    {
        let mut request_counts: Vec<u32> = Vec::new();
        let mut i: usize = 0;
        while i < models.len()
            invariant
                i <= models.len(),
                request_counts@.len() == i,
                forall|j: int| 0 <= j < i ==> request_counts@[j] == 0,
            decreases models.len() - i,
        {
            request_counts.push(0);
            i = i + 1;
        }
        Self { models, request_counts }
    }

    /// Prefix sums stay within the total, so the running sum never overflows.
    proof fn lemma_prefix_within_total(&self, n: int)
        requires
            0 <= n <= self.spec_models().len(),
            total_weight(self.spec_models()) <= u64::MAX,
        ensures
            0 <= prefix_weight(self.spec_models(), n) <= total_weight(self.spec_models()),
    {
        lemma_prefix_weight_monotone(self.spec_models(), 0, n);
        lemma_prefix_weight_monotone(self.spec_models(), n, self.spec_models().len() as int);
    }

    /// Sums the configured weights.
    fn total_weight_exec(&self) -> (r: u64)
        requires
            self.wf(),
        ensures
            r == total_weight(self.spec_models()),
    {
        let mut sum: u64 = 0;
        let mut i: usize = 0;
        while i < self.models.len()
            invariant
                self.wf(),
                i <= self.models.len(),
                sum == prefix_weight(self.spec_models(), i as int),
            decreases self.models.len() - i,
        {
            proof {
                self.lemma_prefix_within_total(i as int + 1);
            }
            sum = sum + self.models[i].weight;
            i = i + 1;
        }
        sum
    }

    /// Deterministic selection for a given draw. The weighted candidate is
    /// taken while it is under its limit; a saturated candidate, or a zero
    /// total weight, falls back to the least-loaded eligible backend; with
    /// every backend at its limit there is no selection.
    pub fn select_with_draw(&self, draw: u64) -> (r: Option<usize>)
        requires
            self.wf(),
            total_weight(self.spec_models()) > 0 ==> draw < total_weight(self.spec_models()),
        ensures
            r is Some <==> exists|k: int|
                0 <= k < self.spec_models().len() && self.spec_eligible(k),
            match r {
                Some(i) => {
                    &&& i < self.spec_models().len()
                    &&& self.spec_eligible(i as int)
                    &&& if total_weight(self.spec_models()) > 0 && self.spec_eligible(
                        weighted_pick(self.spec_models(), draw as int),
                    ) {
                        i == weighted_pick(self.spec_models(), draw as int)
                    } else {
                        self.spec_least_loaded(i as int)
                    }
                },
                None => forall|k: int|
                    0 <= k < self.spec_models().len() ==> !self.spec_eligible(k),
            },
    {
        let ghost models = self.spec_models();
        let total = self.total_weight_exec();
        if total > 0 {
            let candidate = self.weighted_candidate(draw);
            if self.request_counts[candidate] < self.models[candidate].max_requests_per_second {
                proof {
                    assert((candidate as int) < models.len());
                    assert(self.spec_eligible(candidate as int));
                }
                return Some(candidate);
            }
        }
        self.least_loaded()
    }

    /// Walks the backends in order, spending the draw against each weight in
    /// turn, and lands on the weighted candidate.
    fn weighted_candidate(&self, draw: u64) -> (r: usize)
        requires
            self.wf(),
            0 < total_weight(self.spec_models()),
            draw < total_weight(self.spec_models()),
        ensures
            r < self.spec_models().len(),
            r as int == weighted_pick(self.spec_models(), draw as int),
    {
        let ghost models = self.spec_models();
        proof {
            lemma_weighted_pick_from(models, draw as int, 0);
        }
        let mut rem: u64 = draw;
        let mut i: usize = 0;
        while i < self.models.len() && self.models[i].weight <= rem
            invariant
                self.wf(),
                models == self.spec_models(),
                i <= self.models.len(),
                rem == draw - prefix_weight(models, i as int),
                weighted_pick(models, draw as int) == weighted_pick_from(
                    models,
                    rem as int,
                    i as int,
                ),
                0 <= weighted_pick(models, draw as int) < models.len(),
            decreases self.models.len() - i,
        {
            rem = rem - self.models[i].weight;
            i = i + 1;
        }
        proof {
            assert(i < self.models.len());
        }
        i
    }

    /// The least-loaded eligible backend, earliest in the fixed order among
    /// equals; nothing when every backend is at its limit.
    fn least_loaded(&self) -> (r: Option<usize>)
        requires
            self.wf(),
        ensures
            r is Some <==> exists|k: int|
                0 <= k < self.spec_models().len() && self.spec_eligible(k),
            match r {
                Some(i) => self.spec_least_loaded(i as int),
                None => forall|k: int|
                    0 <= k < self.spec_models().len() ==> !self.spec_eligible(k),
            },
    {
        let mut best: Option<usize> = None;
        let mut j: usize = 0;
        while j < self.models.len()
            invariant
                self.wf(),
                j <= self.models.len(),
                match best {
                    Some(b) => {
                        &&& b < j
                        &&& self.spec_eligible(b as int)
                        &&& forall|k: int|
                            0 <= k < j && self.spec_eligible(k) ==> self.spec_counts()[b as int]
                                <= self.spec_counts()[k]
                        &&& forall|k: int|
                            0 <= k < b ==> !self.spec_eligible(k) || self.spec_counts()[k]
                                > self.spec_counts()[b as int]
                    },
                    None => forall|k: int| 0 <= k < j ==> !self.spec_eligible(k),
                },
            decreases self.models.len() - j,
        {
            if self.request_counts[j] < self.models[j].max_requests_per_second {
                match best {
                    None => {
                        best = Some(j);
                    },
                    Some(b) => {
                        if self.request_counts[j] < self.request_counts[b] {
                            best = Some(j);
                        }
                    },
                }
            }
            j = j + 1;
        }
        best
    }

    /// The number of configured backends.
    pub fn model_count(&self) -> (r: usize)
        ensures
            r == self.spec_models().len(),
    {
        self.models.len()
    }

    /// The live in-flight count of backend `i`.
    pub fn request_count(&self, i: usize) -> (r: u32)
        requires
            i < self.spec_counts().len(),
        ensures
            r == self.spec_counts()[i as int],
    {
        self.request_counts[i]
    }

    /// A copy of the descriptor of backend `i`.
    pub fn model_at(&self, i: usize) -> (r: ModelConfig)
        requires
            i < self.spec_models().len(),
        ensures
            r == self.spec_models()[i as int],
    {
        self.models[i].clone()
    }

    /// Pure weighted selection around a fresh uniform draw: the selected
    /// backend is always under its limit, and no selection is reported
    /// exactly when every backend is at its limit. The caller brackets the
    /// actual dispatch with `increment_request_count` and
    /// `decrement_request_count`.
    pub fn select_model(&self) -> (r: Option<usize>)
        requires
            self.wf(),
        ensures
            r is Some <==> exists|k: int|
                0 <= k < self.spec_models().len() && self.spec_eligible(k),
            match r {
                Some(i) => i < self.spec_models().len() && self.spec_eligible(i as int),
                None => forall|k: int|
                    0 <= k < self.spec_models().len() ==> !self.spec_eligible(k),
            },
    {
        let total = self.total_weight_exec();
        let draw: u64 = if total > 0 {
            random_below(total)
        } else {
            0
        };
        self.select_with_draw(draw)
    }

    /// Marks a dispatch to the backend with the given identity: its in-flight
    /// count rises by one; every other count is untouched. Dispatch is only
    /// admitted below the limit, which keeps every count at or under it.
    pub fn increment_request_count(&mut self, model_id: &str)
        requires
            old(self).wf(),
            forall|i: int|
                0 <= i < old(self).spec_models().len() && old(self).spec_models()[i].id@
                    == model_id@ ==> old(self).spec_eligible(i),
        ensures
            final(self).wf(),
            final(self).spec_models() == old(self).spec_models(),
            forall|i: int|
                0 <= i < old(self).spec_models().len() && old(self).spec_models()[i].id@
                    == model_id@ ==> final(self).spec_counts()[i] == old(self).spec_counts()[i]
                    + 1,
            forall|i: int|
                0 <= i < old(self).spec_models().len() && old(self).spec_models()[i].id@
                    != model_id@ ==> final(self).spec_counts()[i] == old(self).spec_counts()[i],
    {
        let key: String = model_id.to_owned();
        let mut i: usize = 0;
        while i < self.models.len()
            invariant
                self.wf(),
                *self == *old(self),
                key@ == model_id@,
                i <= self.models.len(),
                forall|j: int| 0 <= j < i ==> self.spec_models()[j].id@ != model_id@,
                forall|j: int|
                    0 <= j < self.spec_models().len() && #[trigger] self.spec_models()[j].id@
                        == model_id@ ==> self.spec_eligible(j),
            decreases self.models.len() - i,
        {
            if self.models[i].id == key {
                proof {
                    assert(self.spec_models()[i as int].id@ == model_id@);
                    assert(self.spec_eligible(i as int));
                    assert forall|j: int|
                        0 <= j < self.spec_models().len() && self.spec_models()[j].id@
                            == model_id@ implies j == i as int by {
                        if j < i as int {
                            assert(self.spec_models()[j].id@ != self.spec_models()[i as int].id@);
                        } else if j > i as int {
                            assert(self.spec_models()[i as int].id@ != self.spec_models()[j].id@);
                        }
                    }
                }
                let c = self.request_counts[i];
                self.request_counts.set(i, c + 1);
                return ;
            }
            i = i + 1;
        }
    }

    /// Marks a completion for the backend with the given identity: its
    /// in-flight count falls by one, clamped at zero so that a duplicate
    /// completion can never drive it negative; every other count is
    /// untouched.
    pub fn decrement_request_count(&mut self, model_id: &str)
        requires
            old(self).wf(),
        ensures
            final(self).wf(),
            final(self).spec_models() == old(self).spec_models(),
            forall|i: int|
                0 <= i < old(self).spec_models().len() && old(self).spec_models()[i].id@
                    == model_id@ ==> final(self).spec_counts()[i] == (
                if old(self).spec_counts()[i] > 0 {
                    old(self).spec_counts()[i] - 1
                } else {
                    0
                }),
            forall|i: int|
                0 <= i < old(self).spec_models().len() && old(self).spec_models()[i].id@
                    != model_id@ ==> final(self).spec_counts()[i] == old(self).spec_counts()[i],
    {
        let key: String = model_id.to_owned();
        let mut i: usize = 0;
        while i < self.models.len()
            invariant
                self.wf(),
                *self == *old(self),
                key@ == model_id@,
                i <= self.models.len(),
                forall|j: int| 0 <= j < i ==> self.spec_models()[j].id@ != model_id@,
            decreases self.models.len() - i,
        {
            if self.models[i].id == key {
                proof {
                    assert(self.spec_models()[i as int].id@ == model_id@);
                    assert forall|j: int|
                        0 <= j < self.spec_models().len() && self.spec_models()[j].id@
                            == model_id@ implies j == i as int by {
                        if j < i as int {
                            assert(self.spec_models()[j].id@ != self.spec_models()[i as int].id@);
                        } else if j > i as int {
                            assert(self.spec_models()[i as int].id@ != self.spec_models()[j].id@);
                        }
                    }
                }
                let c = self.request_counts[i];
                if c > 0 {
                    self.request_counts.set(i, c - 1);
                }
                return ;
            }
            i = i + 1;
        }
    }
}

/// Relies on `rand::Rng::gen_range` over `rand::thread_rng`: a draw from the
/// non-empty range `0..bound` lies in that range. The draw is random, so
/// nothing more is promised of it.
#[verifier::external_body]
fn random_below(bound: u64) -> (r: u64)
    requires
        bound > 0,
    ensures
        r < bound,
{
    rand::Rng::gen_range(&mut rand::thread_rng(), 0..bound)
}

} // verus!
