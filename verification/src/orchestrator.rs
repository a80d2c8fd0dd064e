//! The orchestration pipeline: admission, cache lookup, routing, metrics and
//! cache population around one backend invocation.
//!
//! The backend call itself is the caller's to perform: `begin_request`
//! decides, for one arriving request, whether it is answered from the cache,
//! rejected for want of capacity, or dispatched — and to which backend with
//! which normalized payload. After performing a dispatched call the caller
//! hands the outcome and the observed latency to `complete_request`, which
//! builds the response, records it, caches it, and releases the admission
//! slot. The release runs on every outcome, success or failure, so admission
//! capacity can never leak.

use vstd::prelude::*;

use crate::cache::Cache;
use crate::config::ModelConfig;
use crate::load_balancer::LoadBalancer;
use crate::load_balancer::total_weight;
use crate::metrics::Metrics;
use crate::models::{ContextModel, InferenceRequest, InferenceResponse, RequestModel};

verus! {

/// Rendering of one metadata pair inside the normalized prompt.
pub open spec fn pair_rendering(p: (Seq<char>, Seq<char>)) -> Seq<char> {
    "\""@ + p.0 + "\": \""@ + p.1 + "\""@
}

/// Rendering of the metadata pairs, in order, separated by commas.
pub open spec fn metadata_rendering(pairs: Seq<(Seq<char>, Seq<char>)>) -> Seq<char>
    decreases pairs.len(),
{
    if pairs.len() == 0 {
        Seq::empty()
    } else if pairs.len() == 1 {
        pair_rendering(pairs[0])
    } else {
        metadata_rendering(pairs.drop_last()) + ", "@ + pair_rendering(pairs.last())
    }
}

/// Rendering of a request context: empty without metadata, otherwise the
/// pairs in braces behind a marker.
pub open spec fn context_rendering(c: ContextModel) -> Seq<char> {
    if c.metadata.len() == 0 {
        Seq::empty()
    } else {
        "Metadata: {"@ + metadata_rendering(c.metadata) + "}"@
    }
}

/// The normalized payload handed to a backend for a request: its session,
/// its rendered metadata, and its input, in one prompt line.
pub open spec fn normalized_prompt(r: RequestModel) -> Seq<char> {
    "Session: "@ + r.context.session_id + ", "@ + context_rendering(r.context) + ", Input: "@
        + r.input
}

/// Outcome of one backend invocation, as the transport reports it: a textual
/// completion, or one of the typed failures.
pub enum BackendResult {
    /// The backend answered with this output text.
    Completion(String),
    /// The backend could not be reached; the detail describes the failure.
    ConnectError(String),
    /// The backend's reply could not be decoded; the detail describes why.
    MalformedReply(String),
    /// The backend's reply lacked the expected output field.
    MissingField,
}

/// The output text a response carries for a backend outcome: the completion
/// itself, or a readable description of the failure.
pub open spec fn output_for(result: BackendResult) -> Seq<char> {
    match result {
        BackendResult::Completion(s) => s@,
        BackendResult::ConnectError(e) => "Error calling backend: "@ + e@,
        BackendResult::MalformedReply(e) => "Error parsing response: "@ + e@,
        BackendResult::MissingField => "Error: No response field"@,
    }
}

/// Everything the caller needs to perform one admitted dispatch: which
/// backend (by index and identity), where to send it, and the normalized
/// prompt to send.
pub struct DispatchTicket {
    pub model_index: usize,
    pub model_id: String,
    pub endpoint: String,
    pub prompt: String,
}

/// The decision taken for one arriving request.
pub enum Admission {
    /// Answered from the cache; no backend is invoked and no admission slot
    /// is taken.
    CacheHit(InferenceResponse),
    /// Every backend is at its admission limit; this terminal response
    /// reports the backpressure and nothing is dispatched.
    NoCapacity(InferenceResponse),
    /// Admitted: the caller performs the described dispatch, then reports
    /// its outcome through `complete_request`.
    Dispatch(DispatchTicket),
}

/// Composes routing, cache, and metrics around the backend invocations the
/// caller performs.
pub struct NexusOrchestrator {
    load_balancer: LoadBalancer,
    cache: Cache,
    metrics: Metrics,
}

impl NexusOrchestrator {
    /// The balancer state: descriptors and live in-flight counts.
    pub closed spec fn spec_balancer(&self) -> LoadBalancer {
        self.load_balancer
    }

    /// The cached responses, by request identifier.
    pub closed spec fn spec_cache(&self) -> Map<Seq<char>, crate::models::ResponseModel> {
        self.cache@
    }

    /// The aggregate metrics.
    pub closed spec fn spec_metrics(&self) -> Metrics {
        self.metrics
    }

    /// Every component is internally consistent.
    pub closed spec fn wf(&self) -> bool {
        &&& self.spec_balancer().wf()
        &&& self.cache.wf()
        &&& self.spec_metrics().wf()
    }

    /// An orchestrator over the given backends: empty cache, zeroed metrics,
    /// all in-flight counts at zero.
    pub fn new(models: Vec<ModelConfig>) -> (r: Self)
        requires
            forall|i: int, j: int|
                0 <= i < j < models@.len() ==> models@[i].id@ != models@[j].id@,
            total_weight(models@) <= u64::MAX,
        ensures
            r.wf(),
            r.spec_balancer().spec_models() == models@,
            forall|i: int| 0 <= i < models@.len() ==> r.spec_balancer().spec_counts()[i] == 0,
            r.spec_cache() == Map::<Seq<char>, crate::models::ResponseModel>::empty(),
            r.spec_metrics().requests_processed == 0,
            r.spec_metrics().error_count == 0,
            r.spec_metrics().cache_hits == 0,
            r.spec_metrics().latencies@ == Seq::<u64>::empty(),
    {
        Self { load_balancer: LoadBalancer::new(models), cache: Cache::new(), metrics: Metrics::new() }
    }

    /// Decides one arriving request: a cached response is replayed exactly
    /// and counted as a cache hit, with no dispatch and no counter motion; a
    /// fully saturated fleet yields the terminal no-capacity response and
    /// counts one error; otherwise an eligible backend is selected, its
    /// in-flight count rises by one, and the caller receives the dispatch
    /// ticket. The cache itself is never changed here.
    pub fn begin_request(&mut self, request: &InferenceRequest) -> (r: Admission)
        requires
            old(self).wf(),
            old(self).spec_metrics().cache_hits < u64::MAX,
            old(self).spec_metrics().error_count < u64::MAX,
        ensures
            final(self).wf(),
            final(self).spec_balancer().spec_models() == old(self).spec_balancer().spec_models(),
            final(self).spec_cache() == old(self).spec_cache(),
            match r {
                Admission::CacheHit(resp) => {
                    &&& old(self).spec_cache().contains_key(request@.id)
                    &&& resp@ == old(self).spec_cache()[request@.id]
                    &&& final(self).spec_balancer() == old(self).spec_balancer()
                    &&& final(self).spec_metrics().cache_hits == old(
                        self,
                    ).spec_metrics().cache_hits + 1
                    &&& final(self).spec_metrics().requests_processed == old(
                        self,
                    ).spec_metrics().requests_processed
                    &&& final(self).spec_metrics().error_count == old(
                        self,
                    ).spec_metrics().error_count
                    &&& final(self).spec_metrics().latencies@ == old(
                        self,
                    ).spec_metrics().latencies@
                },
                Admission::NoCapacity(resp) => {
                    &&& !old(self).spec_cache().contains_key(request@.id)
                    &&& forall|k: int|
                        0 <= k < old(self).spec_balancer().spec_models().len() ==> !old(
                            self,
                        ).spec_balancer().spec_eligible(k)
                    &&& resp@.id == request@.id
                    &&& resp@.output == "No available models"@
                    &&& resp@.latency_ms == 0
                    &&& resp@.context == request@.context
                    &&& final(self).spec_balancer() == old(self).spec_balancer()
                    &&& final(self).spec_metrics().error_count == old(
                        self,
                    ).spec_metrics().error_count + 1
                    &&& final(self).spec_metrics().requests_processed == old(
                        self,
                    ).spec_metrics().requests_processed
                    &&& final(self).spec_metrics().cache_hits == old(
                        self,
                    ).spec_metrics().cache_hits
                    &&& final(self).spec_metrics().latencies@ == old(
                        self,
                    ).spec_metrics().latencies@
                },
                Admission::Dispatch(t) => {
                    &&& !old(self).spec_cache().contains_key(request@.id)
                    &&& (t.model_index as int) < old(self).spec_balancer().spec_models().len()
                    &&& old(self).spec_balancer().spec_eligible(t.model_index as int)
                    &&& t.model_id@ == old(self).spec_balancer().spec_models()[t.model_index as int].id@
                    &&& t.endpoint@ == old(self).spec_balancer().spec_models()[t.model_index as int].endpoint@
                    &&& t.prompt@ == normalized_prompt(request@)
                    &&& final(self).spec_balancer().spec_counts()[t.model_index as int] == old(
                        self,
                    ).spec_balancer().spec_counts()[t.model_index as int] + 1
                    &&& forall|k: int|
                        0 <= k < old(self).spec_balancer().spec_models().len() && k
                            != t.model_index as int ==> final(self).spec_balancer().spec_counts()[k]
                            == old(self).spec_balancer().spec_counts()[k]
                    &&& final(self).spec_metrics() == old(self).spec_metrics()
                },
            },
    {
        match self.cache.get(request.id.as_str()) {
            Some(resp) => {
                self.metrics.record_cache_hit();
                Admission::CacheHit(resp)
            },
            None => {
                match self.load_balancer.select_model() {
                    None => {
                        self.metrics.record_error();
                        let resp = InferenceResponse {
                            id: request.id.clone(),
                            output: "No available models".to_owned(),
                            latency_ms: 0,
                            context: request.context.clone(),
                        };
                        Admission::NoCapacity(resp)
                    },
                    Some(idx) => {
                        let model = self.load_balancer.model_at(idx);
                        proof {
                            let ghost m = self.spec_balancer().spec_models();
                            assert forall|j: int|
                                0 <= j < m.len() && m[j].id@ == model.id@ implies self.spec_balancer().spec_eligible(j) by {
                                if j < idx as int {
                                    assert(m[j].id@ != m[idx as int].id@);
                                } else if j > idx as int {
                                    assert(m[idx as int].id@ != m[j].id@);
                                }
                            }
                        }
                        self.load_balancer.increment_request_count(model.id.as_str());
                        proof {
                            let ghost m = old(self).spec_balancer().spec_models();
                            assert(m[idx as int].id@ == model.id@);
                            assert forall|k: int|
                                0 <= k < m.len() && k != idx as int implies m[k].id@
                                != model.id@ by {
                                if k < idx as int {
                                    assert(m[k].id@ != m[idx as int].id@);
                                } else {
                                    assert(m[idx as int].id@ != m[k].id@);
                                }
                            }
                        }
                        let prompt = build_prompt(request);
                        Admission::Dispatch(
                            DispatchTicket {
                                model_index: idx,
                                model_id: model.id,
                                endpoint: model.endpoint,
                                prompt,
                            },
                        )
                    },
                }
            },
        }
    }

    /// Completes one dispatched request with the outcome the caller observed.
    ///
    /// The response echoes the request's identifier and context, carries the
    /// outcome's output text (the completion, or a readable failure
    /// description — a failure still completes as this degraded response),
    /// and the measured latency. The latency joins the metrics, the response
    /// is cached under the request's identifier, and the backend's in-flight
    /// count is released — on every outcome, so capacity cannot leak.
    pub fn complete_request(
        &mut self,
        request: &InferenceRequest,
        model_index: usize,
        result: BackendResult,
        latency_ms: u64,
    ) -> (resp: InferenceResponse)
        requires
            old(self).wf(),
            (model_index as int) < old(self).spec_balancer().spec_models().len(),
            old(self).spec_metrics().requests_processed < u64::MAX,
        ensures
            final(self).wf(),
            final(self).spec_balancer().spec_models() == old(self).spec_balancer().spec_models(),
            resp@.id == request@.id,
            resp@.context == request@.context,
            resp@.latency_ms == latency_ms,
            resp@.output == output_for(result),
            final(self).spec_cache() == old(self).spec_cache().insert(request@.id, resp@),
            final(self).spec_metrics().requests_processed == old(
                self,
            ).spec_metrics().requests_processed + 1,
            final(self).spec_metrics().latencies@ == old(self).spec_metrics().latencies@.push(
                latency_ms,
            ),
            final(self).spec_metrics().total_latency_ms == old(
                self,
            ).spec_metrics().total_latency_ms + latency_ms,
            final(self).spec_metrics().error_count == old(self).spec_metrics().error_count,
            final(self).spec_metrics().cache_hits == old(self).spec_metrics().cache_hits,
            final(self).spec_balancer().spec_counts()[model_index as int] == (
            if old(self).spec_balancer().spec_counts()[model_index as int] > 0 {
                old(self).spec_balancer().spec_counts()[model_index as int] - 1
            } else {
                0
            }),
            forall|k: int|
                0 <= k < old(self).spec_balancer().spec_models().len() && k
                    != model_index as int ==> final(self).spec_balancer().spec_counts()[k] == old(
                    self,
                ).spec_balancer().spec_counts()[k],
    {
        let output = build_output(result);
        let resp = InferenceResponse {
            id: request.id.clone(),
            output,
            latency_ms,
            context: request.context.clone(),
        };
        self.metrics.record_request(latency_ms);
        self.cache.set(request.id.clone(), resp.clone());
        let model = self.load_balancer.model_at(model_index);
        proof {
            let ghost m = old(self).spec_balancer().spec_models();
            assert(m[model_index as int].id@ == model.id@);
            assert forall|k: int|
                0 <= k < m.len() && k != model_index as int implies m[k].id@ != model.id@ by {
                if k < model_index as int {
                    assert(m[k].id@ != m[model_index as int].id@);
                } else {
                    assert(m[model_index as int].id@ != m[k].id@);
                }
            }
        }
        self.load_balancer.decrement_request_count(model.id.as_str());
        resp
    }

    /// The number of configured backends.
    pub fn model_count(&self) -> (r: usize)
        ensures
            r == self.spec_balancer().spec_models().len(),
    {
        self.load_balancer.model_count()
    }

    /// The live in-flight count of backend `model_index`.
    pub fn in_flight_count(&self, model_index: usize) -> (r: u32)
        requires
            (model_index as int) < self.spec_balancer().spec_counts().len(),
        ensures
            r == self.spec_balancer().spec_counts()[model_index as int],
    {
        self.load_balancer.request_count(model_index)
    }

    /// A point-in-time snapshot of the aggregate metrics, safe to read while
    /// processing goes on: every field agrees with the aggregate at the
    /// instant of the call.
    pub fn get_metrics(&self) -> (r: Metrics)
        ensures
            r == self.spec_metrics(),
    {
        self.metrics.snapshot()
    }
}

/// Builds the normalized prompt for a request: its session identifier, its
/// rendered metadata, and its input text.
pub fn build_prompt(request: &InferenceRequest) -> (r: String)
    ensures
        r@ == normalized_prompt(request@),
{
    let mut out = String::new();
    out.append("Session: ");
    out.append(request.context.session_id.as_str());
    out.append(", ");
    if request.context.metadata.len() > 0 {
        out.append("Metadata: {");
        let ghost pairs = request.context.metadata.deep_view();
        let mut i: usize = 0;
        while i < request.context.metadata.len()
            invariant
                pairs == request.context.metadata.deep_view(),
                0 < request.context.metadata.len(),
                i <= request.context.metadata.len(),
                out@ == "Session: "@ + request.context.session_id@ + ", "@ + "Metadata: {"@
                    + metadata_rendering(pairs.subrange(0, i as int)),
            decreases request.context.metadata.len() - i,
        {
            if i > 0 {
                out.append(", ");
            }
            out.append("\"");
            out.append(request.context.metadata[i].0.as_str());
            out.append("\": \"");
            out.append(request.context.metadata[i].1.as_str());
            out.append("\"");
            proof {
                let sub = pairs.subrange(0, i as int + 1);
                assert(sub.drop_last() =~= pairs.subrange(0, i as int));
                assert(sub.last() == pairs[i as int]);
            }
            i = i + 1;
        }
        proof {
            assert(pairs.subrange(0, pairs.len() as int) =~= pairs);
        }
        out.append("}");
    }
    out.append(", Input: ");
    out.append(request.input.as_str());
    out
}

/// Builds the output text a response carries for a backend outcome.
pub fn build_output(result: BackendResult) -> (r: String)
    ensures
        r@ == output_for(result),
{
    match result {
        BackendResult::Completion(s) => s,
        BackendResult::ConnectError(e) => {
            let mut out = String::new();
            out.append("Error calling backend: ");
            out.append(e.as_str());
            out
        },
        BackendResult::MalformedReply(e) => {
            let mut out = String::new();
            out.append("Error parsing response: ");
            out.append(e.as_str());
            out
        },
        BackendResult::MissingField => "Error: No response field".to_owned(),
    }
}

} // verus!
