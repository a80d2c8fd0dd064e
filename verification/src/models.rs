//! Request and response shapes carried through the orchestration pipeline,
//! together with the mathematical models that contracts are stated over.

use vstd::prelude::*;

verus! {

/// Mathematical model of a [`ModelContext`]: the session identifier and the
/// metadata pairs, each as a sequence of characters.
#[verifier::ext_equal]
pub struct ContextModel {
    pub session_id: Seq<char>,
    pub metadata: Seq<(Seq<char>, Seq<char>)>,
}

/// Mathematical model of an [`InferenceRequest`].
#[verifier::ext_equal]
pub struct RequestModel {
    pub id: Seq<char>,
    pub model_id: Seq<char>,
    pub input: Seq<char>,
    pub context: ContextModel,
}

/// Mathematical model of an [`InferenceResponse`].
#[verifier::ext_equal]
pub struct ResponseModel {
    pub id: Seq<char>,
    pub output: Seq<char>,
    pub latency_ms: u64,
    pub context: ContextModel,
}

/// Opaque session/metadata context attached to a request and echoed, entry
/// for entry and in order, on the matching response.
pub struct ModelContext {
    pub session_id: String,
    pub metadata: Vec<(String, String)>,
}

impl View for ModelContext {
    type V = ContextModel;

    open spec fn view(&self) -> ContextModel {
        ContextModel { session_id: self.session_id@, metadata: self.metadata.deep_view() }
    }
}

impl DeepView for ModelContext {
    type V = ContextModel;

    open spec fn deep_view(&self) -> ContextModel {
        self.view()
    }
}

impl Clone for ModelContext {
    fn clone(&self) -> (r: Self)
        ensures
            r@ == self@,
    {
        let mut metadata: Vec<(String, String)> = Vec::new();
        let mut i: usize = 0;
        while i < self.metadata.len()
            invariant
                i <= self.metadata.len(),
                metadata@.len() == i,
                forall|j: int| 0 <= j < i ==> #[trigger] metadata@[j] == self.metadata@[j],
            decreases self.metadata.len() - i,
        {
            let pair = (self.metadata[i].0.clone(), self.metadata[i].1.clone());
            metadata.push(pair);
            i = i + 1;
        }
        let r = Self { session_id: self.session_id.clone(), metadata };
        proof {
            assert(r@.metadata =~= self@.metadata);
            assert(r@ =~= self@);
        }
        r
    }
}

/// One unit of work submitted to the orchestrator. The identifier must be
/// unique per distinct piece of work: it is the cache key, and resubmitting
/// an identifier replays the cached response instead of invoking a backend.
pub struct InferenceRequest {
    pub id: String,
    pub model_id: String,
    pub input: String,
    pub context: ModelContext,
}

impl View for InferenceRequest {
    type V = RequestModel;

    open spec fn view(&self) -> RequestModel {
        RequestModel {
            id: self.id@,
            model_id: self.model_id@,
            input: self.input@,
            context: self.context@,
        }
    }
}

impl DeepView for InferenceRequest {
    type V = RequestModel;

    open spec fn deep_view(&self) -> RequestModel {
        self.view()
    }
}

impl Clone for InferenceRequest {
    fn clone(&self) -> (r: Self)
        ensures
            r@ == self@,
    {
        let r = Self {
            id: self.id.clone(),
            model_id: self.model_id.clone(),
            input: self.input.clone(),
            context: self.context.clone(),
        };
        proof {
            assert(r@ =~= self@);
        }
        r
    }
}

impl InferenceRequest {
    /// Builds a request around a freshly generated identifier and an empty
    /// context; the target-model hint is advisory only.
    pub fn new(model_id: &str, input: &str) -> (r: Self)
        ensures
            r@.model_id == model_id@,
            r@.input == input@,
            r@.context.metadata.len() == 0,
            r@.id.len() == 36,
    {
        let r = Self {
            id: fresh_identifier(),
            model_id: model_id.to_owned(),
            input: input.to_owned(),
            context: ModelContext {
                session_id: fresh_identifier(),
                metadata: Vec::new(),
            },
        };
        proof {
            assert(r@.context.metadata =~= Seq::<(Seq<char>, Seq<char>)>::empty());
        }
        r
    }
}

/// The outcome reported back to the caller for one request: the request's
/// identifier, the output text (or a readable failure description), the
/// latency observed from dispatch to completion, and the echoed context.
pub struct InferenceResponse {
    pub id: String,
    pub output: String,
    pub latency_ms: u64,
    pub context: ModelContext,
}

impl View for InferenceResponse {
    type V = ResponseModel;

    open spec fn view(&self) -> ResponseModel {
        ResponseModel {
            id: self.id@,
            output: self.output@,
            latency_ms: self.latency_ms,
            context: self.context@,
        }
    }
}

impl DeepView for InferenceResponse {
    type V = ResponseModel;

    open spec fn deep_view(&self) -> ResponseModel {
        self.view()
    }
}

impl Clone for InferenceResponse {
    fn clone(&self) -> (r: Self)
        ensures
            r@ == self@,
    {
        let r = Self {
            id: self.id.clone(),
            output: self.output.clone(),
            latency_ms: self.latency_ms,
            context: self.context.clone(),
        };
        proof {
            assert(r@ =~= self@);
        }
        r
    }
}

/// Relies on `uuid::Uuid::new_v4` and the hyphenated form its `Display`
/// implementation produces: a randomly generated identifier rendered as 36
/// characters. Nothing more is promised of a random value.
#[verifier::external_body]
fn fresh_identifier() -> (r: String)
    ensures
        r@.len() == 36,
{
    uuid::Uuid::new_v4().to_string()
}

} // verus!
