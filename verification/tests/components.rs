use nexus::cache::Cache;
use nexus::config::ModelConfig;
use nexus::manager::ModelManager;
use nexus::metrics::Metrics;
use nexus::models::{InferenceRequest, InferenceResponse, ModelContext};
use nexus::registry::ModelRegistry;

fn sample_response(id: &str, output: &str, latency_ms: u64) -> InferenceResponse {
    InferenceResponse {
        id: id.to_string(),
        output: output.to_string(),
        latency_ms,
        context: ModelContext {
            session_id: "session-1".to_string(),
            metadata: vec![("tenant".to_string(), "acme".to_string())],
        },
    }
}

#[test]
fn model_config_new_copies_fields() {
    let m = ModelConfig::new("model1", "http://localhost:8000", 10, 7);
    assert_eq!(m.id, "model1");
    assert_eq!(m.endpoint, "http://localhost:8000");
    assert_eq!(m.max_requests_per_second, 10);
    assert_eq!(m.weight, 7);
    let c = m.clone();
    assert_eq!(c.id, "model1");
    assert_eq!(c.weight, 7);
}

#[test]
fn cache_get_after_set_returns_stored_response() {
    let mut cache = Cache::new();
    let resp = sample_response("r1", "hello", 42);
    cache.set("r1".to_string(), resp);
    let got = cache.get("r1").expect("stored response must be found");
    assert_eq!(got.id, "r1");
    assert_eq!(got.output, "hello");
    assert_eq!(got.latency_ms, 42);
    assert_eq!(got.context.session_id, "session-1");
    assert_eq!(got.context.metadata, vec![("tenant".to_string(), "acme".to_string())]);
}

#[test]
fn cache_get_unknown_id_is_absent() {
    let cache = Cache::new();
    assert!(cache.get("missing").is_none());
}

#[test]
fn cache_set_overwrites_same_id() {
    let mut cache = Cache::new();
    cache.set("r1".to_string(), sample_response("r1", "first", 1));
    cache.set("r1".to_string(), sample_response("r1", "second", 2));
    let got = cache.get("r1").expect("overwritten response must be found");
    assert_eq!(got.output, "second");
    assert_eq!(got.latency_ms, 2);
}

#[test]
fn cache_keeps_other_ids_apart() {
    let mut cache = Cache::new();
    cache.set("r1".to_string(), sample_response("r1", "one", 1));
    cache.set("r2".to_string(), sample_response("r2", "two", 2));
    assert_eq!(cache.get("r1").unwrap().output, "one");
    assert_eq!(cache.get("r2").unwrap().output, "two");
    assert!(cache.get("r3").is_none());
}

#[test]
fn metrics_record_request_counts_every_call() {
    let mut metrics = Metrics::new();
    let latencies = [10u64, 20, 30, 40];
    for l in latencies {
        metrics.record_request(l);
    }
    assert_eq!(metrics.requests_processed, 4);
    assert_eq!(metrics.total_latency_ms, 100);
    assert_eq!(metrics.average_latency_ms(), 25);
    assert_eq!(metrics.error_count, 0);
    assert_eq!(metrics.cache_hits, 0);
}

#[test]
fn metrics_average_is_arithmetic_mean() {
    let mut metrics = Metrics::new();
    assert_eq!(metrics.average_latency_ms(), 0);
    metrics.record_request(7);
    assert_eq!(metrics.average_latency_ms(), 7);
    metrics.record_request(8);
    // mean of 7 and 8 is 7.5; the running average reports its floor
    assert_eq!(metrics.average_latency_ms(), 7);
    metrics.record_request(9);
    assert_eq!(metrics.average_latency_ms(), 8);
}

#[test]
fn metrics_error_does_not_touch_processed_count() {
    let mut metrics = Metrics::new();
    metrics.record_request(5);
    metrics.record_error();
    assert_eq!(metrics.error_count, 1);
    assert_eq!(metrics.requests_processed, 1);
    assert_eq!(metrics.total_latency_ms, 5);
}

#[test]
fn metrics_cache_hit_counter_is_independent() {
    let mut metrics = Metrics::new();
    metrics.record_cache_hit();
    metrics.record_cache_hit();
    assert_eq!(metrics.cache_hits, 2);
    assert_eq!(metrics.requests_processed, 0);
    assert_eq!(metrics.error_count, 0);
}

#[test]
fn metrics_snapshot_copies_every_counter() {
    let mut metrics = Metrics::new();
    metrics.record_request(12);
    metrics.record_error();
    metrics.record_cache_hit();
    let snap = metrics.snapshot();
    assert_eq!(snap.requests_processed, 1);
    assert_eq!(snap.total_latency_ms, 12);
    assert_eq!(snap.error_count, 1);
    assert_eq!(snap.cache_hits, 1);
}

#[test]
fn inference_request_new_generates_identifier() {
    let req = InferenceRequest::new("model1", "what is the answer");
    assert_eq!(req.model_id, "model1");
    assert_eq!(req.input, "what is the answer");
    assert!(req.context.metadata.is_empty());
    assert_eq!(req.id.len(), 36);
    assert_eq!(req.context.session_id.len(), 36);
    // hyphenated identifier layout
    for pos in [8, 13, 18, 23] {
        assert_eq!(req.id.as_bytes()[pos], b'-');
    }
}

#[test]
fn request_clone_preserves_every_field() {
    let req = InferenceRequest {
        id: "r9".to_string(),
        model_id: "m".to_string(),
        input: "in".to_string(),
        context: ModelContext {
            session_id: "s".to_string(),
            metadata: vec![("a".to_string(), "b".to_string())],
        },
    };
    let c = req.clone();
    assert_eq!(c.id, "r9");
    assert_eq!(c.model_id, "m");
    assert_eq!(c.input, "in");
    assert_eq!(c.context.session_id, "s");
    assert_eq!(c.context.metadata, vec![("a".to_string(), "b".to_string())]);
}

#[test]
fn registry_lists_models_in_order() {
    let models = vec![
        ModelConfig::new("m1", "e1", 1, 1),
        ModelConfig::new("m2", "e2", 2, 2),
    ];
    let registry = ModelRegistry::new(models);
    let listed = registry.list_models();
    assert_eq!(listed.len(), 2);
    assert_eq!(listed[0].id, "m1");
    assert_eq!(listed[1].id, "m2");
}

#[test]
fn manager_finds_model_by_id() {
    let models = vec![
        ModelConfig::new("m1", "e1", 1, 1),
        ModelConfig::new("m2", "e2", 2, 2),
    ];
    let manager = ModelManager::new(models);
    let m = manager.get_model("m2").expect("m2 is configured");
    assert_eq!(m.endpoint, "e2");
    assert!(manager.get_model("m3").is_none());
}
