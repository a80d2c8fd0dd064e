use nexus::config::ModelConfig;
use nexus::load_balancer::LoadBalancer;

fn two_models(limit1: u32, limit2: u32, weight1: u64, weight2: u64) -> LoadBalancer {
    LoadBalancer::new(vec![
        ModelConfig::new("model1", "http://localhost:8000", limit1, weight1),
        ModelConfig::new("model2", "http://localhost:8001", limit2, weight2),
    ])
}

#[test]
fn weighted_shares_match_weights_exactly() {
    // Weights 7 and 3: of the ten possible draws, exactly seven select the
    // first backend and exactly three the second.
    let lb = two_models(10, 10, 7, 3);
    let mut first = 0;
    let mut second = 0;
    for draw in 0..10u64 {
        match lb.select_with_draw(draw) {
            Some(0) => first += 1,
            Some(1) => second += 1,
            other => panic!("unexpected selection {:?}", other),
        }
    }
    assert_eq!(first, 7);
    assert_eq!(second, 3);
}

#[test]
fn saturated_candidate_falls_back_to_least_loaded() {
    // The first backend owns every unit of weight but admits nothing, so
    // every draw falls back to the second backend.
    let lb = two_models(0, 5, 10, 0);
    for draw in 0..10u64 {
        assert_eq!(lb.select_with_draw(draw), Some(1));
    }
}

#[test]
fn zero_total_weight_uses_least_loaded_order() {
    let mut lb = two_models(2, 2, 0, 0);
    // With no weight anywhere, the earliest least-loaded backend wins.
    assert_eq!(lb.select_with_draw(0), Some(0));
    // Loading the first backend moves selection to the second.
    lb.increment_request_count("model1");
    assert_eq!(lb.select_with_draw(0), Some(1));
}

#[test]
fn selection_is_none_exactly_when_all_are_at_limit() {
    let mut lb = two_models(1, 1, 7, 3);
    lb.increment_request_count("model1");
    for draw in 0..10u64 {
        assert_eq!(lb.select_with_draw(draw), Some(1));
    }
    lb.increment_request_count("model2");
    for draw in 0..10u64 {
        assert_eq!(lb.select_with_draw(draw), None);
    }
    // Releasing one slot restores availability.
    lb.decrement_request_count("model2");
    for draw in 0..10u64 {
        assert_eq!(lb.select_with_draw(draw), Some(1));
    }
}

#[test]
fn select_model_returns_an_eligible_backend() {
    let lb = two_models(10, 10, 7, 3);
    for _ in 0..100 {
        let picked = lb.select_model().expect("capacity is available");
        assert!(picked < 2);
    }
}

#[test]
fn select_model_respects_admission_limits() {
    let mut lb = two_models(1, 1, 7, 3);
    lb.increment_request_count("model1");
    for _ in 0..50 {
        // Only the second backend is under its limit.
        assert_eq!(lb.select_model(), Some(1));
    }
    lb.increment_request_count("model2");
    for _ in 0..50 {
        assert_eq!(lb.select_model(), None);
    }
}

#[test]
fn counters_track_increments_and_decrements() {
    let mut lb = two_models(5, 5, 1, 1);
    assert_eq!(lb.request_count(0), 0);
    lb.increment_request_count("model1");
    lb.increment_request_count("model1");
    lb.increment_request_count("model2");
    assert_eq!(lb.request_count(0), 2);
    assert_eq!(lb.request_count(1), 1);
    lb.decrement_request_count("model1");
    assert_eq!(lb.request_count(0), 1);
    assert_eq!(lb.request_count(1), 1);
}

#[test]
fn decrement_clamps_at_zero() {
    let mut lb = two_models(5, 5, 1, 1);
    lb.decrement_request_count("model1");
    lb.decrement_request_count("model1");
    assert_eq!(lb.request_count(0), 0);
    // A completion recorded twice cannot drive the counter negative.
    lb.increment_request_count("model1");
    lb.decrement_request_count("model1");
    lb.decrement_request_count("model1");
    assert_eq!(lb.request_count(0), 0);
}

#[test]
fn unknown_model_id_changes_no_counter() {
    let mut lb = two_models(5, 5, 1, 1);
    lb.increment_request_count("model9");
    lb.decrement_request_count("model9");
    assert_eq!(lb.request_count(0), 0);
    assert_eq!(lb.request_count(1), 0);
}

#[test]
fn model_accessors_expose_configuration() {
    let lb = two_models(5, 6, 1, 2);
    assert_eq!(lb.model_count(), 2);
    let m = lb.model_at(1);
    assert_eq!(m.id, "model2");
    assert_eq!(m.endpoint, "http://localhost:8001");
    assert_eq!(m.max_requests_per_second, 6);
    assert_eq!(m.weight, 2);
}
