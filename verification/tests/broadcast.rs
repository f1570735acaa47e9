use broadcast_over_tor::connect::{connect_decision, ConnectAction, WARMUP_ERROR_CODE};
use broadcast_over_tor::orchestrator::{
    run_broadcast, BroadcastError, Config, Orchestrator, Step, MAX_WORKERS, MIN_SUCCESSFUL,
};
use broadcast_over_tor::peers::{select_candidates, NODE_WITNESS};

fn pool(n: usize) -> Vec<String> {
    (0..n).map(|i| format!("peer{}.example:8333", i)).collect()
}

#[test]
fn defaults_match_constants() {
    let cfg = Config::default_config();
    assert_eq!(cfg.max_workers, MAX_WORKERS);
    assert_eq!(cfg.min_successful, MIN_SUCCESSFUL);
    assert_eq!(MAX_WORKERS, 32);
    assert_eq!(MIN_SUCCESSFUL, 4);
}

#[test]
fn scenario_all_succeed() {
    // Ten addresses, transport always succeeds, quorum of four: success
    // after four observed outcomes, and no more than nine addresses taken
    // from the pool.
    let cfg = Config::new(10, 4);
    let outcomes = vec![true; 10];
    let r = run_broadcast(cfg, pool(10), &outcomes);
    assert_eq!(r.outcome, Ok(()));
    assert_eq!(r.consumed, 4);
    assert!(r.attempted.len() <= 9);
}

#[test]
fn scenario_all_fail() {
    // Three addresses, transport always fails, quorum of four: the pool
    // is exhausted.
    let cfg = Config::default_config();
    let outcomes = vec![false; 3];
    let r = run_broadcast(cfg, pool(3), &outcomes);
    assert_eq!(r.outcome, Err(BroadcastError::PoolExhausted));
    assert_eq!(r.consumed, 3);
    assert_eq!(r.attempted.len(), 3);
}

#[test]
fn scenario_two_failures_then_successes() {
    // Five addresses, the first two completed attempts fail, the next
    // three succeed, quorum of three: each failure triggers one
    // replacement, and the run succeeds after consuming exactly five
    // addresses.
    let cfg = Config::new(4, 3);
    let outcomes = vec![false, false, true, true, true];
    let r = run_broadcast(cfg, pool(5), &outcomes);
    assert_eq!(r.outcome, Ok(()));
    assert_eq!(r.attempted.len(), 5);
    assert_eq!(r.consumed, 5);
}

#[test]
fn scenario_empty_pool() {
    // An empty pool fails immediately, with no attempt dispatched.
    let cfg = Config::default_config();
    let outcomes: Vec<bool> = Vec::new();
    let r = run_broadcast(cfg, Vec::new(), &outcomes);
    assert_eq!(r.outcome, Err(BroadcastError::PoolExhausted));
    assert_eq!(r.attempted.len(), 0);
    assert_eq!(r.consumed, 0);
}

#[test]
fn quorum_reached_in_mixed_order() {
    // Successes interleaved with failures still reach the quorum as soon
    // as the fourth success arrives.
    let cfg = Config::default_config();
    let outcomes = vec![true, false, true, false, true, true];
    let r = run_broadcast(cfg, pool(6), &outcomes);
    assert_eq!(r.outcome, Ok(()));
    assert_eq!(r.consumed, 6);
}

#[test]
fn failures_are_replaced_until_pool_is_dry() {
    // A small worker bound forces replacement dispatches: with every
    // attempt failing, every address is attempted exactly once and the
    // run ends exhausted.
    let cfg = Config::new(4, 2);
    let outcomes = vec![false; 8];
    let r = run_broadcast(cfg, pool(8), &outcomes);
    assert_eq!(r.outcome, Err(BroadcastError::PoolExhausted));
    assert_eq!(r.attempted.len(), 8);
    assert_eq!(r.consumed, 8);
}

#[test]
fn no_address_is_attempted_twice() {
    let cfg = Config::new(4, 3);
    let outcomes = vec![false, false, false, true, false, true, false, true, false];
    let r = run_broadcast(cfg, pool(9), &outcomes);
    for i in 0..r.attempted.len() {
        for j in 0..i {
            assert_ne!(r.attempted[i], r.attempted[j]);
        }
    }
}

#[test]
fn attempts_come_from_the_top_of_the_pool() {
    let cfg = Config::default_config();
    let addresses = pool(5);
    let outcomes = vec![false; 5];
    let r = run_broadcast(cfg, addresses.clone(), &outcomes);
    // Popped from the end: dispatch order is the reverse of pool order.
    let mut reversed = addresses.clone();
    reversed.reverse();
    assert_eq!(r.attempted, reversed);
}

#[test]
fn early_termination_leaves_attempts_outstanding() {
    // Quorum is reached while attempts are still in flight: the run
    // consumes fewer outcomes than it dispatched attempts.
    let cfg = Config::new(10, 4);
    let outcomes = vec![true; 10];
    let r = run_broadcast(cfg, pool(10), &outcomes);
    assert_eq!(r.outcome, Ok(()));
    assert!(r.consumed < r.attempted.len());
}

#[test]
fn initial_wave_is_bounded_by_the_worker_count() {
    let cfg = Config::new(8, 4);
    let mut orch = Orchestrator::new(cfg, pool(20));
    let wave = orch.dispatch_initial_wave();
    assert_eq!(wave.len(), 7);
    assert_eq!(orch.pool.len(), 13);
}

#[test]
fn step_machine_replaces_failures_and_stops_at_quorum() {
    let cfg = Config::new(4, 2);
    let mut orch = Orchestrator::new(cfg, pool(5));
    let wave = orch.dispatch_initial_wave();
    assert_eq!(wave.len(), 3);
    // A failure pops a replacement address while the pool lasts.
    match orch.on_outcome(false) {
        Step::Dispatch(a) => assert_eq!(a, "peer1.example:8333"),
        _ => panic!("a failure with addresses left must dispatch a replacement"),
    }
    // A success below the quorum just keeps waiting.
    assert!(matches!(orch.on_outcome(true), Step::Continue));
    // The success that completes the quorum ends the run.
    assert!(matches!(orch.on_outcome(true), Step::Succeeded));
}

#[test]
fn step_machine_reports_exhaustion_after_last_failure() {
    let cfg = Config::new(8, 4);
    let mut orch = Orchestrator::new(cfg, pool(2));
    let wave = orch.dispatch_initial_wave();
    assert_eq!(wave.len(), 2);
    assert!(matches!(orch.on_outcome(false), Step::Continue));
    assert!(matches!(orch.on_outcome(false), Step::Exhausted));
}

#[test]
fn select_candidates_keeps_witness_peers_in_order() {
    let peers = vec![
        (String::from("a.example:8333"), NODE_WITNESS),
        (String::from("b.example:8333"), 0u64),
        (String::from("c.example:8333"), NODE_WITNESS | 1),
        (String::from("d.example:8333"), 1u64),
        (String::from("e.example:8333"), u64::MAX),
    ];
    let selected = select_candidates(&peers);
    assert_eq!(
        selected,
        vec![
            String::from("a.example:8333"),
            String::from("c.example:8333"),
            String::from("e.example:8333"),
        ]
    );
}

#[test]
fn select_candidates_of_nothing_is_empty() {
    let peers: Vec<(String, u64)> = Vec::new();
    assert!(select_candidates(&peers).is_empty());
}

#[test]
fn connect_decision_follows_the_probe() {
    assert_eq!(connect_decision(true, None), ConnectAction::Accept);
    assert_eq!(connect_decision(true, Some(WARMUP_ERROR_CODE)), ConnectAction::Accept);
    assert_eq!(
        connect_decision(false, Some(WARMUP_ERROR_CODE)),
        ConnectAction::RetryLater
    );
    assert_eq!(connect_decision(false, Some(-1)), ConnectAction::Abort);
    assert_eq!(connect_decision(false, None), ConnectAction::Abort);
}
