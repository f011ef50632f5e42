use cb_bench::config::Config;
use cb_bench::coordinator::{merge, Coordinator, Verdict};
use cb_bench::report::{final_stats, report};
use cb_bench::user::{execute, Metrics, Reply, Stage, TransportError};

fn metrics(start: u64, n: usize) -> Metrics {
    Metrics {
        lat: (0..n as u64).map(|k| start + k).collect(),
        model_lat: (0..n as u64).map(|k| 2 * (start + k)).collect(),
        total_nanos: start as u128,
    }
}

#[test]
fn merge_puts_the_buffers_one_behind_the_other() {
    let all = merge(&vec![metrics(10, 3), metrics(20, 2), metrics(30, 0), metrics(40, 1)], 99);
    assert_eq!(all.lat, vec![10, 11, 12, 20, 21, 40]);
    assert_eq!(all.model_lat, vec![20, 22, 24, 40, 42, 80]);
    assert_eq!(all.total_nanos, 99);
}

#[test]
fn merge_of_nothing_is_empty() {
    let all = merge(&Vec::new(), 5);
    assert_eq!(all, Metrics { lat: vec![], model_lat: vec![], total_nanos: 5 });
}

#[test]
fn merged_users_give_users_times_iterations_samples() {
    for users in 1..6usize {
        for n in 1..7usize {
            let parts: Vec<Metrics> = (0..users).map(|u| metrics(100 * u as u64, n)).collect();
            let all = merge(&parts, 1);
            assert_eq!(all.lat.len(), users * n);
            assert_eq!(all.model_lat.len(), users * n);
            assert_eq!(final_stats(1000, &all.lat).count, users * n);
            assert_eq!(final_stats(1000, &all.model_lat).count, users * n);
        }
    }
}

#[test]
fn the_coordinator_waits_for_every_user() {
    let coordinator = Coordinator::new(3);
    assert!(!coordinator.is_complete());
    let (coordinator, verdict) = coordinator.collect(Ok(metrics(10, 2)));
    assert_eq!(verdict, Verdict::Wait);
    let (coordinator, verdict) = coordinator.collect(Ok(metrics(20, 2)));
    assert_eq!(verdict, Verdict::Wait);
    assert!(!coordinator.is_complete());
    let (coordinator, verdict) = coordinator.collect(Ok(metrics(30, 2)));
    assert_eq!(verdict, Verdict::Complete);
    assert!(coordinator.is_complete());
    let all = coordinator.merged(123);
    assert_eq!(all.lat, vec![10, 11, 20, 21, 30, 31]);
    assert_eq!(all.model_lat, vec![20, 22, 40, 42, 60, 62]);
    assert_eq!(all.total_nanos, 123);
}

#[test]
fn the_coordinator_passes_a_failure_on() {
    let coordinator = Coordinator::new(2);
    let (coordinator, _) = coordinator.collect(Ok(metrics(10, 2)));
    let error = TransportError { stage: Stage::Measure(7) };
    let (coordinator, verdict) = coordinator.collect(Err(error));
    assert_eq!(verdict, Verdict::Failed(error));
    assert!(!coordinator.is_complete());
    assert_eq!(coordinator.merged(0).lat, vec![10, 11]);
}

#[test]
fn metrics_behind_the_last_user_are_dropped() {
    let coordinator = Coordinator::new(1);
    let (coordinator, verdict) = coordinator.collect(Ok(metrics(10, 2)));
    assert_eq!(verdict, Verdict::Complete);
    let (coordinator, verdict) = coordinator.collect(Ok(metrics(20, 2)));
    assert_eq!(verdict, Verdict::Complete);
    assert_eq!(coordinator.merged(0).lat, vec![10, 11]);
    let (coordinator, verdict) = Coordinator::new(0).collect(Ok(metrics(20, 2)));
    assert_eq!(verdict, Verdict::Complete);
    assert!(coordinator.merged(0).lat.is_empty());
}

#[test]
fn a_test_of_two_users_reports_all_samples() {
    let calls: Vec<Option<Reply>> =
        vec![Some(Reply { round_trip: 5_000_000, reported: 2_000_000, interval: 0 }); 12];
    let mut coordinator = Coordinator::new(2);
    for _ in 0..2 {
        let run = execute(3, 1000, &calls);
        let (after, _) = coordinator.collect(run.outcome);
        coordinator = after;
    }
    assert!(coordinator.is_complete());
    let all = coordinator.merged(2_000_000_000);
    let config = Config { addr: "a".to_string(), users: 2, b: 1, n: 3, timeout: 1000 };
    let lines = report("TEST", &config, &all);
    assert_eq!(
        lines[2],
        "TEST > Total: 6 Mean=3.333ms Max=5.000m Count=      6 Req/s=0003 Timeouts=000 \
         Succ=100.000% p95.0=5.000ms p99.0=5.000ms p99.9=5.000ms"
    );
}
