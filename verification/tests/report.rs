use cb_bench::config::Config;
use cb_bench::report::{
    failure_line, final_stats, format_stats, interval_lines, log_stats, report, settings_line,
    test_label, user_label, INTERVAL_RULE,
    REPORT_RULE,
};
use cb_bench::stats::WindowStats;
use cb_bench::user::{IntervalReport, Metrics, Stage, TransportError};

fn sample_stats() -> WindowStats {
    WindowStats {
        mean: 3_333_333,
        max: 5_000_000,
        count: 3,
        timeouts: 0,
        success: 100_000,
        p95: 5_000_000,
        p99: 5_000_000,
        p999: 5_000_000,
    }
}

fn config(timeout: u64) -> Config {
    Config { addr: "http://host:1".to_string(), users: 1, b: 1, n: 3, timeout }
}

#[test]
fn a_line_holds_every_figure() {
    let line = format_stats("> Model", 3, 1_000_000_000, &sample_stats());
    assert_eq!(
        line,
        "> Model: 3 Mean=3.333ms Max=5.000m Count=      3 Req/s=0003 Timeouts=000 Succ=100.000% \
         p95.0=5.000ms p99.0=5.000ms p99.9=5.000ms"
    );
}

#[test]
fn a_line_with_large_figures() {
    let stats = WindowStats {
        mean: 1_234_567_890,
        max: 98_765_432_100,
        count: 12_345_678,
        timeouts: 4321,
        success: 99_965,
        p95: 1_499,
        p99: 1_500,
        p999: 999_999_500,
    };
    let line = format_stats("TEST > Total", 12_345_678, 2_000_000_000, &stats);
    assert_eq!(
        line,
        "TEST > Total: 12345678 Mean=1234.568ms Max=98765.432m Count=12345678 Req/s=6172839 \
         Timeouts=4321 Succ=99.965% p95.0=0.001ms p99.0=0.002ms p99.9=1000.000ms"
    );
}

#[test]
fn times_are_rounded_to_the_nearest_microsecond() {
    let mut stats = sample_stats();
    for (nanos, text) in [
        (0u64, "0.000"),
        (499, "0.000"),
        (500, "0.001"),
        (999, "0.001"),
        (1_000, "0.001"),
        (9_500, "0.010"),
        (99_499, "0.099"),
        (99_500, "0.100"),
        (999_499, "0.999"),
        (999_500, "1.000"),
        (1_000_000, "1.000"),
        (10_050_500, "10.051"),
        (u64::MAX, "18446744073709.552"),
    ] {
        stats.max = nanos;
        stats.mean = nanos as u128;
        let line = format_stats("t", 1, 1, &stats);
        assert!(line.contains(&format!(" Mean={}ms ", text)), "{}", line);
        assert!(line.contains(&format!(" Max={}m ", text)), "{}", line);
    }
    stats.mean = u128::MAX;
    let line = format_stats("t", 1, 1, &stats);
    assert!(line.contains(" Mean=340282366920938463463374607431768.211ms "), "{}", line);
}

#[test]
fn requests_a_second_are_rounded_and_padded() {
    let mut stats = sample_stats();
    for (count, nanos, text) in [
        (3usize, 1_000_000_000u128, "0003"),
        (3, 2_000_000_000, "0002"),
        (1, 3_000_000_000, "0000"),
        (100_000, 7_000_000_000, "14286"),
        (9_999, 1_000_000_000, "9999"),
        (10_000, 1_000_000_000, "10000"),
        (1, 1, "1000000000"),
        (5, 0, "0inf"),
        (1, u128::MAX, "0000"),
        (usize::MAX, u128::MAX, "0000"),
    ] {
        stats.count = count;
        let line = format_stats("t", 1, nanos, &stats);
        assert!(line.contains(&format!(" Req/s={} Timeouts", text)), "{}", line);
    }
}

#[test]
fn counts_are_padded() {
    let mut stats = sample_stats();
    for (count, timeouts, counted, timed) in [
        (0usize, 0usize, "      0", "000"),
        (1_234_567, 7, "1234567", "007"),
        (12_345_678, 45, "12345678", "045"),
        (999_999, 999, " 999999", "999"),
        (10, 1000, "     10", "1000"),
    ] {
        stats.count = count;
        stats.timeouts = timeouts;
        let line = format_stats("t", 1, 0, &stats);
        assert!(line.contains(&format!(" Count={} Req/s", counted)), "{}", line);
        assert!(line.contains(&format!(" Timeouts={} Succ", timed)), "{}", line);
    }
}

#[test]
fn ratios_have_three_decimals() {
    let mut stats = sample_stats();
    for (ratio, text) in [
        (100_000i128, "100.000"),
        (99_999, "99.999"),
        (33_333, "33.333"),
        (5, "0.005"),
        (0, "0.000"),
        (-1, "-0.001"),
        (-200_000, "-200.000"),
        (-33_334, "-33.334"),
        (i128::MAX, "170141183460469231731687303715884105.727"),
        (i128::MIN, "-170141183460469231731687303715884105.728"),
    ] {
        stats.success = ratio;
        let line = format_stats("t", 1, 0, &stats);
        assert!(line.contains(&format!(" Succ={}% p95.0=", text)), "{}", line);
    }
}

#[test]
fn the_title_may_hold_any_characters() {
    let line = format_stats("Größe → 5", 0, 0, &sample_stats());
    assert!(line.starts_with("Größe → 5: 0 Mean="), "{}", line);
}

#[test]
fn log_stats_summarises_and_formats() {
    let lat: Vec<u64> = vec![0, 5_000_000, 5_000_000];
    let line = log_stats("> Model", 3, 3, 1_000_000_000, 1000, &lat, 0, 3);
    assert_eq!(line, format_stats("> Model", 3, 1_000_000_000, &sample_stats()));
    let line = log_stats("> Model", 3, 3, 1_000_000_000, 1, &lat, 0, 3);
    assert!(line.contains(" Timeouts=002 Succ=33.333% "), "{}", line);
}

#[test]
fn the_whole_test_is_labelled() {
    assert_eq!(test_label(), "TEST");
}

#[test]
fn users_are_numbered_with_two_digits() {
    assert_eq!(user_label(0), "User00");
    assert_eq!(user_label(1), "User01");
    assert_eq!(user_label(9), "User09");
    assert_eq!(user_label(10), "User10");
    assert_eq!(user_label(99), "User99");
    assert_eq!(user_label(100), "User100");
}

#[test]
fn an_interval_report_has_the_model_line_first() {
    let mut round_trip = sample_stats();
    round_trip.max = 6_000_000;
    let interval =
        IntervalReport { at: 100_000, elapsed: 2_000_000_000, model: sample_stats(), round_trip };
    let lines = interval_lines("User03", &interval);
    assert_eq!(lines.len(), 4);
    assert_eq!(lines[0], "-".repeat(INTERVAL_RULE));
    assert_eq!(lines[0].len(), 142);
    assert_eq!(
        lines[1],
        format_stats("User03 > Model", 100_000, 2_000_000_000, &sample_stats())
    );
    assert_eq!(lines[2], format_stats("User03 > Total", 100_000, 2_000_000_000, &round_trip));
    assert_eq!(lines[3], lines[0]);
}

#[test]
fn a_final_report_is_on_all_samples() {
    let metrics = Metrics {
        lat: vec![0, 5_000_000, 5_000_000],
        model_lat: vec![0, 2_000_000, 2_000_000],
        total_nanos: 3_000_000_000,
    };
    let lines = report("TEST", &config(1000), &metrics);
    assert_eq!(lines.len(), 4);
    assert_eq!(lines[0], format!("REPORT {}", "=".repeat(130)));
    assert_eq!(lines[0].len(), REPORT_RULE);
    assert_eq!(
        lines[1],
        "TEST > Model: 3 Mean=1.333ms Max=2.000m Count=      3 Req/s=0001 Timeouts=000 \
         Succ=100.000% p95.0=2.000ms p99.0=2.000ms p99.9=2.000ms"
    );
    assert_eq!(
        lines[2],
        "TEST > Total: 3 Mean=3.333ms Max=5.000m Count=      3 Req/s=0001 Timeouts=000 \
         Succ=100.000% p95.0=5.000ms p99.0=5.000ms p99.9=5.000ms"
    );
    assert_eq!(lines[3], "=".repeat(137));
}

#[test]
fn a_final_report_counts_timeouts() {
    let metrics = Metrics {
        lat: vec![0, 5_000_000, 5_000_000],
        model_lat: vec![0, 2_000_000, 2_000_000],
        total_nanos: 0,
    };
    let lines = report("User00", &config(1), &metrics);
    assert!(lines[1].contains(" Req/s=0inf Timeouts=002 Succ=33.333% "), "{}", lines[1]);
    assert!(lines[2].contains(" Req/s=0inf Timeouts=002 Succ=33.333% "), "{}", lines[2]);
}

#[test]
fn final_statistics_span_the_buffer() {
    let lat: Vec<u64> = vec![4, 8, 6, 2];
    let stats = final_stats(1000, &lat);
    assert_eq!(stats.count, 4);
    assert_eq!(stats.mean, 5);
    assert_eq!(stats.max, 8);
    assert_eq!(stats.p95, 8);
}

#[test]
fn the_settings_are_told_in_one_line() {
    let config =
        Config { addr: "http://host:50051".to_string(), users: 8, b: 4, n: 1000, timeout: 250 };
    assert_eq!(
        settings_line(&config),
        "Host:http://host:50051 Users:8 BatchSize:4 Iterations:1000 Timeout:250"
    );
}

#[test]
fn a_failure_names_its_stage() {
    let at = |stage| failure_line("User04", &TransportError { stage });
    assert_eq!(at(Stage::Connect), "User04: connection failed");
    assert_eq!(at(Stage::Warmup(0)), "User04: warm-up call 0 failed");
    assert_eq!(at(Stage::Warmup(9)), "User04: warm-up call 9 failed");
    assert_eq!(at(Stage::Measure(123_456)), "User04: call of iteration 123456 failed");
}
