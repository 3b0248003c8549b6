use catcher::observability::{probe_result, quality_changed, QualityTrend};
use catcher::observability::{
    concurrency_for_quality, quality_trend, trend_label, NetworkQualityLevel, Priority,
};
use catcher::scheduler::{
    task_result, task_timeout, ConcurrencyMode, PriorityLanes, QueueConfig, TaskOutcome,
};
use catcher::error::CatcherError;

#[test]
fn excellent_returns_50() {
    assert_eq!(concurrency_for_quality(NetworkQualityLevel::Excellent), 50);
}

#[test]
fn bad_returns_2() {
    assert_eq!(concurrency_for_quality(NetworkQualityLevel::Bad), 2);
}

#[test]
fn all_levels_have_non_zero_concurrency() {
    for level in [
        NetworkQualityLevel::Excellent,
        NetworkQualityLevel::Good,
        NetworkQualityLevel::Fair,
        NetworkQualityLevel::Poor,
        NetworkQualityLevel::Bad,
    ] {
        assert!(concurrency_for_quality(level) > 0);
    }
}

#[test]
fn ns04_trend_computation() {
    // Excellent < Good < Fair < Poor < Bad (ordinal comparison)
    // improving: level < previous_level
    // degrading: level > previous_level
    // stable: level == previous_level
    fn compute_trend(level: NetworkQualityLevel, prev: Option<NetworkQualityLevel>) -> &'static str {
        trend_label(quality_trend(level, prev))
    }
    // Bad > Poor > Fair > Good > Excellent
    assert_eq!(compute_trend(NetworkQualityLevel::Excellent, None), "unknown");
    assert_eq!(compute_trend(NetworkQualityLevel::Good, Some(NetworkQualityLevel::Excellent)), "degrading");
    assert_eq!(compute_trend(NetworkQualityLevel::Poor, Some(NetworkQualityLevel::Bad)), "improving");
    assert_eq!(compute_trend(NetworkQualityLevel::Good, Some(NetworkQualityLevel::Good)), "stable");
    assert_eq!(compute_trend(NetworkQualityLevel::Fair, Some(NetworkQualityLevel::Poor)), "improving");
}

#[test]
fn queue_config_defaults() {
    let c = QueueConfig::default();
    assert_eq!(c.max_concurrency, 50);
    assert_eq!(c.queue_capacity, 1024);
    assert_eq!(c.default_timeout_ms, 30_000);
    assert_eq!(c.concurrency_mode, ConcurrencyMode::Fixed(50));
    assert_eq!(ConcurrencyMode::default(), ConcurrencyMode::Fixed(50));
}

#[test]
fn task_timeout_falls_back_to_default() {
    let c = QueueConfig::default();
    assert_eq!(task_timeout(Some(5), &c), 5);
    assert_eq!(task_timeout(None, &c), 30_000);
}

#[test]
fn timed_out_task_reports_queue_timeout() {
    let r: Result<Vec<u8>, CatcherError> = task_result(TaskOutcome::TimedOut, 250);
    assert!(matches!(r, Err(CatcherError::QueueTimeout(250))));
    let ok: Result<Vec<u8>, CatcherError> = task_result(TaskOutcome::Finished(Ok(vec![1])), 250);
    assert_eq!(ok.unwrap(), vec![1]);
}

#[test]
fn urgent_requests_leave_first() {
    let mut lanes: PriorityLanes<&str> = PriorityLanes::new(10);
    lanes.push(Priority::Normal, "n1").unwrap();
    lanes.push(Priority::Background, "b1").unwrap();
    lanes.push(Priority::High, "h1").unwrap();
    lanes.push(Priority::Critical, "c1").unwrap();
    assert_eq!(lanes.len(), 4);
    assert_eq!(lanes.pop(), Some("h1"));
    assert_eq!(lanes.pop(), Some("c1"));
    assert_eq!(lanes.pop(), Some("n1"));
    assert_eq!(lanes.pop(), Some("b1"));
    assert_eq!(lanes.pop(), None);
}

#[test]
fn full_lane_refuses_request() {
    let mut lanes: PriorityLanes<u32> = PriorityLanes::new(1);
    assert!(lanes.push(Priority::Low, 1).is_ok());
    assert_eq!(lanes.push(Priority::Low, 2), Err(2));
    assert!(lanes.push(Priority::High, 3).is_ok());
    assert_eq!(lanes.pop(), Some(3));
}

#[test]
fn a_reported_change_is_never_stable() {
    assert!(quality_changed(NetworkQualityLevel::Good, None));
    assert!(!quality_changed(NetworkQualityLevel::Good, Some(NetworkQualityLevel::Good)));
    assert!(quality_changed(NetworkQualityLevel::Fair, Some(NetworkQualityLevel::Good)));
    assert_eq!(
        quality_trend(NetworkQualityLevel::Fair, Some(NetworkQualityLevel::Good)),
        QualityTrend::Degrading
    );
}

#[test]
fn probe_statuses() {
    assert_eq!(probe_result(204, 12).unwrap(), 12);
    assert_eq!(probe_result(404, 7).unwrap(), 7);
    assert!(matches!(probe_result(503, 7), Err(CatcherError::HttpError { status: 503, .. })));
}
