use zusi_result_lib::result_analyser::{AnalyseError, ResultAnalyser};
use zusi_result_lib::result_analyser_group::{
    AnalyserGroupCache, CachedMetric, CreateAnalyserGroupError, ResultAnalyserGroup,
};
use zusi_result_lib::run::{Entry, Run};
use zusi_result_lib::timestamp::{Duration, Timestamp};

fn at(year: i32, month: u8, day: u8, hour: u8, minute: u8, second: u8) -> Timestamp {
    Timestamp::from_date_time(year, month, day, hour, minute, second).unwrap()
}

fn entry(position: f32, timestamp: Timestamp, speed: f32) -> Entry {
    Entry::new(position.to_bits(), timestamp, speed.to_bits())
}

fn run(entries: Vec<Entry>) -> Run {
    Run::new(entries).unwrap()
}

fn caching_group() -> ResultAnalyserGroup {
    let result1 = run(vec![
        entry(0., at(2019, 1, 1, 23, 18, 0), 8.),
        entry(3., at(2019, 1, 1, 23, 28, 0), 8.),
        entry(4., at(2019, 1, 1, 23, 38, 0), 0.),
        entry(4., at(2019, 1, 1, 23, 48, 0), 0.),
    ]);
    let result2 = run(vec![
        entry(0., at(2019, 1, 1, 23, 18, 0), 4.),
        entry(9., at(2019, 1, 1, 23, 33, 0), 4.),
        entry(16., at(2019, 1, 1, 23, 43, 0), 0.),
        entry(16., at(2019, 1, 1, 23, 53, 0), 0.),
    ]);
    ResultAnalyserGroup::new(vec![ResultAnalyser::new(result1), ResultAnalyser::new(result2)])
        .unwrap()
}

#[test]
fn test_caching() {
    let mut analyser_group = caching_group();

    for _ in 0..2 {
        assert_eq!(analyser_group.total_driving_time().unwrap(), Duration::minutes(65));
        assert_eq!(analyser_group.total_pure_driving_time().unwrap(), Duration::minutes(45));
    }
}

#[test]
fn test_create_analyser_group_from_ref() {
    let analyser = ResultAnalyser::new(run(vec![]));
    let _analyser_group = ResultAnalyserGroup::new(vec![analyser]);
}

#[test]
fn test_create_analyser_group_error() {
    let analyser_group = ResultAnalyserGroup::new(vec![]);
    assert_eq!(analyser_group.err(), Some(CreateAnalyserGroupError::NoAnalysers));
}

#[test]
fn test_total_driving_time() {
    let result1 = run(vec![
        entry(0., at(2019, 1, 1, 23, 18, 0), 0.),
        entry(0., at(2019, 1, 1, 23, 28, 0), 0.),
    ]);
    let result2 = run(vec![
        entry(0., at(2019, 1, 1, 23, 18, 0), 0.),
        entry(0., at(2019, 1, 1, 23, 33, 0), 0.),
    ]);

    let mut analyser_group =
        ResultAnalyserGroup::new(vec![ResultAnalyser::new(result1), ResultAnalyser::new(result2)])
            .unwrap();

    assert_eq!(analyser_group.total_driving_time().unwrap(), Duration::minutes(25));
}

#[test]
fn test_total_driving_time_with_error() {
    let result1 = run(vec![
        entry(0., at(2019, 1, 1, 23, 18, 0), 0.),
        entry(0., at(2019, 1, 1, 23, 28, 0), 0.),
    ]);
    let result2 = run(vec![]);

    let mut analyser_group =
        ResultAnalyserGroup::new(vec![ResultAnalyser::new(result1), ResultAnalyser::new(result2)])
            .unwrap();

    assert_eq!(analyser_group.total_driving_time(), Err(AnalyseError::NoEntries));
}

#[test]
fn test_total_pure_driving_time() {
    let result1 = run(vec![
        entry(0., at(2019, 1, 1, 23, 8, 0), 10.),
        entry(0., at(2019, 1, 1, 23, 28, 0), 0.),
        entry(0., at(2019, 1, 1, 23, 33, 0), 0.),
    ]);
    let result2 = run(vec![
        entry(0., at(2019, 1, 1, 23, 8, 0), 0.),
        entry(0., at(2019, 1, 1, 23, 28, 0), 0.),
        entry(0., at(2019, 1, 1, 23, 43, 0), 10.),
    ]);

    let mut analyser_group =
        ResultAnalyserGroup::new(vec![ResultAnalyser::new(result1), ResultAnalyser::new(result2)])
            .unwrap();

    assert_eq!(analyser_group.total_pure_driving_time().unwrap(), Duration::minutes(35));
}

#[test]
fn test_total_pure_driving_time_with_error() {
    let result1 = run(vec![
        entry(0., at(2019, 1, 1, 23, 18, 0), 0.),
        entry(0., at(2019, 1, 1, 23, 28, 0), 0.),
    ]);
    let result2 = run(vec![]);

    let mut analyser_group =
        ResultAnalyserGroup::new(vec![ResultAnalyser::new(result1), ResultAnalyser::new(result2)])
            .unwrap();

    assert_eq!(analyser_group.total_pure_driving_time(), Err(AnalyseError::NoEntries));
}

#[test]
fn test_try_from_results() {
    let result = run(vec![]);

    assert!(ResultAnalyserGroup::try_from(vec![result]).is_ok())
}

#[test]
fn test_try_from_zero_results() {
    assert_eq!(
        ResultAnalyserGroup::try_from(vec![]).err(),
        Some(CreateAnalyserGroupError::NoAnalysers)
    );
}

#[test]
fn total_pure_driving_time_adds_each_run_separately() {
    // Each run ends in a standstill; merging them would join the last sample
    // of one with the first of the next.
    let result1 = run(vec![
        entry(0., at(2019, 1, 1, 10, 0, 0), 5.),
        entry(100., at(2019, 1, 1, 10, 10, 0), 0.),
        entry(100., at(2019, 1, 1, 10, 30, 0), 0.),
    ]);
    let result2 = run(vec![
        entry(0., at(2019, 1, 1, 11, 0, 0), 0.),
        entry(0., at(2019, 1, 1, 11, 5, 0), 0.),
        entry(50., at(2019, 1, 1, 11, 12, 0), 6.),
    ]);
    let pure1 = ResultAnalyser::new(run(vec![
        entry(0., at(2019, 1, 1, 10, 0, 0), 5.),
        entry(100., at(2019, 1, 1, 10, 10, 0), 0.),
        entry(100., at(2019, 1, 1, 10, 30, 0), 0.),
    ]))
    .pure_driving_time()
    .unwrap();
    let pure2 = ResultAnalyser::new(run(vec![
        entry(0., at(2019, 1, 1, 11, 0, 0), 0.),
        entry(0., at(2019, 1, 1, 11, 5, 0), 0.),
        entry(50., at(2019, 1, 1, 11, 12, 0), 6.),
    ]))
    .pure_driving_time()
    .unwrap();

    let mut group = ResultAnalyserGroup::try_from(vec![result1, result2]).unwrap();
    let total = group.total_pure_driving_time().unwrap();
    assert_eq!(pure1, Duration::minutes(10));
    assert_eq!(pure2, Duration::minutes(7));
    assert_eq!(total, Duration::seconds(pure1.seconds + pure2.seconds));
}

#[test]
fn repeated_calls_keep_values_and_other_slots() {
    let mut group = caching_group();
    assert_eq!(group.cached(CachedMetric::TotalDistance), None);
    assert_eq!(group.remember(CachedMetric::TotalDistance, 20f32.to_bits()), 20f32.to_bits());

    let first = group.total_driving_time();
    let second = group.total_driving_time();
    assert_eq!(first, second);
    assert_eq!(group.cached(CachedMetric::TotalDistance), Some(20f32.to_bits()));
    assert_eq!(group.cached(CachedMetric::AverageSpeed), None);

    let pure_first = group.total_pure_driving_time();
    assert_eq!(pure_first, group.total_pure_driving_time());
    assert_eq!(group.total_driving_time(), first);
}

#[test]
fn remembered_value_is_never_replaced() {
    let mut group = caching_group();
    assert_eq!(group.remember(CachedMetric::AverageSpeed, 3f32.to_bits()), 3f32.to_bits());
    assert_eq!(group.remember(CachedMetric::AverageSpeed, 7f32.to_bits()), 3f32.to_bits());
    assert_eq!(group.cached(CachedMetric::AverageSpeed), Some(3f32.to_bits()));
    assert_eq!(group.cached(CachedMetric::PureAverageSpeed), None);
    assert_eq!(group.cached(CachedMetric::AverageDistance), None);
}

#[test]
fn failed_aggregate_is_not_remembered() {
    let mut group = ResultAnalyserGroup::try_from(vec![
        run(vec![entry(0., at(2019, 1, 1, 8, 0, 0), 0.)]),
        run(vec![]),
    ])
    .unwrap();
    assert_eq!(group.total_driving_time(), Err(AnalyseError::NoEntries));
    assert_eq!(group.total_driving_time(), Err(AnalyseError::NoEntries));
    assert_eq!(group.len(), 2);
}

#[test]
fn failing_run_fails_the_group() {
    let mut group = ResultAnalyserGroup::try_from(vec![
        run(vec![entry(-1., at(2019, 1, 1, 8, 0, 0), 0.)]),
        run(vec![
            entry(0., at(2019, 1, 1, 9, 0, 0), 2.),
            entry(10., at(2019, 1, 1, 9, 5, 0), 2.),
        ]),
    ])
    .unwrap();
    assert_eq!(group.total_driving_time().unwrap(), Duration::minutes(5));
    assert_eq!(group.total_pure_driving_time(), Err(AnalyseError::NoEntries));
}

#[test]
fn new_cache_is_empty() {
    let cache = AnalyserGroupCache::new();
    assert_eq!(cache.total_distance, None);
    assert_eq!(cache.average_distance, None);
    assert_eq!(cache.average_speed, None);
    assert_eq!(cache.pure_average_speed, None);
    assert_eq!(cache.total_driving_time, None);
    assert_eq!(cache.total_pure_driving_time, None);
}
