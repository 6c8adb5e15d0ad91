use sysmon::facts::{
    combine, combine_available, GatherError, Source, StatsMonitor, SystemStats,
};
use sysmon::platform::CollectError;

fn stats(lines: &[&str]) -> SystemStats {
    SystemStats { lines: lines.iter().map(|l| l.to_string()).collect() }
}

#[test]
fn stats_start_empty() {
    assert!(SystemStats::default().lines.is_empty());
}

#[test]
fn batch_of_nothing_is_empty() {
    assert_eq!(stats(&[]).payload(), "");
}

#[test]
fn batch_of_one_line_is_the_line() {
    assert_eq!(stats(&["a 1"]).payload(), "a 1");
}

#[test]
fn batch_joins_lines_with_newlines() {
    assert_eq!(stats(&["a 1", "b 2", "c 3"]).payload(), "a 1\nb 2\nc 3");
}

#[test]
fn batch_has_no_newline_at_its_end() {
    let batch = stats(&["a 1", "b 2", "c 3", "d 4"]).payload();
    assert!(!batch.ends_with('\n'));
    assert!(!batch.starts_with('\n'));
    assert!(!batch.contains("\n\n"));
    assert_eq!(batch.matches('\n').count(), 3);
    assert_eq!(batch.split('\n').count(), 4);
}

#[test]
fn batch_falls_back_into_its_lines() {
    let lines = ["disk_usage,a=b c=1i 5", "network_usage,a=b c=1i 6", "", "x"];
    let batch = stats(&lines).payload();
    let back: Vec<&str> = batch.split('\n').collect();
    assert_eq!(back, lines);
}

#[test]
fn batch_keeps_lines_that_agree() {
    assert_eq!(stats(&["same 1", "same 1"]).payload(), "same 1\nsame 1");
}

#[test]
fn aggregator_reports_every_source_in_order() {
    let mut monitor = StatsMonitor::new();
    monitor.sample_cpu();
    let stats = monitor.gather_facts().unwrap();
    let names: Vec<&str> = stats.lines.iter().map(|l| &l[..l.find(',').unwrap()]).collect();
    let count = |name: &str| names.iter().filter(|n| **n == name).count();
    let disks = count("disk_usage");
    let networks = count("network_usage");
    let sensors = count("sensor_data");
    assert_eq!(count("system_usage"), 1);
    assert_eq!(stats.lines.len(), disks + networks + sensors + 1);
    let mut expected = vec!["disk_usage"; disks];
    expected.extend(vec!["network_usage"; networks]);
    expected.extend(vec!["sensor_data"; sensors]);
    expected.push("system_usage");
    assert_eq!(names, expected);
    assert_eq!(stats.payload().split('\n').count(), stats.lines.len());
}

#[test]
fn gather_error_names_source_and_reason() {
    let e = GatherError { source: Source::DiskUsage, error: CollectError::HostNameUnavailable };
    assert_eq!(e.message(), "Could not retrieve disks data: Could not retrieve hostname");
    let e = GatherError { source: Source::NetworkUsage, error: CollectError::ClockBeforeEpoch };
    assert_eq!(
        e.message(),
        "Could not retrieve networks data: Could not read the time since the Unix epoch"
    );
    let e = GatherError { source: Source::SensorData, error: CollectError::HostNameUnavailable };
    assert_eq!(e.message(), "Could not retrieve sensors data: Could not retrieve hostname");
    let e = GatherError { source: Source::SystemUsage, error: CollectError::BootTimeOutOfRange };
    assert_eq!(
        e.message(),
        "Could not retrieve system data: Could not convert unix boot time to datetime"
    );
}

#[test]
fn sources_that_report_fill_the_batch() {
    let mut monitor = StatsMonitor::new();
    monitor.sample_cpu();
    let (stats, failures) = monitor.gather_available();
    assert!(failures.is_empty());
    let all = monitor.gather_facts().unwrap();
    let names = |s: &SystemStats| -> Vec<String> {
        s.lines.iter().map(|l| l[..l.find(',').unwrap()].to_string()).collect()
    };
    assert_eq!(names(&stats), names(&all));
    assert_eq!(stats.lines.last().unwrap().starts_with("system_usage,"), true);
}

fn lines(lines: &[&str]) -> Result<Vec<String>, CollectError> {
    Ok(lines.iter().map(|l| l.to_string()).collect())
}

#[test]
fn four_reports_make_one_in_the_order_of_the_sources() {
    let stats = combine(
        lines(&["d1", "d2"]),
        lines(&["n1", "n2", "n3"]),
        lines(&[]),
        lines(&["y"]),
    )
    .unwrap();
    assert_eq!(stats.lines, vec!["d1", "d2", "n1", "n2", "n3", "y"]);
    assert_eq!(stats.lines.len(), 2 + 3 + 0 + 1);
    assert_eq!(stats.payload(), "d1\nd2\nn1\nn2\nn3\ny");
}

#[test]
fn lines_that_agree_are_not_merged() {
    let stats = combine(lines(&["same"]), lines(&["same"]), lines(&["same"]), lines(&["same"]));
    assert_eq!(stats.unwrap().lines, vec!["same"; 4]);
}

#[test]
fn first_failure_is_named_with_its_source() {
    let failed = combine(
        Err(CollectError::HostNameUnavailable),
        lines(&["n"]),
        lines(&["s"]),
        Err(CollectError::BootTimeOutOfRange),
    );
    assert_eq!(
        failed.unwrap_err(),
        GatherError { source: Source::DiskUsage, error: CollectError::HostNameUnavailable }
    );
    let failed = combine(
        lines(&["d"]),
        Err(CollectError::ClockBeforeEpoch),
        Err(CollectError::HostNameUnavailable),
        lines(&["y"]),
    );
    assert_eq!(
        failed.unwrap_err(),
        GatherError { source: Source::NetworkUsage, error: CollectError::ClockBeforeEpoch }
    );
    let failed = combine(
        lines(&["d"]),
        lines(&["n"]),
        Err(CollectError::HostNameUnavailable),
        lines(&["y"]),
    );
    assert_eq!(
        failed.unwrap_err(),
        GatherError { source: Source::SensorData, error: CollectError::HostNameUnavailable }
    );
    let failed = combine(
        lines(&["d"]),
        lines(&["n"]),
        lines(&["s"]),
        Err(CollectError::BootTimeOutOfRange),
    );
    assert_eq!(
        failed.unwrap_err(),
        GatherError { source: Source::SystemUsage, error: CollectError::BootTimeOutOfRange }
    );
}

#[test]
fn failing_source_does_not_silence_the_others() {
    let (stats, failures) = combine_available(
        lines(&["d1", "d2"]),
        Err(CollectError::ClockBeforeEpoch),
        lines(&["s"]),
        Err(CollectError::BootTimeOutOfRange),
    );
    assert_eq!(stats.lines, vec!["d1", "d2", "s"]);
    assert_eq!(
        failures,
        vec![
            GatherError { source: Source::NetworkUsage, error: CollectError::ClockBeforeEpoch },
            GatherError { source: Source::SystemUsage, error: CollectError::BootTimeOutOfRange },
        ]
    );
}

#[test]
fn sources_without_failure_give_the_same_either_way() {
    let (stats, failures) =
        combine_available(lines(&["d"]), lines(&["n"]), lines(&["s"]), lines(&["y"]));
    assert!(failures.is_empty());
    let all = combine(lines(&["d"]), lines(&["n"]), lines(&["s"]), lines(&["y"])).unwrap();
    assert_eq!(stats.lines, all.lines);
}

#[test]
fn all_sources_failing_leave_no_line() {
    let (stats, failures) = combine_available(
        Err(CollectError::HostNameUnavailable),
        Err(CollectError::HostNameUnavailable),
        Err(CollectError::HostNameUnavailable),
        Err(CollectError::HostNameUnavailable),
    );
    assert!(stats.lines.is_empty());
    let sources: Vec<Source> = failures.iter().map(|f| f.source).collect();
    assert_eq!(
        sources,
        vec![Source::DiskUsage, Source::NetworkUsage, Source::SensorData, Source::SystemUsage]
    );
    assert_eq!(stats.payload(), "");
}
