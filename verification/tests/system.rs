use sysmon::platform::CollectError;
use sysmon::system::{boot_time_tag, build_tags, SystemData, SystemFacts, SystemMonitor};

fn sample_system() -> SystemFacts {
    SystemFacts {
        available_memory: 1,
        free_memory: 2,
        used_memory: 3,
        free_swap: 4,
        used_swap: 5,
        total_swap: 6,
        global_cpu_usage: "12.5".to_string(),
    }
}

#[test]
fn system_line_is_exact() {
    assert_eq!(
        sample_system().encode("2015-05-15T00:00:00Z", "box", 1700000000123),
        "system_usage,boot_time=2015-05-15T00:00:00Z,host_name=box \
         available_memory=1i,free_memory=2i,used_memory=3i,free_swap=4i,\
         used_swap=5i,total_swap=6i,global_cpu_usage=12.5 1700000000123"
    );
}

#[test]
fn system_tags_name_the_boot_time_and_the_host() {
    assert_eq!(
        build_tags("1970-01-01T00:00:00Z", "box"),
        "boot_time=1970-01-01T00:00:00Z,host_name=box"
    );
}

#[test]
fn system_cpu_usage_is_the_one_float() {
    let fields = sample_system().build_fields();
    let parts: Vec<&str> = fields.split(',').collect();
    assert_eq!(parts.len(), 7);
    for part in &parts[..6] {
        assert!(part.ends_with('i'));
    }
    assert_eq!(parts[6], "global_cpu_usage=12.5");
}

#[test]
fn boot_time_is_written_in_utc_to_the_second() {
    assert_eq!(boot_time_tag(0).unwrap(), "1970-01-01T00:00:00Z");
    assert_eq!(boot_time_tag(1431648000).unwrap(), "2015-05-15T00:00:00Z");
    assert_eq!(boot_time_tag(1516991409).unwrap(), "2018-01-26T18:30:09Z");
}

#[test]
fn boot_time_is_taken_as_a_signed_number() {
    assert_eq!(boot_time_tag(u64::MAX).unwrap(), "1969-12-31T23:59:59Z");
}

#[test]
fn boot_time_beyond_all_dates_is_an_error() {
    assert_eq!(boot_time_tag(i64::MAX as u64), Err(CollectError::BootTimeOutOfRange));
    assert_eq!(boot_time_tag(1 << 62), Err(CollectError::BootTimeOutOfRange));
}

#[test]
fn system_data_starts_empty() {
    assert!(SystemData::default().lines.is_empty());
}

#[test]
fn system_source_reports_one_line() {
    let mut monitor = SystemMonitor::new();
    monitor.sample_cpu();
    let data = monitor.gather_facts().unwrap();
    assert_eq!(data.lines.len(), 1);
    let line = &data.lines[0];
    assert!(line.starts_with("system_usage,boot_time="));
    assert!(line.contains(",host_name="));
    assert!(line.contains(" available_memory="));
    assert!(line.contains(",global_cpu_usage="));
}

#[test]
fn system_source_repeats_itself_without_a_refresh() {
    let monitor = SystemMonitor::new();
    let facts = monitor.snapshot();
    let first = monitor.gather().unwrap();
    let second = monitor.gather().unwrap();
    let a = &first.lines[0];
    let b = &second.lines[0];
    assert_eq!(a[..a.rfind(' ').unwrap()], b[..b.rfind(' ').unwrap()]);
    assert!(a.contains(&format!(" {} ", facts.build_fields())));
}

#[test]
fn system_source_holds_what_the_machine_reports() {
    let monitor = SystemMonitor::new();
    let facts = monitor.snapshot();
    let mut sys = sysinfo::System::new();
    sys.refresh_all();
    assert_eq!(facts.total_swap, sys.total_swap());
    assert_eq!(facts.used_memory + facts.available_memory, sys.total_memory());
}

#[test]
fn sampling_the_cpu_leaves_memory_as_it_was() {
    let mut monitor = SystemMonitor::new();
    let before = monitor.snapshot();
    monitor.sample_cpu();
    let after = monitor.snapshot();
    assert_eq!(after.available_memory, before.available_memory);
    assert_eq!(after.free_memory, before.free_memory);
    assert_eq!(after.used_memory, before.used_memory);
    assert_eq!(after.free_swap, before.free_swap);
    assert_eq!(after.used_swap, before.used_swap);
    assert_eq!(after.total_swap, before.total_swap);
}

#[test]
fn system_report_is_one_line_or_an_error() {
    let monitor = SystemMonitor::new();
    match monitor.gather() {
        Ok(data) => {
            assert_eq!(data.lines.len(), 1);
            let boot = boot_time_tag(sysinfo::System::boot_time()).unwrap();
            let host = sysinfo::System::host_name().unwrap();
            let head = format!("system_usage,{} ", build_tags(&boot, &host));
            assert!(data.lines[0].starts_with(&head));
        }
        Err(e) => assert!(
            e == CollectError::BootTimeOutOfRange
                || e == CollectError::HostNameUnavailable
                || e == CollectError::ClockBeforeEpoch
        ),
    }
}
