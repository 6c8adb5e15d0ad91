use sysmon::disks::{DiskFacts, DisksData, DisksMonitor};

fn sample_disk() -> DiskFacts {
    DiskFacts {
        name: "sda1".to_string(),
        mount: "/".to_string(),
        file_system: "ext4".to_string(),
        kind: "SSD".to_string(),
        available_space: 100,
        total_space: 200,
        total_written: 50,
        written_since: 10,
        total_read: 30,
        read_since: 5,
    }
}

fn without_timestamp(line: &str) -> &str {
    &line[..line.rfind(' ').unwrap()]
}

#[test]
fn disk_line_is_exact() {
    let line = sample_disk().encode("box", 1700000000123);
    assert_eq!(
        line,
        "disk_usage,name=sda1,mount=/,file_system=ext4,kind=SSD,host_name=box \
         available_space=100i,total_space=200i,total_written=50i,written_since=10i,\
         total_read=30i,read_since=5i 1700000000123"
    );
}

#[test]
fn disk_tags_name_the_disk_and_the_host() {
    assert_eq!(
        sample_disk().build_tags("box"),
        "name=sda1,mount=/,file_system=ext4,kind=SSD,host_name=box"
    );
}

#[test]
fn disk_fields_are_in_order_and_integers() {
    assert_eq!(
        sample_disk().build_fields(),
        "available_space=100i,total_space=200i,total_written=50i,written_since=10i,\
         total_read=30i,read_since=5i"
    );
}

#[test]
fn disk_line_starts_with_measurement_and_tags() {
    let line = sample_disk().encode("box", 1);
    assert!(line.starts_with("disk_usage,name=sda1,mount=/,file_system=ext4,kind=SSD"));
    assert!(line.ends_with(" 1"));
}

#[test]
fn disk_lines_differ_in_the_timestamp_alone() {
    let first = sample_disk().encode("box", 1700000000123);
    let second = sample_disk().encode("box", 1700000099999);
    assert_ne!(first, second);
    assert_eq!(without_timestamp(&first), without_timestamp(&second));
    assert_eq!(first, sample_disk().encode("box", 1700000000123));
}

#[test]
fn disk_counters_reach_their_largest_value() {
    let mut disk = sample_disk();
    disk.total_space = u64::MAX;
    assert!(disk.build_fields().contains("total_space=18446744073709551615i,"));
}

#[test]
fn disks_data_starts_empty() {
    assert!(DisksData::default().lines.is_empty());
}

#[test]
fn disk_source_reports_one_line_for_each_disk() {
    let monitor = DisksMonitor::new();
    let disks = monitor.snapshot();
    let data = monitor.gather().unwrap();
    assert_eq!(data.lines.len(), disks.len());
    for (disk, line) in disks.iter().zip(data.lines.iter()) {
        assert!(line.starts_with(&format!("disk_usage,name={},mount={},", disk.name, disk.mount)));
        assert!(line.contains(&format!(" {} ", disk.build_fields())));
    }
}

#[test]
fn disk_source_repeats_itself_without_a_refresh() {
    let monitor = DisksMonitor::new();
    let first = monitor.gather().unwrap();
    let second = monitor.gather().unwrap();
    assert_eq!(first.lines.len(), second.lines.len());
    for (a, b) in first.lines.iter().zip(second.lines.iter()) {
        assert_eq!(without_timestamp(a), without_timestamp(b));
    }
}

#[test]
fn disk_source_lists_what_the_machine_lists() {
    let monitor = DisksMonitor::new();
    let listed = sysinfo::Disks::new_with_refreshed_list();
    let ours: Vec<(String, String, String)> = monitor
        .snapshot()
        .into_iter()
        .map(|d| (d.name, d.mount, d.kind))
        .collect();
    let theirs: Vec<(String, String, String)> = listed
        .list()
        .iter()
        .map(|d| {
            (
                d.name().display().to_string(),
                d.mount_point().display().to_string(),
                d.kind().to_string(),
            )
        })
        .collect();
    assert_eq!(ours, theirs);
}

#[test]
fn disk_source_gathers_after_a_refresh() {
    let mut monitor = DisksMonitor::new();
    let data = monitor.gather_facts().unwrap();
    assert_eq!(data.lines.len(), monitor.snapshot().len());
    for line in &data.lines {
        assert!(line.starts_with("disk_usage,name="));
        assert_eq!(line.matches(' ').count() >= 2, true);
    }
}
