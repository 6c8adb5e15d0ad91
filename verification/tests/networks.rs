use sysmon::networks::{NetworkFacts, NetworksData, NetworksMonitor};

fn sample_interface() -> NetworkFacts {
    NetworkFacts {
        interface: "eth0".to_string(),
        mac_address: "aa:bb:cc:dd:ee:ff".to_string(),
        received: 1,
        total_received: 2,
        transmitted: 3,
        total_transmitted: 4,
        packets_received: 5,
        total_packets_received: 6,
        packets_transmitted: 7,
        total_packets_transmitted: 8,
        errors_on_received: 9,
        total_errors_on_received: 10,
        errors_on_transmitted: 11,
        total_errors_on_transmitted: 12,
    }
}

fn without_timestamp(line: &str) -> &str {
    &line[..line.rfind(' ').unwrap()]
}

#[test]
fn network_line_is_exact() {
    assert_eq!(
        sample_interface().encode("box", 1700000000123),
        "network_usage,interface=eth0,mac_address=aa:bb:cc:dd:ee:ff,host_name=box \
         received=1i,total_received=2i,transmitted=3i,total_transmitted=4i,\
         packets_received=5i,total_packets_received=6i,\
         packets_transmitted=7i,total_packets_transmitted=8i,\
         errors_on_received=9i,total_errors_on_received=10i,\
         errors_on_transmitted=11i,total_errors_on_transmitted=12i 1700000000123"
    );
}

#[test]
fn network_tags_name_the_interface_and_the_host() {
    assert_eq!(
        sample_interface().build_tags("box"),
        "interface=eth0,mac_address=aa:bb:cc:dd:ee:ff,host_name=box"
    );
}

#[test]
fn network_line_has_twelve_integer_fields() {
    let fields = sample_interface().build_fields();
    let parts: Vec<&str> = fields.split(',').collect();
    assert_eq!(parts.len(), 12);
    for part in parts {
        assert!(part.ends_with('i'));
        assert!(part.contains('='));
    }
}

#[test]
fn network_lines_differ_in_the_timestamp_alone() {
    let first = sample_interface().encode("box", 5);
    let second = sample_interface().encode("box", 123456);
    assert_eq!(without_timestamp(&first), without_timestamp(&second));
    assert!(first.ends_with(" 5"));
    assert!(second.ends_with(" 123456"));
}

#[test]
fn networks_data_starts_empty() {
    assert!(NetworksData::default().lines.is_empty());
}

#[test]
fn network_source_reports_one_line_for_each_interface() {
    let monitor = NetworksMonitor::new();
    let interfaces = monitor.snapshot();
    let data = monitor.gather().unwrap();
    assert_eq!(data.lines.len(), interfaces.len());
    for interface in &interfaces {
        let head = format!(
            "network_usage,interface={},mac_address={},",
            interface.interface, interface.mac_address
        );
        assert_eq!(data.lines.iter().filter(|line| line.starts_with(&head)).count(), 1);
    }
}

#[test]
fn network_source_lists_what_the_machine_lists() {
    let monitor = NetworksMonitor::new();
    let listed = sysinfo::Networks::new_with_refreshed_list();
    let mut ours: Vec<(String, String)> =
        monitor.snapshot().into_iter().map(|n| (n.interface, n.mac_address)).collect();
    let mut theirs: Vec<(String, String)> = listed
        .list()
        .iter()
        .map(|(name, data)| (name.clone(), data.mac_address().to_string()))
        .collect();
    ours.sort();
    theirs.sort();
    assert_eq!(ours, theirs);
}

#[test]
fn network_source_gathers_after_a_refresh() {
    let mut monitor = NetworksMonitor::new();
    let data = monitor.gather_facts().unwrap();
    assert_eq!(data.lines.len(), monitor.snapshot().len());
    for line in &data.lines {
        assert!(line.starts_with("network_usage,interface="));
    }
}
