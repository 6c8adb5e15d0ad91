use sysmon::sensors::{push_reading, SensorFacts, SensorsData, SensorsMonitor};

fn sample_sensor() -> SensorFacts {
    SensorFacts {
        label: "CPU Core 0".to_string(),
        temperature: Some("45.5".to_string()),
        max: Some("80".to_string()),
        critical: Some("100".to_string()),
    }
}

fn silent_sensor() -> SensorFacts {
    SensorFacts { label: "nvme".to_string(), temperature: None, max: None, critical: None }
}

#[test]
fn sensor_line_is_exact() {
    assert_eq!(
        sample_sensor().encode("box", 1700000000123),
        "sensor_data,sensor_label=CPU\\ Core\\ 0,host_name=box \
         temperature=45.5,max_temperature=80,critical_temperature=100 1700000000123"
    );
}

#[test]
fn sensor_label_is_escaped() {
    assert!(sample_sensor().build_tags("box").starts_with("sensor_label=CPU\\ Core\\ 0,"));
    assert_eq!(sample_sensor().build_tags("box"), "sensor_label=CPU\\ Core\\ 0,host_name=box");
}

#[test]
fn missing_temperature_stands_at_zero() {
    let fields = silent_sensor().build_fields();
    assert!(fields.contains("temperature=0.0"));
    assert!(fields.starts_with("temperature=0.0,"));
}

#[test]
fn missing_readings_keep_every_field() {
    assert_eq!(
        silent_sensor().build_fields(),
        "temperature=0.0,max_temperature=0.0,critical_temperature=0.0"
    );
    let mut partly = sample_sensor();
    partly.max = None;
    assert_eq!(
        partly.build_fields(),
        "temperature=45.5,max_temperature=0.0,critical_temperature=100"
    );
}

#[test]
fn silent_sensor_line_is_exact() {
    assert_eq!(
        silent_sensor().encode("box", 7),
        "sensor_data,sensor_label=nvme,host_name=box \
         temperature=0.0,max_temperature=0.0,critical_temperature=0.0 7"
    );
}

#[test]
fn reading_is_written_as_it_is_or_as_zero() {
    let mut out = String::new();
    push_reading(&mut out, "t", &Some("-3.25".to_string()));
    out.push(',');
    push_reading(&mut out, "u", &None);
    assert_eq!(out, "t=-3.25,u=0.0");
}

#[test]
fn sensors_data_starts_empty() {
    assert!(SensorsData::default().lines.is_empty());
}

#[test]
fn sensor_source_reports_one_line_for_each_sensor() {
    let monitor = SensorsMonitor::new();
    let sensors = monitor.snapshot();
    let data = monitor.gather().unwrap();
    assert_eq!(data.lines.len(), sensors.len());
    for (sensor, line) in sensors.iter().zip(data.lines.iter()) {
        assert!(line.starts_with("sensor_data,sensor_label="));
        assert!(line.contains(&format!(" {} ", sensor.build_fields())));
    }
}

#[test]
fn sensor_source_lists_what_the_machine_lists() {
    let monitor = SensorsMonitor::new();
    let listed = sysinfo::Components::new_with_refreshed_list();
    let ours: Vec<String> = monitor.snapshot().into_iter().map(|s| s.label).collect();
    let theirs: Vec<String> = listed.list().iter().map(|c| c.label().to_string()).collect();
    assert_eq!(ours, theirs);
}

#[test]
fn sensor_source_gathers_after_a_refresh() {
    let mut monitor = SensorsMonitor::new();
    let data = monitor.gather_facts().unwrap();
    assert_eq!(data.lines.len(), monitor.snapshot().len());
}
