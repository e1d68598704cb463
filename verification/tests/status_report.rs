use o324_daemon::status::{
    status_report, DaemonLine, format_duration, ServiceState, ServiceStatus, ServiceStatusDisplay, SupervisorMetadata,
    SupervisorMetadataDisplay,
};

#[test]
fn durations_read_in_words() {
    assert_eq!(format_duration(0), "0s");
    assert_eq!(format_duration(59), "59s");
    assert_eq!(format_duration(60), "1m");
    assert_eq!(format_duration(3661), "1h 1m 1s");
    assert_eq!(format_duration(86400 + 7200 + 3), "1d 2h 3s");
    assert_eq!(format_duration(-30), "-30s");
    assert_eq!(format_duration(-120), "0s");
}

#[test]
fn supervisor_uptime() {
    let d = SupervisorMetadataDisplay::from(SupervisorMetadata { pid: 42, started_at: 1000 }, 4661);
    assert_eq!(d.pid, 42);
    assert_eq!(d.uptime_seconds, 3661);
    assert_eq!(d.uptime_formatted, "1h 1m 1s");
}

fn status(state: ServiceState, started_at: Option<i64>) -> ServiceStatus {
    ServiceStatus {
        service_name: "dbus".to_string(),
        state,
        retry_count: 2,
        last_error: None,
        started_at,
        updated_at: 900,
    }
}

#[test]
fn running_service_shows_uptime() {
    let d = ServiceStatusDisplay::from(status(ServiceState::Running, Some(940)), 1000);
    assert_eq!(d.time_display, "up 1m");
    assert_eq!(d.uptime_seconds, Some(60));
    assert_eq!(d.last_update_seconds_ago, 100);
    let d = ServiceStatusDisplay::from(status(ServiceState::Starting, None), 1000);
    assert_eq!(d.time_display, "N/A");
}

#[test]
fn stopped_service_shows_last_update() {
    let d = ServiceStatusDisplay::from(status(ServiceState::Failed, Some(10)), 1000);
    assert_eq!(d.time_display, "100s ago");
    assert_eq!(d.retry_count, 2);
    assert_eq!(d.service_name, "dbus");
}

fn shown(name: &str, state: o324_daemon::status::ServiceState, error: Option<&str>) -> o324_daemon::status::ServiceStatusDisplay {
    o324_daemon::status::ServiceStatusDisplay {
        service_name: name.to_string(),
        state,
        retry_count: 2,
        last_error: error.map(|e| e.to_string()),
        started_at: Some(100),
        updated_at: 150,
        uptime_seconds: Some(100),
        last_update_seconds_ago: 50,
        time_display: "up 1m 40s".to_string(),
    }
}

#[test]
fn status_report_lines_and_rows() {
    let meta = Some(SupervisorMetadataDisplay {
        pid: 42,
        started_at: 100,
        uptime_seconds: 65,
        uptime_formatted: "1m 5s".to_string(),
    });
    let empty = status_report(&meta, &Vec::new());
    assert!(matches!(&empty.daemon, DaemonLine::Running { pid: 42, uptime } if uptime == "1m 5s"));
    assert!(empty.no_services_note);
    assert!(empty.rows.is_empty());

    let none = status_report(&None, &Vec::new());
    assert!(matches!(none.daemon, DaemonLine::NotRunning));
    assert!(!none.no_services_note);

    let services = vec![shown("window", ServiceState::Running, None), shown("dbus", ServiceState::Failed, Some("boom"))];
    let report = status_report(&meta, &services);
    assert!(!report.no_services_note);
    assert_eq!(report.rows.len(), 2);
    assert_eq!(report.rows[0].service_name, "window");
    assert_eq!(report.rows[0].state_label, "Running");
    assert_eq!(report.rows[0].retry_count, 2);
    assert_eq!(report.rows[0].time_display, "up 1m 40s");
    assert_eq!(report.rows[0].last_error, "None");
    assert_eq!(report.rows[1].state_label, "Failed");
    assert_eq!(report.rows[1].last_error, "boom");
}
