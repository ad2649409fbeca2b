use muxwarden::portfwd::{forwards_from_sockets, PortForward, SocketRecord};
use muxwarden::ssh::{
    parse_control_path, parse_master_pid, pid_after_start, status_from_check, ControlMasterStatus,
    SshConfig, SshError,
};

fn listener(port: u16, pids: Vec<u32>) -> SocketRecord {
    SocketRecord { local_port: port, listening: true, pids }
}

#[test]
fn discovery_collapses_dual_stack_duplicates() {
    let sockets = vec![
        listener(9090, vec![42]),
        listener(8080, vec![42]),
        listener(8080, vec![42]),
    ];
    let r = forwards_from_sockets(&sockets, 42);
    assert_eq!(r, vec![PortForward { local_port: 8080 }, PortForward { local_port: 9090 }]);
}

#[test]
fn discovery_ignores_other_processes_and_non_listeners() {
    let sockets = vec![
        listener(22, vec![1]),
        SocketRecord { local_port: 5000, listening: false, pids: vec![42] },
        listener(7000, vec![3, 42]),
        listener(6000, vec![42]),
    ];
    let r = forwards_from_sockets(&sockets, 42);
    assert_eq!(r, vec![PortForward { local_port: 6000 }, PortForward { local_port: 7000 }]);
}

#[test]
fn discovery_of_process_without_sockets_is_empty() {
    let sockets = vec![listener(22, vec![1])];
    assert!(forwards_from_sockets(&sockets, 42).is_empty());
    assert!(forwards_from_sockets(&Vec::new(), 42).is_empty());
}

#[test]
fn check_success_with_pid_is_running() {
    let r = status_from_check(true, "Master running (pid=4321)\r\n");
    assert!(matches!(r, Ok(ControlMasterStatus::Running { pid: 4321 })));
}

#[test]
fn check_failure_is_not_running() {
    let r = status_from_check(false, "Control socket connect(/tmp/x): No such file or directory");
    assert!(matches!(r, Ok(ControlMasterStatus::NotRunning)));
    let r = status_from_check(false, "Master running (pid=4321)");
    assert!(matches!(r, Ok(ControlMasterStatus::NotRunning)));
}

#[test]
fn check_success_without_pid_is_protocol_violation() {
    let r = status_from_check(true, "Master running");
    match r {
        Err(SshError::ProtocolViolation(m)) => assert_eq!(m, "Master running"),
        _ => panic!("expected a protocol violation"),
    }
}

#[test]
fn master_pid_parsing() {
    assert_eq!(parse_master_pid("Master running (pid=12345)"), Some(12345));
    assert_eq!(parse_master_pid("pid=7"), Some(7));
    assert_eq!(parse_master_pid("pid=)"), None);
    assert_eq!(parse_master_pid("no marker here"), None);
    assert_eq!(parse_master_pid("pid=4294967295"), Some(4294967295));
    assert_eq!(parse_master_pid("pid=4294967296"), None);
    assert_eq!(parse_master_pid("pid=x pid=5"), None);
    assert_eq!(parse_master_pid("ppid=12 "), Some(12));
}

#[test]
fn start_then_detected_gives_pid() {
    assert!(matches!(pid_after_start(ControlMasterStatus::Running { pid: 77 }), Ok(77)));
    assert!(matches!(
        pid_after_start(ControlMasterStatus::NotRunning),
        Err(SshError::MasterNotDetected)
    ));
}

#[test]
fn control_path_from_config_dump() {
    let dump = "user alice\nhostname example.org\ncontrolpath /home/alice/.ssh/cm-%r@%h:%p\ncontrolmaster auto\n";
    assert_eq!(
        parse_control_path(dump),
        Some("/home/alice/.ssh/cm-%r@%h:%p".to_string())
    );
}

#[test]
fn control_path_is_trimmed_and_crlf_tolerant() {
    assert_eq!(parse_control_path("a b\r\ncontrolpath  /tmp/s  \r\n"), Some("/tmp/s".to_string()));
}

#[test]
fn control_path_none_or_missing_is_absent() {
    assert_eq!(parse_control_path("controlpath none\n"), None);
    assert_eq!(parse_control_path("controlpath \n"), None);
    assert_eq!(parse_control_path("user bob\nport 22\n"), None);
    assert_eq!(parse_control_path(""), None);
    assert_eq!(parse_control_path("xcontrolpath /tmp/s\n"), None);
    assert_eq!(parse_control_path("controlpath none\ncontrolpath /tmp/s\n"), None);
}

#[test]
fn config_from_dump_and_has_control_path() {
    let c = SshConfig::from_dump("controlpath /tmp/cm\n");
    assert_eq!(c.control_path, Some("/tmp/cm".to_string()));
    assert!(c.has_control_path());
    assert!(!SshConfig::from_dump("port 22\n").has_control_path());
    assert!(!SshConfig { control_path: Some("none".to_string()) }.has_control_path());
    assert!(!SshConfig { control_path: Some(String::new()) }.has_control_path());
    assert!(!SshConfig { control_path: None }.has_control_path());
}

#[test]
fn forward_spec_repeats_port() {
    assert_eq!(muxwarden::ssh::forward_spec(8080), "8080:localhost:8080");
    assert_eq!(muxwarden::ssh::forward_spec(0), "0:localhost:0");
    assert_eq!(muxwarden::ssh::forward_spec(65535), "65535:localhost:65535");
}

#[test]
fn command_outcome_carries_trimmed_stderr() {
    assert!(muxwarden::ssh::command_outcome(true, "ignored").is_ok());
    match muxwarden::ssh::command_outcome(false, "  port in use\n") {
        Err(SshError::TransportFailure(m)) => assert_eq!(m, "port in use"),
        _ => panic!("expected a transport failure"),
    }
}
