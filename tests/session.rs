use muxwarden::app::{parse_port, App, Effect, InputMode, StatusMessage};
use muxwarden::portfwd::PortForward;
use muxwarden::ssh::{ControlMasterStatus, SshError};

fn fw(ports: &[u16]) -> Vec<PortForward> {
    ports.iter().map(|p| PortForward { local_port: *p }).collect()
}

fn ports(app: &App) -> Vec<u16> {
    app.forwards.iter().map(|f| f.local_port).collect()
}

fn running_app(ports: &[u16]) -> App {
    App::new("host".to_string(), ControlMasterStatus::Running { pid: 10 }, fw(ports))
}

#[test]
fn new_sorts_and_dedups_forwards() {
    let app = running_app(&[9090, 22, 9090, 80]);
    assert_eq!(ports(&app), vec![22, 80, 9090]);
    assert_eq!(app.selected, 0);
    assert!(app.input_mode == InputMode::Normal);
    assert!(app.input_buffer.is_empty());
    assert!(app.status_message.is_none());
    assert!(!app.should_quit);
    assert_eq!(app.hostname, "host");
}

#[test]
fn navigation_wraps_both_ways() {
    let mut app = running_app(&[1, 2, 3]);
    app.select_next();
    assert_eq!(app.selected, 1);
    app.select_next();
    app.select_next();
    assert_eq!(app.selected, 0);
    app.select_prev();
    assert_eq!(app.selected, 2);
    assert!(matches!(app.on_key('k'), Effect::Nothing));
    assert_eq!(app.selected, 1);
    app.on_key('j');
    assert_eq!(app.selected, 2);
}

#[test]
fn navigation_on_empty_list_is_noop() {
    let mut app = running_app(&[]);
    app.select_next();
    app.select_prev();
    assert_eq!(app.selected, 0);
}

#[test]
fn navigation_ignored_while_adding() {
    let mut app = running_app(&[1, 2, 3]);
    app.on_key('a');
    assert!(app.input_mode == InputMode::AddingForward);
    app.select_next();
    assert_eq!(app.selected, 0);
}

#[test]
fn quit_key_sets_flag_and_clears_status() {
    let mut app = running_app(&[]);
    app.status_message = Some(StatusMessage::InvalidPort);
    app.on_key('q');
    assert!(app.should_quit);
    assert!(app.status_message.is_none());
}

#[test]
fn add_with_running_master_enters_input() {
    let mut app = running_app(&[]);
    assert!(matches!(app.on_key('a'), Effect::Nothing));
    assert!(app.input_mode == InputMode::AddingForward);
    assert!(app.input_buffer.is_empty());
}

#[test]
fn add_without_master_starts_it_first() {
    let mut app = App::new("host".to_string(), ControlMasterStatus::NotRunning, Vec::new());
    assert!(matches!(app.on_key('a'), Effect::StartMaster));
    assert!(matches!(app.status_message, Some(StatusMessage::StartingMaster)));
    assert!(app.input_mode == InputMode::Normal);
    app.finish_start_master(Ok(77));
    assert!(matches!(app.master_status, ControlMasterStatus::Running { pid: 77 }));
    assert!(app.input_mode == InputMode::AddingForward);
    assert!(matches!(app.status_message, Some(StatusMessage::MasterStarted { pid: 77 })));
}

#[test]
fn failed_master_start_aborts_add() {
    let mut app = App::new("host".to_string(), ControlMasterStatus::NotRunning, Vec::new());
    app.on_key('a');
    app.finish_start_master(Err(SshError::MasterNotDetected));
    assert!(app.input_mode == InputMode::Normal);
    assert!(matches!(app.master_status, ControlMasterStatus::NotRunning));
    assert!(matches!(
        app.status_message,
        Some(StatusMessage::MasterStartFailed(SshError::MasterNotDetected))
    ));
}

#[test]
fn text_input_keeps_digits_only() {
    let mut app = running_app(&[]);
    app.on_key('a');
    for c in "8a0-8 0é".chars() {
        app.on_input_key(c);
    }
    assert_eq!(app.input_buffer, "8080");
    app.on_input_key('x');
    assert_eq!(app.input_buffer, "8080");
    app.on_input_backspace();
    assert_eq!(app.input_buffer, "808");
}

#[test]
fn text_input_ignored_in_normal_mode() {
    let mut app = running_app(&[]);
    app.on_input_key('5');
    assert!(app.input_buffer.is_empty());
}

#[test]
fn backspace_on_empty_buffer_is_noop() {
    let mut app = running_app(&[]);
    app.on_key('a');
    app.on_input_backspace();
    assert!(app.input_buffer.is_empty());
    assert!(app.input_mode == InputMode::AddingForward);
}

#[test]
fn cancel_input_returns_to_normal() {
    let mut app = running_app(&[5]);
    app.on_key('a');
    app.on_input_key('1');
    app.cancel_input();
    assert!(app.input_mode == InputMode::Normal);
    assert!(app.input_buffer.is_empty());
    assert_eq!(ports(&app), vec![5]);
}

#[test]
fn submit_valid_port_inserts_in_order() {
    let mut app = running_app(&[22, 9090]);
    app.on_key('a');
    for c in "8080".chars() {
        app.on_input_key(c);
    }
    let effect = app.submit_input();
    assert!(matches!(effect, Effect::AddForward { port: 8080 }));
    assert!(app.input_mode == InputMode::Normal);
    assert!(app.input_buffer.is_empty());
    app.finish_add_forward(8080, Ok(()));
    assert_eq!(ports(&app), vec![22, 8080, 9090]);
    assert!(matches!(app.status_message, Some(StatusMessage::ForwardAdded { port: 8080 })));
}

#[test]
fn submit_out_of_range_is_refused_locally() {
    let mut app = running_app(&[]);
    app.on_key('a');
    for c in "99999".chars() {
        app.on_input_key(c);
    }
    assert!(matches!(app.submit_input(), Effect::Nothing));
    assert!(matches!(app.status_message, Some(StatusMessage::InvalidPort)));
    assert!(app.input_mode == InputMode::Normal);
    assert!(app.forwards.is_empty());
}

#[test]
fn submit_empty_and_65536_are_refused() {
    let mut app = running_app(&[]);
    app.on_key('a');
    assert!(matches!(app.submit_input(), Effect::Nothing));
    assert!(matches!(app.status_message, Some(StatusMessage::InvalidPort)));
    app.on_key('a');
    for c in "65536".chars() {
        app.on_input_key(c);
    }
    assert!(matches!(app.submit_input(), Effect::Nothing));
    assert!(app.input_mode == InputMode::Normal);
}

#[test]
fn failed_add_leaves_forwards() {
    let mut app = running_app(&[22]);
    app.finish_add_forward(8080, Err(SshError::TransportFailure("refused".to_string())));
    assert_eq!(ports(&app), vec![22]);
    assert!(matches!(app.status_message, Some(StatusMessage::Failed(_))));
}

#[test]
fn adding_an_existing_port_keeps_one_entry() {
    let mut app = running_app(&[22, 8080]);
    app.finish_add_forward(8080, Ok(()));
    assert_eq!(ports(&app), vec![22, 8080]);
}

#[test]
fn delete_last_selected_clamps_selection() {
    let mut app = running_app(&[1, 2, 3]);
    app.select_prev();
    assert_eq!(app.selected, 2);
    let effect = app.on_key('d');
    assert!(matches!(effect, Effect::CancelForward { port: 3 }));
    app.finish_cancel_forward(3, Ok(()));
    assert_eq!(ports(&app), vec![1, 2]);
    assert_eq!(app.selected, 1);
    assert!(matches!(app.status_message, Some(StatusMessage::ForwardDeleted { port: 3 })));
}

#[test]
fn delete_middle_keeps_selection() {
    let mut app = running_app(&[1, 2, 3]);
    app.select_next();
    app.on_key('d');
    app.finish_cancel_forward(2, Ok(()));
    assert_eq!(ports(&app), vec![1, 3]);
    assert_eq!(app.selected, 1);
}

#[test]
fn delete_only_forward_empties_list() {
    let mut app = running_app(&[4]);
    assert!(matches!(app.on_key('d'), Effect::CancelForward { port: 4 }));
    app.finish_cancel_forward(4, Ok(()));
    assert!(app.forwards.is_empty());
    assert_eq!(app.selected, 0);
}

#[test]
fn delete_on_empty_list_asks_nothing() {
    let mut app = running_app(&[]);
    assert!(matches!(app.on_key('d'), Effect::Nothing));
}

#[test]
fn failed_cancel_keeps_state() {
    let mut app = running_app(&[1, 2]);
    app.select_next();
    app.finish_cancel_forward(2, Err(SshError::TransportFailure("busy".to_string())));
    assert_eq!(ports(&app), vec![1, 2]);
    assert_eq!(app.selected, 1);
    assert!(matches!(app.status_message, Some(StatusMessage::Failed(_))));
}

#[test]
fn port_parsing() {
    assert_eq!(parse_port("0"), Some(0));
    assert_eq!(parse_port("8080"), Some(8080));
    assert_eq!(parse_port("65535"), Some(65535));
    assert_eq!(parse_port("00022"), Some(22));
    assert_eq!(parse_port("65536"), None);
    assert_eq!(parse_port(""), None);
    assert_eq!(parse_port("+80"), None);
    assert_eq!(parse_port("8a"), None);
}
