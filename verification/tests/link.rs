use e7012e_sim::link::{
    LinkAction, LinkEvent, LinkPhase, LinkStatus, ReadOutcome, SerialSession, Tally,
    COMMAND_WAIT_MS, FAKE_COMMAND_WAIT_MS, SERIAL_BAUD, SERIAL_RETRY_MS,
};

fn status() -> LinkStatus {
    LinkStatus { connected: false, errors: 0, sent_commands: 0 }
}

fn config(name: &str, fake: bool) -> LinkEvent {
    LinkEvent::Config { port_name: name.to_string(), fake_car: fake }
}

#[test]
fn opens_the_configured_port() {
    let mut s = SerialSession::new();
    let mut st = status();
    let out = s.step(&mut st, config("/dev/ttyACM0", false));
    match out.action {
        LinkAction::OpenPort { port_name, baud, timeout_ms } => {
            assert_eq!(port_name, "/dev/ttyACM0");
            assert_eq!(baud, SERIAL_BAUD);
            assert_eq!(timeout_ms, 5);
        }
        _ => panic!("expected an open"),
    }
    let out = s.step(&mut st, LinkEvent::Opened { ok: true });
    assert!(matches!(out.action, LinkAction::ReadPort));
    assert!(st.connected);
    assert!(s.port_open);
}

#[test]
fn failed_open_counts_an_error_and_pauses() {
    let mut s = SerialSession::new();
    let mut st = status();
    s.step(&mut st, config("/dev/none", false));
    let out = s.step(&mut st, LinkEvent::Opened { ok: false });
    assert_eq!(out.tally, Tally::Error);
    assert!(matches!(out.action, LinkAction::Sleep { ms } if ms == SERIAL_RETRY_MS));
    assert_eq!(st.errors, 1);
    assert!(!st.connected);
    let out = s.step(&mut st, LinkEvent::Slept);
    assert!(matches!(out.action, LinkAction::ReadConfig));
}

#[test]
fn reads_frame_telemetry_lines() {
    let mut s = SerialSession::new();
    let mut st = status();
    s.step(&mut st, config("p", false));
    s.step(&mut st, LinkEvent::Opened { ok: true });
    let out = s.step(&mut st, LinkEvent::Read(ReadOutcome::Data(b"steer_us:1500 thr".to_vec())));
    assert!(out.lines.is_empty());
    assert!(matches!(out.action, LinkAction::ReadPort));
    let out = s.step(&mut st, LinkEvent::Read(ReadOutcome::Data(b"ottle_us:1600\r\n".to_vec())));
    assert_eq!(out.lines, vec![b"steer_us:1500 throttle_us:1600".to_vec()]);
    let out = s.step(&mut st, LinkEvent::Read(ReadOutcome::Data(vec![0xff])));
    assert!(out.lines.is_empty());
    assert!(s.line_buf.is_empty());
    let out = s.step(&mut st, LinkEvent::Read(ReadOutcome::Idle));
    assert!(matches!(out.action, LinkAction::AwaitCommand { timeout_ms } if timeout_ms == COMMAND_WAIT_MS));
}

#[test]
fn zero_byte_read_ends_reading() {
    let mut s = SerialSession::new();
    let mut st = status();
    s.step(&mut st, config("p", false));
    s.step(&mut st, LinkEvent::Opened { ok: true });
    let out = s.step(&mut st, LinkEvent::Read(ReadOutcome::Data(Vec::new())));
    assert!(matches!(out.action, LinkAction::AwaitCommand { .. }));
    assert_eq!(s.phase, LinkPhase::CommandWait);
}

#[test]
fn read_failure_drops_the_port() {
    let mut s = SerialSession::new();
    let mut st = status();
    s.step(&mut st, config("p", false));
    s.step(&mut st, LinkEvent::Opened { ok: true });
    s.step(&mut st, LinkEvent::Read(ReadOutcome::Data(b"partial".to_vec())));
    let out = s.step(&mut st, LinkEvent::Read(ReadOutcome::Failed));
    assert_eq!(out.tally, Tally::Error);
    assert!(!s.port_open);
    assert!(s.line_buf.is_empty());
    assert!(!st.connected);
    assert_eq!(st.errors, 1);
    // A command that arrives with the port closed is dropped.
    let out = s.step(&mut st, LinkEvent::Command(Some("sim dist 1 2 3\n".to_string())));
    assert!(matches!(out.action, LinkAction::ReadConfig));
}

#[test]
fn commands_are_written_and_counted() {
    let mut s = SerialSession::new();
    let mut st = status();
    s.step(&mut st, config("p", false));
    s.step(&mut st, LinkEvent::Opened { ok: true });
    s.step(&mut st, LinkEvent::Read(ReadOutcome::Idle));
    let out = s.step(&mut st, LinkEvent::Command(Some("reset\n".to_string())));
    match out.action {
        LinkAction::Write { command } => assert_eq!(command, "reset\n"),
        _ => panic!("expected a write"),
    }
    let out = s.step(&mut st, LinkEvent::Written { ok: true });
    assert_eq!(out.tally, Tally::Sent);
    assert_eq!(st.sent_commands, 1);
    s.step(&mut st, config("p", false));
    s.step(&mut st, LinkEvent::Read(ReadOutcome::Idle));
    s.step(&mut st, LinkEvent::Command(Some("x\n".to_string())));
    let out = s.step(&mut st, LinkEvent::Written { ok: false });
    assert_eq!(out.tally, Tally::Error);
    assert!(!s.port_open);
    assert_eq!(st.errors, 1);
}

#[test]
fn fake_car_mode_counts_without_a_port() {
    let mut s = SerialSession::new();
    let mut st = status();
    let out = s.step(&mut st, config("p", true));
    assert!(matches!(out.action, LinkAction::AwaitFakeCommand { timeout_ms } if timeout_ms == FAKE_COMMAND_WAIT_MS));
    assert!(st.connected);
    let out = s.step(&mut st, LinkEvent::FakeCommand { received: true });
    assert_eq!(out.tally, Tally::Sent);
    assert_eq!(st.sent_commands, 1);
    let out = s.step(&mut st, LinkEvent::FakeCommand { received: false });
    assert!(matches!(out.action, LinkAction::ReadConfig));
    let out = s.step(&mut st, config("p", true));
    assert!(matches!(out.action, LinkAction::AwaitFakeCommand { .. }));
    assert_eq!(st.sent_commands, 1);
}

#[test]
fn changed_config_drops_port_and_buffer() {
    let mut s = SerialSession::new();
    let mut st = status();
    s.step(&mut st, config("a", false));
    s.step(&mut st, LinkEvent::Opened { ok: true });
    s.step(&mut st, LinkEvent::Read(ReadOutcome::Data(b"half".to_vec())));
    s.step(&mut st, LinkEvent::Read(ReadOutcome::Idle));
    s.step(&mut st, LinkEvent::Command(None));
    let out = s.step(&mut st, config("b", false));
    assert!(matches!(out.action, LinkAction::OpenPort { .. }));
    assert!(s.line_buf.is_empty());
    assert!(!st.connected);
}

#[test]
fn unexpected_event_restarts_the_round() {
    let mut s = SerialSession::new();
    let mut st = status();
    let out = s.step(&mut st, LinkEvent::Written { ok: true });
    assert!(matches!(out.action, LinkAction::ReadConfig));
    assert_eq!(out.tally, Tally::Nothing);
    assert_eq!(st, status());
}

#[test]
fn counters_saturate() {
    let mut s = SerialSession::new();
    let mut st = LinkStatus { connected: true, errors: u64::MAX, sent_commands: u64::MAX };
    s.step(&mut st, config("p", true));
    s.step(&mut st, LinkEvent::FakeCommand { received: true });
    assert_eq!(st.sent_commands, u64::MAX);
}
