use host_agent::controller::{
    Action, CommandPacket, ControlError, Event, Link, Phase, Session, CMD_KILL_PROCESS, CMD_PING,
    CMD_REBOOT, CMD_SHUTDOWN, RESP_ERROR_INVALID_ARG,
};

#[test]
fn ping_frame_bytes() {
    assert_eq!(CommandPacket::new(CMD_PING, 0).serialize(), [1, 0, 0, 0, 0, 0, 0, 0]);
}

#[test]
fn kill_frame_bytes() {
    assert_eq!(CommandPacket::new(CMD_KILL_PROCESS, 7).serialize(), [2, 7, 0, 0, 0, 0, 0, 0]);
    assert_eq!(
        CommandPacket::new(CMD_KILL_PROCESS, 0x0403_0201).serialize(),
        [2, 1, 2, 3, 4, 0, 0, 0]
    );
    assert_eq!(CommandPacket::new(CMD_SHUTDOWN, 0).serialize()[0], 3);
    assert_eq!(CommandPacket::new(CMD_REBOOT, u32::MAX).serialize(), [4, 255, 255, 255, 255, 0, 0, 0]);
}

#[test]
fn key_bytes_little_endian() {
    let s = Session::new("127.0.0.1:31337".to_string(), 0xDEADBEEF);
    assert_eq!(s.key_bytes(), [0xEF, 0xBE, 0xAD, 0xDE]);
}

fn connect_and_auth(s: &mut Session, id: u8, arg: u32) {
    assert!(matches!(s.begin(id, arg), Action::Connect));
    assert!(matches!(s.handle(Event::Done), Action::Authenticate));
    assert_eq!(s.link, Link::Disconnected);
    assert!(matches!(s.handle(Event::Done), Action::Transmit));
    assert_eq!(s.link, Link::Authenticated);
}

#[test]
fn rejected_code_is_its_own_error() {
    let mut s = Session::new("10.0.0.1:1".to_string(), 1);
    connect_and_auth(&mut s, CMD_KILL_PROCESS, 7);
    assert_eq!(s.frame(), [2, 7, 0, 0, 0, 0, 0, 0]);
    match s.handle(Event::Response(RESP_ERROR_INVALID_ARG)) {
        Action::Finish(Err(ControlError::ControllerError(code))) => assert_eq!(code, 3),
        other => panic!("unexpected {:?}", other),
    }
    assert_eq!(s.link, Link::Disconnected);
    assert_eq!(s.phase, Phase::Idle);
}

#[test]
fn second_command_reuses_connection() {
    let mut s = Session::new("10.0.0.1:1".to_string(), 1);
    connect_and_auth(&mut s, CMD_PING, 0);
    assert!(matches!(s.handle(Event::Response(0)), Action::Finish(Ok(0))));
    assert!(matches!(s.begin(CMD_PING, 0), Action::Probe));
    assert!(matches!(s.handle(Event::Done), Action::Transmit));
    assert!(matches!(s.handle(Event::Response(0)), Action::Finish(Ok(0))));
    assert_eq!(s.link, Link::Authenticated);
}

#[test]
fn timeout_forces_reconnect() {
    let mut s = Session::new("10.0.0.1:1".to_string(), 1);
    connect_and_auth(&mut s, CMD_PING, 0);
    assert!(matches!(s.handle(Event::TimedOut), Action::Finish(Err(ControlError::Timeout))));
    assert_eq!(s.link, Link::Disconnected);
    assert!(matches!(s.begin(CMD_PING, 0), Action::Connect));
}

#[test]
fn failed_probe_reconnects() {
    let mut s = Session::new("a".to_string(), 1);
    connect_and_auth(&mut s, CMD_PING, 0);
    s.handle(Event::Response(0));
    assert!(matches!(s.begin(CMD_REBOOT, 0), Action::Probe));
    assert!(matches!(s.handle(Event::Failed("gone".to_string())), Action::Connect));
    assert_eq!(s.link, Link::Disconnected);
}

#[test]
fn connect_errors() {
    let mut s = Session::new("10.0.0.9:5".to_string(), 1);
    s.begin(CMD_PING, 0);
    match s.handle(Event::Failed("refused".to_string())) {
        Action::Finish(Err(ControlError::Connection(addr, cause))) => {
            assert_eq!(addr, "10.0.0.9:5");
            assert_eq!(cause, "refused");
        }
        other => panic!("unexpected {:?}", other),
    }
    s.begin(CMD_PING, 0);
    assert!(matches!(s.handle(Event::TimedOut), Action::Finish(Err(ControlError::Timeout))));
}

#[test]
fn authentication_errors() {
    let mut s = Session::new("h".to_string(), 1);
    s.begin(CMD_PING, 0);
    s.handle(Event::Done);
    assert!(matches!(
        s.handle(Event::Failed("broken pipe".to_string())),
        Action::Finish(Err(ControlError::Authentication))
    ));
    assert_eq!(s.link, Link::Disconnected);
    s.begin(CMD_PING, 0);
    s.handle(Event::Done);
    assert!(matches!(s.handle(Event::TimedOut), Action::Finish(Err(ControlError::Timeout))));
}

#[test]
fn exchange_io_error() {
    let mut s = Session::new("h".to_string(), 1);
    connect_and_auth(&mut s, CMD_SHUTDOWN, 0);
    match s.handle(Event::Failed("reset".to_string())) {
        Action::Finish(Err(ControlError::Io(c))) => assert_eq!(c, "reset"),
        other => panic!("unexpected {:?}", other),
    }
    assert_eq!(s.link, Link::Disconnected);
}

#[test]
fn out_of_place_event_is_internal_error() {
    let mut s = Session::new("h".to_string(), 1);
    s.begin(CMD_PING, 0);
    assert!(matches!(
        s.handle(Event::Response(0)),
        Action::Finish(Err(ControlError::InternalMutexError))
    ));
}
