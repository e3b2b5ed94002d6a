use irc_announcer::session::{SessionAction, SessionEvent, SessionMachine, SessionPhase};

fn accepted_notice() -> SessionEvent {
    SessionEvent::Notice { content: "NickServ: Password accepted - you are now recognized.".to_string() }
}

fn names_end_response() -> SessionEvent {
    SessionEvent::Response {
        args: vec!["nick".to_string(), "#chan".to_string(), "End of /NAMES list.".to_string()],
    }
}

#[test]
fn scripted_handshake_reaches_ready_in_order() {
    let mut m = SessionMachine::new(false);
    assert_eq!(m.phase, SessionPhase::Disconnected);
    m.start_registration();
    assert_eq!(m.phase, SessionPhase::Registering);

    let a = m.handle_event(SessionEvent::Welcome);
    assert_eq!(m.phase, SessionPhase::Authenticating);
    assert_eq!(a.len(), 1);
    assert!(matches!(a[0], SessionAction::SendIdentify));

    let a = m.handle_event(accepted_notice());
    assert_eq!(m.phase, SessionPhase::Joining);
    assert_eq!(a.len(), 1);
    assert!(matches!(a[0], SessionAction::SendJoin));

    let a = m.handle_event(names_end_response());
    assert_eq!(m.phase, SessionPhase::Ready);
    assert!(a.is_empty());
}

#[test]
fn out_of_order_events_do_not_advance() {
    let mut m = SessionMachine::new(false);
    m.start_registration();
    // the accepted notice and the membership marker arrive too early
    let a = m.handle_event(accepted_notice());
    assert_eq!(m.phase, SessionPhase::Registering);
    assert!(a.is_empty());
    let a = m.handle_event(names_end_response());
    assert_eq!(m.phase, SessionPhase::Registering);
    assert!(a.is_empty());
    // a welcome while joining is ignored as well
    m.handle_event(SessionEvent::Welcome);
    assert_eq!(m.phase, SessionPhase::Authenticating);
    let a = m.handle_event(SessionEvent::Welcome);
    assert_eq!(m.phase, SessionPhase::Authenticating);
    assert!(a.is_empty());
}

#[test]
fn unrecognized_notice_does_not_authenticate() {
    let mut m = SessionMachine::new(false);
    m.start_registration();
    m.handle_event(SessionEvent::Welcome);
    let a = m.handle_event(SessionEvent::Notice { content: "Password incorrect".to_string() });
    assert_eq!(m.phase, SessionPhase::Authenticating);
    assert!(a.is_empty());
    m.handle_event(accepted_notice());
    assert_eq!(m.phase, SessionPhase::Joining);
}

#[test]
fn response_without_marker_keeps_joining() {
    let mut m = SessionMachine::new(false);
    m.start_registration();
    m.handle_event(SessionEvent::Welcome);
    m.handle_event(accepted_notice());
    let a = m.handle_event(SessionEvent::Response { args: vec!["something else".to_string()] });
    assert_eq!(m.phase, SessionPhase::Joining);
    assert!(a.is_empty());
}

#[test]
fn keepalive_answered_in_every_phase() {
    let mut m = SessionMachine::new(false);
    m.start_registration();
    let a = m.handle_event(SessionEvent::Ping { server: "irc.example.org".to_string() });
    assert_eq!(m.phase, SessionPhase::Registering);
    assert_eq!(a.len(), 1);
    assert!(matches!(&a[0], SessionAction::SendPong { server } if server == "irc.example.org"));
    m.handle_event(SessionEvent::Welcome);
    let a = m.handle_event(SessionEvent::Ping { server: "s".to_string() });
    assert_eq!(m.phase, SessionPhase::Authenticating);
    assert!(matches!(&a[0], SessionAction::SendPong { .. }));
}

#[test]
fn oper_requested_on_ready_when_configured() {
    let mut m = SessionMachine::new(true);
    m.start_registration();
    m.handle_event(SessionEvent::Welcome);
    m.handle_event(accepted_notice());
    let a = m.handle_event(names_end_response());
    assert_eq!(m.phase, SessionPhase::Ready);
    assert_eq!(a.len(), 1);
    assert!(matches!(a[0], SessionAction::SendOper));
}

#[test]
fn other_events_are_drained_silently() {
    let mut m = SessionMachine::new(false);
    m.start_registration();
    let a = m.handle_event(SessionEvent::Other);
    assert_eq!(m.phase, SessionPhase::Registering);
    assert!(a.is_empty());
}
