use blackwire::session::{
    assign_mac_frame, classify_inbound, parse_assign_mac, CloseReason, SessionAction,
    SessionEvent, SessionState,
};
use blackwire::ProtoError;

fn admitted() -> SessionState {
    let s = SessionState::new();
    let (s, _) = s.step(SessionEvent::HandshakeCompleted);
    let (s, _) = s.step(SessionEvent::AdmissionChecked(true));
    s
}

#[test]
fn assign_mac_frame_bytes() {
    assert_eq!(
        assign_mac_frame(&[0x02, 0x11, 0x22, 0x33, 0x44, 0x55]),
        vec![0, 1, 0x02, 0x11, 0x22, 0x33, 0x44, 0x55]
    );
}

#[test]
fn assign_mac_parses_back() {
    let mac = [0x02, 0x11, 0x22, 0x33, 0x44, 0x55];
    assert_eq!(parse_assign_mac(&assign_mac_frame(&mac)), Ok(mac));
}

#[test]
fn bad_assign_mac_frames() {
    assert_eq!(parse_assign_mac(&[0, 1, 1, 2, 3, 4, 5]), Err(ProtoError::BadHandshake));
    assert_eq!(parse_assign_mac(&[0, 1, 1, 2, 3, 4, 5, 6, 7]), Err(ProtoError::BadHandshake));
    assert_eq!(parse_assign_mac(&[0, 2, 1, 2, 3, 4, 5, 6]), Err(ProtoError::BadHandshake));
    assert_eq!(parse_assign_mac(&[1, 1, 1, 2, 3, 4, 5, 6]), Err(ProtoError::BadHandshake));
    assert_eq!(parse_assign_mac(&[9, 1, 1, 2, 3, 4, 5, 6]), Err(ProtoError::BadHandshake));
    assert_eq!(parse_assign_mac(&[]), Err(ProtoError::BadHandshake));
}

#[test]
fn inbound_ethernet_is_forwarded_without_opcode() {
    match classify_inbound(&[1, 0xde, 0xad]) {
        SessionAction::Forward(p) => assert_eq!(p, vec![0xde, 0xad]),
        _ => panic!("expected a forward"),
    }
}

#[test]
fn inbound_other_frames() {
    assert!(matches!(classify_inbound(&[1]), SessionAction::Ignore));
    assert!(matches!(classify_inbound(&[2, 1, 2]), SessionAction::Ignore));
    assert!(matches!(classify_inbound(&[0, 2]), SessionAction::Ignore));
    assert!(matches!(classify_inbound(&[0, 1, 2, 3, 4, 5, 6, 7]), SessionAction::Ignore));
    assert!(matches!(classify_inbound(&[0]), SessionAction::DropMalformed));
    assert!(matches!(classify_inbound(&[0, 9]), SessionAction::DropMalformed));
    assert!(matches!(classify_inbound(&[7, 1]), SessionAction::DropMalformed));
    assert!(matches!(classify_inbound(&[]), SessionAction::DropMalformed));
}

#[test]
fn admitted_session_runs() {
    let s = SessionState::new();
    assert_eq!(s, SessionState::Connected);
    let (s, a) = s.step(SessionEvent::HandshakeCompleted);
    assert_eq!(s, SessionState::Authenticated);
    assert!(matches!(a, SessionAction::CheckAdmission));
    let (s, a) = s.step(SessionEvent::AdmissionChecked(true));
    assert_eq!(s, SessionState::Admitted);
    assert!(matches!(a, SessionAction::SendAssignMac));
    let (s, a) = s.step(SessionEvent::AssignMacSent);
    assert_eq!(s, SessionState::Negotiated);
    assert!(matches!(a, SessionAction::StartTasks));
    let (s, _) = s.step(SessionEvent::TasksStarted);
    assert_eq!(s, SessionState::Running);
    let (s, a) = s.step(SessionEvent::Received(vec![1, 9, 9]));
    assert_eq!(s, SessionState::Running);
    assert!(matches!(a, SessionAction::Forward(ref p) if *p == vec![9, 9]));
    let (s, a) = s.step(SessionEvent::Fatal);
    assert_eq!(s, SessionState::Closed(CloseReason::Disconnected));
    assert!(matches!(a, SessionAction::Release));
    assert!(s.is_closed());
}

#[test]
fn refused_session_is_rejected_and_stays_closed() {
    let (s, _) = SessionState::new().step(SessionEvent::HandshakeCompleted);
    let (s, a) = s.step(SessionEvent::AdmissionChecked(false));
    assert_eq!(s, SessionState::Closed(CloseReason::Unauthorized));
    assert!(matches!(a, SessionAction::Reject));
    let (s, a) = s.step(SessionEvent::AdmissionChecked(true));
    assert!(matches!(a, SessionAction::Nothing));
    let (s, a) = s.step(SessionEvent::Received(vec![1, 2, 3]));
    assert!(matches!(a, SessionAction::Nothing));
    assert_eq!(s, SessionState::Closed(CloseReason::Unauthorized));
}

#[test]
fn handshake_failure_aborts() {
    let (s, a) = SessionState::new().step(SessionEvent::HandshakeError);
    assert_eq!(s, SessionState::Closed(CloseReason::HandshakeFailed));
    assert!(matches!(a, SessionAction::Abort));
}

#[test]
fn assign_mac_is_asked_for_once() {
    let mut s = SessionState::new();
    let mut count = 0;
    let events = vec![
        SessionEvent::HandshakeCompleted,
        SessionEvent::AdmissionChecked(true),
        SessionEvent::AdmissionChecked(true),
        SessionEvent::HandshakeCompleted,
        SessionEvent::AssignMacSent,
        SessionEvent::AdmissionChecked(true),
        SessionEvent::TasksStarted,
        SessionEvent::AdmissionChecked(true),
    ];
    for e in events {
        let (next, a) = s.step(e);
        if matches!(a, SessionAction::SendAssignMac) {
            count += 1;
        }
        s = next;
    }
    assert_eq!(count, 1);
    assert_eq!(s, SessionState::Running);
}

#[test]
fn data_before_running_is_not_forwarded() {
    let s = admitted();
    let (s, a) = s.step(SessionEvent::Received(vec![1, 2, 3]));
    assert!(matches!(a, SessionAction::Nothing));
    assert_eq!(s, SessionState::Admitted);
}
