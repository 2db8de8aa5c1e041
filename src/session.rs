//! The per-client session: the MAC assignment that follows the handshake,
//! the classification of frames received from the peer, and the state
//! machine that orders handshake, admission, negotiation and data transfer.
use crate::error::ProtoError;
use crate::framing::{
    classify_frame, classify_spec, frame_control, frame_ethernet, parse_control_frame,
    parse_control_spec, ControlType, OpCode,
};
use crate::mac::Mac;
use crate::noise::{decrypt, send_encrypted, TAG_LEN, MAX_PLAINTEXT};
use crate::wire::prefixed_spec;
use snow::TransportState;
use vstd::prelude::*;
use vstd::slice::slice_to_vec;

verus! {

/// The MAC carried by a plaintext `Control/AssignMac` frame with a six-byte
/// payload; `None` for anything else.
pub open spec fn assign_mac_spec(plain: Seq<u8>) -> Option<Seq<u8>> {
    if classify_spec(plain) == Some(OpCode::Control) {
        match parse_control_spec(plain) {
            Some((ControlType::AssignMac, payload)) => if payload.len() == 6 {
                Some(payload)
            } else {
                None
            },
            _ => None,
        }
    } else {
        None
    }
}

/// The plaintext frame that assigns `mac`.
pub open spec fn assign_mac_frame_spec(mac: Seq<u8>) -> Seq<u8> {
    seq![OpCode::Control.spec_byte(), ControlType::AssignMac.spec_byte()] + mac
}

/// The plaintext `Control/AssignMac` frame for `mac`.
pub fn assign_mac_frame(mac: &Mac) -> (r: Vec<u8>)
    ensures
        r@ == assign_mac_frame_spec(mac@),
{
    frame_control(ControlType::AssignMac, mac)
}

/// Reads the MAC out of the first frame the server sends after the
/// handshake; anything but a `Control/AssignMac` frame with a six-byte
/// payload is `BadHandshake`.
pub fn parse_assign_mac(plain: &[u8]) -> (r: Result<Mac, ProtoError>)
    ensures
        match r {
            Ok(mac) => assign_mac_spec(plain@) == Some(mac@),
            Err(e) => assign_mac_spec(plain@) is None && e == ProtoError::BadHandshake,
        },
{
    match classify_frame(plain) {
        Ok(OpCode::Control) => {},
        _ => return Err(ProtoError::BadHandshake),
    }
    let (ctrl, payload) = match parse_control_frame(plain) {
        Ok(parsed) => parsed,
        Err(_) => return Err(ProtoError::BadHandshake),
    };
    match ctrl {
        ControlType::AssignMac => {},
        _ => return Err(ProtoError::BadHandshake),
    }
    if payload.len() != 6 {
        return Err(ProtoError::BadHandshake);
    }
    let mac: Mac = [payload[0], payload[1], payload[2], payload[3], payload[4], payload[5]];
    assert(mac@ =~= payload@);
    Ok(mac)
}

/// The server's side of the negotiation: the sealed, length-prefixed
/// `Control/AssignMac` frame that hands the client its MAC.
pub fn client_negotiation(mac: &Mac, transport: &mut TransportState) -> (r: Result<
    Vec<u8>,
    ProtoError,
>)
    ensures
        match r {
            Ok(w) => exists|c: Seq<u8>|
                #![trigger prefixed_spec(c)]
                c.len() == 8 + TAG_LEN && w@ == prefixed_spec(c),
            Err(e) => e == ProtoError::TransportIo,
        },
{
    let frame = assign_mac_frame(mac);
    send_encrypted(transport, frame.as_slice())
}

/// The client's side of the negotiation: opens the first ciphertext from
/// the server and reads the MAC it assigns.
pub fn blackwire_handshake(transport: &mut TransportState, ciphertext: &[u8]) -> (r: Result<
    Mac,
    ProtoError,
>)
    ensures
        match r {
            Ok(mac) => exists|p: Seq<u8>|
                #![trigger assign_mac_spec(p)]
                p.len() + TAG_LEN == ciphertext@.len() && assign_mac_spec(p) == Some(mac@),
            Err(e) => e == ProtoError::DecryptFailed || (e == ProtoError::BadHandshake && exists|
                p: Seq<u8>,
            |
                #![trigger assign_mac_spec(p)]
                p.len() + TAG_LEN == ciphertext@.len() && assign_mac_spec(p) is None),
        },
        ciphertext@.len() < TAG_LEN ==> r == Err::<Mac, ProtoError>(ProtoError::DecryptFailed),
{
    let plain = decrypt(transport, ciphertext)?;
    parse_assign_mac(plain.as_slice())
}

/// Frames a plaintext Ethernet frame, seals it and prefixes its length:
/// the bytes to write to the peer for one frame taken from an outbox or a
/// TAP device.
pub fn seal_ethernet(transport: &mut TransportState, frame: &[u8]) -> (r: Result<
    Vec<u8>,
    ProtoError,
>)
    ensures
        match r {
            Ok(w) => exists|c: Seq<u8>|
                #![trigger prefixed_spec(c)]
                c.len() == frame@.len() + 1 + TAG_LEN && w@ == prefixed_spec(c),
            Err(e) => e == ProtoError::TransportIo,
        },
        frame@.len() >= MAX_PLAINTEXT ==> r is Err,
{
    let framed = frame_ethernet(frame);
    send_encrypted(transport, framed.as_slice())
}

/// The value of a `SessionAction`, with its bytes as a sequence.
pub enum Act {
    Nothing,
    CheckAdmission,
    SendAssignMac,
    Reject,
    StartTasks,
    Forward(Seq<u8>),
    Ignore,
    DropMalformed,
    Release,
    Abort,
}

/// What the caller has to do after a session step.
pub enum SessionAction {
    /// Nothing to do.
    Nothing,
    /// Reload the allow-list and check the client's static key against it.
    CheckAdmission,
    /// Register the client and send it one `Control/AssignMac` frame.
    SendAssignMac,
    /// Shut the connection down in both directions; nothing was registered.
    Reject,
    /// Start the upstream and downstream tasks.
    StartTasks,
    /// Deliver these Ethernet bytes to the TAP side.
    Forward(Vec<u8>),
    /// A well-formed frame that needs no handling.
    Ignore,
    /// A malformed frame: log it and go on.
    DropMalformed,
    /// The session ended: remove its table entry.
    Release,
    /// The handshake did not complete: close the connection.
    Abort,
}

impl View for SessionAction {
    type V = Act;

    open spec fn view(&self) -> Act {
        match self {
            SessionAction::Nothing => Act::Nothing,
            SessionAction::CheckAdmission => Act::CheckAdmission,
            SessionAction::SendAssignMac => Act::SendAssignMac,
            SessionAction::Reject => Act::Reject,
            SessionAction::StartTasks => Act::StartTasks,
            SessionAction::Forward(p) => Act::Forward(p@),
            SessionAction::Ignore => Act::Ignore,
            SessionAction::DropMalformed => Act::DropMalformed,
            SessionAction::Release => Act::Release,
            SessionAction::Abort => Act::Abort,
        }
    }
}

/// What a frame received from the peer asks for: an Ethernet frame with a
/// payload is forwarded without its opcode, an empty one is dropped,
/// control and IP frames need no handling, and a malformed frame is
/// skipped.
pub open spec fn inbound_spec(plain: Seq<u8>) -> Act {
    match classify_spec(plain) {
        None => Act::DropMalformed,
        Some(OpCode::Ethernet) => if plain.len() > 1 {
            Act::Forward(plain.subrange(1, plain.len() as int))
        } else {
            Act::Ignore
        },
        Some(OpCode::Control) => if parse_control_spec(plain) is None {
            Act::DropMalformed
        } else {
            Act::Ignore
        },
        Some(OpCode::IP) => Act::Ignore,
    }
}

/// Classifies one decrypted frame received from the peer.
pub fn classify_inbound(plain: &[u8]) -> (r: SessionAction)
    ensures
        r@ == inbound_spec(plain@),
{
    match classify_frame(plain) {
        Err(_) => SessionAction::DropMalformed,
        Ok(OpCode::Ethernet) => {
            if plain.len() > 1 {
                SessionAction::Forward(slice_to_vec(&plain[1..plain.len()]))
            } else {
                SessionAction::Ignore
            }
        },
        Ok(OpCode::Control) => match parse_control_frame(plain) {
            Err(_) => SessionAction::DropMalformed,
            Ok(_) => SessionAction::Ignore,
        },
        Ok(OpCode::IP) => SessionAction::Ignore,
    }
}

} // verus!

verus! {

/// Why a session ended.
#[derive(Debug, Clone, Copy, PartialEq, Eq, Structural)]
pub enum CloseReason {
    HandshakeFailed,
    Unauthorized,
    Disconnected,
}

/// The server's view of one client connection.
#[derive(Debug, Clone, Copy, PartialEq, Eq, Structural)]
pub enum SessionState {
    Connected,
    Authenticated,
    Admitted,
    Negotiated,
    Running,
    Closed(CloseReason),
}

/// What happened to a session.
pub enum SessionEvent {
    /// The Noise handshake completed.
    HandshakeCompleted,
    /// The Noise handshake failed.
    HandshakeError,
    /// The allow-list was consulted for the client's static key.
    AdmissionChecked(bool),
    /// The `Control/AssignMac` frame went out.
    AssignMacSent,
    /// The upstream and downstream tasks are running.
    TasksStarted,
    /// A frame arrived from the peer and was decrypted.
    Received(Vec<u8>),
    /// An I/O or decryption error that ends the session.
    Fatal,
}

/// One transition of the session state machine.
pub open spec fn step_spec(s: SessionState, e: SessionEvent) -> (SessionState, Act) {
    match (s, e) {
        (SessionState::Closed(_), _) => (s, Act::Nothing),
        (SessionState::Connected, SessionEvent::HandshakeCompleted) => (
            SessionState::Authenticated,
            Act::CheckAdmission,
        ),
        (SessionState::Connected, SessionEvent::HandshakeError) => (
            SessionState::Closed(CloseReason::HandshakeFailed),
            Act::Abort,
        ),
        (SessionState::Connected, SessionEvent::Fatal) => (
            SessionState::Closed(CloseReason::HandshakeFailed),
            Act::Abort,
        ),
        (SessionState::Authenticated, SessionEvent::AdmissionChecked(allowed)) => if allowed {
            (SessionState::Admitted, Act::SendAssignMac)
        } else {
            (SessionState::Closed(CloseReason::Unauthorized), Act::Reject)
        },
        (SessionState::Authenticated, SessionEvent::Fatal) => (
            SessionState::Closed(CloseReason::Disconnected),
            Act::Abort,
        ),
        (SessionState::Admitted, SessionEvent::AssignMacSent) => (
            SessionState::Negotiated,
            Act::StartTasks,
        ),
        (SessionState::Negotiated, SessionEvent::TasksStarted) => (
            SessionState::Running,
            Act::Nothing,
        ),
        (SessionState::Running, SessionEvent::Received(p)) => (
            SessionState::Running,
            inbound_spec(p@),
        ),
        (SessionState::Admitted, SessionEvent::Fatal) => (
            SessionState::Closed(CloseReason::Disconnected),
            Act::Release,
        ),
        (SessionState::Negotiated, SessionEvent::Fatal) => (
            SessionState::Closed(CloseReason::Disconnected),
            Act::Release,
        ),
        (SessionState::Running, SessionEvent::Fatal) => (
            SessionState::Closed(CloseReason::Disconnected),
            Act::Release,
        ),
        _ => (s, Act::Nothing),
    }
}

/// The state reached and the actions asked for when `events` happen in
/// turn, starting from `s`.
pub open spec fn run(s: SessionState, events: Seq<SessionEvent>) -> (SessionState, Seq<Act>)
    decreases events.len(),
{
    if events.len() == 0 {
        (s, Seq::empty())
    } else {
        let prev = run(s, events.drop_last());
        let next = step_spec(prev.0, events.last());
        (next.0, prev.1.push(next.1))
    }
}

impl SessionState {
    /// A freshly accepted connection.
    pub fn new() -> (r: SessionState)
        ensures
            r == SessionState::Connected,
    {
        SessionState::Connected
    }

    /// Whether the session has ended.
    pub fn is_closed(&self) -> (r: bool)
        ensures
            r == (*self is Closed),
    {
        match self {
            SessionState::Closed(_) => true,
            _ => false,
        }
    }

    /// Applies one event: the next state, and what the caller has to do.
    pub fn step(self, event: SessionEvent) -> (r: (SessionState, SessionAction))
        ensures
            (r.0, r.1@) == step_spec(self, event),
    {
        match (self, event) {
            (SessionState::Closed(_), _) => (self, SessionAction::Nothing),
            (SessionState::Connected, SessionEvent::HandshakeCompleted) => (
                SessionState::Authenticated,
                SessionAction::CheckAdmission,
            ),
            (SessionState::Connected, SessionEvent::HandshakeError) => (
                SessionState::Closed(CloseReason::HandshakeFailed),
                SessionAction::Abort,
            ),
            (SessionState::Connected, SessionEvent::Fatal) => (
                SessionState::Closed(CloseReason::HandshakeFailed),
                SessionAction::Abort,
            ),
            (SessionState::Authenticated, SessionEvent::AdmissionChecked(allowed)) => {
                if allowed {
                    (SessionState::Admitted, SessionAction::SendAssignMac)
                } else {
                    (SessionState::Closed(CloseReason::Unauthorized), SessionAction::Reject)
                }
            },
            (SessionState::Authenticated, SessionEvent::Fatal) => (
                SessionState::Closed(CloseReason::Disconnected),
                SessionAction::Abort,
            ),
            (SessionState::Admitted, SessionEvent::AssignMacSent) => (
                SessionState::Negotiated,
                SessionAction::StartTasks,
            ),
            (SessionState::Negotiated, SessionEvent::TasksStarted) => (
                SessionState::Running,
                SessionAction::Nothing,
            ),
            (SessionState::Running, SessionEvent::Received(p)) => (
                SessionState::Running,
                classify_inbound(p.as_slice()),
            ),
            (SessionState::Admitted, SessionEvent::Fatal) => (
                SessionState::Closed(CloseReason::Disconnected),
                SessionAction::Release,
            ),
            (SessionState::Negotiated, SessionEvent::Fatal) => (
                SessionState::Closed(CloseReason::Disconnected),
                SessionAction::Release,
            ),
            (SessionState::Running, SessionEvent::Fatal) => (
                SessionState::Closed(CloseReason::Disconnected),
                SessionAction::Release,
            ),
            _ => (self, SessionAction::Nothing),
        }
    }
}

/// Number of `SendAssignMac` actions in `acts`.
pub open spec fn assign_count(acts: Seq<Act>) -> nat
    decreases acts.len(),
{
    if acts.len() == 0 {
        0
    } else {
        assign_count(acts.drop_last()) + if acts.last() is SendAssignMac {
            1nat
        } else {
            0nat
        }
    }
}

/// Whether the state lies past admission.
pub open spec fn is_admitted(s: SessionState) -> bool {
    s is Admitted || s is Negotiated || s is Running
}

/// Whether the event is a successful admission check.
pub open spec fn is_admission_granted(e: SessionEvent) -> bool {
    match e {
        SessionEvent::AdmissionChecked(allowed) => allowed,
        _ => false,
    }
}

/// Whether some event of `events` is a successful admission check.
pub open spec fn admitted_by(events: Seq<SessionEvent>) -> bool {
    exists|i: int| 0 <= i < events.len() && is_admission_granted(#[trigger] events[i])
}

/// Along any run of a new session, the server asks for at most one
/// `Control/AssignMac`, and a session past admission has asked for exactly
/// one.
pub proof fn lemma_assign_mac_at_most_once(events: Seq<SessionEvent>)
    ensures
        assign_count(run(SessionState::Connected, events).1) <= 1,
        is_admitted(run(SessionState::Connected, events).0) ==> assign_count(
            run(SessionState::Connected, events).1,
        ) == 1,
        (run(SessionState::Connected, events).0 is Connected || run(
            SessionState::Connected,
            events,
        ).0 is Authenticated) ==> assign_count(run(SessionState::Connected, events).1) == 0,
    decreases events.len(),
{
    if events.len() > 0 {
        lemma_assign_mac_at_most_once(events.drop_last());
        let prev = run(SessionState::Connected, events.drop_last());
        let acts = run(SessionState::Connected, events).1;
        assert(acts.drop_last() == prev.1);
    }
}

/// Without a successful admission check, a session never gets past
/// admission and never forwards a frame.
pub proof fn lemma_no_admission_no_forwarding(events: Seq<SessionEvent>)
    requires
        !admitted_by(events),
    ensures
        !is_admitted(run(SessionState::Connected, events).0),
        forall|i: int|
            0 <= i < run(SessionState::Connected, events).1.len() ==> !(#[trigger] run(
                SessionState::Connected,
                events,
            ).1[i] is Forward),
    decreases events.len(),
{
    if events.len() > 0 {
        let init = events.drop_last();
        assert(!admitted_by(init)) by {
            if admitted_by(init) {
                let i = choose|i: int| 0 <= i < init.len() && is_admission_granted(#[trigger] init[i]);
                assert(events[i] == init[i]);
            }
        }
        lemma_no_admission_no_forwarding(init);
        let last = events.last();
        assert(!is_admission_granted(last)) by {
            assert(events[events.len() - 1] == last);
        }
    }
}

/// A run that starts in `Closed` stays there and asks for nothing.
pub proof fn lemma_closed_is_final(r: CloseReason, events: Seq<SessionEvent>)
    ensures
        run(SessionState::Closed(r), events).0 == SessionState::Closed(r),
        forall|i: int|
            0 <= i < run(SessionState::Closed(r), events).1.len() ==> #[trigger] run(
                SessionState::Closed(r),
                events,
            ).1[i] == Act::Nothing,
    decreases events.len(),
{
    if events.len() > 0 {
        lemma_closed_is_final(r, events.drop_last());
    }
}

/// A client whose static key is refused is shut out: the connection is
/// rejected, the session closes as unauthorized, and whatever happens next
/// it neither asks for a MAC assignment nor forwards a frame.
pub proof fn lemma_unauthorized_is_shut_out(events: Seq<SessionEvent>)
    ensures
        step_spec(SessionState::Authenticated, SessionEvent::AdmissionChecked(false)) == (
            SessionState::Closed(CloseReason::Unauthorized),
            Act::Reject,
        ),
        run(SessionState::Closed(CloseReason::Unauthorized), events).0 == SessionState::Closed(
            CloseReason::Unauthorized,
        ),
        forall|i: int|
            0 <= i < run(SessionState::Closed(CloseReason::Unauthorized), events).1.len()
                ==> #[trigger] run(SessionState::Closed(CloseReason::Unauthorized), events).1[i]
                == Act::Nothing,
{
    lemma_closed_is_final(CloseReason::Unauthorized, events);
}

} // verus!

verus! {

/// The frame the server builds for a MAC is read back by the client as
/// that same MAC.
pub proof fn lemma_assign_mac_round_trip(mac: Seq<u8>)
    requires
        mac.len() == 6,
    ensures
        assign_mac_spec(assign_mac_frame_spec(mac)) == Some(mac),
{
    let f = assign_mac_frame_spec(mac);
    assert(f.subrange(2, f.len() as int) =~= mac);
}

/// An encoded Ethernet frame with a payload is forwarded as exactly that
/// payload; an empty one is dropped.
pub proof fn lemma_ethernet_forwarded_whole(payload: Seq<u8>)
    ensures
        payload.len() > 0 ==> inbound_spec(seq![OpCode::Ethernet.spec_byte()] + payload)
            == Act::Forward(payload),
        payload.len() == 0 ==> inbound_spec(seq![OpCode::Ethernet.spec_byte()] + payload)
            == Act::Ignore,
{
    let f = seq![OpCode::Ethernet.spec_byte()] + payload;
    assert(f.subrange(1, f.len() as int) =~= payload);
}

} // verus!
