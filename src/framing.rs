//! Plaintext frames: `[opcode][payload]`, and for control frames
//! `[0][control type][payload]`.
use crate::error::ProtoError;
use vstd::prelude::*;

verus! {

/// The first byte of every plaintext frame.
#[derive(Debug, Clone, Copy, PartialEq, Eq, Structural)]
pub enum OpCode {
    Control,
    Ethernet,
    IP,
}

/// The second byte of a control frame.
#[derive(Debug, Clone, Copy, PartialEq, Eq, Structural)]
pub enum ControlType {
    Handshake,
    AssignMac,
    Pong,
}

/// The opcode that a byte stands for, if any.
pub open spec fn opcode_of(b: u8) -> Option<OpCode> {
    if b == 0 {
        Some(OpCode::Control)
    } else if b == 1 {
        Some(OpCode::Ethernet)
    } else if b == 2 {
        Some(OpCode::IP)
    } else {
        None
    }
}

/// The control type that a byte stands for, if any.
pub open spec fn control_type_of(b: u8) -> Option<ControlType> {
    if b == 0 {
        Some(ControlType::Handshake)
    } else if b == 1 {
        Some(ControlType::AssignMac)
    } else if b == 2 {
        Some(ControlType::Pong)
    } else {
        None
    }
}

impl OpCode {
    pub open spec fn spec_byte(self) -> u8 {
        match self {
            OpCode::Control => 0,
            OpCode::Ethernet => 1,
            OpCode::IP => 2,
        }
    }

    /// The byte that encodes this opcode.
    pub fn as_byte(self) -> (r: u8)
        ensures
            r == self.spec_byte(),
    {
        match self {
            OpCode::Control => 0,
            OpCode::Ethernet => 1,
            OpCode::IP => 2,
        }
    }

    /// Decodes an opcode byte; any byte but 0, 1 and 2 is malformed.
    pub fn try_from(value: u8) -> (r: Result<OpCode, ProtoError>)
        ensures
            match r {
                Ok(op) => opcode_of(value) == Some(op),
                Err(e) => opcode_of(value) is None && e == ProtoError::MalformedFrame,
            },
    {
        match value {
            0 => Ok(OpCode::Control),
            1 => Ok(OpCode::Ethernet),
            2 => Ok(OpCode::IP),
            _ => Err(ProtoError::MalformedFrame),
        }
    }
}

impl ControlType {
    pub open spec fn spec_byte(self) -> u8 {
        match self {
            ControlType::Handshake => 0,
            ControlType::AssignMac => 1,
            ControlType::Pong => 2,
        }
    }

    /// The byte that encodes this control type.
    pub fn as_byte(self) -> (r: u8)
        ensures
            r == self.spec_byte(),
    {
        match self {
            ControlType::Handshake => 0,
            ControlType::AssignMac => 1,
            ControlType::Pong => 2,
        }
    }

    /// Decodes a control-type byte; any byte but 0, 1 and 2 is malformed.
    pub fn try_from(value: u8) -> (r: Result<ControlType, ProtoError>)
        ensures
            match r {
                Ok(ct) => control_type_of(value) == Some(ct),
                Err(e) => control_type_of(value) is None && e == ProtoError::MalformedFrame,
            },
    {
        match value {
            0 => Ok(ControlType::Handshake),
            1 => Ok(ControlType::AssignMac),
            2 => Ok(ControlType::Pong),
            _ => Err(ProtoError::MalformedFrame),
        }
    }
}

/// The opcode of a frame, or `None` when the frame is malformed.
pub open spec fn classify_spec(frame: Seq<u8>) -> Option<OpCode> {
    if frame.len() < 1 {
        None
    } else {
        opcode_of(frame[0])
    }
}

/// The control type and payload of a control frame, or `None` when the frame
/// is too short or its control type is unknown.
pub open spec fn parse_control_spec(frame: Seq<u8>) -> Option<(ControlType, Seq<u8>)> {
    if frame.len() < 2 {
        None
    } else {
        match control_type_of(frame[1]) {
            Some(ct) => Some((ct, frame.subrange(2, frame.len() as int))),
            None => None,
        }
    }
}

/// `prefix` followed by the bytes of `data`.
fn prefixed(prefix: &[u8], data: &[u8]) -> (r: Vec<u8>)
    ensures
        r@ == prefix@ + data@,
{
    let mut msg: Vec<u8> = Vec::new();
    let mut i: usize = 0;
    while i < prefix.len()
        invariant
            i <= prefix@.len(),
            msg@ == prefix@.subrange(0, i as int),
        decreases prefix@.len() - i,
    {
        msg.push(prefix[i]);
        i = i + 1;
    }
    let mut j: usize = 0;
    while j < data.len()
        invariant
            j <= data@.len(),
            msg@ == prefix@ + data@.subrange(0, j as int),
        decreases data@.len() - j,
    {
        msg.push(data[j]);
        j = j + 1;
        assert(data@.subrange(0, j as int) == data@.subrange(0, j - 1) + seq![data@[j - 1]]);
    }
    assert(data@.subrange(0, data@.len() as int) == data@);
    msg
}

/// Frames an Ethernet payload: opcode 1 followed by the payload.
pub fn frame_ethernet(data: &[u8]) -> (r: Vec<u8>)
    ensures
        r@ == seq![OpCode::Ethernet.spec_byte()] + data@,
{
    let head: [u8; 1] = [OpCode::Ethernet.as_byte()];
    prefixed(&head, data)
}

/// Frames an IP payload: opcode 2 followed by the payload.
pub fn frame_ip(data: &[u8]) -> (r: Vec<u8>)
    ensures
        r@ == seq![OpCode::IP.spec_byte()] + data@,
{
    let head: [u8; 1] = [OpCode::IP.as_byte()];
    prefixed(&head, data)
}

/// Frames a control message: opcode 0, the control type, then the payload.
pub fn frame_control(ctrl: ControlType, data: &[u8]) -> (r: Vec<u8>)
    ensures
        r@ == seq![OpCode::Control.spec_byte(), ctrl.spec_byte()] + data@,
{
    let head: [u8; 2] = [OpCode::Control.as_byte(), ctrl.as_byte()];
    prefixed(&head, data)
}

/// Reads the opcode of a frame.
pub fn classify_frame(data: &[u8]) -> (r: Result<OpCode, ProtoError>)
    ensures
        match r {
            Ok(op) => classify_spec(data@) == Some(op),
            Err(e) => classify_spec(data@) is None && e == ProtoError::MalformedFrame,
        },
{
    if data.len() < 1 {
        return Err(ProtoError::MalformedFrame);
    }
    OpCode::try_from(data[0])
}

/// Splits a control frame into its control type and payload.
pub fn parse_control_frame(data: &[u8]) -> (r: Result<(ControlType, &[u8]), ProtoError>)
    ensures
        match r {
            Ok((ct, payload)) => parse_control_spec(data@) == Some((ct, payload@)),
            Err(e) => parse_control_spec(data@) is None && e == ProtoError::MalformedFrame,
        },
{
    if data.len() < 2 {
        return Err(ProtoError::MalformedFrame);
    }
    let ctrl_type = ControlType::try_from(data[1])?;
    let payload = &data[2..data.len()];
    Ok((ctrl_type, payload))
}

} // verus!

verus! {

/// Decoding an encoded Ethernet frame gives back opcode 1 and the payload;
/// the same holds for IP frames with opcode 2.
pub proof fn lemma_data_frame_round_trip(payload: Seq<u8>)
    ensures
        classify_spec(seq![OpCode::Ethernet.spec_byte()] + payload) == Some(OpCode::Ethernet),
        (seq![OpCode::Ethernet.spec_byte()] + payload).subrange(1, payload.len() + 1int) == payload,
        classify_spec(seq![OpCode::IP.spec_byte()] + payload) == Some(OpCode::IP),
        (seq![OpCode::IP.spec_byte()] + payload).subrange(1, payload.len() + 1int) == payload,
{
    assert((seq![OpCode::Ethernet.spec_byte()] + payload).subrange(1, payload.len() + 1int)
        =~= payload);
    assert((seq![OpCode::IP.spec_byte()] + payload).subrange(1, payload.len() + 1int) =~= payload);
}

/// Decoding an encoded control frame gives back opcode 0, its control type
/// and its payload.
pub proof fn lemma_control_frame_round_trip(ct: ControlType, payload: Seq<u8>)
    ensures
        classify_spec(seq![OpCode::Control.spec_byte(), ct.spec_byte()] + payload) == Some(
            OpCode::Control,
        ),
        parse_control_spec(seq![OpCode::Control.spec_byte(), ct.spec_byte()] + payload) == Some(
            (ct, payload),
        ),
{
    let f = seq![OpCode::Control.spec_byte(), ct.spec_byte()] + payload;
    assert(f.subrange(2, f.len() as int) =~= payload);
}

/// Every frame whose first byte is not 0, 1 or 2 is malformed.
pub proof fn lemma_unknown_opcode_is_malformed(frame: Seq<u8>)
    requires
        frame.len() >= 1,
        frame[0] != 0 && frame[0] != 1 && frame[0] != 2,
    ensures
        classify_spec(frame) is None,
{
}

} // verus!
