use blackwire::framing::{
    classify_frame, frame_control, frame_ethernet, frame_ip, parse_control_frame, ControlType,
    OpCode,
};
use blackwire::ProtoError;

#[test]
fn ethernet_frame_is_opcode_then_payload() {
    assert_eq!(frame_ethernet(&[0xaa, 0xbb]), vec![1, 0xaa, 0xbb]);
    assert_eq!(frame_ethernet(&[]), vec![1]);
}

#[test]
fn ip_frame_is_opcode_then_payload() {
    assert_eq!(frame_ip(&[9, 8, 7]), vec![2, 9, 8, 7]);
}

#[test]
fn control_frame_has_type_byte() {
    assert_eq!(
        frame_control(ControlType::AssignMac, &[2, 0x11, 0x22, 0x33, 0x44, 0x55]),
        vec![0, 1, 2, 0x11, 0x22, 0x33, 0x44, 0x55]
    );
    assert_eq!(frame_control(ControlType::Handshake, &[]), vec![0, 0]);
    assert_eq!(frame_control(ControlType::Pong, &[7]), vec![0, 2, 7]);
}

#[test]
fn classify_reads_known_opcodes() {
    assert_eq!(classify_frame(&[0, 1]), Ok(OpCode::Control));
    assert_eq!(classify_frame(&[1]), Ok(OpCode::Ethernet));
    assert_eq!(classify_frame(&[2, 5, 5]), Ok(OpCode::IP));
}

#[test]
fn classify_rejects_empty_frame() {
    assert_eq!(classify_frame(&[]), Err(ProtoError::MalformedFrame));
}

#[test]
fn every_unknown_opcode_is_malformed() {
    for b in 3u8..=255 {
        assert_eq!(classify_frame(&[b, 0, 0]), Err(ProtoError::MalformedFrame));
        assert_eq!(OpCode::try_from(b), Err(ProtoError::MalformedFrame));
    }
}

#[test]
fn opcode_and_control_bytes() {
    assert_eq!(OpCode::Control.as_byte(), 0);
    assert_eq!(OpCode::Ethernet.as_byte(), 1);
    assert_eq!(OpCode::IP.as_byte(), 2);
    assert_eq!(ControlType::try_from(0), Ok(ControlType::Handshake));
    assert_eq!(ControlType::try_from(1), Ok(ControlType::AssignMac));
    assert_eq!(ControlType::try_from(2), Ok(ControlType::Pong));
    assert_eq!(ControlType::try_from(3), Err(ProtoError::MalformedFrame));
}

#[test]
fn parse_control_splits_type_and_payload() {
    let frame = [0u8, 2, 9, 9];
    let (ct, payload) = parse_control_frame(&frame).unwrap();
    assert_eq!(ct, ControlType::Pong);
    assert_eq!(payload, &[9, 9]);
}

#[test]
fn parse_control_rejects_short_and_unknown() {
    assert_eq!(parse_control_frame(&[0]).err(), Some(ProtoError::MalformedFrame));
    assert_eq!(parse_control_frame(&[]).err(), Some(ProtoError::MalformedFrame));
    assert_eq!(parse_control_frame(&[0, 7, 1]).err(), Some(ProtoError::MalformedFrame));
}

#[test]
fn codec_round_trip() {
    let payload: Vec<u8> = (0..200u32).map(|i| (i * 7) as u8).collect();
    let eth = frame_ethernet(&payload);
    assert_eq!(classify_frame(&eth), Ok(OpCode::Ethernet));
    assert_eq!(&eth[1..], payload.as_slice());
    let ctl = frame_control(ControlType::AssignMac, &payload);
    assert_eq!(classify_frame(&ctl), Ok(OpCode::Control));
    let (ct, p) = parse_control_frame(&ctl).unwrap();
    assert_eq!(ct, ControlType::AssignMac);
    assert_eq!(p, payload.as_slice());
}
