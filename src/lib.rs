//! Tunnel protocol machinery of a layer-2 VPN: plaintext frame codec,
//! length-prefixed wire codec, Noise_IK sessions, MAC allocation, the
//! server's client table, LAN demultiplexing and the per-client session
//! state machine.
pub mod auth;
pub mod demux;
pub mod error;
pub mod framing;
pub mod mac;
pub mod noise;
pub mod session;
pub mod table;
pub mod tap;
pub mod wire;

pub use error::ProtoError;
pub use framing::{
    classify_frame, frame_control, frame_ethernet, frame_ip, parse_control_frame, ControlType,
    OpCode,
};
