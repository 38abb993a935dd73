//! Driver-station side of the robot control protocol: wire encoders and
//! decoders for the UDP control/status datagrams and the TCP tag frames, the
//! send-state machine that composes outbound packets, and the receive-state
//! that records what the robot last reported.

pub mod types;
pub mod wire;
pub mod udp_out;
pub mod control_decode;
pub mod send;
pub mod udp_in;
pub mod tcp;
pub mod team;
