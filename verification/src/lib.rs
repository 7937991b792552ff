//! Bridges a serial joystick stream to virtual input-device events.

pub mod bridge;
pub mod decode;
pub mod events;
pub mod framing;
pub mod mapping;
pub mod reassembler;
pub mod record;
pub mod setup;
pub mod text;
