//! Verified core of the 521C audio-control system: QCY protocol codecs, the central
//! write-authorization policy, transports, host-service decision logic and the
//! application core's state machine.

pub mod advertisement;
pub mod packet;
pub mod protocol;
pub mod text;
pub mod policy;
pub mod transport;
pub mod frame_reader;
pub mod mock;
pub mod rfcomm;
pub mod bluez;
pub mod device;
pub mod app_core;
pub mod host;
pub mod game_mode;
pub mod cli;
pub mod desktop;
pub mod config;
