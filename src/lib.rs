//! Control and telemetry link for an AR.Drone style quadcopter.
//!
//! The library holds the decisions of the link: how commands are encoded and
//! paced, how telemetry packets are decoded and merged, how configuration
//! lines are ingested, and the vehicle facade that produces commands. Sockets,
//! threads and channels live with the caller, which hands the library plain
//! values and performs the actions it returns.

pub mod config;
pub mod dispatch;
pub mod drone;
pub mod format;
pub mod navdata;
pub mod option_map;

pub use format::{format_command, format_int, format_str, format_string, format_uint};
pub use dispatch::{Action, Command, Dispatcher, Message, Poll};
pub use option_map::OptionMap;
pub use navdata::{decode_packet, DecodeError, DemoOptions, NavData, NavDataOption, NavDataValue, Packet};
pub use config::DroneConfig;
pub use drone::{Drone, LinkPhase, VideoCodec, Worker};
