//! The device session and telemetry protocol engine of a host that
//! analyses the chips of mobile devices.
//!
//! The engine keeps a registry of the devices it knows and of their
//! connection state, serves the message protocol of each connected device,
//! and fans the telemetry that it accepts out to local subscribers. It does
//! no input or output itself: the caller reads frames, runs the bridging
//! tool and sends replies, and asks the engine what to do at each step.
//!
//! - [`device`]: device records, the connection-state graph, the registry.
//! - [`session`]: the state machine of one connection.
//! - [`protocol`]: the frames of the wire protocol, read and written.
//! - [`telemetry`]: events and the bounded bus that carries them.
//! - [`bridge`]: the table of local ports that forward to devices.
//! - [`control`]: what a request to connect, disconnect or copy does.
//! - [`adb`]: the commands of the bridging tool and what it prints.
//! - [`metrics`]: result records made of whole numbers.
//! - [`json`]: what is taken on trust from `serde_json`.
//! - [`text`]: comparison of strings and decimal numerals.

pub mod adb;
pub mod bridge;
pub mod control;
pub mod device;
pub mod json;
pub mod metrics;
pub mod protocol;
pub mod session;
pub mod telemetry;
pub mod text;
