//! Remote control of Sennheiser Sound Control (SSC) devices.
//!
//! SSC addresses every setting of a device by a slash separated path such as
//! `/device/identity/serial`. A request for a path is a JSON object that nests
//! one single-key object per path component around the value; the device
//! answers in the same shape. This crate holds the verified logic of that
//! protocol: path handling, building request messages, unpacking replies,
//! walking the schema tree of a device, and deciding which mDNS service
//! announcements describe SSC devices.

pub mod outside;
pub mod error;
pub mod path;
pub mod json;
pub mod message;
pub mod discovery;
pub mod cli;

pub use discovery::{DiscoveredDevice, Protocol, SSCVersion};
pub use error::SscError;
pub use json::JsonValue;
pub use message::ListNode;
