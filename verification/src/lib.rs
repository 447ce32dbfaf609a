//! A gamepad input abstraction layer.
//!
//! The crate discovers game controllers, translates their heterogeneous
//! hardware button and axis numbering into one canonical vocabulary through
//! community-authored mapping definitions, and turns their native event
//! records into a stream of canonical press/release/axis-change and
//! connect/disconnect events with queryable per-device state.
//!
//! Everything that decides or computes lives here and is verified; the
//! platform's device I/O (opening handles, ioctls, reading records) is left
//! to the embedding program, which hands plain values in and out.

pub mod axis;
pub mod ev;
pub mod gamepad;
pub mod gilrs;
pub mod identity;
pub mod mapping;
pub mod text;

pub use ev::{Axis, AxisValue, Button, Event};
pub use gamepad::{Gamepad, InputRecord, PowerInfo, Status};
pub use mapping::{Kind, Mapping, MappingDb, ParseSdlMappingError};
