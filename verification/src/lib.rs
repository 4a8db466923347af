//! Real-time telemetry from sim-racing titles (iRacing, Assetto Corsa Evo,
//! Le Mans Ultimate): the decoding, bookkeeping and command-packing logic,
//! with its behaviour stated as contracts and proved.
//!
//! Shared-memory access and Win32 calls live outside this crate's verified
//! part; everything here works on plain values handed in by the caller.
//!
//! - [`iracing`]: the remote-control messages, the shared-memory header and
//!   variable decoding, and session-info lookups.
//! - [`serializer`]: flattening nested telemetry structs into snapshots.
//! - [`typegen`]: the iRacing variable catalogue and the typed-frame generator.
//! - [`sim_string`], [`utils`]: the fixed-length strings the sims write, and
//!   their decoding.
//! - [`connection`]: picking the running simulator.

pub mod ac_evo;
pub mod connection;
pub mod error;
pub mod iracing;
pub mod lmu;
pub mod serializer;
pub mod snapshot_plan;
pub mod sim_string;
pub mod sorting;
pub mod text;
pub mod typegen;
pub mod types;
pub mod utils;

pub use connection::{Connection, ReadResult, SimConnection, SimType};
pub use error::SimError;
pub use iracing::VarType;
pub use sim_string::{SimString, SimStringU16};
pub use types::{TelemetryValue, VarMeta};
pub use utils::{decode_cp1252, var_list_text, HasSnapshot};
