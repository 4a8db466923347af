//! Errors returned by the simulator backends and the utility helpers.
use vstd::prelude::*;
use crate::text::append_signed_decimal;
use crate::text::signed_decimal;

verus! {

#[verifier::external_type_specification]
#[verifier::external_body]
pub struct ExIoError(std::io::Error);

/// Errors returned by simulator backends and utility helpers.
#[derive(Debug)]
pub enum SimError {
    /// The simulator's shared memory region could not be opened (sim not running).
    NotConnected(String),
    /// No enabled simulator is currently running.
    NoSimRunning,
    /// The shared memory header contains unexpected or corrupt data.
    InvalidHeader(String),
    /// A standard I/O error (e.g. writing a snapshot file to disk).
    Io(std::io::Error),
}

/// `std::io::Error`'s own message. What it says depends on the operating
/// system that raised the error, so nothing is claimed about it.
#[verifier::external_body]
fn io_error_message(e: &std::io::Error) -> String {
    format!("{}", e)
}

/// The message of the header error for a version or variable count out of range.
pub open spec fn bad_header_message(ver: i32, num_vars: i32) -> Seq<char> {
    "Invalid iRacing telemetry header (ver="@ + signed_decimal(ver as int) + ", num_vars="@
        + signed_decimal(num_vars as int) + ")"@
}

impl SimError {
    /// Human-readable message for logging / display.
    pub fn to_string(&self) -> (r: String)
        ensures
            match self {
                SimError::NotConnected(msg) => r@ == "Not connected: "@ + msg@,
                SimError::NoSimRunning => r@ == "No simulator is currently running"@,
                SimError::InvalidHeader(msg) => r@ == "Invalid header: "@ + msg@,
                SimError::Io(_) => r@.len() >= "IO error: "@.len() && r@.take(
                    "IO error: "@.len() as int,
                ) == "IO error: "@,
            },
    {
        match self {
            SimError::NotConnected(msg) => {
                let mut s = String::from_str("Not connected: ");
                s.append(msg.as_str());
                s
            },
            SimError::NoSimRunning => String::from_str("No simulator is currently running"),
            SimError::InvalidHeader(msg) => {
                let mut s = String::from_str("Invalid header: ");
                s.append(msg.as_str());
                s
            },
            SimError::Io(e) => {
                let mut s = String::from_str("IO error: ");
                let ghost head = s@;
                s.append(io_error_message(e).as_str());
                proof {
                    assert(s@.take(head.len() as int) =~= head);
                }
                s
            },
        }
    }

    /// The header error for a version or variable count out of range.
    pub fn bad_header(ver: i32, num_vars: i32) -> (r: SimError)
        ensures
            r matches SimError::InvalidHeader(msg) && msg@ == bad_header_message(ver, num_vars),
    {
        let mut s = String::from_str("Invalid iRacing telemetry header (ver=");
        append_signed_decimal(&mut s, ver);
        s.append(", num_vars=");
        append_signed_decimal(&mut s, num_vars);
        s.append(")");
        SimError::InvalidHeader(s)
    }
}

/// Allows `?` to convert `std::io::Error` into [`SimError::Io`].
impl From<std::io::Error> for SimError {
    fn from(e: std::io::Error) -> (r: SimError) {
        SimError::Io(e)
    }
}

impl vstd::std_specs::convert::FromSpecImpl<std::io::Error> for SimError {
    open spec fn obeys_from_spec() -> bool {
        true
    }

    open spec fn from_spec(e: std::io::Error) -> SimError {
        SimError::Io(e)
    }
}

} // verus!
