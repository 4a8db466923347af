//! Connecting to whichever simulator is running, and the shape of a frame read.
use vstd::prelude::*;
use crate::error::SimError;
use crate::types::{TelemetryValue, VarMeta};
use crate::utils::HasSnapshot;

verus! {

/// Identifies a specific simulator for use with [`SimConnection::connect_to`].
#[derive(Debug, Clone, Copy, PartialEq, Eq, Structural)]
#[non_exhaustive]
pub enum SimType {
    IRacing,
    AcEvo,
    Lmu,
}

/// Result of a single frame read.
///
/// Unifies the wait-for-data / is-connected / read-frame sequence into one
/// return value, so callers can drive any simulator with a single `match`.
#[derive(Debug)]
pub enum ReadResult<F> {
    /// A telemetry frame was read successfully.
    Frame(F),
    /// No new data arrived within the timeout.
    ///
    /// Returned only by event-driven sims (iRacing). Poll-based sims (AC Evo,
    /// LMU) always have data available in shared memory and return `Frame`
    /// whenever the sim is connected.
    NotReady,
    /// The simulator has disconnected (session ended or game closed).
    Disconnected,
}

/// A connected simulator, holding that simulator's own connection.
#[non_exhaustive]
pub enum Connection<I, A, C, L> {
    IRacing(I),
    AcEvo(A),
    /// Classic Assetto Corsa (`acpmf_*` shared memory).
    Ac(C),
    Lmu(L),
}

/// Entry point for connecting to a running simulator.
pub struct SimConnection;

impl SimConnection {
    /// Auto-detect and connect to the first running simulator.
    ///
    /// Tries the simulators in order, iRacing, then AC Evo, then classic AC,
    /// then LMU, each through its own connector, and stops at the first that
    /// connects; its error is dropped when one fails. Returns
    /// [`SimError::NoSimRunning`] if none connects.
    pub fn connect<I, A, C, L, FI, FA, FC, FL>(iracing: FI, ac_evo: FA, ac: FC, lmu: FL) -> (r:
        Result<Connection<I, A, C, L>, SimError>) where
        FI: FnOnce() -> Result<I, SimError>,
        FA: FnOnce() -> Result<A, SimError>,
        FC: FnOnce() -> Result<C, SimError>,
        FL: FnOnce() -> Result<L, SimError>,

        requires
            iracing.requires(()),
            ac_evo.requires(()),
            ac.requires(()),
            lmu.requires(()),
        ensures
            match r {
                Ok(Connection::IRacing(c)) => iracing.ensures((), Ok(c)),
                Ok(Connection::AcEvo(c)) => (exists|e: SimError| iracing.ensures((), Err(e)))
                    && ac_evo.ensures((), Ok(c)),
                Ok(Connection::Ac(c)) => (exists|e: SimError| iracing.ensures((), Err(e))) && (
                exists|e: SimError| ac_evo.ensures((), Err(e))) && ac.ensures((), Ok(c)),
                Ok(Connection::Lmu(c)) => (exists|e: SimError| iracing.ensures((), Err(e))) && (
                exists|e: SimError| ac_evo.ensures((), Err(e))) && (exists|e: SimError|
                    ac.ensures((), Err(e))) && lmu.ensures((), Ok(c)),
                Err(e) => e == SimError::NoSimRunning && (exists|e: SimError|
                    iracing.ensures((), Err(e))) && (exists|e: SimError|
                    ac_evo.ensures((), Err(e))) && (exists|e: SimError| ac.ensures((), Err(e)))
                    && (exists|e: SimError| lmu.ensures((), Err(e))),
            },
    {
        let first = iracing();
        match first {
            Ok(c) => {
                return Ok(Connection::IRacing(c));
            },
            Err(_) => {},
        }
        let second = ac_evo();
        match second {
            Ok(c) => {
                return Ok(Connection::AcEvo(c));
            },
            Err(_) => {},
        }
        let third = ac();
        match third {
            Ok(c) => {
                return Ok(Connection::Ac(c));
            },
            Err(_) => {},
        }
        let fourth = lmu();
        match fourth {
            Ok(c) => {
                return Ok(Connection::Lmu(c));
            },
            Err(_) => {},
        }
        Err(SimError::NoSimRunning)
    }

    /// Connect to a specific simulator explicitly: only its connector runs,
    /// and its error is passed on.
    pub fn connect_to<I, A, C, L, FI, FA, FL>(sim: SimType, iracing: FI, ac_evo: FA, lmu: FL) -> (r:
        Result<Connection<I, A, C, L>, SimError>) where
        FI: FnOnce() -> Result<I, SimError>,
        FA: FnOnce() -> Result<A, SimError>,
        FL: FnOnce() -> Result<L, SimError>,

        requires
            sim == SimType::IRacing ==> iracing.requires(()),
            sim == SimType::AcEvo ==> ac_evo.requires(()),
            sim == SimType::Lmu ==> lmu.requires(()),
        ensures
            match r {
                Ok(Connection::IRacing(c)) => sim == SimType::IRacing && iracing.ensures((), Ok(c)),
                Ok(Connection::AcEvo(c)) => sim == SimType::AcEvo && ac_evo.ensures((), Ok(c)),
                Ok(Connection::Ac(_)) => false,
                Ok(Connection::Lmu(c)) => sim == SimType::Lmu && lmu.ensures((), Ok(c)),
                Err(e) => match sim {
                    SimType::IRacing => iracing.ensures((), Err(e)),
                    SimType::AcEvo => ac_evo.ensures((), Err(e)),
                    SimType::Lmu => lmu.ensures((), Err(e)),
                },
            },
    {
        match sim {
            SimType::IRacing => match iracing() {
                Ok(c) => Ok(Connection::IRacing(c)),
                Err(e) => Err(e),
            },
            SimType::AcEvo => match ac_evo() {
                Ok(c) => Ok(Connection::AcEvo(c)),
                Err(e) => Err(e),
            },
            SimType::Lmu => match lmu() {
                Ok(c) => Ok(Connection::Lmu(c)),
                Err(e) => Err(e),
            },
        }
    }
}

/// A connection hands out the snapshot of whichever simulator it holds.
impl<I: HasSnapshot, A: HasSnapshot, C: HasSnapshot, L: HasSnapshot> HasSnapshot for Connection<
    I,
    A,
    C,
    L,
> {
    open spec fn gives_snapshot(&self, snap: std::collections::HashMap<String, TelemetryValue>) -> bool {
        match self {
            Connection::IRacing(c) => c.gives_snapshot(snap),
            Connection::AcEvo(c) => c.gives_snapshot(snap),
            Connection::Ac(c) => c.gives_snapshot(snap),
            Connection::Lmu(c) => c.gives_snapshot(snap),
        }
    }

    open spec fn gives_var_list(&self, vars: Seq<VarMeta>) -> bool {
        match self {
            Connection::IRacing(c) => c.gives_var_list(vars),
            Connection::AcEvo(c) => c.gives_var_list(vars),
            Connection::Ac(c) => c.gives_var_list(vars),
            Connection::Lmu(c) => c.gives_var_list(vars),
        }
    }

    fn telemetry_snapshot(&self) -> (r: std::collections::HashMap<String, TelemetryValue>) {
        match self {
            Connection::IRacing(c) => c.telemetry_snapshot(),
            Connection::AcEvo(c) => c.telemetry_snapshot(),
            Connection::Ac(c) => c.telemetry_snapshot(),
            Connection::Lmu(c) => c.telemetry_snapshot(),
        }
    }

    fn var_list_snapshot(&self) -> (r: Vec<VarMeta>) {
        match self {
            Connection::IRacing(c) => c.var_list_snapshot(),
            Connection::AcEvo(c) => c.var_list_snapshot(),
            Connection::Ac(c) => c.var_list_snapshot(),
            Connection::Lmu(c) => c.var_list_snapshot(),
        }
    }
}

/// A boxed connection snapshots as the connection it holds.
impl<T: HasSnapshot> HasSnapshot for Box<T> {
    open spec fn gives_snapshot(&self, snap: std::collections::HashMap<String, TelemetryValue>) -> bool {
        (**self).gives_snapshot(snap)
    }

    open spec fn gives_var_list(&self, vars: Seq<VarMeta>) -> bool {
        (**self).gives_var_list(vars)
    }

    fn telemetry_snapshot(&self) -> (r: std::collections::HashMap<String, TelemetryValue>) {
        (**self).telemetry_snapshot()
    }

    fn var_list_snapshot(&self) -> (r: Vec<VarMeta>) {
        (**self).var_list_snapshot()
    }
}

} // verus!
