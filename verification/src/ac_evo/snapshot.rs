//! Assetto Corsa Evo: the variable catalogue a snapshot exposes.
use vstd::prelude::*;
use crate::types::{VarMeta, VarMetaView};

verus! {

/// The metadata entry for one variable.
pub open spec fn meta_view(name: Seq<char>, type_str: Seq<char>, unit: Seq<char>, desc: Seq<char>) -> VarMetaView {
    VarMetaView { name, type_str, unit, desc, count: 1 }
}

/// The variables an AC Evo snapshot describes, in order.
pub open spec fn ac_evo_var_list() -> Seq<VarMetaView> {
    seq![
        meta_view("packet_id"@, "int"@, ""@, "Physics tick counter"@),
        meta_view("speed_kmh"@, "float"@, "km/h"@, "Vehicle speed"@),
        meta_view("brake_bias"@, "float"@, ""@, "Front brake bias 0.0–1.0"@),
        meta_view("status"@, "int"@, ""@, "Session status (0=off 2=live)"@),
        meta_view("abs_level"@, "int8"@, ""@, "ABS setting level"@),
        meta_view("tc_level"@, "int8"@, ""@, "TC setting level"@),
        meta_view("current_lap_time_ms"@, "int"@, "ms"@, "Current lap time"@),
        meta_view("session"@, "int"@, ""@, "Session type (ACEVO_SESSION_TYPE)"@),
        meta_view("track"@, "string"@, ""@, "Track identifier"@),
    ]
}

fn meta(name: &str, type_str: &'static str, unit: &str, desc: &str) -> (r: VarMeta)
    ensures
        r@ == meta_view(name@, type_str@, unit@, desc@),
{
    VarMeta {
        name: String::from_str(name),
        type_str,
        unit: String::from_str(unit),
        desc: String::from_str(desc),
        count: 1,
    }
}

/// Metadata for the variables an AC Evo snapshot exposes: every one a scalar.
pub fn var_list_snapshot() -> (r: Vec<VarMeta>)
    ensures
        r@.len() == ac_evo_var_list().len(),
        forall|i: int| 0 <= i < r@.len() ==> #[trigger] r@[i]@ == ac_evo_var_list()[i],
{
    let mut v: Vec<VarMeta> = Vec::new();
    v.push(meta("packet_id", "int", "", "Physics tick counter"));
    v.push(meta("speed_kmh", "float", "km/h", "Vehicle speed"));
    v.push(meta("brake_bias", "float", "", "Front brake bias 0.0–1.0"));
    v.push(meta("status", "int", "", "Session status (0=off 2=live)"));
    v.push(meta("abs_level", "int8", "", "ABS setting level"));
    v.push(meta("tc_level", "int8", "", "TC setting level"));
    v.push(meta("current_lap_time_ms", "int", "ms", "Current lap time"));
    v.push(meta("session", "int", "", "Session type (ACEVO_SESSION_TYPE)"));
    v.push(meta("track", "string", "", "Track identifier"));
    v
}

} // verus!
