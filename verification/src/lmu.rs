//! Le Mans Ultimate, through the rFactor 2 shared-memory plugin: how many
//! vehicle slots of a frame are valid, which slot is the player's, and the
//! reader that accepts a copy of a region only when no write overlapped it.
//!
//! The plugin guards each region with two counters, `version_update_begin`
//! and `version_update_end`: it bumps the first before writing and the
//! second after. A copy taken while both are equal, and after which the end
//! counter still equals the begin counter read before it, is consistent.
use vstd::prelude::*;
use crate::snapshot_plan::{
    layout_entries, layout_of, lemma_record_entries_by_layout, shape_of, snapshot_entries, EntrySource,
    FieldType, RecordField, SnapshotEntry, TypeShape,
};
use crate::sorting::{sort_by_name, stably_sorted_by_name, views};
use crate::types::{VarMeta, VarMetaView};

verus! {

/// The number of vehicle slots in every rF2 vehicle array.
pub const RF2_MAX_VEHICLES: usize = 128;

/// How many torn reads pass between two looks at the clock.
pub const CLOCK_CHECK_EVERY: u32 = 1000;

/// How long the reader keeps trying before it gives up, in nanoseconds.
pub const TORN_READ_TIMEOUT_NANOS: u128 = 100_000_000;

/// The valid vehicle slots for a reported vehicle count: the count itself,
/// capped at the array size; a negative count (read as a huge unsigned
/// number) gives the whole array.
pub open spec fn valid_slots(num_vehicles: i32) -> nat {
    if 0 <= num_vehicles <= RF2_MAX_VEHICLES {
        num_vehicles as nat
    } else {
        RF2_MAX_VEHICLES as nat
    }
}

/// The number of valid vehicle slots for the count the scoring page reports.
pub fn vehicle_count(num_vehicles: i32) -> (r: usize)
    ensures
        r == valid_slots(num_vehicles),
{
    if num_vehicles < 0 || num_vehicles as usize > RF2_MAX_VEHICLES {
        RF2_MAX_VEHICLES
    } else {
        num_vehicles as usize
    }
}

/// Whether `i` is the first of the first `n` slots whose player flag is set.
pub open spec fn first_player(is_player: Seq<u8>, n: int, i: int) -> bool {
    &&& 0 <= i < n
    &&& is_player[i] != 0
    &&& forall|j: int| 0 <= j < i ==> is_player[j] == 0
}

/// The player's slot: the first of the `num_vehicles` valid slots whose
/// `is_player` flag is set, or `None` when no valid slot has it.
pub fn player_slot(is_player: &[u8], num_vehicles: usize) -> (r: Option<usize>)
    requires
        num_vehicles <= is_player.len(),
    ensures
        match r {
            Some(i) => first_player(is_player@, num_vehicles as int, i as int),
            None => forall|j: int| 0 <= j < num_vehicles ==> is_player@[j] == 0,
        },
{
    let mut i: usize = 0;
    while i < num_vehicles
        invariant
            i <= num_vehicles <= is_player.len(),
            forall|j: int| 0 <= j < i ==> is_player@[j] == 0,
        decreases num_vehicles - i,
    {
        if is_player[i] != 0 {
            return Some(i);
        }
        i = i + 1;
    }
    None
}

/// The telemetry slot of the player: the player's scoring slot is found as
/// by [`player_slot`], and the first of the `n` valid telemetry slots that
/// carries the same vehicle id is the player's. `None` when no valid slot is
/// the player's, or no valid telemetry slot carries the player's id.
pub fn player_telemetry_slot(is_player: &[u8], scoring_ids: &[i32], telemetry_ids: &[i32], n: usize) -> (r:
    Option<usize>)
    requires
        n <= is_player.len(),
        n <= scoring_ids.len(),
        n <= telemetry_ids.len(),
    ensures
        match r {
            Some(j) => j < n && exists|i: int|
                first_player(is_player@, n as int, i) && telemetry_ids@[j as int] == scoring_ids@[i]
                    && forall|k: int| 0 <= k < j ==> telemetry_ids@[k] != scoring_ids@[i],
            None => (forall|k: int| 0 <= k < n ==> is_player@[k] == 0) || exists|i: int|
                first_player(is_player@, n as int, i) && forall|k: int|
                    0 <= k < n ==> telemetry_ids@[k] != scoring_ids@[i],
        },
{
    match player_slot(is_player, n) {
        None => None,
        Some(i) => {
            let id = scoring_ids[i];
            let mut j: usize = 0;
            while j < n
                invariant
                    j <= n <= telemetry_ids.len(),
                    i < n <= scoring_ids.len(),
                    id == scoring_ids@[i as int],
                    first_player(is_player@, n as int, i as int),
                    forall|k: int| 0 <= k < j ==> telemetry_ids@[k] != id,
                decreases n - j,
            {
                if telemetry_ids[j] == id {
                    return Some(j);
                }
                j = j + 1;
            }
            None
        },
    }
}

/// What the reader of a guarded region does next.
#[derive(Debug, Clone, Copy, PartialEq, Eq, Structural)]
pub enum SeqlockStep {
    /// The counters match: copy the region, then read the end counter and
    /// report it with [`SeqlockReader::after_copy`].
    Copy,
    /// The copy is consistent: use it.
    Accept,
    /// A write was under way, or overlapped the copy: spin briefly and read
    /// both counters again.
    Spin,
    /// As `Spin`, but first read how long the reader has been at it and
    /// report it with [`SeqlockReader::on_clock`].
    CheckClock,
    /// Yield the thread, then read both counters again.
    Yield,
    /// Give up: the region stayed torn for longer than the timeout.
    TimedOut,
}

/// The decisions of a reader copying a region guarded by a begin and an end
/// counter: when to copy, when a copy is good, and when to stop retrying.
pub struct SeqlockReader {
    retries: u32,
    copy_begin: Option<u32>,
}

/// The reader's state: how many reads have failed so far, and the begin
/// counter seen when the copy under way started, if one is.
pub struct SeqlockState {
    pub retries: nat,
    pub copy_begin: Option<u32>,
}

impl View for SeqlockReader {
    type V = SeqlockState;

    closed spec fn view(&self) -> SeqlockState {
        SeqlockState { retries: self.retries as nat, copy_begin: self.copy_begin }
    }
}

/// A failed read: one more retry, and a look at the clock every
/// [`CLOCK_CHECK_EVERY`] retries. The count is a `u32` and wraps around
/// after `u32::MAX`, so the reader keeps looking at the clock however long
/// it spins.
pub open spec fn backoff(s: SeqlockState) -> (SeqlockState, SeqlockStep) {
    let n = ((s.retries + 1) % 0x1_0000_0000) as nat;
    (
        SeqlockState { retries: n, copy_begin: None },
        if n % (CLOCK_CHECK_EVERY as nat) == 0 {
            SeqlockStep::CheckClock
        } else {
            SeqlockStep::Spin
        },
    )
}

/// The counters read before a copy: copy when they match, else back off.
pub open spec fn on_counters(s: SeqlockState, begin: u32, end: u32) -> (SeqlockState, SeqlockStep) {
    if begin == end {
        (SeqlockState { retries: s.retries, copy_begin: Some(begin) }, SeqlockStep::Copy)
    } else {
        backoff(s)
    }
}

/// The end counter read after a copy: accept when it still equals the begin
/// counter read before the copy, else back off.
pub open spec fn on_copied(s: SeqlockState, end: u32) -> (SeqlockState, SeqlockStep) {
    if s.copy_begin == Some(end) {
        (SeqlockState { retries: s.retries, copy_begin: None }, SeqlockStep::Accept)
    } else {
        backoff(s)
    }
}

/// The clock read after [`SeqlockStep::CheckClock`]: give up once more than
/// the timeout has passed, else yield.
pub open spec fn on_elapsed(elapsed_nanos: u128) -> SeqlockStep {
    if elapsed_nanos > TORN_READ_TIMEOUT_NANOS {
        SeqlockStep::TimedOut
    } else {
        SeqlockStep::Yield
    }
}

impl SeqlockReader {
    /// A reader that has not read anything yet.
    pub fn new() -> (r: SeqlockReader)
        ensures
            r@ == (SeqlockState { retries: 0, copy_begin: None }),
    {
        SeqlockReader { retries: 0, copy_begin: None }
    }

    /// How many reads have failed so far.
    pub fn retries(&self) -> (r: u32)
        ensures
            r == self@.retries,
    {
        self.retries
    }

    fn backoff(&mut self) -> (step: SeqlockStep)
        ensures
            (final(self)@, step) == backoff(old(self)@),
    {
        self.retries = self.retries.wrapping_add(1);
        self.copy_begin = None;
        if self.retries % CLOCK_CHECK_EVERY == 0 {
            SeqlockStep::CheckClock
        } else {
            SeqlockStep::Spin
        }
    }

    /// Reports the begin and end counters read before a copy.
    pub fn before_copy(&mut self, begin: u32, end: u32) -> (step: SeqlockStep)
        ensures
            (final(self)@, step) == on_counters(old(self)@, begin, end),
    {
        if begin == end {
            self.copy_begin = Some(begin);
            SeqlockStep::Copy
        } else {
            self.backoff()
        }
    }

    /// Reports the end counter read after a copy.
    pub fn after_copy(&mut self, end: u32) -> (step: SeqlockStep)
        ensures
            (final(self)@, step) == on_copied(old(self)@, end),
    {
        match self.copy_begin {
            Some(b) => {
                if b == end {
                    self.copy_begin = None;
                    return SeqlockStep::Accept;
                }
            },
            None => {},
        }
        self.backoff()
    }

    /// Reports how long the reader has been trying, in nanoseconds.
    pub fn on_clock(&self, elapsed_nanos: u128) -> (step: SeqlockStep)
        ensures
            step == on_elapsed(elapsed_nanos),
    {
        if elapsed_nanos > TORN_READ_TIMEOUT_NANOS {
            SeqlockStep::TimedOut
        } else {
            SeqlockStep::Yield
        }
    }
}

/// A copy is accepted only when the counters matched before it and the end
/// counter read after it still equals the begin counter read before it: no
/// write overlapped the copy.
pub proof fn lemma_accepted_copy_is_consistent(
    s: SeqlockState,
    begin: u32,
    end_before: u32,
    end_after: u32,
)
    requires
        on_copied(on_counters(s, begin, end_before).0, end_after).1 == SeqlockStep::Accept,
    ensures
        begin == end_before,
        end_after == begin,
{
}

/// Accepting needs a copy: a reader that has not started one (fresh, or
/// after any failed read) never accepts, whatever end counter it is shown.
pub proof fn lemma_no_accept_without_copy(s: SeqlockState, end: u32)
    requires
        s.copy_begin is None,
    ensures
        on_copied(s, end).1 != SeqlockStep::Accept,
        on_copied(s, end).1 == SeqlockStep::Spin || on_copied(s, end).1 == SeqlockStep::CheckClock,
{
}

/// Every failed read counts one retry, and the reader looks at the clock on
/// exactly every thousandth (of the count, which wraps around at 2^32); it
/// can only give up after such a look.
pub proof fn lemma_clock_every_thousand_failures(s: SeqlockState)
    ensures
        backoff(s).0.retries == (s.retries + 1) % 0x1_0000_0000,
        backoff(s).1 == SeqlockStep::CheckClock <==> ((s.retries + 1) % 0x1_0000_0000) % 1000 == 0,
        backoff(s).1 != SeqlockStep::TimedOut,
{
}

/// The shape of an array of `len` elements of the type named `t`.
pub open spec fn array_shape(t: Seq<char>, len: nat) -> TypeShape {
    TypeShape::Array(Box::new(TypeShape::Ident(t)), len)
}

/// The fields of the plugin's per-vehicle telemetry record
/// (`rF2VehicleTelemetry`), in declaration order, as names and type shapes.
pub open spec fn lmu_telemetry_layout() -> Seq<(Seq<char>, TypeShape)> {
    seq![
        ("id"@, TypeShape::Ident("i32"@)),
        ("delta_time"@, TypeShape::Ident("f64"@)),
        ("elapsed_time"@, TypeShape::Ident("f64"@)),
        ("lap_number"@, TypeShape::Ident("i32"@)),
        ("lap_start_et"@, TypeShape::Ident("f64"@)),
        ("vehicle_name"@, array_shape("u8"@, 64)),
        ("track_name"@, array_shape("u8"@, 64)),
        ("pos"@, array_shape("f64"@, 3)),
        ("local_vel"@, array_shape("f64"@, 3)),
        ("local_accel"@, array_shape("f64"@, 3)),
        ("ori"@, TypeShape::Array(Box::new(array_shape("f64"@, 3)), 3)),
        ("local_rot"@, array_shape("f64"@, 3)),
        ("local_rot_accel"@, array_shape("f64"@, 3)),
        ("gear"@, TypeShape::Ident("i32"@)),
        ("engine_rpm"@, TypeShape::Ident("f64"@)),
        ("engine_water_temp"@, TypeShape::Ident("f64"@)),
        ("engine_oil_temp"@, TypeShape::Ident("f64"@)),
        ("clutch_rpm"@, TypeShape::Ident("f64"@)),
        ("unfiltered_throttle"@, TypeShape::Ident("f64"@)),
        ("unfiltered_brake"@, TypeShape::Ident("f64"@)),
        ("unfiltered_steering"@, TypeShape::Ident("f64"@)),
        ("unfiltered_clutch"@, TypeShape::Ident("f64"@)),
        ("filtered_throttle"@, TypeShape::Ident("f64"@)),
        ("filtered_brake"@, TypeShape::Ident("f64"@)),
        ("filtered_steering"@, TypeShape::Ident("f64"@)),
        ("filtered_clutch"@, TypeShape::Ident("f64"@)),
        ("steering_shaft_torque"@, TypeShape::Ident("f64"@)),
        ("front3rd_deflection"@, TypeShape::Ident("f64"@)),
        ("rear3rd_deflection"@, TypeShape::Ident("f64"@)),
        ("front_wing_height"@, TypeShape::Ident("f64"@)),
        ("front_ride_height"@, TypeShape::Ident("f64"@)),
        ("rear_ride_height"@, TypeShape::Ident("f64"@)),
        ("drag"@, TypeShape::Ident("f64"@)),
        ("front_downforce"@, TypeShape::Ident("f64"@)),
        ("rear_downforce"@, TypeShape::Ident("f64"@)),
        ("fuel"@, TypeShape::Ident("f64"@)),
        ("engine_max_rpm"@, TypeShape::Ident("f64"@)),
        ("scheduled_stops"@, TypeShape::Ident("u8"@)),
        ("overheating"@, TypeShape::Ident("u8"@)),
        ("detached"@, TypeShape::Ident("u8"@)),
        ("headlights"@, TypeShape::Ident("u8"@)),
        ("dent_severity"@, array_shape("u8"@, 8)),
        ("last_impact_et"@, TypeShape::Ident("f64"@)),
        ("last_impact_magnitude"@, TypeShape::Ident("f64"@)),
        ("last_impact_pos"@, array_shape("f64"@, 3)),
        ("engine_torque"@, TypeShape::Ident("f64"@)),
        ("current_sector"@, TypeShape::Ident("i32"@)),
        ("speed_limiter"@, TypeShape::Ident("u8"@)),
        ("max_gears"@, TypeShape::Ident("u8"@)),
        ("front_tire_compound_index"@, TypeShape::Ident("u8"@)),
        ("rear_tire_compound_index"@, TypeShape::Ident("u8"@)),
        ("fuel_capacity"@, TypeShape::Ident("f64"@)),
        ("front_flap_activated"@, TypeShape::Ident("u8"@)),
        ("rear_flap_activated"@, TypeShape::Ident("u8"@)),
        ("rear_flap_legal_status"@, TypeShape::Ident("u8"@)),
        ("ignition_starter"@, TypeShape::Ident("u8"@)),
        ("front_tire_compound_name"@, array_shape("u8"@, 18)),
        ("rear_tire_compound_name"@, array_shape("u8"@, 18)),
        ("speed_limiter_available"@, TypeShape::Ident("u8"@)),
        ("anti_stall_activated"@, TypeShape::Ident("u8"@)),
        ("_unused"@, array_shape("u8"@, 2)),
        ("visual_steering_wheel_range"@, TypeShape::Ident("f32"@)),
        ("rear_brake_bias"@, TypeShape::Ident("f64"@)),
        ("turbo_boost_pressure"@, TypeShape::Ident("f64"@)),
        ("physics_to_graphics_offset"@, array_shape("f32"@, 3)),
        ("physical_steering_wheel_range"@, TypeShape::Ident("f32"@)),
        ("wheels"@, array_shape("rF2Wheel"@, 4)),
        ("_expansion"@, array_shape("u8"@, 152)),
    ]
}

fn ident_field(name: &str, ty: &str) -> (f: RecordField)
    ensures
        f.name@ == name@,
        shape_of(f.ty) == TypeShape::Ident(ty@),
{
    RecordField { name: String::from_str(name), ty: FieldType::Ident(String::from_str(ty)) }
}

fn array_field(name: &str, ty: &str, len: usize) -> (f: RecordField)
    ensures
        f.name@ == name@,
        shape_of(f.ty) == array_shape(ty@, len as nat),
{
    let elem = FieldType::Ident(String::from_str(ty));
    proof {
        reveal_with_fuel(shape_of, 2);
    }
    RecordField { name: String::from_str(name), ty: FieldType::Array(Box::new(elem), len) }
}

fn grid_field(name: &str, ty: &str, rows: usize, cols: usize) -> (f: RecordField)
    ensures
        f.name@ == name@,
        shape_of(f.ty) == TypeShape::Array(Box::new(array_shape(ty@, cols as nat)), rows as nat),
{
    let row = FieldType::Array(Box::new(FieldType::Ident(String::from_str(ty))), cols);
    proof {
        reveal_with_fuel(shape_of, 3);
    }
    RecordField { name: String::from_str(name), ty: FieldType::Array(Box::new(row), rows) }
}

/// The fields of the per-vehicle telemetry record (see [`lmu_telemetry_layout`]).
pub fn lmu_telemetry_fields() -> (r: Vec<RecordField>)
    ensures
        layout_of(r@) == lmu_telemetry_layout(),
{
    let mut f: Vec<RecordField> = Vec::new();
    f.push(ident_field("id", "i32"));
    f.push(ident_field("delta_time", "f64"));
    f.push(ident_field("elapsed_time", "f64"));
    f.push(ident_field("lap_number", "i32"));
    f.push(ident_field("lap_start_et", "f64"));
    f.push(array_field("vehicle_name", "u8", 64));
    f.push(array_field("track_name", "u8", 64));
    f.push(array_field("pos", "f64", 3));
    f.push(array_field("local_vel", "f64", 3));
    f.push(array_field("local_accel", "f64", 3));
    f.push(grid_field("ori", "f64", 3, 3));
    f.push(array_field("local_rot", "f64", 3));
    f.push(array_field("local_rot_accel", "f64", 3));
    f.push(ident_field("gear", "i32"));
    f.push(ident_field("engine_rpm", "f64"));
    f.push(ident_field("engine_water_temp", "f64"));
    f.push(ident_field("engine_oil_temp", "f64"));
    f.push(ident_field("clutch_rpm", "f64"));
    f.push(ident_field("unfiltered_throttle", "f64"));
    f.push(ident_field("unfiltered_brake", "f64"));
    f.push(ident_field("unfiltered_steering", "f64"));
    f.push(ident_field("unfiltered_clutch", "f64"));
    f.push(ident_field("filtered_throttle", "f64"));
    f.push(ident_field("filtered_brake", "f64"));
    f.push(ident_field("filtered_steering", "f64"));
    f.push(ident_field("filtered_clutch", "f64"));
    f.push(ident_field("steering_shaft_torque", "f64"));
    f.push(ident_field("front3rd_deflection", "f64"));
    f.push(ident_field("rear3rd_deflection", "f64"));
    f.push(ident_field("front_wing_height", "f64"));
    f.push(ident_field("front_ride_height", "f64"));
    f.push(ident_field("rear_ride_height", "f64"));
    f.push(ident_field("drag", "f64"));
    f.push(ident_field("front_downforce", "f64"));
    f.push(ident_field("rear_downforce", "f64"));
    f.push(ident_field("fuel", "f64"));
    f.push(ident_field("engine_max_rpm", "f64"));
    f.push(ident_field("scheduled_stops", "u8"));
    f.push(ident_field("overheating", "u8"));
    f.push(ident_field("detached", "u8"));
    f.push(ident_field("headlights", "u8"));
    f.push(array_field("dent_severity", "u8", 8));
    f.push(ident_field("last_impact_et", "f64"));
    f.push(ident_field("last_impact_magnitude", "f64"));
    f.push(array_field("last_impact_pos", "f64", 3));
    f.push(ident_field("engine_torque", "f64"));
    f.push(ident_field("current_sector", "i32"));
    f.push(ident_field("speed_limiter", "u8"));
    f.push(ident_field("max_gears", "u8"));
    f.push(ident_field("front_tire_compound_index", "u8"));
    f.push(ident_field("rear_tire_compound_index", "u8"));
    f.push(ident_field("fuel_capacity", "f64"));
    f.push(ident_field("front_flap_activated", "u8"));
    f.push(ident_field("rear_flap_activated", "u8"));
    f.push(ident_field("rear_flap_legal_status", "u8"));
    f.push(ident_field("ignition_starter", "u8"));
    f.push(array_field("front_tire_compound_name", "u8", 18));
    f.push(array_field("rear_tire_compound_name", "u8", 18));
    f.push(ident_field("speed_limiter_available", "u8"));
    f.push(ident_field("anti_stall_activated", "u8"));
    f.push(array_field("_unused", "u8", 2));
    f.push(ident_field("visual_steering_wheel_range", "f32"));
    f.push(ident_field("rear_brake_bias", "f64"));
    f.push(ident_field("turbo_boost_pressure", "f64"));
    f.push(array_field("physics_to_graphics_offset", "f32", 3));
    f.push(ident_field("physical_steering_wheel_range", "f32"));
    f.push(array_field("wheels", "rF2Wheel", 4));
    f.push(array_field("_expansion", "u8", 152));
    assert(layout_of(f@) =~= lmu_telemetry_layout());
    f
}

/// The metadata the variable list gives a snapshot key: the key as name,
/// the type text `t`, no unit or description, one element.
pub open spec fn key_meta(key: Seq<char>, t: Seq<char>) -> VarMetaView {
    VarMetaView { name: key, type_str: t, unit: seq![], desc: seq![], count: 1 }
}

/// The variables of the player's telemetry snapshot: one per key the
/// telemetry record gives, typed `f64`, sorted by name.
pub fn lmu_var_list() -> (r: Vec<VarMeta>)
    ensures
        stably_sorted_by_name::<VarMeta>(
            layout_entries(lmu_telemetry_layout()).map_values(
                |e: (Seq<char>, Seq<char>, EntrySource)| key_meta(e.1, "f64"@),
            ),
            views(r@),
        ),
{
    let fields = lmu_telemetry_fields();
    let entries = snapshot_entries(&fields);
    proof {
        lemma_record_entries_by_layout(fields@);
    }
    let ghost want = layout_entries(lmu_telemetry_layout()).map_values(
        |e: (Seq<char>, Seq<char>, EntrySource)| key_meta(e.1, "f64"@),
    );
    let mut metas: Vec<VarMeta> = Vec::new();
    let mut i: usize = 0;
    while i < entries.len()
        invariant
            i <= entries.len(),
            entries@.map_values(|e: SnapshotEntry| e@) == layout_entries(lmu_telemetry_layout()),
            want == layout_entries(lmu_telemetry_layout()).map_values(
                |e: (Seq<char>, Seq<char>, EntrySource)| key_meta(e.1, "f64"@),
            ),
            views(metas@) == want.take(i as int),
        decreases entries.len() - i,
    {
        let m = VarMeta {
            name: entries[i].key.clone(),
            type_str: "f64",
            unit: String::new(),
            desc: String::new(),
            count: 1,
        };
        let ghost before = metas@;
        metas.push(m);
        proof {
            assert(entries@.map_values(|e: SnapshotEntry| e@)[i as int] == entries@[i as int]@);
            assert(views(metas@) =~= views(before).push(m@));
            assert(want.take(i + 1) =~= want.take(i as int).push(want[i as int]));
        }
        i = i + 1;
    }
    assert(want.take(entries.len() as int) =~= want);
    sort_by_name(metas)
}

} // verus!
