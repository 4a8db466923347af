use kerb::ac_evo::types::{
    AcEvoInstrumentation, AcEvoPitInfo, AcEvoTimingState, SMEvoInstrumentation, SMEvoPitInfo,
    SMEvoTimingState,
};
use kerb::serializer::{SerializerError, TelemetrySerializer};
use kerb::{
    var_list_text, Connection, SimConnection, SimError, SimType, TelemetryValue, VarMeta,
};
use kerb::HasSnapshot;
use std::collections::HashMap;

fn map_of(s: TelemetrySerializer) -> HashMap<String, TelemetryValue> {
    s.into_map().into_iter().collect()
}

#[test]
fn var_meta_fields() {
    let m = VarMeta {
        name: "RPM".into(),
        type_str: "f32",
        unit: "rev/min".into(),
        desc: "Engine RPM".into(),
        count: 1,
    };
    assert_eq!(m.name, "RPM");
}

#[test]
fn scalar_fields_are_recorded_under_dotted_keys() {
    let mut s = TelemetrySerializer::new();
    s.push_field_key("physics");
    s.push_field_key("gear");
    s.record(TelemetryValue::Int(3));
    s.pop_key();
    s.push_field_key("rpms");
    s.record(TelemetryValue::Float(7500.0f32.to_bits()));
    s.pop_key();
    s.pop_key();
    s.push_field_key("gear");
    s.record(TelemetryValue::Int(4));
    s.pop_key();
    let m = map_of(s);
    assert_eq!(m.len(), 3);
    assert_eq!(m["physics.gear"], TelemetryValue::Int(3));
    assert_eq!(m["physics.rpms"], TelemetryValue::Float(7500.0f32.to_bits()));
    assert_eq!(m["gear"], TelemetryValue::Int(4));
}

#[test]
fn a_later_value_replaces_an_earlier_one() {
    let mut s = TelemetrySerializer::new();
    s.push_field_key("x");
    s.record(TelemetryValue::Int(1));
    s.record(TelemetryValue::Bool(true));
    s.pop_key();
    let m = map_of(s);
    assert_eq!(m.len(), 1);
    assert_eq!(m["x"], TelemetryValue::Bool(true));
}

fn seq_of(s: &mut TelemetrySerializer, values: Vec<TelemetryValue>) {
    s.begin_seq();
    for v in values {
        let i = s.next_index();
        s.push_index_key(i);
        s.record(v);
        s.pop_key();
        s.advance_index();
    }
    s.end_seq();
}

#[test]
fn top_level_sequences_become_arrays() {
    let mut s = TelemetrySerializer::new();
    s.push_field_key("pad_life");
    seq_of(&mut s, vec![TelemetryValue::Float(1), TelemetryValue::Float(2)]);
    s.pop_key();
    s.push_field_key("laps");
    seq_of(&mut s, vec![TelemetryValue::Int(1), TelemetryValue::BitField(0xFFFF_FFFF)]);
    s.pop_key();
    s.push_field_key("flags");
    seq_of(&mut s, vec![TelemetryValue::Bool(true), TelemetryValue::Int(3)]);
    s.pop_key();
    s.push_field_key("bytes");
    seq_of(&mut s, vec![TelemetryValue::Char(7), TelemetryValue::Bool(true)]);
    s.pop_key();
    s.push_field_key("names");
    seq_of(&mut s, vec![TelemetryValue::String("a".into())]);
    s.pop_key();
    s.push_field_key("none");
    seq_of(&mut s, vec![]);
    s.pop_key();
    let m = map_of(s);
    assert_eq!(m["pad_life"], TelemetryValue::FloatArray(vec![1, 2]));
    assert_eq!(m["laps"], TelemetryValue::IntArray(vec![1, -1]));
    assert_eq!(m["flags"], TelemetryValue::BoolArray(vec![true, false]));
    assert_eq!(m["bytes"], TelemetryValue::IntArray(vec![7, 0]));
    assert!(!m.contains_key("names"));
    assert!(!m.contains_key("none"));
    assert_eq!(m.len(), 4);
}

#[test]
fn nested_sequences_are_flattened_into_the_outer_one() {
    let mut s = TelemetrySerializer::new();
    s.push_field_key("grid");
    s.begin_seq();
    for row in [[1i32, 2], [3, 4]] {
        let i = s.next_index();
        s.push_index_key(i);
        seq_of(&mut s, row.iter().map(|v| TelemetryValue::Int(*v)).collect());
        s.pop_key();
        s.advance_index();
    }
    s.end_seq();
    s.pop_key();
    let m = map_of(s);
    assert_eq!(m["grid"], TelemetryValue::IntArray(vec![1, 2, 3, 4]));
}

#[test]
fn struct_elements_of_a_sequence_get_indexed_keys() {
    let mut s = TelemetrySerializer::new();
    s.push_field_key("tyres");
    s.begin_seq();
    for t in [80i32, 90] {
        let i = s.next_index();
        s.push_index_key(i);
        s.push_field_key("temp");
        s.record(TelemetryValue::Int(t));
        s.pop_key();
        s.pop_key();
        s.advance_index();
    }
    s.end_seq();
    s.pop_key();
    let m = map_of(s);
    assert_eq!(m["tyres[0].temp"], TelemetryValue::Int(80));
    assert_eq!(m["tyres[1].temp"], TelemetryValue::Int(90));
    assert_eq!(m.len(), 2);
}

#[test]
fn bytes_are_text_outside_a_sequence_and_characters_inside() {
    let mut s = TelemetrySerializer::new();
    s.push_field_key("driver");
    s.record_bytes(&[0x4A, 0xE9]);
    s.pop_key();
    s.push_field_key("raw");
    s.begin_seq();
    s.push_index_key(0);
    s.record_bytes(&[1, 2]);
    s.pop_key();
    s.end_seq();
    s.pop_key();
    let m = map_of(s);
    assert_eq!(m["driver"], TelemetryValue::String("Jé".into()));
    assert_eq!(m["raw"], TelemetryValue::IntArray(vec![1, 2]));
}

#[test]
fn accumulation_follows_the_innermost_path_step() {
    let mut s = TelemetrySerializer::new();
    assert!(!s.should_accumulate());
    s.begin_seq();
    assert!(s.should_accumulate());
    s.push_index_key(0);
    assert!(s.should_accumulate());
    s.push_field_key("f");
    assert!(!s.should_accumulate());
    s.push_index_key(1);
    assert!(s.should_accumulate());
    s.pop_key();
    s.pop_key();
    s.pop_key();
    s.pop_key();
    assert!(s.should_accumulate());
}

#[test]
fn serializer_error_message() {
    assert_eq!(SerializerError::Custom("maps not supported".into()).to_string(), "maps not supported");
}

#[test]
fn from_conversions_pick_the_variant() {
    assert_eq!(TelemetryValue::from(5u8), TelemetryValue::Int(5));
    assert_eq!(TelemetryValue::from(-5i8), TelemetryValue::Int(-5));
    assert_eq!(TelemetryValue::from(65535u16), TelemetryValue::Int(65535));
    assert_eq!(TelemetryValue::from(-2i16), TelemetryValue::Int(-2));
    assert_eq!(TelemetryValue::from(7i32), TelemetryValue::Int(7));
    assert_eq!(TelemetryValue::from(7u32), TelemetryValue::BitField(7));
    assert_eq!(TelemetryValue::from(true), TelemetryValue::Bool(true));
}

#[test]
fn connect_takes_the_first_sim_that_answers() {
    type C = Connection<u8, u16, i16, u32>;
    let r: Result<C, SimError> = SimConnection::connect(
        || Err(SimError::NotConnected("ir".into())),
        || Ok(2u16),
        || panic!("not tried"),
        || Ok(3u32),
    );
    assert!(matches!(r, Ok(Connection::AcEvo(2))));

    let r: Result<C, SimError> = SimConnection::connect(
        || Ok(1u8),
        || panic!("not tried"),
        || panic!("not tried"),
        || panic!("not tried"),
    );
    assert!(matches!(r, Ok(Connection::IRacing(1))));

    let r: Result<C, SimError> = SimConnection::connect(
        || Err(SimError::NoSimRunning),
        || Err(SimError::NoSimRunning),
        || Err(SimError::NotConnected("ac".into())),
        || Err(SimError::NotConnected("lmu".into())),
    );
    assert!(matches!(r, Err(SimError::NoSimRunning)));
}

#[test]
fn connect_falls_back_to_classic_ac_after_ac_evo() {
    type C = Connection<u8, u16, i16, u32>;
    let r: Result<C, SimError> = SimConnection::connect(
        || Err(SimError::NoSimRunning),
        || Err(SimError::NotConnected("acevo_pmf_physics".into())),
        || Ok(-4i16),
        || panic!("not tried"),
    );
    assert!(matches!(r, Ok(Connection::Ac(-4))));

    let r: Result<C, SimError> = SimConnection::connect(
        || Err(SimError::NoSimRunning),
        || Err(SimError::NoSimRunning),
        || Err(SimError::NotConnected("acpmf_physics".into())),
        || Ok(7u32),
    );
    assert!(matches!(r, Ok(Connection::Lmu(7))));
}

#[test]
fn connect_to_tries_only_the_named_sim() {
    type C = Connection<u8, u16, i16, u32>;
    let r: Result<C, SimError> = SimConnection::connect_to(
        SimType::Lmu,
        || panic!("not tried"),
        || panic!("not tried"),
        || Err(SimError::NotConnected("plugin missing".into())),
    );
    match r {
        Err(SimError::NotConnected(msg)) => assert_eq!(msg, "plugin missing"),
        _ => panic!("expected the connector's own error"),
    }
    let r: Result<C, SimError> =
        SimConnection::connect_to(SimType::IRacing, || Ok(9u8), || panic!("no"), || panic!("no"));
    assert!(matches!(r, Ok(Connection::IRacing(9))));
}

#[test]
fn ac_evo_var_list_is_fixed() {
    let vars = kerb::ac_evo::var_list_snapshot();
    let names: Vec<&str> = vars.iter().map(|v| v.name.as_str()).collect();
    assert_eq!(
        names,
        [
            "packet_id",
            "speed_kmh",
            "brake_bias",
            "status",
            "abs_level",
            "tc_level",
            "current_lap_time_ms",
            "session",
            "track"
        ]
    );
    assert!(vars.iter().all(|v| v.count == 1));
    assert_eq!(vars[1].unit, "km/h");
    assert_eq!(vars[4].type_str, "int8");
    assert_eq!(vars[2].desc, "Front brake bias 0.0\u{2013}1.0");
}

#[test]
fn var_list_text_sorts_and_aligns() {
    let vars = vec![
        VarMeta { name: "Speed".into(), type_str: "float", unit: "m/s".into(), desc: "GPS speed".into(), count: 1 },
        VarMeta { name: "CarIdxLap".into(), type_str: "int", unit: "".into(), desc: "Laps".into(), count: 64 },
    ];
    let text = var_list_text(vars);
    let expected = format!(
        "{:<32} {}{:<12} {:<16} {}\n{:<32} {}{:<12} {:<16} {}\n",
        "CarIdxLap", "int", "[64]", "", "Laps", "Speed", "float", "", "m/s", "GPS speed"
    );
    assert_eq!(text, expected);
}

#[test]
fn ac_evo_records_convert_field_by_field() {
    let pit = AcEvoPitInfo::from(SMEvoPitInfo {
        damage: -1,
        fuel: 0,
        tyres_lf: 1,
        tyres_rf: 1,
        tyres_lr: 0,
        tyres_rr: -1,
        _pad: [0; 58],
    });
    assert_eq!((pit.damage, pit.fuel, pit.tyres_lf, pit.tyres_rr), (-1, 0, 1, -1));

    let mut pages = [0i8; 16];
    pages[3] = 2;
    let ins = AcEvoInstrumentation::from(SMEvoInstrumentation {
        main_light_stage: 1,
        special_light_stage: 0,
        cockpit_light_stage: 2,
        wiper_level: 3,
        rain_lights: true,
        direction_light_left: false,
        direction_light_right: true,
        flashing_lights: false,
        warning_lights: false,
        selected_display_index: 4,
        display_current_page_index: pages,
        are_headlights_visible: true,
        _pad: [0; 101],
    });
    assert_eq!(ins.wiper_level, 3);
    assert_eq!(ins.display_current_page_index[3], 2);
    assert!(ins.are_headlights_visible);

    let mut lap = [0u8; 15];
    lap[..8].copy_from_slice(b"1:59.123");
    let timing = AcEvoTimingState::from(SMEvoTimingState {
        current_laptime: lap,
        delta_current: [0; 15],
        delta_current_p: -120,
        last_laptime: lap,
        delta_last: [0; 15],
        delta_last_p: 5,
        best_laptime: lap,
        ideal_laptime: [0; 15],
        total_time: [0; 15],
        is_invalid: true,
        _pad: [0; 142],
    });
    assert!(timing.current_laptime == "1:59.123");
    assert_eq!(timing.best_laptime.to_string_lossy(), "1:59.123");
    assert_eq!(timing.delta_current_p, -120);
    assert!(timing.is_invalid);
}

#[test]
fn telemetry_value_display_bitfield() {
    let v = TelemetryValue::BitField(0xDEAD);
    assert_eq!(v.display_text().as_deref(), Some("0x0000DEAD"));
}

#[test]
fn telemetry_value_display_text_of_each_plain_variant() {
    let text = |v: TelemetryValue| v.display_text();
    assert_eq!(text(TelemetryValue::Char(b'A')).as_deref(), Some("'A'"));
    assert_eq!(text(TelemetryValue::Char(0xE9)).as_deref(), Some("'\u{e9}'"));
    assert_eq!(text(TelemetryValue::String("Spa".into())).as_deref(), Some("Spa"));
    assert_eq!(text(TelemetryValue::Text("a b".into())).as_deref(), Some("a b"));
    assert_eq!(text(TelemetryValue::Bool(true)).as_deref(), Some("true"));
    assert_eq!(text(TelemetryValue::Bool(false)).as_deref(), Some("false"));
    assert_eq!(text(TelemetryValue::Int(-42)).as_deref(), Some("-42"));
    assert_eq!(text(TelemetryValue::Int(i32::MIN)).as_deref(), Some("-2147483648"));
    assert_eq!(text(TelemetryValue::BitField(0)).as_deref(), Some("0x00000000"));
    assert_eq!(text(TelemetryValue::BitField(u32::MAX)).as_deref(), Some("0xFFFFFFFF"));
    assert_eq!(text(TelemetryValue::BoolArray(vec![true, false])).as_deref(), Some("[true, false]"));
    assert_eq!(text(TelemetryValue::IntArray(vec![1, -2, 30])).as_deref(), Some("[1, -2, 30]"));
    assert_eq!(text(TelemetryValue::IntArray(vec![])).as_deref(), Some("[]"));
    assert_eq!(text(TelemetryValue::Float(1.5f32.to_bits())), None);
    assert_eq!(text(TelemetryValue::Double(2.0f64.to_bits())), None);
    assert_eq!(text(TelemetryValue::FloatArray(vec![0])), None);
    assert_eq!(text(TelemetryValue::DoubleArray(vec![0])), None);
}

struct FakeSim(&'static str);

impl HasSnapshot for FakeSim {
    fn telemetry_snapshot(&self) -> HashMap<String, TelemetryValue> {
        let mut m = HashMap::new();
        m.insert(self.0.to_string(), TelemetryValue::Int(1));
        m
    }

    fn var_list_snapshot(&self) -> Vec<VarMeta> {
        vec![VarMeta {
            name: self.0.to_string(),
            type_str: "int",
            unit: String::new(),
            desc: String::new(),
            count: 1,
        }]
    }
}

#[test]
fn connection_snapshots_the_simulator_it_holds() {
    let c: Connection<FakeSim, FakeSim, FakeSim, Box<FakeSim>> = Connection::AcEvo(FakeSim("evo"));
    assert!(c.telemetry_snapshot().contains_key("evo"));
    assert_eq!(c.var_list_snapshot()[0].name, "evo");
    let c: Connection<FakeSim, FakeSim, FakeSim, Box<FakeSim>> = Connection::Lmu(Box::new(FakeSim("lmu")));
    assert_eq!(c.telemetry_snapshot().get("lmu"), Some(&TelemetryValue::Int(1)));
    assert_eq!(c.var_list_snapshot().len(), 1);
    let c: Connection<FakeSim, FakeSim, FakeSim, Box<FakeSim>> = Connection::IRacing(FakeSim("ir"));
    assert_eq!(c.var_list_snapshot()[0].name, "ir");
    let c: Connection<FakeSim, FakeSim, FakeSim, Box<FakeSim>> = Connection::Ac(FakeSim("ac"));
    assert!(c.telemetry_snapshot().contains_key("ac"));
}

#[test]
fn snapshot_text_sorts_by_name_and_pads_names() {
    let line = |n: &str, v: &str| kerb::utils::SnapshotLine { name: n.to_string(), value: v.to_string() };
    let text = kerb::utils::snapshot_text(vec![
        line("Speed", "12.5000"),
        line("Gear", "3"),
        line("AVeryLongVariableNameThatIsWiderThanThirtyTwo", "true"),
    ]);
    let expected = format!(
        "{:<32} {}\n{:<32} {}\n{:<32} {}\n",
        "AVeryLongVariableNameThatIsWiderThanThirtyTwo", "true", "Gear", "3", "Speed", "12.5000"
    );
    assert_eq!(text, expected);
    assert!(text.starts_with("AVeryLongVariableNameThatIsWiderThanThirtyTwo true\n"));
    assert!(text.contains(&format!("Gear{} 3\n", " ".repeat(28))));
    assert_eq!(kerb::utils::snapshot_text(Vec::new()), "");
}
