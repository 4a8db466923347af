use kerb::typegen::{
    camel_to_snake, camel_to_snake_generic, catalogue_to_toml, default_count, generate_from_defs,
    merge_defs, raw_extract_expr, rust_type, toml_string, VarDef,
};

fn def(name: &str, type_: &str, count: u32, unit: &str, desc: &str) -> VarDef {
    VarDef {
        name: name.to_string(),
        type_: type_.to_string(),
        count,
        unit: unit.to_string(),
        desc: desc.to_string(),
    }
}

/// Reads `[[var]]` tables the way the catalogue file is read: `count`
/// defaults to 1, `unit` and `desc` to empty.
fn parse_vars(source: &str) -> Vec<VarDef> {
    if kerb::text::is_blank(source) {
        return Vec::new();
    }
    let table: toml::Table = toml::from_str(source).expect("valid toml");
    let vars = table["var"].as_array().expect("var array");
    vars.iter()
        .map(|v| {
            let t = v.as_table().expect("table");
            let text = |k: &str| t.get(k).map(|x| x.as_str().unwrap().to_string()).unwrap_or_default();
            VarDef {
                name: text("name"),
                type_: text("type"),
                count: t
                    .get("count")
                    .map(|c| c.as_integer().unwrap() as u32)
                    .unwrap_or(default_count()),
                unit: text("unit"),
                desc: text("desc"),
            }
        })
        .collect()
}

#[test]
fn camel_to_snake_simple() {
    assert_eq!(camel_to_snake("RPM"), "rpm");
    assert_eq!(camel_to_snake("Speed"), "speed");
    assert_eq!(camel_to_snake("Gear"), "gear");
}

#[test]
fn camel_to_snake_compound() {
    assert_eq!(camel_to_snake("CarIdxLapDistPct"), "car_idx_lap_dist_pct");
    assert_eq!(camel_to_snake("FuelLevelPct"), "fuel_level_pct");
    assert_eq!(camel_to_snake("OnPitRoad"), "on_pit_road");
}

#[test]
fn camel_to_snake_digit_word_boundary() {
    assert_eq!(camel_to_snake("CarIdxF2Time"), "car_idx_f2_time");
    assert_eq!(camel_to_snake("CarIdxP2P_Status"), "car_idx_p2p_status");
    assert_eq!(camel_to_snake("CarIdxP2P_Count"), "car_idx_p2p_count");
}

#[test]
fn camel_to_snake_acronym_overrides() {
    assert_eq!(camel_to_snake("BrakeABSactive"), "brake_abs_active");
}

#[test]
fn camel_to_snake_corner_prefixes() {
    assert_eq!(camel_to_snake("LFtempCL"), "lf_temp_cl");
    assert_eq!(camel_to_snake("LFtempCM"), "lf_temp_cm");
    assert_eq!(camel_to_snake("RRwearR"), "rr_wear_r");
    assert_eq!(camel_to_snake("LRshockDefl_ST"), "lr_shock_defl_st");
    assert_eq!(camel_to_snake("RFcoldPressure"), "rf_cold_pressure");
    assert_eq!(camel_to_snake("LFbrakeLinePress"), "lf_brake_line_press");
    assert_eq!(camel_to_snake("LFodometer"), "lf_odometer");
    assert_eq!(camel_to_snake("LFshockVel"), "lf_shock_vel");
}

#[test]
fn camel_to_snake_longest_corner_code_first() {
    assert_eq!(camel_to_snake("LFSHshockDefl"), "lfsh_shock_defl");
    assert_eq!(camel_to_snake("LFshockDefl"), "lf_shock_defl");
    assert_eq!(camel_to_snake("LF"), "lf");
    assert_eq!(camel_to_snake_generic("LFtempCL"), "l_ftemp_cl");
    assert_eq!(camel_to_snake(""), "");
    assert_eq!(camel_to_snake("dcBrakeBias"), "dc_brake_bias");
    // The tail after a corner code is capitalised before it is split.
    assert_eq!(camel_to_snake("LFaBC"), "lf_abc");
    assert_eq!(camel_to_snake_generic("aBC"), "a_bc");
}

#[test]
fn generate_f32_field() {
    let output = generate_from_defs(&[def("RPM", "f32", 1, "rev/min", "Engine revolutions per minute")]);
    assert!(output.contains("pub rpm: f32,"));
    assert!(output.contains("read_unaligned"));
    assert!(output.contains("as *const f32"));
    assert!(output.contains("rev/min"));
}

#[test]
fn generate_array_field() {
    let output =
        generate_from_defs(&[def("CarIdxLapDistPct", "f32", 64, "", "Lap distance pct per car")]);
    assert!(output.contains("pub car_idx_lap_dist_pct: Vec<f32>,"));
    assert!(output.contains("read_unaligned"));
    assert!(output.contains("as *const f32"));
    assert!(output.contains("Vec::new()"));
}

#[test]
fn generate_i32_field() {
    let output = generate_from_defs(&parse_vars(
        r#"
[[var]]
name = "Gear"
type = "i32"
unit = ""
desc = "Gear number"
"#,
    ));
    assert!(output.contains("pub gear: i32,"));
    assert!(output.contains("read_unaligned"));
    assert!(output.contains("as *const i32"));
}

#[test]
fn generate_bool_field() {
    let output = generate_from_defs(&parse_vars(
        r#"
[[var]]
name = "OnPitRoad"
type = "bool"
unit = ""
desc = "Is on pit road"
"#,
    ));
    assert!(output.contains("pub on_pit_road: bool,"));
    assert!(output.contains("read_unaligned"));
    assert!(output.contains("!= 0"));
}

#[test]
fn merge_keeps_variables_the_session_does_not_declare() {
    let catalogue = parse_vars(
        r#"
[[var]]
name = "dcThrottleShape"
type = "f32"
desc = "In car throttle shape adjustment"
"#,
    );

    let session = parse_vars(
        r#"
[[var]]
name = "EnergyERSBatteryPct"
type = "f32"
unit = "%"
desc = "Engine ERS battery charge as a percent"
"#,
    );

    let (merged, report) = merge_defs(&catalogue, &session);

    let names: Vec<&str> = merged.iter().map(|var| var.name.as_str()).collect();
    assert_eq!(names, ["EnergyERSBatteryPct", "dcThrottleShape"]);
    assert_eq!(report.added, ["EnergyERSBatteryPct"]);
    assert_eq!(report.absent, ["dcThrottleShape"]);
    assert!(report.redefined.is_empty());
}

#[test]
fn merge_takes_the_session_shape_for_a_known_variable() {
    let catalogue = parse_vars(
        r#"
[[var]]
name = "CarIdxLapDistPct"
type = "f32"
count = 64
unit = "%"
desc = "old text"
"#,
    );

    let session = parse_vars(
        r#"
[[var]]
name = "CarIdxLapDistPct"
type = "f32"
count = 72
unit = "%"
desc = "Percentage distance around lap by car index"
"#,
    );

    let (merged, report) = merge_defs(&catalogue, &session);

    assert_eq!(merged.len(), 1);
    assert_eq!(merged[0].count, 72);
    assert_eq!(merged[0].desc, "Percentage distance around lap by car index");
    assert_eq!(report.redefined, ["CarIdxLapDistPct"]);
    assert!(report.added.is_empty());
}

#[test]
fn merge_does_not_blank_a_description_with_an_empty_one() {
    let catalogue = parse_vars(
        r#"
[[var]]
name = "Speed"
type = "f32"
unit = "m/s"
desc = "GPS vehicle speed"
"#,
    );

    let session = parse_vars(
        r#"
[[var]]
name = "Speed"
type = "f32"
"#,
    );

    let (merged, _) = merge_defs(&catalogue, &session);

    assert_eq!(merged[0].desc, "GPS vehicle speed");
    assert_eq!(merged[0].unit, "m/s");
}

#[test]
fn catalogue_round_trips_through_toml() {
    let source = r#"
[[var]]
name = "CarIdxLapDistPct"
type = "f32"
count = 72
unit = "%"
desc = "Percentage \"distance\" around lap"

[[var]]
name = "OnPitRoad"
type = "bool"
desc = "On pit road between the cones"
"#;

    let parsed = parse_vars(source);
    let reparsed = parse_vars(&catalogue_to_toml(&parsed));

    assert_eq!(reparsed.len(), 2);
    assert_eq!(reparsed[0].count, 72);
    assert_eq!(reparsed[0].desc, "Percentage \"distance\" around lap");
    assert_eq!(reparsed[1].count, 1);
    assert_eq!(reparsed[1].type_, "bool");
}

#[test]
fn merge_sorts_by_name_and_keeps_equal_names_in_order() {
    let catalogue = vec![
        def("b", "f32", 1, "", "first b"),
        def("a", "i32", 1, "", ""),
        def("b", "f32", 1, "", "second b"),
    ];
    let (merged, report) = merge_defs(&catalogue, &[]);
    let names: Vec<&str> = merged.iter().map(|v| v.name.as_str()).collect();
    assert_eq!(names, ["a", "b", "b"]);
    assert_eq!(merged[1].desc, "first b");
    assert_eq!(merged[2].desc, "second b");
    assert_eq!(report.absent, ["b", "a", "b"]);
}

#[test]
fn merge_orders_by_code_point_not_case() {
    let (merged, _) = merge_defs(&[def("alpha", "f32", 1, "", "")], &[def("Zeta", "f32", 1, "", "")]);
    let names: Vec<&str> = merged.iter().map(|v| v.name.as_str()).collect();
    assert_eq!(names, ["Zeta", "alpha"]);
}

#[test]
fn merge_reports_a_new_type_as_redefined() {
    let (merged, report) = merge_defs(
        &[def("Gear", "f32", 1, "", "Gear")],
        &[def("Gear", "i32", 1, "", ""), def("Brake", "f32", 1, "%", "Brake")],
    );
    assert_eq!(report.redefined, ["Gear"]);
    assert_eq!(report.added, ["Brake"]);
    assert!(report.absent.is_empty());
    assert_eq!(merged[1].type_, "i32");
    assert_eq!(merged[1].desc, "Gear");
}

#[test]
fn catalogue_text_is_exact() {
    let text = catalogue_to_toml(&[
        def("Speed", "f32", 1, "m/s", "GPS \\ \"speed\""),
        def("CarIdxLap", "i32", 64, "", ""),
    ]);
    let header = "# Catalogue of iRacing telemetry variables known to kerb.\n\
# Source of truth for src/iracing/types.rs \u{2014} see the README.\n\
#\n\
# The union over every car ever seen. iRacing declares only the variables the\n\
# current car has, so entries are added by a merge and never removed by one;\n\
# a variable absent from a session simply resolves to None at connect time.\n";
    let body = "\n[[var]]\nname = \"CarIdxLap\"\ntype = \"i32\"\ncount = 64\n\
\n[[var]]\nname = \"Speed\"\ntype = \"f32\"\nunit = \"m/s\"\ndesc = \"GPS \\\\ \\\"speed\\\"\"\n";
    assert_eq!(text, format!("{header}{body}"));
}

#[test]
fn toml_string_escapes_backslashes_and_quotes() {
    assert_eq!(toml_string("plain"), "\"plain\"");
    assert_eq!(toml_string("a\"b"), "\"a\\\"b\"");
    assert_eq!(toml_string("c:\\x"), "\"c:\\\\x\"");
    assert_eq!(toml_string(""), "\"\"");
}

#[test]
fn rust_type_maps_arrays_and_scalars() {
    assert_eq!(rust_type("f32", 4), "Vec<f32>");
    assert_eq!(rust_type("f64", 2), "Vec<f64>");
    assert_eq!(rust_type("bool", 4), "Vec<bool>");
    assert_eq!(rust_type("char", 4), "Vec<i32>");
    assert_eq!(rust_type("f64", 1), "f64");
    assert_eq!(rust_type("bool", 0), "bool");
}

#[test]
fn raw_extract_expr_exact_text() {
    assert_eq!(
        raw_extract_expr("i32", 1, "gear"),
        "match offsets.gear { Some(ref off) => unsafe { std::ptr::read_unaligned(buf.add(off.offset) as *const i32) }, None => 0 }"
    );
    assert_eq!(
        raw_extract_expr("bool", 1, "on_pit_road"),
        "match offsets.on_pit_road { Some(ref off) => unsafe { std::ptr::read_unaligned(buf.add(off.offset)) != 0 }, None => false }"
    );
    let arr = raw_extract_expr("f64", 3, "x");
    assert!(arr.starts_with("match offsets.x {\n                Some(ref off) => unsafe {\n                    let src = buf.add(off.offset) as *const f64;"));
    let bools = raw_extract_expr("bool", 4, "abs");
    assert!(bools.contains("vec.push(*ptr.add(idx) != 0);"));
    assert!(bools.ends_with("None => Vec::new(),\n            }"));
}

#[test]
fn generated_source_has_every_section() {
    let out = generate_from_defs(&[
        def("Speed", "f32", 1, "m/s", "GPS speed"),
        def("LFtempCL", "f32", 1, "C", "LF tire temp"),
    ]);
    assert!(out.starts_with("// AUTOGENERATED FILE. Do not edit manually.\n"));
    assert!(out.contains("    /// GPS speed [m/s]\n    pub speed: Option<IracingOffset>,\n"));
    assert!(out.contains(
        "            lf_temp_cl: vars.get(\"LFtempCL\").map(|v| IracingOffset { offset: v.offset as usize, count: v.count as usize }),\n"
    ));
    assert!(out.contains("    /// LF tire temp [C]\n    pub lf_temp_cl: f32,\n"));
    assert!(out.contains("            speed: match offsets.speed {"));
    assert!(out.ends_with("        }\n    }\n}\n"));
    assert_eq!(generate_from_defs(&[]).matches("pub struct").count(), 3);
}

#[test]
fn camel_to_snake_leaves_snake_case_names_alone() {
    for name in ["session_time", "car_idx_f2_time", "lf_temp_cl", "rpm", "", "x_1_y"] {
        assert_eq!(camel_to_snake(name), name);
    }
    let once = camel_to_snake("CarIdxLapDistPct");
    assert_eq!(camel_to_snake(&once), once);
}

#[test]
fn toml_string_keeps_distinct_texts_distinct() {
    let texts = ["a", "a\\", "a\"", "a\\\"", "\\\\", "\\", "\"", ""];
    for (i, a) in texts.iter().enumerate() {
        for (j, b) in texts.iter().enumerate() {
            assert_eq!(toml_string(a) == toml_string(b), i == j, "{:?} vs {:?}", a, b);
        }
    }
}

fn meta(name: &str, type_str: &'static str, count: u32) -> kerb::VarMeta {
    kerb::VarMeta {
        name: name.to_string(),
        type_str,
        unit: "u".to_string(),
        desc: format!("{} desc", name),
        count,
    }
}

#[test]
fn defs_from_session_maps_types_and_sorts_by_name() {
    let metas = vec![
        meta("Speed", "float", 1),
        meta("CarIdxLap", "int", 64),
        meta("SessionFlags", "bitfield", 1),
        meta("LapDist", "double", 1),
        meta("OnPitRoad", "bool", 1),
        meta("DriverMarker", "char", 1),
        meta("Odd", "mystery", 2),
    ];
    let defs = kerb::typegen::defs_from_session(&metas);
    let got: Vec<(String, String, u32)> =
        defs.iter().map(|d| (d.name.clone(), d.type_.clone(), d.count)).collect();
    let want = vec![
        ("CarIdxLap", "i32", 64),
        ("DriverMarker", "i32", 1),
        ("LapDist", "f64", 1),
        ("Odd", "i32", 2),
        ("OnPitRoad", "bool", 1),
        ("SessionFlags", "i32", 1),
        ("Speed", "f32", 1),
    ];
    let want: Vec<(String, String, u32)> =
        want.into_iter().map(|(n, t, c)| (n.to_string(), t.to_string(), c)).collect();
    assert_eq!(got, want);
    assert_eq!(defs[6].unit, "u");
    assert_eq!(defs[6].desc, "Speed desc");
}

#[test]
fn defs_from_session_keeps_the_order_of_equal_names() {
    let metas = vec![meta("B", "float", 1), meta("A", "int", 1), meta("B", "double", 3)];
    let defs = kerb::typegen::defs_from_session(&metas);
    let got: Vec<(String, String)> = defs.iter().map(|d| (d.name.clone(), d.type_.clone())).collect();
    assert_eq!(
        got,
        vec![
            ("A".to_string(), "i32".to_string()),
            ("B".to_string(), "f32".to_string()),
            ("B".to_string(), "f64".to_string()),
        ]
    );
}

#[test]
fn catalogue_to_toml_writes_entries_sorted_by_name() {
    let out = catalogue_to_toml(&[def("b", "f32", 1, "", ""), def("a", "i32", 1, "", "")]);
    assert!(out.find("name = \"a\"").unwrap() < out.find("name = \"b\"").unwrap());
    let out = catalogue_to_toml(&[def("x", "f32", 1, "", "first"), def("x", "i32", 1, "", "second")]);
    assert!(out.find("first").unwrap() < out.find("second").unwrap());
}
