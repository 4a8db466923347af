use kerb::iracing::reader::{
    decode_variable, frame_outcome, latest_buffer, session_text, status_connected,
    step_after_wait, validate_header, var_list_from_headers, var_meta, ReadStep,
};
use kerb::iracing::session::{IracingSession, YamlNumber, YamlValue};
use kerb::iracing::{irsdk_header, irsdk_varBuf, irsdk_varHeader, VarType};
use kerb::{ReadResult, SimError, TelemetryValue};

fn header() -> irsdk_header {
    let buf = irsdk_varBuf { tick_count: 0, buf_offset: 0, pad: [0; 2] };
    irsdk_header {
        ver: 2,
        status: 1,
        tick_rate: 60,
        session_info_update: 0,
        session_info_len: 0,
        session_info_offset: 0,
        num_vars: 3,
        var_header_offset: 144,
        num_buf: 3,
        buf_len: 64,
        pad: [0; 2],
        var_buf: [buf; 4],
    }
}

fn var(type_: i32, offset: i32, count: i32, count_as_char: u8) -> irsdk_varHeader {
    irsdk_varHeader {
        type_,
        offset,
        count,
        count_as_char,
        pad: [0; 3],
        name: [0; 32],
        desc: [0; 64],
        unit: [0; 32],
    }
}

fn text<const N: usize>(s: &str) -> [u8; N] {
    let mut a = [0u8; N];
    a[..s.len()].copy_from_slice(s.as_bytes());
    a
}

#[test]
fn iracing_header_struct_size() {
    let size = std::mem::size_of::<irsdk_header>();
    assert_eq!(size, 112, "irsdk_header size must be exactly 112 bytes for binary compatibility");
}

#[test]
fn var_type_codes_round_trip() {
    for code in 0..6 {
        assert_eq!(VarType::from_i32(code).map(|t| t.code()), Some(code));
    }
    assert_eq!(VarType::from_i32(4), Some(VarType::Float));
    assert_eq!(VarType::from_i32(6), None);
    assert_eq!(VarType::from_i32(-1), None);
}

#[test]
fn header_validation_accepts_a_plausible_header() {
    assert!(validate_header(&header()).is_ok());
}

#[test]
fn header_validation_rejects_versions_and_counts() {
    for (ver, num) in [(0, 3), (11, 3), (2, 0), (-1, -1)] {
        let mut h = header();
        h.ver = ver;
        h.num_vars = num;
        match validate_header(&h) {
            Err(SimError::InvalidHeader(msg)) => assert_eq!(
                msg,
                format!("Invalid iRacing telemetry header (ver={}, num_vars={})", ver, num)
            ),
            other => panic!("unexpected {:?}", other),
        }
    }
}

#[test]
fn header_validation_rejects_a_table_outside_the_region() {
    let mut h = header();
    h.var_header_offset = 32 * 1024 * 1024 - 144;
    h.num_vars = 1;
    assert!(validate_header(&h).is_ok());
    h.num_vars = 2;
    match validate_header(&h) {
        Err(SimError::InvalidHeader(msg)) => assert_eq!(msg, "var_header_offset out of SHM bounds"),
        other => panic!("unexpected {:?}", other),
    }
    h.var_header_offset = -1;
    assert!(validate_header(&h).is_err());
}

#[test]
fn latest_buffer_picks_the_highest_tick() {
    let mut h = header();
    h.var_buf[0].tick_count = 10;
    h.var_buf[1].tick_count = 30;
    h.var_buf[2].tick_count = 20;
    h.var_buf[3].tick_count = 99;
    assert_eq!(latest_buffer(&h), Some(1));
    h.var_buf[2].tick_count = 30;
    assert_eq!(latest_buffer(&h), Some(1));
    h.num_buf = 4;
    assert_eq!(latest_buffer(&h), Some(3));
}

#[test]
fn latest_buffer_rejects_bad_counts_and_unwritten_buffers() {
    let mut h = header();
    h.num_buf = 0;
    assert_eq!(latest_buffer(&h), None);
    h.num_buf = 5;
    assert_eq!(latest_buffer(&h), None);
    h.num_buf = 2;
    h.var_buf[0].tick_count = -1;
    h.var_buf[1].tick_count = -7;
    assert_eq!(latest_buffer(&h), None);
    h.var_buf[1].tick_count = 0;
    assert_eq!(latest_buffer(&h), Some(1));
}

#[test]
fn decode_scalars_little_endian() {
    let mut data = vec![0u8; 32];
    data[0..4].copy_from_slice(&(-7i32).to_le_bytes());
    data[4..8].copy_from_slice(&1.5f32.to_le_bytes());
    data[8..16].copy_from_slice(&2.25f64.to_le_bytes());
    data[16] = 1;
    data[17] = b'Q';
    data[20..24].copy_from_slice(&0xDEADu32.to_le_bytes());

    assert_eq!(decode_variable(&var(2, 0, 1, 0), &data), Some(TelemetryValue::Int(-7)));
    assert_eq!(
        decode_variable(&var(4, 4, 1, 0), &data),
        Some(TelemetryValue::Float(1.5f32.to_bits()))
    );
    assert_eq!(
        decode_variable(&var(5, 8, 1, 0), &data),
        Some(TelemetryValue::Double(2.25f64.to_bits()))
    );
    assert_eq!(decode_variable(&var(1, 16, 1, 0), &data), Some(TelemetryValue::Bool(true)));
    assert_eq!(decode_variable(&var(0, 17, 1, 0), &data), Some(TelemetryValue::Char(b'Q')));
    assert_eq!(decode_variable(&var(3, 20, 1, 0), &data), Some(TelemetryValue::BitField(0xDEAD)));
    assert_eq!(decode_variable(&var(9, 0, 1, 0), &data), None);
}

#[test]
fn decode_arrays() {
    let mut data = vec![0u8; 64];
    for (k, v) in [1i32, -2, 3].iter().enumerate() {
        data[4 * k..4 * k + 4].copy_from_slice(&v.to_le_bytes());
    }
    data[12..16].copy_from_slice(&0xFFFF_FFFFu32.to_le_bytes());
    data[16] = 0;
    data[17] = 2;
    data[24..32].copy_from_slice(&1.0f64.to_le_bytes());
    data[32..40].copy_from_slice(&(-1.0f64).to_le_bytes());

    assert_eq!(
        decode_variable(&var(2, 0, 3, 0), &data),
        Some(TelemetryValue::IntArray(vec![1, -2, 3]))
    );
    assert_eq!(
        decode_variable(&var(3, 8, 2, 0), &data),
        Some(TelemetryValue::IntArray(vec![3, -1]))
    );
    assert_eq!(
        decode_variable(&var(1, 16, 2, 0), &data),
        Some(TelemetryValue::BoolArray(vec![false, true]))
    );
    assert_eq!(
        decode_variable(&var(5, 24, 2, 0), &data),
        Some(TelemetryValue::DoubleArray(vec![1.0f64.to_bits(), (-1.0f64).to_bits()]))
    );
    assert_eq!(
        decode_variable(&var(4, 0, 0, 0), &data),
        Some(TelemetryValue::FloatArray(vec![]))
    );
}

#[test]
fn decode_char_data_as_text() {
    let mut data = vec![0u8; 16];
    data[..5].copy_from_slice(b"Ab\0cd");
    data[8..11].copy_from_slice(&[0x4A, 0xE9, 0x41]);
    assert_eq!(
        decode_variable(&var(0, 0, 5, 1), &data),
        Some(TelemetryValue::String("Ab".to_string()))
    );
    assert_eq!(
        decode_variable(&var(0, 8, 3, 0), &data),
        Some(TelemetryValue::String("JéA".to_string()))
    );
}

#[test]
fn var_meta_reads_the_header_strings() {
    let mut h = var(4, 0, 4, 0);
    h.unit = text::<32>("m/s");
    h.desc = text::<64>("GPS vehicle speed");
    let m = var_meta("Speed".to_string(), &h);
    assert_eq!(m.name, "Speed");
    assert_eq!(m.type_str, "float");
    assert_eq!(m.unit, "m/s");
    assert_eq!(m.desc, "GPS vehicle speed");
    assert_eq!(m.count, 4);

    let list = var_list_from_headers(&[("A".to_string(), var(3, 0, 1, 0)), ("B".to_string(), var(8, 0, 1, 0))]);
    assert_eq!(list.len(), 2);
    assert_eq!(list[0].type_str, "bitfield");
    assert_eq!(list[1].type_str, "unknown");
}

#[test]
fn read_decisions() {
    assert_eq!(step_after_wait(true, true), ReadStep::ReadFrame);
    assert_eq!(step_after_wait(false, true), ReadStep::NotReady);
    assert_eq!(step_after_wait(false, false), ReadStep::Disconnected);
    assert_eq!(step_after_wait(true, false), ReadStep::Disconnected);
    assert!(matches!(frame_outcome::<u8>(Ok(3)), ReadResult::Frame(3)));
    assert!(matches!(frame_outcome::<u8>(Err(SimError::NoSimRunning)), ReadResult::NotReady));
    assert!(status_connected(1));
    assert!(status_connected(3));
    assert!(!status_connected(2));
    assert!(!status_connected(0));
}

#[test]
fn session_text_decodes_up_to_nul() {
    assert_eq!(session_text(0, &[]), None);
    assert_eq!(session_text(-5, &[]), None);
    assert_eq!(session_text(6, b"a: 1\n\0"), Some("a: 1\n".to_string()));
}

fn s(x: &str) -> YamlValue {
    YamlValue::String(x.to_string())
}

fn n(x: &str, index: Option<u64>) -> YamlValue {
    YamlValue::Number(YamlNumber { text: x.to_string(), index })
}

fn session() -> IracingSession {
    let driver0 = YamlValue::Mapping(vec![
        (s("UserName"), s("Jane Doe")),
        (s("CarNumber"), s("007")),
        (s("IRating"), n("3012", Some(3012))),
    ]);
    let driver1 = YamlValue::Mapping(vec![(s("UserName"), s("John Roe"))]);
    let weekend = YamlValue::Mapping(vec![
        (s("TrackDisplayName"), s("Spa")),
        (s("Official"), YamlValue::Bool(false)),
        (s("TrackLength"), n("7.00", None)),
        (s("Tagged"), YamlValue::Tagged("!x".to_string(), Box::new(s("hidden")))),
        (s("ByNumber"), YamlValue::Mapping(vec![(n("0", Some(0)), s("zero"))])),
    ]);
    IracingSession {
        raw_yaml: YamlValue::Mapping(vec![
            (s("WeekendInfo"), weekend),
            (
                s("DriverInfo"),
                YamlValue::Mapping(vec![(s("Drivers"), YamlValue::Sequence(vec![driver0, driver1]))]),
            ),
            (s(""), s("empty key")),
        ]),
    }
}

#[test]
fn session_get_value_follows_dotted_paths() {
    let ses = session();
    assert_eq!(ses.get_value("WeekendInfo.TrackDisplayName").as_deref(), Some("Spa"));
    assert_eq!(ses.get_value("DriverInfo.Drivers[0].UserName").as_deref(), Some("Jane Doe"));
    assert_eq!(ses.get_value("DriverInfo.Drivers[1].UserName").as_deref(), Some("John Roe"));
    assert_eq!(ses.get_value("DriverInfo.Drivers[+1].UserName").as_deref(), Some("John Roe"));
    assert_eq!(ses.get_value("DriverInfo.Drivers[0].IRating").as_deref(), Some("3012"));
    assert_eq!(ses.get_value("WeekendInfo.Official").as_deref(), Some("false"));
    assert_eq!(ses.get_value("WeekendInfo.TrackLength").as_deref(), Some("7.00"));
    assert_eq!(ses.get_value("WeekendInfo.ByNumber[0]").as_deref(), Some("zero"));
    assert_eq!(ses.get_value("").as_deref(), Some("empty key"));
    assert_eq!(ses.get_value("DriverInfo.Drivers.0.UserName").as_deref(), Some("Jane Doe"));
    assert_eq!(ses.get_value("DriverInfo.Drivers.1.UserName").as_deref(), Some("John Roe"));
}

#[test]
fn session_from_yaml_reads_the_readme_path() {
    let s = IracingSession::from_yaml("DriverInfo:\n  Drivers:\n    - UserName: Bob\n").unwrap();
    assert_eq!(s.get_value("DriverInfo.Drivers.0.UserName"), Some("Bob".into()));
    assert_eq!(s.get_value("DriverInfo.Drivers[0].UserName"), Some("Bob".into()));
    let s = IracingSession::from_yaml("WeekendInfo:\n  TrackLength: 7.00 km\n  TrackID: 163\n  Official: 0\n")
        .unwrap();
    assert_eq!(s.get_value("WeekendInfo.TrackLength").as_deref(), Some("7.00 km"));
    assert_eq!(s.get_value("WeekendInfo.TrackID").as_deref(), Some("163"));
    let s = IracingSession::from_yaml("Names:\n  0: zero\n").unwrap();
    assert_eq!(s.get_value("Names[0]").as_deref(), Some("zero"));
    // A number key on a mapping is looked up as a key, not an index.
    assert_eq!(s.get_value("Names.0"), None);
}

#[test]
fn session_from_yaml_rejects_malformed_yaml() {
    assert!(IracingSession::from_yaml("a: [1, 2").is_none());
    assert!(IracingSession::from_yaml("a: b\n  c: d\n").is_none());
}

#[test]
fn session_cache_is_fresh_only_at_the_same_version() {
    assert!(kerb::iracing::session::session_cache_fresh(Some(3), 3));
    assert!(!kerb::iracing::session::session_cache_fresh(Some(3), 4));
    assert!(!kerb::iracing::session::session_cache_fresh(None, 0));
}

#[test]
fn is_connected_reads_status_bit() {
    assert!(status_connected(1));
    assert!(!status_connected(0));
}

#[test]
fn session_get_value_rejects_what_the_yaml_lookup_rejects() {
    let ses = session();
    assert_eq!(ses.get_value("DriverInfo.Drivers[2].UserName"), None);
    assert_eq!(ses.get_value("DriverInfo.Drivers[0]"), None);
    assert_eq!(ses.get_value("DriverInfo.Drivers[0]x.UserName"), None);
    assert_eq!(ses.get_value("DriverInfo.Drivers[].UserName"), None);
    assert_eq!(ses.get_value("DriverInfo.Drivers[-1].UserName"), None);
    assert_eq!(ses.get_value("DriverInfo.Drivers[x].UserName"), None);
    assert_eq!(ses.get_value("DriverInfo.Drivers[99999999999999999999999].UserName"), None);
    assert_eq!(ses.get_value("DriverInfo.Drivers.2.UserName"), None);
    assert_eq!(ses.get_value("DriverInfo.Drivers.+1.UserName"), None);
    assert_eq!(ses.get_value("DriverInfo.Drivers.x.UserName"), None);
    assert_eq!(ses.get_value("WeekendInfo"), None);
    assert_eq!(ses.get_value("WeekendInfo.Tagged"), None);
    assert_eq!(ses.get_value("WeekendInfo..TrackDisplayName"), None);
    assert_eq!(ses.get_value("Missing"), None);
    assert_eq!(ses.get_value("WeekendInfo.ByNumber[1]"), None);
}
