use kerb::snapshot_plan::{
    read_byte_text, snapshot_entries, EntrySource, FieldType, RecordField, SnapshotEntry,
};

fn ident(s: &str) -> FieldType {
    FieldType::Ident(s.to_string())
}

fn array(elem: FieldType, len: usize) -> FieldType {
    FieldType::Array(Box::new(elem), len)
}

fn field(name: &str, ty: FieldType) -> RecordField {
    RecordField { name: name.to_string(), ty }
}

fn entry(field: &str, key: &str, source: EntrySource) -> SnapshotEntry {
    SnapshotEntry { field: field.to_string(), key: key.to_string(), source }
}

#[test]
fn snapshot_entries_follow_the_field_rules() {
    let fields = vec![
        field("packet_id", ident("i32")),
        field("_pad", array(ident("u8"), 4)),
        field("rpms", ident("f32")),
        field("car_model", array(ident("u8"), 33)),
        field("track", array(ident("u16"), 33)),
        field("wheel_speed", array(ident("f32"), 3)),
        field("tyre_temp_grid", array(array(ident("f32"), 3), 4)),
        field("wheels", array(ident("SPageFileWheel"), 4)),
        field("tyre", ident("SMEvoTyreState")),
        field("index", ident("usize")),
        field("session", FieldType::Other),
        field("is_live", ident("bool")),
    ];
    let expected = vec![
        entry("packet_id", "packet_id", EntrySource::Scalar),
        entry("rpms", "rpms", EntrySource::Scalar),
        entry("car_model", "car_model", EntrySource::ByteText),
        entry("track", "track", EntrySource::Utf16Text),
        entry("wheel_speed", "wheel_speed_0", EntrySource::Element(0)),
        entry("wheel_speed", "wheel_speed_1", EntrySource::Element(1)),
        entry("wheel_speed", "wheel_speed_2", EntrySource::Element(2)),
        entry("tyre", "tyre", EntrySource::Nested),
        entry("is_live", "is_live", EntrySource::Scalar),
    ];
    assert_eq!(snapshot_entries(&fields), expected);
}

#[test]
fn snapshot_entries_of_a_long_array_count_in_decimal() {
    let fields = vec![field("lap", array(ident("u32"), 12))];
    let keys: Vec<String> = snapshot_entries(&fields).into_iter().map(|e| e.key).collect();
    assert_eq!(keys.len(), 12);
    assert_eq!(keys[9], "lap_9");
    assert_eq!(keys[10], "lap_10");
    assert_eq!(keys[11], "lap_11");
}

#[test]
fn snapshot_entries_of_an_empty_record() {
    assert!(snapshot_entries(&Vec::new()).is_empty());
    assert!(snapshot_entries(&vec![field("_reserved", ident("f32"))]).is_empty());
}

#[test]
fn read_byte_text_stops_at_nul_and_maps_bytes_to_code_points() {
    assert_eq!(read_byte_text(&[b'A', 0xE9, b'z', 0, b'x']), "A\u{e9}z");
    assert_eq!(read_byte_text(&[b'a', b'b']), "ab");
    assert_eq!(read_byte_text(&[0, b'a']), "");
    assert_eq!(read_byte_text(&[0x80]), "\u{80}");
}
