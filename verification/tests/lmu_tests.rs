use kerb::lmu::{
    lmu_var_list,
    player_slot, player_telemetry_slot, vehicle_count, SeqlockReader, SeqlockStep, CLOCK_CHECK_EVERY, RF2_MAX_VEHICLES,
};

#[test]
fn vehicle_count_caps_at_the_array_size() {
    assert_eq!(vehicle_count(0), 0);
    assert_eq!(vehicle_count(17), 17);
    assert_eq!(vehicle_count(128), 128);
    assert_eq!(vehicle_count(129), RF2_MAX_VEHICLES);
    assert_eq!(vehicle_count(i32::MAX), 128);
}

#[test]
fn vehicle_count_reads_a_negative_count_as_the_whole_array() {
    assert_eq!(vehicle_count(-1), 128);
    assert_eq!(vehicle_count(i32::MIN), 128);
}

#[test]
fn player_slot_finds_the_first_flagged_valid_slot() {
    let flags = [0u8, 0, 1, 0, 1];
    assert_eq!(player_slot(&flags, 5), Some(2));
    assert_eq!(player_slot(&flags, 3), Some(2));
    assert_eq!(player_slot(&flags, 2), None);
    assert_eq!(player_slot(&flags, 0), None);
    assert_eq!(player_slot(&[0u8, 7], 2), Some(1));
}

#[test]
fn seqlock_accepts_a_copy_between_matching_counters() {
    let mut r = SeqlockReader::new();
    assert_eq!(r.before_copy(41, 41), SeqlockStep::Copy);
    assert_eq!(r.after_copy(41), SeqlockStep::Accept);
    assert_eq!(r.retries(), 0);
}

#[test]
fn seqlock_retries_while_a_write_is_under_way() {
    let mut r = SeqlockReader::new();
    assert_eq!(r.before_copy(42, 41), SeqlockStep::Spin);
    assert_eq!(r.retries(), 1);
    assert_eq!(r.before_copy(42, 42), SeqlockStep::Copy);
    assert_eq!(r.after_copy(42), SeqlockStep::Accept);
}

#[test]
fn seqlock_rejects_a_copy_that_a_write_overlapped() {
    let mut r = SeqlockReader::new();
    assert_eq!(r.before_copy(5, 5), SeqlockStep::Copy);
    assert_eq!(r.after_copy(6), SeqlockStep::Spin);
    assert_eq!(r.retries(), 1);
    // No copy is under way any more: the same end counter is not accepted.
    assert_eq!(r.after_copy(5), SeqlockStep::Spin);
    assert_eq!(r.retries(), 2);
}

#[test]
fn seqlock_looks_at_the_clock_every_thousand_failures() {
    let mut r = SeqlockReader::new();
    for i in 1..CLOCK_CHECK_EVERY {
        assert_eq!(r.before_copy(1, 0), SeqlockStep::Spin, "failure {}", i);
    }
    assert_eq!(r.before_copy(1, 0), SeqlockStep::CheckClock);
    assert_eq!(r.retries(), 1000);
    assert_eq!(r.on_clock(50_000_000), SeqlockStep::Yield);
    assert_eq!(r.on_clock(100_000_000), SeqlockStep::Yield);
    assert_eq!(r.on_clock(100_000_001), SeqlockStep::TimedOut);
    assert_eq!(r.before_copy(1, 0), SeqlockStep::Spin);
}

#[test]
fn player_telemetry_slot_matches_the_player_by_vehicle_id() {
    let is_player = [0u8, 1, 0];
    let scoring_ids = [10, 20, 30];
    // Telemetry lists the cars in another order.
    let telemetry_ids = [30, 10, 20];
    assert_eq!(player_telemetry_slot(&is_player, &scoring_ids, &telemetry_ids, 3), Some(2));
    // The player's id is not among the valid telemetry slots.
    assert_eq!(player_telemetry_slot(&is_player, &scoring_ids, &telemetry_ids, 2), None);
    // No player flagged.
    assert_eq!(player_telemetry_slot(&[0, 0, 0], &scoring_ids, &telemetry_ids, 3), None);
    // The first telemetry slot with the id wins.
    assert_eq!(player_telemetry_slot(&[1, 0], &[5, 6], &[6, 5, 5], 2), Some(1));
    assert_eq!(player_telemetry_slot(&[1], &[5], &[5, 5], 1), Some(0));
}

#[test]
fn lmu_var_list_has_every_telemetry_key_sorted() {
    let vars = lmu_var_list();
    let names: Vec<&str> = vars.iter().map(|v| v.name.as_str()).collect();
    assert_eq!(names.len(), 78);
    let mut sorted = names.clone();
    sorted.sort();
    assert_eq!(names, sorted);
    assert_eq!(names[0], "anti_stall_activated");
    assert_eq!(*names.last().unwrap(), "visual_steering_wheel_range");
    for key in ["engine_rpm", "pos_0", "pos_2", "vehicle_name", "dent_severity", "physics_to_graphics_offset_1"] {
        assert!(names.contains(&key), "{}", key);
    }
    for key in ["ori", "ori_0", "wheels", "_unused", "_expansion", "pos_3"] {
        assert!(!names.contains(&key), "{}", key);
    }
    assert!(vars.iter().all(|v| v.type_str == "f64" && v.unit.is_empty() && v.desc.is_empty() && v.count == 1));
}
