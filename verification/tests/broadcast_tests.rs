use kerb::iracing::{
    camera_set_state, camera_switch_number, camera_switch_position, make_lparam, make_wparam,
    pad_car_num, reload_textures, replay_search, replay_search_session_time,
    replay_set_play_speed, replay_set_position, replay_set_state, send_broadcast,
    send_broadcast3, send_chat_command, send_chat_macro, send_pit_command,
    send_telemetry_command, send_video_capture, BroadcastMsg, BroadcastRequest, CameraFocus,
    CameraState, ChatCommand, FfbCommand, PitCommand, ReloadTextures, ReplayPosition,
    ReplaySearch, ReplayState, TelemetryCommand, VideoCapture,
};

#[test]
fn broadcast_msg_codes_match_the_sdk_enum() {
    assert_eq!(BroadcastMsg::CamSwitchPos as i32, 0);
    assert_eq!(BroadcastMsg::ChatCommand as i32, 8);
    assert_eq!(BroadcastMsg::PitCommand as i32, 9);
    assert_eq!(BroadcastMsg::TelemCommand as i32, 10);
    assert_eq!(BroadcastMsg::FfbCommand as i32, 11);
    assert_eq!(BroadcastMsg::ReplaySearchSessionTime as i32, 12);
    assert_eq!(BroadcastMsg::VideoCapture as i32, 13);
}

#[test]
fn pit_command_codes_match_the_sdk_enum() {
    assert_eq!(PitCommand::Clear as i32, 0);
    assert_eq!(PitCommand::Fuel as i32, 2);
    assert_eq!(PitCommand::Lf as i32, 3);
    assert_eq!(PitCommand::Rr as i32, 6);
    assert_eq!(PitCommand::ClearFuel as i32, 11);
    assert_eq!(PitCommand::TireCompound as i32, 12);
}

#[test]
fn sub_command_codes_match_the_sdk_enums() {
    assert_eq!(ChatCommand::Macro as i32, 0);
    assert_eq!(ChatCommand::Cancel as i32, 3);
    assert_eq!(TelemetryCommand::Restart as i32, 2);
    assert_eq!(ReplaySearch::NextIncident as i32, 9);
    assert_eq!(ReplayPosition::End as i32, 2);
    assert_eq!(ReloadTextures::CarIdx as i32, 1);
    assert_eq!(VideoCapture::HideVideoTimer as i32, 5);
    assert_eq!(FfbCommand::MaxForce as i32, 0);
    assert_eq!(ReplayState::EraseTape as i32, 0);
}

#[test]
fn camera_focus_selectors_are_negative() {
    assert_eq!(CameraFocus::Incident.code(), -3);
    assert_eq!(CameraFocus::Leader.code(), -2);
    assert_eq!(CameraFocus::Exiting.code(), -1);
    assert_eq!(CameraFocus::Driver.code(), 0);
}

#[test]
fn camera_state_flags_combine() {
    let combined = CameraState::ui_hidden().with(CameraState::cam_tool_active());

    assert_eq!(combined.0, 0x000C);
}

#[test]
fn wparam_packs_msg_low_and_subcommand_high() {
    // 9 is BroadcastMsg::PitCommand, 2 is PitCommand::Fuel.
    assert_eq!(make_wparam(9, 2), 0x0002_0009);
    assert_eq!(make_wparam(9, 12), 0x000C_0009);
}

#[test]
fn lparam_packs_two_signed_words() {
    assert_eq!(make_lparam(1, 2), 0x0002_0001);
    assert_eq!(make_lparam(-1, 0), 0x0000_FFFF);
}

#[test]
fn float_payload_is_scaled_by_2_pow_16() {
    assert_eq!((1.5_f32 * 65536.0) as i32, 98_304);
}

#[test]
fn chat_macro_rejects_slots_outside_the_sim_range() {
    assert!(send_chat_macro(0).is_none());
    assert!(send_chat_macro(16).is_none());
    assert!(send_chat_macro(-1).is_none());
}

#[test]
fn pad_car_num_matches_the_sdk_helper() {
    assert_eq!(pad_car_num(1, 0), 1);
    assert_eq!(pad_car_num(1, 2), 3001);
    assert_eq!(pad_car_num(12, 1), 3012);
    assert_eq!(pad_car_num(123, 0), 123);
}

#[test]
fn codes_agree_with_declaration_order() {
    let msgs = [
        BroadcastMsg::CamSwitchPos,
        BroadcastMsg::CamSwitchNum,
        BroadcastMsg::CamSetState,
        BroadcastMsg::ReplaySetPlaySpeed,
        BroadcastMsg::ReplaySetPlayPosition,
        BroadcastMsg::ReplaySearch,
        BroadcastMsg::ReplaySetState,
        BroadcastMsg::ReloadTextures,
        BroadcastMsg::ChatCommand,
        BroadcastMsg::PitCommand,
        BroadcastMsg::TelemCommand,
        BroadcastMsg::FfbCommand,
        BroadcastMsg::ReplaySearchSessionTime,
        BroadcastMsg::VideoCapture,
    ];
    for m in msgs {
        assert_eq!(m.code(), m as i32);
    }
    assert_eq!(PitCommand::TireCompound.code(), PitCommand::TireCompound as i32);
    assert_eq!(VideoCapture::ShowVideoTimer.code(), 4);
    assert_eq!(ReplaySearch::PrevLap.code(), 4);
}

#[test]
fn chat_macro_accepts_slots_one_to_fifteen() {
    let first = send_chat_macro(1).expect("slot 1");
    let last = send_chat_macro(15).expect("slot 15");
    // ChatCommand (8) in the low word, Macro (0) in the high word.
    assert_eq!(first.wparam, 0x0000_0008);
    assert_eq!(first.lparam, 1);
    assert_eq!(last.lparam, 15);
}

#[test]
fn pit_command_request_carries_the_parameter_whole() {
    let r = send_pit_command(PitCommand::Fuel, 26);
    assert_eq!(r, BroadcastRequest { wparam: 0x0002_0009, lparam: 26 });
    let big = send_pit_command(PitCommand::Lf, 100_000);
    assert_eq!(big.lparam, 100_000);
    let neg = send_broadcast(BroadcastMsg::PitCommand, 1, -5);
    assert_eq!(neg.lparam, -5);
}

#[test]
fn wparam_keeps_only_the_low_word_of_the_subcommand() {
    assert_eq!(make_wparam(9, 0x1_0002), 0x0002_0009);
    assert_eq!(make_wparam(9, -1), 0xFFFF_0009);
}

#[test]
fn lparam_words_unpack_to_the_signed_arguments() {
    for (a, b) in [(1i32, 2i32), (-1, 0), (-32768, 32767), (1234, -4321)] {
        let l = make_lparam(a, b) as u32;
        assert_eq!((l & 0xFFFF) as u16 as i16 as i32, a);
        assert_eq!((l >> 16) as u16 as i16 as i32, b);
    }
}

#[test]
fn camera_commands_pack_group_and_camera() {
    let r = camera_switch_position(CameraFocus::Leader.code(), 3, 4);
    assert_eq!(r.wparam, 0xFFFE_0000);
    assert_eq!(r.lparam, 0x0004_0003);
    let n = camera_switch_number(pad_car_num(1, 2), 0, 0);
    assert_eq!(n.wparam, ((3001u32 << 16) | 1) as usize);
    let s = camera_set_state(CameraState::use_mouse_aim_mode());
    assert_eq!(s.wparam, 0x0100_0002);
}

#[test]
fn replay_and_misc_requests() {
    assert_eq!(replay_set_play_speed(2, true).lparam, 1);
    assert_eq!(replay_set_play_speed(-4, false).lparam, 0);
    assert_eq!(replay_set_play_speed(-4, false).wparam, 0xFFFC_0003);
    assert_eq!(replay_set_position(ReplayPosition::End, 120).wparam, 0x0002_0004);
    assert_eq!(replay_search(ReplaySearch::PrevIncident).wparam, 0x0008_0005);
    let t = replay_search_session_time(2, 90_000);
    assert_eq!((t.wparam, t.lparam), (0x0002_000C, 90_000));
    assert_eq!(replay_set_state(ReplayState::EraseTape).wparam, 6);
    assert_eq!(send_telemetry_command(TelemetryCommand::Start).wparam, 0x0001_000A);
    assert_eq!(reload_textures(ReloadTextures::CarIdx, 7).lparam, 7);
    assert_eq!(send_video_capture(VideoCapture::HideVideoTimer).wparam, 0x0005_000D);
    assert_eq!(send_chat_command(ChatCommand::Cancel).wparam, 0x0003_0008);
    assert_eq!(send_broadcast3(BroadcastMsg::CamSwitchPos, 1, -1, -1).lparam, -1);
}
