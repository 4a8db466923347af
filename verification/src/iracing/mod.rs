//! iRacing: the SDK's remote-control channel and the shared-memory layout.

pub mod broadcast;
pub mod reader;
pub mod session;
pub mod structs;

pub use broadcast::{
    BroadcastMsg, BroadcastRequest, CameraFocus, CameraState, ChatCommand, FfbCommand, PitCommand,
    ReloadTextures, ReplayPosition, ReplaySearch, ReplayState, TelemetryCommand, VideoCapture,
    camera_set_state, camera_switch_number, camera_switch_position, make_lparam, make_wparam,
    pad_car_num, reload_textures, replay_search, replay_search_session_time, replay_set_play_speed,
    replay_set_position, replay_set_state, send_broadcast, send_broadcast3, send_chat_command,
    send_chat_macro, send_pit_command, send_telemetry_command, send_video_capture,
};
pub use structs::{irsdk_header, irsdk_varBuf, irsdk_varHeader, VarType};
pub use session::IracingSession;
