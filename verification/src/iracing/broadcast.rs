//! Remote control: the SDK channel for sending commands *into* iRacing.
//!
//! iRacing registers a window message named `IRSDK_BROADCASTMSG` and listens
//! for it on every top-level window. A command is that message carrying two
//! machine words: the wparam packs the message kind (low 16 bits) with its
//! first argument (high 16 bits), the lparam carries the remaining argument,
//! either whole or as two packed signed 16-bit words.
//!
//! The functions here build the exact `(wparam, lparam)` pair that
//! `irsdk_broadcastMsg` from the official SDK would post. Posting it to
//! `HWND_BROADCAST` is left to the caller, which owns the window-system handle.
use vstd::prelude::*;

verus! {

/// The low 16 bits of a 32-bit value, as an unsigned number.
pub open spec fn low16(x: i32) -> int {
    (x as u32) as int % 65536
}

/// `irsdk_BroadcastMsg`: which subsystem the message is aimed at.
#[derive(Debug, Clone, Copy, PartialEq, Eq, Structural)]
#[non_exhaustive]
pub enum BroadcastMsg {
    /// car position, group, camera
    CamSwitchPos,
    /// driver #, group, camera
    CamSwitchNum,
    /// [`CameraState`] bits
    CamSetState,
    /// speed, slowMotion
    ReplaySetPlaySpeed,
    /// [`ReplayPosition`], frame number
    ReplaySetPlayPosition,
    /// [`ReplaySearch`]
    ReplaySearch,
    /// [`ReplayState`]
    ReplaySetState,
    /// [`ReloadTextures`], carIdx
    ReloadTextures,
    /// [`ChatCommand`], sub-command
    ChatCommand,
    /// [`PitCommand`], parameter
    PitCommand,
    /// [`TelemetryCommand`]
    TelemCommand,
    /// [`FfbCommand`], value as a 32-bit float
    FfbCommand,
    /// session number, session time in ms
    ReplaySearchSessionTime,
    /// [`VideoCapture`]
    VideoCapture,
}

impl BroadcastMsg {
    /// The SDK's numeric code for this message kind.
    pub open spec fn spec_code(self) -> i32 {
        match self {
            BroadcastMsg::CamSwitchPos => 0,
            BroadcastMsg::CamSwitchNum => 1,
            BroadcastMsg::CamSetState => 2,
            BroadcastMsg::ReplaySetPlaySpeed => 3,
            BroadcastMsg::ReplaySetPlayPosition => 4,
            BroadcastMsg::ReplaySearch => 5,
            BroadcastMsg::ReplaySetState => 6,
            BroadcastMsg::ReloadTextures => 7,
            BroadcastMsg::ChatCommand => 8,
            BroadcastMsg::PitCommand => 9,
            BroadcastMsg::TelemCommand => 10,
            BroadcastMsg::FfbCommand => 11,
            BroadcastMsg::ReplaySearchSessionTime => 12,
            BroadcastMsg::VideoCapture => 13,
        }
    }

    /// The SDK's numeric code for this message kind.
    #[verifier::when_used_as_spec(spec_code)]
    pub fn code(self) -> (c: i32)
        ensures
            c == self.spec_code(),
    {
        match self {
            BroadcastMsg::CamSwitchPos => 0,
            BroadcastMsg::CamSwitchNum => 1,
            BroadcastMsg::CamSetState => 2,
            BroadcastMsg::ReplaySetPlaySpeed => 3,
            BroadcastMsg::ReplaySetPlayPosition => 4,
            BroadcastMsg::ReplaySearch => 5,
            BroadcastMsg::ReplaySetState => 6,
            BroadcastMsg::ReloadTextures => 7,
            BroadcastMsg::ChatCommand => 8,
            BroadcastMsg::PitCommand => 9,
            BroadcastMsg::TelemCommand => 10,
            BroadcastMsg::FfbCommand => 11,
            BroadcastMsg::ReplaySearchSessionTime => 12,
            BroadcastMsg::VideoCapture => 13,
        }
    }
}

/// `irsdk_PitCommandMode`: one checkbox in the pit service black box.
///
/// Only acted on while the driver is in the car.
#[derive(Debug, Clone, Copy, PartialEq, Eq, Structural)]
#[non_exhaustive]
pub enum PitCommand {
    /// Unchecks every box in the pit service order.
    Clear,
    /// Order a windshield clean, which spends one tear off.
    Windshield,
    /// Add fuel; the parameter is liters, or 0 to keep the current amount.
    Fuel,
    /// Change the left front; the parameter is kPa, or 0 to keep the current pressure.
    Lf,
    /// Right front.
    Rf,
    /// Left rear.
    Lr,
    /// Right rear.
    Rr,
    /// Clear the four tire checkboxes.
    ClearTires,
    /// Order a fast repair, if the session grants any.
    FastRepair,
    /// Uncheck "clean the windshield".
    ClearWindshield,
    /// Uncheck "fast repair".
    ClearFastRepair,
    /// Uncheck "add fuel".
    ClearFuel,
    /// Change tire compound; the parameter is the compound index.
    TireCompound,
}

impl PitCommand {
    /// The SDK's numeric code for this pit command.
    pub open spec fn spec_code(self) -> i32 {
        match self {
            PitCommand::Clear => 0,
            PitCommand::Windshield => 1,
            PitCommand::Fuel => 2,
            PitCommand::Lf => 3,
            PitCommand::Rf => 4,
            PitCommand::Lr => 5,
            PitCommand::Rr => 6,
            PitCommand::ClearTires => 7,
            PitCommand::FastRepair => 8,
            PitCommand::ClearWindshield => 9,
            PitCommand::ClearFastRepair => 10,
            PitCommand::ClearFuel => 11,
            PitCommand::TireCompound => 12,
        }
    }

    /// The SDK's numeric code for this pit command.
    #[verifier::when_used_as_spec(spec_code)]
    pub fn code(self) -> (c: i32)
        ensures
            c == self.spec_code(),
    {
        match self {
            PitCommand::Clear => 0,
            PitCommand::Windshield => 1,
            PitCommand::Fuel => 2,
            PitCommand::Lf => 3,
            PitCommand::Rf => 4,
            PitCommand::Lr => 5,
            PitCommand::Rr => 6,
            PitCommand::ClearTires => 7,
            PitCommand::FastRepair => 8,
            PitCommand::ClearWindshield => 9,
            PitCommand::ClearFastRepair => 10,
            PitCommand::ClearFuel => 11,
            PitCommand::TireCompound => 12,
        }
    }
}

/// `irsdk_ChatCommandMode`.
#[derive(Debug, Clone, Copy, PartialEq, Eq, Structural)]
#[non_exhaustive]
pub enum ChatCommand {
    /// Launch a chat macro; the parameter is a slot from 1 to 15.
    ///
    /// The macro text itself is configured in the sim's options and cannot be
    /// set from outside: this channel carries no free text.
    Macro,
    /// Open a new chat window.
    BeginChat,
    /// Reply to the last private chat.
    Reply,
    /// Close the chat window.
    Cancel,
}

impl ChatCommand {
    /// The SDK's numeric code for this chat command.
    pub open spec fn spec_code(self) -> i32 {
        match self {
            ChatCommand::Macro => 0,
            ChatCommand::BeginChat => 1,
            ChatCommand::Reply => 2,
            ChatCommand::Cancel => 3,
        }
    }

    /// The SDK's numeric code for this chat command.
    #[verifier::when_used_as_spec(spec_code)]
    pub fn code(self) -> (c: i32)
        ensures
            c == self.spec_code(),
    {
        match self {
            ChatCommand::Macro => 0,
            ChatCommand::BeginChat => 1,
            ChatCommand::Reply => 2,
            ChatCommand::Cancel => 3,
        }
    }
}

/// `irsdk_TelemCommandMode`. Can be sent any time, but the sim only records
/// while the driver is in the car.
#[derive(Debug, Clone, Copy, PartialEq, Eq, Structural)]
#[non_exhaustive]
pub enum TelemetryCommand {
    /// Stop recording to disk.
    Stop,
    /// Begin recording to disk.
    Start,
    /// Flush the current file to disk and start a new one.
    Restart,
}

impl TelemetryCommand {
    /// The SDK's numeric code for this telemetry command.
    pub open spec fn spec_code(self) -> i32 {
        match self {
            TelemetryCommand::Stop => 0,
            TelemetryCommand::Start => 1,
            TelemetryCommand::Restart => 2,
        }
    }

    /// The SDK's numeric code for this telemetry command.
    #[verifier::when_used_as_spec(spec_code)]
    pub fn code(self) -> (c: i32)
        ensures
            c == self.spec_code(),
    {
        match self {
            TelemetryCommand::Stop => 0,
            TelemetryCommand::Start => 1,
            TelemetryCommand::Restart => 2,
        }
    }
}

/// `irsdk_RpyStateMode`.
#[derive(Debug, Clone, Copy, PartialEq, Eq, Structural)]
#[non_exhaustive]
pub enum ReplayState {
    /// Discard everything currently held on the tape.
    EraseTape,
}

impl ReplayState {
    /// The SDK's numeric code for this replay state change.
    pub open spec fn spec_code(self) -> i32 {
        match self {
            ReplayState::EraseTape => 0,
        }
    }

    /// The SDK's numeric code for this replay state change.
    #[verifier::when_used_as_spec(spec_code)]
    pub fn code(self) -> (c: i32)
        ensures
            c == self.spec_code(),
    {
        match self {
            ReplayState::EraseTape => 0,
        }
    }
}

/// `irsdk_ReloadTexturesMode`.
#[derive(Debug, Clone, Copy, PartialEq, Eq, Structural)]
#[non_exhaustive]
pub enum ReloadTextures {
    /// Reload the textures of every car.
    All,
    /// Reload only the textures of one car; the parameter is its `carIdx`.
    CarIdx,
}

impl ReloadTextures {
    /// The SDK's numeric code for this reload mode.
    pub open spec fn spec_code(self) -> i32 {
        match self {
            ReloadTextures::All => 0,
            ReloadTextures::CarIdx => 1,
        }
    }

    /// The SDK's numeric code for this reload mode.
    #[verifier::when_used_as_spec(spec_code)]
    pub fn code(self) -> (c: i32)
        ensures
            c == self.spec_code(),
    {
        match self {
            ReloadTextures::All => 0,
            ReloadTextures::CarIdx => 1,
        }
    }
}

/// `irsdk_RpySrchMode`: jump the replay tape to an event.
#[derive(Debug, Clone, Copy, PartialEq, Eq, Structural)]
#[non_exhaustive]
pub enum ReplaySearch {
    ToStart,
    ToEnd,
    PrevSession,
    NextSession,
    PrevLap,
    NextLap,
    PrevFrame,
    NextFrame,
    PrevIncident,
    NextIncident,
}

impl ReplaySearch {
    /// The SDK's numeric code for this search mode.
    pub open spec fn spec_code(self) -> i32 {
        match self {
            ReplaySearch::ToStart => 0,
            ReplaySearch::ToEnd => 1,
            ReplaySearch::PrevSession => 2,
            ReplaySearch::NextSession => 3,
            ReplaySearch::PrevLap => 4,
            ReplaySearch::NextLap => 5,
            ReplaySearch::PrevFrame => 6,
            ReplaySearch::NextFrame => 7,
            ReplaySearch::PrevIncident => 8,
            ReplaySearch::NextIncident => 9,
        }
    }

    /// The SDK's numeric code for this search mode.
    #[verifier::when_used_as_spec(spec_code)]
    pub fn code(self) -> (c: i32)
        ensures
            c == self.spec_code(),
    {
        match self {
            ReplaySearch::ToStart => 0,
            ReplaySearch::ToEnd => 1,
            ReplaySearch::PrevSession => 2,
            ReplaySearch::NextSession => 3,
            ReplaySearch::PrevLap => 4,
            ReplaySearch::NextLap => 5,
            ReplaySearch::PrevFrame => 6,
            ReplaySearch::NextFrame => 7,
            ReplaySearch::PrevIncident => 8,
            ReplaySearch::NextIncident => 9,
        }
    }
}

/// `irsdk_RpyPosMode`: what a replay frame number is relative to.
#[derive(Debug, Clone, Copy, PartialEq, Eq, Structural)]
#[non_exhaustive]
pub enum ReplayPosition {
    Begin,
    Current,
    End,
}

impl ReplayPosition {
    /// The SDK's numeric code for this origin.
    pub open spec fn spec_code(self) -> i32 {
        match self {
            ReplayPosition::Begin => 0,
            ReplayPosition::Current => 1,
            ReplayPosition::End => 2,
        }
    }

    /// The SDK's numeric code for this origin.
    #[verifier::when_used_as_spec(spec_code)]
    pub fn code(self) -> (c: i32)
        ensures
            c == self.spec_code(),
    {
        match self {
            ReplayPosition::Begin => 0,
            ReplayPosition::Current => 1,
            ReplayPosition::End => 2,
        }
    }
}

/// `irsdk_FFBCommandMode`. Can be sent any time.
#[derive(Debug, Clone, Copy, PartialEq, Eq, Structural)]
#[non_exhaustive]
pub enum FfbCommand {
    /// Maximum force used when mapping steering torque to direct input units, in Nm.
    MaxForce,
}

impl FfbCommand {
    /// The SDK's numeric code for this force feedback parameter.
    pub open spec fn spec_code(self) -> i32 {
        match self {
            FfbCommand::MaxForce => 0,
        }
    }

    /// The SDK's numeric code for this force feedback parameter.
    #[verifier::when_used_as_spec(spec_code)]
    pub fn code(self) -> (c: i32)
        ensures
            c == self.spec_code(),
    {
        match self {
            FfbCommand::MaxForce => 0,
        }
    }
}

/// `irsdk_VideoCaptureMode`.
#[derive(Debug, Clone, Copy, PartialEq, Eq, Structural)]
#[non_exhaustive]
pub enum VideoCapture {
    /// Write a single still frame to disk.
    TriggerScreenShot,
    StartVideoCapture,
    EndVideoCapture,
    ToggleVideoCapture,
    /// Show the video timer in the upper left of the display.
    ShowVideoTimer,
    HideVideoTimer,
}

impl VideoCapture {
    /// The SDK's numeric code for this capture mode.
    pub open spec fn spec_code(self) -> i32 {
        match self {
            VideoCapture::TriggerScreenShot => 0,
            VideoCapture::StartVideoCapture => 1,
            VideoCapture::EndVideoCapture => 2,
            VideoCapture::ToggleVideoCapture => 3,
            VideoCapture::ShowVideoTimer => 4,
            VideoCapture::HideVideoTimer => 5,
        }
    }

    /// The SDK's numeric code for this capture mode.
    #[verifier::when_used_as_spec(spec_code)]
    pub fn code(self) -> (c: i32)
        ensures
            c == self.spec_code(),
    {
        match self {
            VideoCapture::TriggerScreenShot => 0,
            VideoCapture::StartVideoCapture => 1,
            VideoCapture::EndVideoCapture => 2,
            VideoCapture::ToggleVideoCapture => 3,
            VideoCapture::ShowVideoTimer => 4,
            VideoCapture::HideVideoTimer => 5,
        }
    }
}

/// `irsdk_csMode`: the "focus at" selectors accepted by [`camera_switch_position`]
/// in place of a position, and by [`camera_switch_number`] in place of a car number.
#[derive(Debug, Clone, Copy, PartialEq, Eq, Structural)]
#[non_exhaustive]
pub enum CameraFocus {
    Incident,
    Leader,
    Exiting,
    /// Follow whichever car the position or number argument selects.
    Driver,
}

impl CameraFocus {
    /// The SDK's numeric selector; the three special targets are negative.
    pub open spec fn spec_code(self) -> i32 {
        match self {
            CameraFocus::Incident => -3i32,
            CameraFocus::Leader => -2i32,
            CameraFocus::Exiting => -1i32,
            CameraFocus::Driver => 0,
        }
    }

    /// The SDK's numeric selector; the three special targets are negative.
    #[verifier::when_used_as_spec(spec_code)]
    pub fn code(self) -> (c: i32)
        ensures
            c == self.spec_code(),
    {
        match self {
            CameraFocus::Incident => -3,
            CameraFocus::Leader => -2,
            CameraFocus::Exiting => -1,
            CameraFocus::Driver => 0,
        }
    }
}

/// `irsdk_CameraState` bits. Only the flags below the first two can be set
/// through [`camera_set_state`]; `IsSessionScreen` and `IsScenicActive` are
/// reported by the sim and ignored on the way in.
#[derive(Debug, Clone, Copy, PartialEq, Eq, Structural)]
pub struct CameraState(pub i32);

impl CameraState {
    /// Flag: the free camera tool is open.
    pub fn cam_tool_active() -> (r: CameraState)
        ensures
            r.0 == 0x0004,
    {
        CameraState(0x0004)
    }

    /// Flag: the sim hides its user interface.
    pub fn ui_hidden() -> (r: CameraState)
        ensures
            r.0 == 0x0008,
    {
        CameraState(0x0008)
    }

    /// Flag: the sim picks camera shots on its own.
    pub fn use_auto_shot_selection() -> (r: CameraState)
        ensures
            r.0 == 0x0010,
    {
        CameraState(0x0010)
    }

    /// Flag: camera edits are not saved.
    pub fn use_temporary_edits() -> (r: CameraState)
        ensures
            r.0 == 0x0020,
    {
        CameraState(0x0020)
    }

    /// Flag: camera keys accelerate.
    pub fn use_key_acceleration() -> (r: CameraState)
        ensures
            r.0 == 0x0040,
    {
        CameraState(0x0040)
    }

    /// Flag: camera keys accelerate tenfold.
    pub fn use_key_10x_acceleration() -> (r: CameraState)
        ensures
            r.0 == 0x0080,
    {
        CameraState(0x0080)
    }

    /// Flag: the mouse aims the camera.
    pub fn use_mouse_aim_mode() -> (r: CameraState)
        ensures
            r.0 == 0x0100,
    {
        CameraState(0x0100)
    }

    /// Combines two sets of flags.
    pub fn with(self, other: CameraState) -> (r: CameraState)
        ensures
            r.0 == self.0 | other.0,
    {
        CameraState(self.0 | other.0)
    }
}

/// A remote-control message ready to post: the two machine words that go
/// with the registered `IRSDK_BROADCASTMSG` id to `HWND_BROADCAST`.
#[derive(Debug, Clone, Copy, PartialEq, Eq, Structural)]
pub struct BroadcastRequest {
    pub wparam: usize,
    pub lparam: isize,
}

/// `MAKELONG(msg, var1)`, as packed by `irsdk_broadcastMsg`: the message kind
/// in the low word, its first argument in the high word.
pub fn make_wparam(msg: i32, var1: i32) -> (w: usize)
    ensures
        w as int == low16(var1) * 65536 + low16(msg),
{
    let hi: u32 = (var1 as u32) << 16u32;
    let lo: u32 = (msg as u32) & 0xFFFFu32;
    let packed: u32 = hi | lo;
    proof {
        let a: u32 = var1 as u32;
        let b: u32 = msg as u32;
        assert(((a << 16u32) | (b & 0xFFFFu32)) as int == (a % 65536) * 65536 + b % 65536)
            by (bit_vector);
    }
    packed as usize
}

/// `MAKELONG(var2, var3)`: two signed 16-bit arguments packed into one
/// 32-bit word, `var2` in the low half.
pub fn make_lparam(var2: i32, var3: i32) -> (l: i32)
    ensures
        (l as u32) as int == low16(var3) * 65536 + low16(var2),
{
    let hi: u32 = (var3 as u32) << 16u32;
    let lo: u32 = (var2 as u32) & 0xFFFFu32;
    let packed: u32 = hi | lo;
    proof {
        let a: u32 = var3 as u32;
        let b: u32 = var2 as u32;
        assert(((a << 16u32) | (b & 0xFFFFu32)) as int == (a % 65536) * 65536 + b % 65536)
            by (bit_vector);
        assert(((packed as i32) as u32) == packed) by (bit_vector);
    }
    packed as i32
}

/// The request that carries `var2` as a full 32-bit value.
pub open spec fn spec_request(msg: BroadcastMsg, var1: i32, var2: i32) -> BroadcastRequest {
    BroadcastRequest {
        wparam: (low16(var1) * 65536 + low16(msg.spec_code())) as usize,
        lparam: var2 as isize,
    }
}

/// Builds the raw broadcast message for `msg`, with `var2` as a full 32-bit
/// value in the lparam.
///
/// The sim acts on the message only once it is posted; posting is
/// fire-and-forget, so delivery says nothing about whether iRacing acted.
pub fn send_broadcast(msg: BroadcastMsg, var1: i32, var2: i32) -> (r: BroadcastRequest)
    ensures
        r == spec_request(msg, var1, var2),
{
    let wparam = make_wparam(msg.code(), var1);
    BroadcastRequest { wparam, lparam: var2 as isize }
}

/// Builds a raw broadcast message where `var2` and `var3` are two signed
/// 16-bit arguments packed into the lparam.
pub fn send_broadcast3(msg: BroadcastMsg, var1: i32, var2: i32, var3: i32) -> (r:
    BroadcastRequest)
    ensures
        r.wparam == spec_request(msg, var1, 0).wparam,
        r.lparam as i32 as u32 as int == low16(var3) * 65536 + low16(var2),
        i32::MIN <= r.lparam <= i32::MAX,
{
    let l = make_lparam(var2, var3);
    send_broadcast(msg, var1, l)
}

// --- Pit service -----------------------------------------------------------
/// Builds one pit service command.
///
/// `param` is liters for [`PitCommand::Fuel`], kPa for the four corners, the
/// compound index for [`PitCommand::TireCompound`], and ignored otherwise. Pass
/// 0 to leave the existing value alone. Out-of-range values are clamped by the
/// sim, so callers need not validate them.
///
/// Only acted on while the driver is in the car.
pub fn send_pit_command(command: PitCommand, param: i32) -> (r: BroadcastRequest)
    ensures
        r == spec_request(BroadcastMsg::PitCommand, command.spec_code(), param),
{
    send_broadcast(BroadcastMsg::PitCommand, command.code(), param)
}

// --- Chat ------------------------------------------------------------------
/// Triggers one of the sim's 15 configured chat macros.
///
/// Slots outside 1..=15 are rejected without building anything. The macro
/// text lives in the sim's options; it cannot be supplied here.
pub fn send_chat_macro(slot: i32) -> (r: Option<BroadcastRequest>)
    ensures
        r == (if 1 <= slot <= 15 {
            Some(spec_request(BroadcastMsg::ChatCommand, ChatCommand::Macro.spec_code(), slot))
        } else {
            None
        }),
{
    if slot < 1 || slot > 15 {
        return None;
    }
    Some(send_broadcast(BroadcastMsg::ChatCommand, ChatCommand::Macro.code(), slot))
}

/// Opens, replies to, or closes the chat window.
///
/// Use [`send_chat_macro`] for [`ChatCommand::Macro`]; passing it here sends
/// slot 0, which the sim ignores.
pub fn send_chat_command(command: ChatCommand) -> (r: BroadcastRequest)
    ensures
        r == spec_request(BroadcastMsg::ChatCommand, command.spec_code(), 0),
{
    send_broadcast(BroadcastMsg::ChatCommand, command.code(), 0)
}

// --- Cameras ---------------------------------------------------------------
/// Switches the camera to a car by its running position.
///
/// Pass a [`CameraFocus`] code in place of `position` to follow the leader, the
/// latest incident, or the car exiting the pits. `group` and `camera` are
/// 1-based indices into the sim's camera groups; pass 0 to keep the current one.
///
/// Camera commands only work while out of the car.
pub fn camera_switch_position(position: i32, group: i32, camera: i32) -> (r: BroadcastRequest)
    ensures
        r.wparam == spec_request(BroadcastMsg::CamSwitchPos, position, 0).wparam,
        r.lparam as i32 as u32 as int == low16(camera) * 65536 + low16(group),
        i32::MIN <= r.lparam <= i32::MAX,
{
    send_broadcast3(BroadcastMsg::CamSwitchPos, position, group, camera)
}

/// Switches the camera to a car by its car number.
///
/// Car numbers with leading zeros must be encoded with [`pad_car_num`].
pub fn camera_switch_number(car_number: i32, group: i32, camera: i32) -> (r: BroadcastRequest)
    ensures
        r.wparam == spec_request(BroadcastMsg::CamSwitchNum, car_number, 0).wparam,
        r.lparam as i32 as u32 as int == low16(camera) * 65536 + low16(group),
        i32::MIN <= r.lparam <= i32::MAX,
{
    send_broadcast3(BroadcastMsg::CamSwitchNum, car_number, group, camera)
}

/// Sets the camera tool state flags.
pub fn camera_set_state(state: CameraState) -> (r: BroadcastRequest)
    ensures
        r == spec_request(BroadcastMsg::CamSetState, state.0, 0),
{
    send_broadcast(BroadcastMsg::CamSetState, state.0, 0)
}

/// How many digits `irsdk_padCarNum` counts for a car number.
pub open spec fn car_num_places(num: i32) -> int {
    if num > 99 {
        3
    } else if num > 9 {
        2
    } else {
        1
    }
}

/// The encoding of a car number displayed with `zero` leading zeros.
pub open spec fn spec_pad_car_num(num: i32, zero: i32) -> int {
    if zero != 0 {
        num + 1000 * (car_num_places(num) + zero)
    } else {
        num as int
    }
}

/// Whether `irsdk_padCarNum`'s arithmetic stays within 32 bits for these arguments.
pub open spec fn pad_car_num_fits(num: i32, zero: i32) -> bool {
    zero != 0 ==> {
        &&& i32::MIN <= car_num_places(num) + zero <= i32::MAX
        &&& i32::MIN <= 1000 * (car_num_places(num) + zero) <= i32::MAX
        &&& i32::MIN <= spec_pad_car_num(num, zero) <= i32::MAX
    }
}

/// Encodes a car number that carries leading zeros, mirroring `irsdk_padCarNum`.
///
/// Car #001 is `pad_car_num(1, 2)`: `zero` is how many leading zeros the number
/// is displayed with.
pub fn pad_car_num(num: i32, zero: i32) -> (r: i32)
    requires
        pad_car_num_fits(num, zero),
    ensures
        r == spec_pad_car_num(num, zero),
{
    let mut retval = num;
    let mut num_place: i32 = if num > 99 {
        3
    } else if num > 9 {
        2
    } else {
        1
    };

    if zero != 0 {
        num_place = num_place + zero;
        retval = num + 1000 * num_place;
    }

    retval
}

// --- Replay ----------------------------------------------------------------
/// Sets replay playback speed. `speed` is a multiplier, negative to rewind;
/// with `slow_motion` set it is instead a divisor (2 = half speed).
pub fn replay_set_play_speed(speed: i32, slow_motion: bool) -> (r: BroadcastRequest)
    ensures
        r.wparam == spec_request(BroadcastMsg::ReplaySetPlaySpeed, speed, 0).wparam,
        r.lparam == (if slow_motion { 1isize } else { 0isize }),
{
    let flag: i32 = if slow_motion {
        1
    } else {
        0
    };
    let r = send_broadcast3(BroadcastMsg::ReplaySetPlaySpeed, speed, flag, 0);
    proof {
        let l = r.lparam as i32;
        assert((l as u32) as int == low16(flag)) by {
            assert(low16(0) == 0);
        }
        assert(low16(flag) == flag as int);
        assert((l as u32) as int == flag as int ==> l == flag) by (bit_vector);
    }
    r
}

/// Jumps to a frame of the replay tape, relative to `origin`.
pub fn replay_set_position(origin: ReplayPosition, frame: i32) -> (r: BroadcastRequest)
    ensures
        r == spec_request(BroadcastMsg::ReplaySetPlayPosition, origin.spec_code(), frame),
{
    send_broadcast(BroadcastMsg::ReplaySetPlayPosition, origin.code(), frame)
}

/// Jumps to an event on the replay tape.
pub fn replay_search(mode: ReplaySearch) -> (r: BroadcastRequest)
    ensures
        r == spec_request(BroadcastMsg::ReplaySearch, mode.spec_code(), 0),
{
    send_broadcast(BroadcastMsg::ReplaySearch, mode.code(), 0)
}

/// Jumps to a point in time within a session, in milliseconds.
pub fn replay_search_session_time(session_num: i32, session_time_ms: i32) -> (r:
    BroadcastRequest)
    ensures
        r == spec_request(BroadcastMsg::ReplaySearchSessionTime, session_num, session_time_ms),
{
    send_broadcast(BroadcastMsg::ReplaySearchSessionTime, session_num, session_time_ms)
}

/// Changes the replay tape state: currently only erasing it.
pub fn replay_set_state(state: ReplayState) -> (r: BroadcastRequest)
    ensures
        r == spec_request(BroadcastMsg::ReplaySetState, state.spec_code(), 0),
{
    send_broadcast(BroadcastMsg::ReplaySetState, state.code(), 0)
}

// --- Misc ------------------------------------------------------------------
/// Starts, stops or rotates the sim's own telemetry recording.
pub fn send_telemetry_command(command: TelemetryCommand) -> (r: BroadcastRequest)
    ensures
        r == spec_request(BroadcastMsg::TelemCommand, command.spec_code(), 0),
{
    send_broadcast(BroadcastMsg::TelemCommand, command.code(), 0)
}

/// Reloads car textures. `car_idx` is only read for [`ReloadTextures::CarIdx`].
pub fn reload_textures(mode: ReloadTextures, car_idx: i32) -> (r: BroadcastRequest)
    ensures
        r == spec_request(BroadcastMsg::ReloadTextures, mode.spec_code(), car_idx),
{
    send_broadcast(BroadcastMsg::ReloadTextures, mode.code(), car_idx)
}

/// Triggers a screenshot or drives the sim's video capture.
pub fn send_video_capture(mode: VideoCapture) -> (r: BroadcastRequest)
    ensures
        r == spec_request(BroadcastMsg::VideoCapture, mode.spec_code(), 0),
{
    send_broadcast(BroadcastMsg::VideoCapture, mode.code(), 0)
}

/// The value of a 16-bit word read as a signed number.
pub open spec fn signed16(w: int) -> int {
    if w >= 32768 {
        w - 65536
    } else {
        w
    }
}

/// The sim unpacks a wparam into its two words: the low word gives back the
/// message code and the high word the first argument's low 16 bits, so any
/// argument from 0 to 65535 arrives unchanged.
pub proof fn lemma_wparam_unpacks(msg: i32, var1: i32)
    ensures
        (low16(var1) * 65536 + low16(msg)) % 65536 == low16(msg),
        (low16(var1) * 65536 + low16(msg)) / 65536 == low16(var1),
        0 <= msg < 65536 ==> low16(msg) == msg,
        0 <= var1 < 65536 ==> low16(var1) == var1,
{
    assert(0 <= low16(msg) < 65536);
    assert(0 <= low16(var1) < 65536);
    let x: u32 = msg as u32;
    assert(0 <= msg < 65536 ==> x as int == msg as int) by (bit_vector)
        requires
            x == msg as u32,
    ;
    let y: u32 = var1 as u32;
    assert(0 <= var1 < 65536 ==> y as int == var1 as int) by (bit_vector)
        requires
            y == var1 as u32,
    ;
}

/// The sim unpacks an lparam built from two signed 16-bit arguments into
/// the same two arguments: the low word, read as signed, is `var2`, and the
/// high word is `var3`.
pub proof fn lemma_lparam_round_trip(var2: i32, var3: i32)
    requires
        -32768 <= var2 < 32768,
        -32768 <= var3 < 32768,
    ensures
        signed16((low16(var3) * 65536 + low16(var2)) % 65536) == var2,
        signed16((low16(var3) * 65536 + low16(var2)) / 65536) == var3,
{
    let a: u32 = var2 as u32;
    let b: u32 = var3 as u32;
    assert(-32768 <= var2 < 32768 ==> (if (a % 65536) as int >= 32768 {
        (a % 65536) as int - 65536
    } else {
        (a % 65536) as int
    }) == var2 as int) by (bit_vector)
        requires
            a == var2 as u32,
    ;
    assert(-32768 <= var3 < 32768 ==> (if (b % 65536) as int >= 32768 {
        (b % 65536) as int - 65536
    } else {
        (b % 65536) as int
    }) == var3 as int) by (bit_vector)
        requires
            b == var3 as u32,
    ;
    assert(0 <= low16(var2) < 65536);
    assert(0 <= low16(var3) < 65536);
}

/// Combining camera flags keeps every flag of both sides and adds no other.
pub proof fn lemma_camera_flags_union(a: CameraState, b: CameraState, bit: u32)
    requires
        bit < 32,
    ensures
        ((a.0 | b.0) >> bit) & 1 == ((a.0 >> bit) & 1) | ((b.0 >> bit) & 1),
{
    let x = a.0;
    let y = b.0;
    assert(((x | y) >> bit) & 1 == ((x >> bit) & 1) | ((y >> bit) & 1)) by (bit_vector);
}

/// The message codes are the SDK's `irsdk_BroadcastMsg` values, in its
/// order from camera switching (0) to video capture (13).
pub proof fn lemma_broadcast_msg_codes()
    ensures
        BroadcastMsg::CamSwitchPos.spec_code() == 0,
        BroadcastMsg::CamSwitchNum.spec_code() == 1,
        BroadcastMsg::CamSetState.spec_code() == 2,
        BroadcastMsg::ReplaySetPlaySpeed.spec_code() == 3,
        BroadcastMsg::ReplaySetPlayPosition.spec_code() == 4,
        BroadcastMsg::ReplaySearch.spec_code() == 5,
        BroadcastMsg::ReplaySetState.spec_code() == 6,
        BroadcastMsg::ReloadTextures.spec_code() == 7,
        BroadcastMsg::ChatCommand.spec_code() == 8,
        BroadcastMsg::PitCommand.spec_code() == 9,
        BroadcastMsg::TelemCommand.spec_code() == 10,
        BroadcastMsg::FfbCommand.spec_code() == 11,
        BroadcastMsg::ReplaySearchSessionTime.spec_code() == 12,
        BroadcastMsg::VideoCapture.spec_code() == 13,
{
}

/// The pit command codes are the SDK's `irsdk_PitCommandMode` values: clear
/// 0, windshield 1, fuel 2, the tyres LF 3, RF 4, LR 5, RR 6, clear tyres 7,
/// fast repair 8, clear windshield 9, clear fast repair 10, clear fuel 11,
/// tyre compound 12.
pub proof fn lemma_pit_command_codes()
    ensures
        PitCommand::Clear.spec_code() == 0,
        PitCommand::Windshield.spec_code() == 1,
        PitCommand::Fuel.spec_code() == 2,
        PitCommand::Lf.spec_code() == 3,
        PitCommand::Rf.spec_code() == 4,
        PitCommand::Lr.spec_code() == 5,
        PitCommand::Rr.spec_code() == 6,
        PitCommand::ClearTires.spec_code() == 7,
        PitCommand::FastRepair.spec_code() == 8,
        PitCommand::ClearWindshield.spec_code() == 9,
        PitCommand::ClearFastRepair.spec_code() == 10,
        PitCommand::ClearFuel.spec_code() == 11,
        PitCommand::TireCompound.spec_code() == 12,
{
}

/// A pit command goes out as message 9 in the low half of the wparam, the
/// command's SDK code (the tyre it names, for the four tyre commands) in
/// the high half, and the parameter whole in the lparam.
pub proof fn lemma_pit_command_request(command: PitCommand, param: i32)
    ensures
        spec_request(BroadcastMsg::PitCommand, command.spec_code(), param).wparam as int % 65536 == 9,
        spec_request(BroadcastMsg::PitCommand, command.spec_code(), param).wparam as int / 65536
            == match command {
            PitCommand::Clear => 0int,
            PitCommand::Windshield => 1,
            PitCommand::Fuel => 2,
            PitCommand::Lf => 3,
            PitCommand::Rf => 4,
            PitCommand::Lr => 5,
            PitCommand::Rr => 6,
            PitCommand::ClearTires => 7,
            PitCommand::FastRepair => 8,
            PitCommand::ClearWindshield => 9,
            PitCommand::ClearFastRepair => 10,
            PitCommand::ClearFuel => 11,
            PitCommand::TireCompound => 12,
        },
        spec_request(BroadcastMsg::PitCommand, command.spec_code(), param).lparam == param as isize,
{
    lemma_pit_command_codes();
    lemma_broadcast_msg_codes();
    let c = command.spec_code();
    lemma_wparam_unpacks(9, c);
    assert(0 <= c < 65536);
    assert(low16(c) == c);
    assert(low16(9) == 9);
    let w = low16(c) * 65536 + low16(9);
    assert(0 <= w < 0x1_0000_0000);
    assert(spec_request(BroadcastMsg::PitCommand, c, param).wparam as int == w);
}

/// The chat, telemetry, replay, texture, force feedback, video capture and
/// camera focus codes are the SDK's values for each.
pub proof fn lemma_sub_command_codes()
    ensures
        ChatCommand::Macro.spec_code() == 0,
        ChatCommand::BeginChat.spec_code() == 1,
        ChatCommand::Reply.spec_code() == 2,
        ChatCommand::Cancel.spec_code() == 3,
        TelemetryCommand::Stop.spec_code() == 0,
        TelemetryCommand::Start.spec_code() == 1,
        TelemetryCommand::Restart.spec_code() == 2,
        ReplayState::EraseTape.spec_code() == 0,
        ReloadTextures::All.spec_code() == 0,
        ReloadTextures::CarIdx.spec_code() == 1,
        ReplaySearch::ToStart.spec_code() == 0,
        ReplaySearch::ToEnd.spec_code() == 1,
        ReplaySearch::PrevSession.spec_code() == 2,
        ReplaySearch::NextSession.spec_code() == 3,
        ReplaySearch::PrevLap.spec_code() == 4,
        ReplaySearch::NextLap.spec_code() == 5,
        ReplaySearch::PrevFrame.spec_code() == 6,
        ReplaySearch::NextFrame.spec_code() == 7,
        ReplaySearch::PrevIncident.spec_code() == 8,
        ReplaySearch::NextIncident.spec_code() == 9,
        ReplayPosition::Begin.spec_code() == 0,
        ReplayPosition::Current.spec_code() == 1,
        ReplayPosition::End.spec_code() == 2,
        FfbCommand::MaxForce.spec_code() == 0,
        VideoCapture::TriggerScreenShot.spec_code() == 0,
        VideoCapture::StartVideoCapture.spec_code() == 1,
        VideoCapture::EndVideoCapture.spec_code() == 2,
        VideoCapture::ToggleVideoCapture.spec_code() == 3,
        VideoCapture::ShowVideoTimer.spec_code() == 4,
        VideoCapture::HideVideoTimer.spec_code() == 5,
        CameraFocus::Incident.spec_code() == -3,
        CameraFocus::Leader.spec_code() == -2,
        CameraFocus::Exiting.spec_code() == -1,
        CameraFocus::Driver.spec_code() == 0,
{
}

} // verus!
