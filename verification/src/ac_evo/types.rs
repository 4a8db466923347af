//! Assetto Corsa Evo shared-memory records that hold no floating-point data,
//! and the public views built from them.
use vstd::prelude::*;
use crate::sim_string::{to_str, SimString};

verus! {

/// Pit-stop service action states, as laid out in the graphics page.
/// Values: -1 = will not perform, 0 = completed, 1 = in progress.
#[derive(Debug, Clone, Copy)]
pub struct SMEvoPitInfo {
    pub damage: i8,
    pub fuel: i8,
    pub tyres_lf: i8,
    pub tyres_rf: i8,
    pub tyres_lr: i8,
    pub tyres_rr: i8,
    pub _pad: [u8; 58],
}

/// Cockpit lights, display, and wiper states, as laid out in the graphics page.
#[derive(Debug, Clone, Copy)]
pub struct SMEvoInstrumentation {
    pub main_light_stage: i8,
    pub special_light_stage: i8,
    pub cockpit_light_stage: i8,
    pub wiper_level: i8,
    pub rain_lights: bool,
    pub direction_light_left: bool,
    pub direction_light_right: bool,
    pub flashing_lights: bool,
    pub warning_lights: bool,
    pub selected_display_index: i8,
    pub display_current_page_index: [i8; 16],
    pub are_headlights_visible: bool,
    pub _pad: [u8; 101],
}

/// HUD lap timing and delta display, as laid out in the graphics page.
#[derive(Debug, Clone, Copy)]
pub struct SMEvoTimingState {
    pub current_laptime: [u8; 15],
    pub delta_current: [u8; 15],
    pub delta_current_p: i32,
    pub last_laptime: [u8; 15],
    pub delta_last: [u8; 15],
    pub delta_last_p: i32,
    pub best_laptime: [u8; 15],
    pub ideal_laptime: [u8; 15],
    pub total_time: [u8; 15],
    pub is_invalid: bool,
    pub _pad: [u8; 142],
}

/// Pit-stop service action states.
#[derive(Debug, Clone, Copy, Default)]
pub struct AcEvoPitInfo {
    pub damage: i8,
    pub fuel: i8,
    pub tyres_lf: i8,
    pub tyres_rf: i8,
    pub tyres_lr: i8,
    pub tyres_rr: i8,
}

impl From<SMEvoPitInfo> for AcEvoPitInfo {
    fn from(r: SMEvoPitInfo) -> (out: AcEvoPitInfo) {
        AcEvoPitInfo {
            damage: r.damage,
            fuel: r.fuel,
            tyres_lf: r.tyres_lf,
            tyres_rf: r.tyres_rf,
            tyres_lr: r.tyres_lr,
            tyres_rr: r.tyres_rr,
        }
    }
}

impl vstd::std_specs::convert::FromSpecImpl<SMEvoPitInfo> for AcEvoPitInfo {
    open spec fn obeys_from_spec() -> bool {
        true
    }

    open spec fn from_spec(r: SMEvoPitInfo) -> AcEvoPitInfo {
        AcEvoPitInfo {
            damage: r.damage,
            fuel: r.fuel,
            tyres_lf: r.tyres_lf,
            tyres_rf: r.tyres_rf,
            tyres_lr: r.tyres_lr,
            tyres_rr: r.tyres_rr,
        }
    }
}

/// Cockpit lights, display, and wiper states.
#[derive(Debug, Clone, Copy, Default)]
pub struct AcEvoInstrumentation {
    pub main_light_stage: i8,
    pub special_light_stage: i8,
    pub cockpit_light_stage: i8,
    pub wiper_level: i8,
    pub rain_lights: bool,
    pub direction_light_left: bool,
    pub direction_light_right: bool,
    pub flashing_lights: bool,
    pub warning_lights: bool,
    pub selected_display_index: i8,
    pub display_current_page_index: [i8; 16],
    pub are_headlights_visible: bool,
}

impl From<SMEvoInstrumentation> for AcEvoInstrumentation {
    fn from(r: SMEvoInstrumentation) -> (out: AcEvoInstrumentation) {
        AcEvoInstrumentation {
            main_light_stage: r.main_light_stage,
            special_light_stage: r.special_light_stage,
            cockpit_light_stage: r.cockpit_light_stage,
            wiper_level: r.wiper_level,
            rain_lights: r.rain_lights,
            direction_light_left: r.direction_light_left,
            direction_light_right: r.direction_light_right,
            flashing_lights: r.flashing_lights,
            warning_lights: r.warning_lights,
            selected_display_index: r.selected_display_index,
            display_current_page_index: r.display_current_page_index,
            are_headlights_visible: r.are_headlights_visible,
        }
    }
}

impl vstd::std_specs::convert::FromSpecImpl<SMEvoInstrumentation> for AcEvoInstrumentation {
    open spec fn obeys_from_spec() -> bool {
        true
    }

    open spec fn from_spec(r: SMEvoInstrumentation) -> AcEvoInstrumentation {
        AcEvoInstrumentation {
            main_light_stage: r.main_light_stage,
            special_light_stage: r.special_light_stage,
            cockpit_light_stage: r.cockpit_light_stage,
            wiper_level: r.wiper_level,
            rain_lights: r.rain_lights,
            direction_light_left: r.direction_light_left,
            direction_light_right: r.direction_light_right,
            flashing_lights: r.flashing_lights,
            warning_lights: r.warning_lights,
            selected_display_index: r.selected_display_index,
            display_current_page_index: r.display_current_page_index,
            are_headlights_visible: r.are_headlights_visible,
        }
    }
}

/// HUD lap timing and delta display.
#[derive(Debug, Clone, Copy, Default)]
pub struct AcEvoTimingState {
    pub current_laptime: SimString<15>,
    pub delta_current: SimString<15>,
    pub delta_current_p: i32,
    pub last_laptime: SimString<15>,
    pub delta_last: SimString<15>,
    pub delta_last_p: i32,
    pub best_laptime: SimString<15>,
    pub ideal_laptime: SimString<15>,
    pub total_time: SimString<15>,
    pub is_invalid: bool,
}

impl From<SMEvoTimingState> for AcEvoTimingState {
    fn from(r: SMEvoTimingState) -> (out: AcEvoTimingState) {
        AcEvoTimingState {
            current_laptime: to_str(r.current_laptime),
            delta_current: to_str(r.delta_current),
            delta_current_p: r.delta_current_p,
            last_laptime: to_str(r.last_laptime),
            delta_last: to_str(r.delta_last),
            delta_last_p: r.delta_last_p,
            best_laptime: to_str(r.best_laptime),
            ideal_laptime: to_str(r.ideal_laptime),
            total_time: to_str(r.total_time),
            is_invalid: r.is_invalid,
        }
    }
}

impl vstd::std_specs::convert::FromSpecImpl<SMEvoTimingState> for AcEvoTimingState {
    open spec fn obeys_from_spec() -> bool {
        true
    }

    open spec fn from_spec(r: SMEvoTimingState) -> AcEvoTimingState {
        AcEvoTimingState {
            current_laptime: SimString(r.current_laptime),
            delta_current: SimString(r.delta_current),
            delta_current_p: r.delta_current_p,
            last_laptime: SimString(r.last_laptime),
            delta_last: SimString(r.delta_last),
            delta_last_p: r.delta_last_p,
            best_laptime: SimString(r.best_laptime),
            ideal_laptime: SimString(r.ideal_laptime),
            total_time: SimString(r.total_time),
            is_invalid: r.is_invalid,
        }
    }
}

} // verus!
