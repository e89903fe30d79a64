//! The colours of the window, as red, green, blue and opacity.

use vstd::prelude::*;
use crate::panel::{EndstopKind, LogKind};
use crate::stepper::HomingState;

verus! {

/// `Color32::from_rgb`, taken apart by `Color32::to_array`: an opaque colour
/// with the three components given.
#[verifier::external_body]
fn rgb(r: u8, g: u8, b: u8) -> (c: [u8; 4])
    ensures
        c@ == seq![r, g, b, 255u8],
{
    eframe::egui::Color32::from_rgb(r, g, b).to_array()
}

/// `Color32::LIGHT_BLUE`, taken apart by `Color32::to_array`.
#[verifier::external_body]
fn light_blue() -> (c: [u8; 4])
    ensures
        c@ == light_blue_spec(),
{
    eframe::egui::Color32::LIGHT_BLUE.to_array()
}

/// `Color32::LIGHT_GREEN`, taken apart by `Color32::to_array`.
#[verifier::external_body]
fn light_green() -> (c: [u8; 4])
    ensures
        c@ == light_green_spec(),
{
    eframe::egui::Color32::LIGHT_GREEN.to_array()
}

/// `Color32::GREEN`, taken apart by `Color32::to_array`.
#[verifier::external_body]
fn green() -> (c: [u8; 4])
    ensures
        c@ == green_spec(),
{
    eframe::egui::Color32::GREEN.to_array()
}

/// `Color32::YELLOW`, taken apart by `Color32::to_array`.
#[verifier::external_body]
fn yellow() -> (c: [u8; 4])
    ensures
        c@ == yellow_spec(),
{
    eframe::egui::Color32::YELLOW.to_array()
}

/// `Color32::RED`, taken apart by `Color32::to_array`.
#[verifier::external_body]
fn red() -> (c: [u8; 4])
    ensures
        c@ == red_spec(),
{
    eframe::egui::Color32::RED.to_array()
}

/// `Color32::GRAY`, taken apart by `Color32::to_array`.
#[verifier::external_body]
fn gray() -> (c: [u8; 4])
    ensures
        c@ == gray_spec(),
{
    eframe::egui::Color32::GRAY.to_array()
}

/// Light blue, opaque.
pub open spec fn light_blue_spec() -> Seq<u8> {
    seq![0xad, 0xd8, 0xe6, 255]
}

/// Light green, opaque.
pub open spec fn light_green_spec() -> Seq<u8> {
    seq![0x90, 0xee, 0x90, 255]
}

/// Green, opaque.
pub open spec fn green_spec() -> Seq<u8> {
    seq![0, 255, 0, 255]
}

/// Yellow, opaque.
pub open spec fn yellow_spec() -> Seq<u8> {
    seq![255, 255, 0, 255]
}

/// Red, opaque.
pub open spec fn red_spec() -> Seq<u8> {
    seq![255, 0, 0, 255]
}

/// Gray, opaque.
pub open spec fn gray_spec() -> Seq<u8> {
    seq![160, 160, 160, 255]
}

impl LogKind {
    /// The colour of a log entry of this kind.
    pub fn color(self) -> (c: [u8; 4])
        ensures
            c@ == match self {
                LogKind::Sent => light_blue_spec(),
                LogKind::Received => light_green_spec(),
                LogKind::Build => seq![255, 210, 100, 255],
                LogKind::Error => red_spec(),
                LogKind::Plain => gray_spec(),
            },
    {
        match self {
            LogKind::Sent => light_blue(),
            LogKind::Received => light_green(),
            LogKind::Build => rgb(255, 210, 100),
            LogKind::Error => red(),
            LogKind::Plain => gray(),
        }
    }
}

impl EndstopKind {
    /// The colour of an endstop of this kind.
    pub fn color(self) -> (c: [u8; 4])
        ensures
            c@ == match self {
                EndstopKind::Triggered => red_spec(),
                EndstopKind::Open => light_green_spec(),
                EndstopKind::Unknown => gray_spec(),
            },
    {
        match self {
            EndstopKind::Triggered => red(),
            EndstopKind::Open => light_green(),
            EndstopKind::Unknown => gray(),
        }
    }
}

impl HomingState {
    /// The colour of what is known of the position.
    pub fn color(self) -> (c: [u8; 4])
        ensures
            c@ == match self {
                HomingState::NotHomed => yellow_spec(),
                HomingState::Homing => yellow_spec(),
                HomingState::Homed => light_green_spec(),
            },
    {
        match self {
            HomingState::NotHomed => yellow(),
            HomingState::Homing => yellow(),
            HomingState::Homed => light_green(),
        }
    }
}

/// The colour of the connection mark.
pub fn connection_color(connected: bool) -> (c: [u8; 4])
    ensures
        c@ == if connected {
            green_spec()
        } else {
            gray_spec()
        },
{
    if connected {
        green()
    } else {
        gray()
    }
}

/// The colour of a note that something is going on.
pub fn pending_color() -> (c: [u8; 4])
    ensures
        c@ == yellow_spec(),
{
    yellow()
}

/// The colour of a warning.
pub fn warning_color() -> (c: [u8; 4])
    ensures
        c@ == red_spec(),
{
    red()
}

} // verus!
