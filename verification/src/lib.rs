//! Control logic for a single-axis stepper test stand: the state of the stand,
//! what the board sends and is sent, homing and moves within limits, macros,
//! the configuration file and the firmware build.

pub mod color;
pub mod config;
pub mod config_laws;
pub mod decimal;
pub mod editor;
pub mod file_laws;
pub mod firmware;
pub mod firmware_laws;
pub mod gcode;
pub mod motion;
pub mod motion_laws;
pub mod num;
pub mod num_laws;
pub mod panel;
pub mod project;
pub mod serial;
pub mod serial_laws;
pub mod settings;
pub mod stepper;
pub mod stepper_laws;
pub mod text;
pub mod text_facts;
pub mod text_laws;
