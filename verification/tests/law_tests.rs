use stepper_control::color::{connection_color, pending_color, warning_color};
use stepper_control::config::{number_texts, ConfigTexts, NumberTable};
use stepper_control::gcode::command_lines;
use stepper_control::num::Num;
use stepper_control::panel::{EndstopKind, LogKind};
use stepper_control::serial::parse_axis_value;
use stepper_control::stepper::{HomingState, SendOutcome, Step, StepperApp, LOG_LIMIT};

fn num(x: f32) -> Num {
    Num { bits: x.to_bits() }
}

fn table(text: &str) -> NumberTable {
    let entries = number_texts(text)
        .into_iter()
        .filter_map(|t| t.parse::<f32>().ok().map(|x| (t, num(x))))
        .collect();
    NumberTable { entries }
}

fn save(a: &StepperApp) -> String {
    let show = |n: Num| f32::from_bits(n.bits).to_string();
    a.save_config(&ConfigTexts {
        steps_y: show(a.config.steps_y),
        max_feedrate_y: show(a.config.max_feedrate_y),
        max_accel_y: show(a.config.max_accel_y),
        y_min_pos: show(a.config.y_min_pos),
        y_max_pos: show(a.config.y_max_pos),
    })
}

#[test]
fn colors_of_the_window() {
    assert_eq!(LogKind::Sent.color(), [0xad, 0xd8, 0xe6, 255]);
    assert_eq!(LogKind::Received.color(), [0x90, 0xee, 0x90, 255]);
    assert_eq!(LogKind::Build.color(), [255, 210, 100, 255]);
    assert_eq!(LogKind::Error.color(), [255, 0, 0, 255]);
    assert_eq!(LogKind::Plain.color(), [160, 160, 160, 255]);
    assert_eq!(EndstopKind::Triggered.color(), [255, 0, 0, 255]);
    assert_eq!(EndstopKind::Open.color(), [0x90, 0xee, 0x90, 255]);
    assert_eq!(EndstopKind::Unknown.color(), [160, 160, 160, 255]);
    assert_eq!(HomingState::NotHomed.color(), [255, 255, 0, 255]);
    assert_eq!(HomingState::Homing.color(), [255, 255, 0, 255]);
    assert_eq!(HomingState::Homed.color(), [0x90, 0xee, 0x90, 255]);
    assert_eq!(connection_color(true), [0, 255, 0, 255]);
    assert_eq!(connection_color(false), [160, 160, 160, 255]);
    assert_eq!(pending_color(), [255, 255, 0, 255]);
    assert_eq!(warning_color(), [255, 0, 0, 255]);
}

#[test]
fn performing_steps() {
    let mut a = StepperApp::default();
    a.connected = true;
    a.perform(&Step::Log("m".to_string()), &SendOutcome::NoPort);
    a.perform(&Step::Send("G91".to_string()), &SendOutcome::Sent);
    a.perform(&Step::Send("G91".to_string()), &SendOutcome::NoPort);
    assert!(a.connected);
    a.perform(&Step::Send("G28".to_string()), &SendOutcome::Failed("e".to_string()));
    assert!(!a.connected);
    assert_eq!(a.log, vec!["m", "> G91", "Send error: e"]);
    for _ in 0..LOG_LIMIT {
        a.perform(&Step::Log("x".to_string()), &SendOutcome::NoPort);
    }
    assert_eq!(a.log.len(), LOG_LIMIT);
    a.perform(&Step::Send("y".to_string()), &SendOutcome::Sent);
    assert_eq!(a.log.len(), LOG_LIMIT + 1);
}

#[test]
fn what_was_loaded_can_be_saved_and_loaded_again() {
    let text = "[macro:  m [x] ]\nlabel = \u{3000}L= #\ngcode= a ; b\n y_min_endstop_pin=1\n[x]\ny_min_endstop_pin=\tP 1 ";
    let mut a = StepperApp::default();
    a.load_config(&Ok(text.to_string()), &table(text), "");
    assert_eq!(a.config.macros[0].name, "m [x]");
    assert_eq!(a.config.macros[0].label, "L= #");
    assert_eq!(a.config.macros[0].gcode, "a \n b");
    assert_eq!(a.config.y_min_endstop_pin, "P 1");
    let again = save(&a);
    let mut b = StepperApp::default();
    b.load_config(&Ok(again.clone()), &table(&again), "");
    assert_eq!(b.config.macros[0].name, "m [x]");
    assert_eq!(b.config.macros[0].label, "L= #");
    assert_eq!(b.config.macros[0].gcode, "a\nb");
    assert_eq!(b.config.y_min_endstop_pin, "P 1");
    assert_eq!(save(&b), again);
    assert_eq!(
        command_lines(&a.config.macros[0].gcode),
        command_lines(&b.config.macros[0].gcode)
    );
}

#[test]
fn a_bad_name_is_not_saved() {
    let mut a = StepperApp::default();
    a.add_macro();
    a.editor.idx = Some(7);
    a.editor.name = "a b".to_string();
    assert!(!a.has_target());
    a.save_macro();
    assert!(a.editor.editing);
    assert!(a.config.macros.is_empty());
    a.editor.idx = None;
    assert!(a.has_target());
}

#[test]
fn an_axis_that_is_not_there() {
    assert_eq!(parse_axis_value("M92 X1 Y2", 'Z'), None);
    assert_eq!(parse_axis_value("M92 X1 Y2", 'é'), None);
    assert_eq!(parse_axis_value("M92 X1 Y2", 'X'), Some("1".to_string()));
}
