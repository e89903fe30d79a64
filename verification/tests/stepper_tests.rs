use stepper_control::gcode::MacroDef;
use stepper_control::num::Num;
use stepper_control::serial::{parse_axis_value, reader_step, ReadAction, ReadEvent};
use stepper_control::stepper::{
    wire_line, ConnectOutcome, HomingState, Message, MoveTexts, RuntimeTexts, SendOutcome, Step,
    StepperApp, Tab,
};

fn num(x: f32) -> Num {
    Num { bits: x.to_bits() }
}

fn show(steps: &[Step]) -> Vec<String> {
    steps
        .iter()
        .map(|s| match s {
            Step::Send(c) => format!("send {}", c),
            Step::Log(m) => format!("log {}", m),
        })
        .collect()
}

fn message(text: &str) -> Message {
    let y = parse_axis_value(text, 'Y').and_then(|v| v.parse::<f32>().ok()).map(num);
    Message { text: text.to_string(), y }
}

fn messages(texts: &[&str]) -> Vec<Message> {
    texts.iter().map(|t| message(t)).collect()
}

fn texts() -> MoveTexts {
    MoveTexts {
        position: "490.0".to_string(),
        actual: "10.00".to_string(),
        dist: "25.00".to_string(),
        speed: "1000".to_string(),
    }
}

#[test]
fn start_up() {
    let a = StepperApp::default();
    assert_eq!(a.port_name, "COM3");
    assert!(!a.connected);
    assert!(a.log.is_empty());
    assert_eq!(a.distance, num(10.0));
    assert_eq!(a.speed, num(1000.0));
    assert_eq!(a.min_pos, num(5.0));
    assert_eq!(a.max_pos, num(500.0));
    assert_eq!(a.current_pos, num(0.0));
    assert_eq!(a.homing_state, HomingState::NotHomed);
    assert_eq!(a.active_tab, Tab::Control);
    assert_eq!(a.config.steps_y, num(80.0));
    assert_eq!(a.config.max_feedrate_y, num(500.0));
    assert_eq!(a.config.max_accel_y, num(500.0));
    assert_eq!(a.config.motor_current_y, num(800.0));
    assert_eq!(a.config.y_home_dir, 1);
    assert_eq!(a.config.y_min_pos, num(0.0));
    assert_eq!(a.config.y_max_pos, num(500.0));
    assert!(a.has_limits());
}

#[test]
fn the_log_keeps_the_last_entries() {
    let mut a = StepperApp::default();
    for i in 0..600 {
        a.push_log(format!("{}", i));
    }
    assert_eq!(a.log.len(), 500);
    assert_eq!(a.log[0], "100");
    assert_eq!(a.log[499], "599");
    a.send_raw("G91", &SendOutcome::Sent);
    a.send_raw("G91", &SendOutcome::Sent);
    assert_eq!(a.log.len(), 502);
    a.push_log("x".to_string());
    assert_eq!(a.log.len(), 500);
    assert_eq!(a.log[0], "103");
}

#[test]
fn sending() {
    let mut a = StepperApp::default();
    a.connected = true;
    a.send_raw("M119", &SendOutcome::NoPort);
    assert!(a.log.is_empty());
    a.send_raw("M119", &SendOutcome::Sent);
    assert!(a.connected);
    a.send_raw("M119", &SendOutcome::Failed("gone".to_string()));
    assert!(!a.connected);
    assert_eq!(a.log, vec!["> M119", "Send error: gone"]);
    assert_eq!(wire_line("M119"), "M119\n");
}

#[test]
fn connecting_and_disconnecting() {
    let mut a = StepperApp::default();
    a.current_pos = num(7.0);
    a.homing_state = HomingState::Homed;
    a.reading_config = true;
    assert_eq!(
        show(&a.connect(&ConnectOutcome::OpenFailed("busy".to_string()))),
        vec!["log Connect error: busy"]
    );
    assert_eq!(
        show(&a.connect(&ConnectOutcome::CloneFailed("no".to_string()))),
        vec!["log Failed to clone port: no"]
    );
    assert_eq!(a.homing_state, HomingState::Homed);
    assert_eq!(show(&a.connect(&ConnectOutcome::Open)), vec!["log Connected.", "send G91"]);
    assert!(a.connected && !a.reading_config);
    assert_eq!(a.homing_state, HomingState::NotHomed);
    assert_eq!(a.current_pos, num(0.0));
    a.homing_state = HomingState::Homed;
    a.current_pos = num(7.0);
    assert_eq!(show(&a.disconnect()), vec!["log Disconnected."]);
    assert!(!a.connected);
    assert_eq!(a.homing_state, HomingState::NotHomed);
    assert_eq!(a.current_pos, num(7.0));
}

#[test]
fn values_of_an_axis() {
    let value = |s: &str| parse_axis_value(s, 'Y');
    assert_eq!(value("echo: M92 X80.00 Y80.25 Z400"), Some("80.25".to_string()));
    assert_eq!(value("M92 Y80"), Some("80".to_string()));
    assert_eq!(value("M92 Y80\tx"), Some("80".to_string()));
    assert_eq!(value("M92 Y80\r\n"), Some("80".to_string()));
    assert_eq!(value("M92 Y Y80"), Some("".to_string()));
    assert_eq!(value("M92Y80"), None);
    assert_eq!(value("Y80"), None);
    assert_eq!(value("ä Yx\u{a0}y z"), Some("x\u{a0}y".to_string()));
}

#[test]
fn the_reader_hands_on_lines() {
    assert!(matches!(reader_step(&ReadEvent::End), ReadAction::Stop));
    assert!(matches!(reader_step(&ReadEvent::Failed), ReadAction::Stop));
    assert!(matches!(reader_step(&ReadEvent::TimedOut), ReadAction::Again));
    assert!(matches!(reader_step(&ReadEvent::Line(" \r\n".to_string())), ReadAction::Again));
    match reader_step(&ReadEvent::Line("  ok \r\n".to_string())) {
        ReadAction::Forward(t) => assert_eq!(t, "ok"),
        _ => panic!(),
    }
}

#[test]
fn homing_ends_with_ok() {
    let mut a = StepperApp::default();
    assert_eq!(show(&a.home_y()), vec!["send G28 Y"]);
    assert_eq!(a.homing_state, HomingState::Homing);
    assert_eq!(show(&a.poll_serial(&messages(&["echo:busy", "not ok"]), "500.0")).len(), 2);
    assert_eq!(a.homing_state, HomingState::Homing);
    assert_eq!(
        show(&a.poll_serial(&messages(&[" ok T:1", "ok"]), "500.0")),
        vec![
            "log <  ok T:1",
            "send G91",
            "log Homed. Position set to 500.0 mm. Relative moves active.",
            "log < ok",
        ]
    );
    assert_eq!(a.homing_state, HomingState::Homed);
    assert_eq!(a.current_pos, num(500.0));
}

#[test]
fn ok_without_homing_changes_nothing() {
    let mut a = StepperApp::default();
    assert_eq!(show(&a.poll_serial(&messages(&["ok"]), "500.0")), vec!["log < ok"]);
    assert_eq!(a.homing_state, HomingState::NotHomed);
}

#[test]
fn the_board_reports_its_settings() {
    let mut a = StepperApp::default();
    let report = ["echo: M92 X1 Y81.5", "M203 Y300", "M201 Yx", "M906 Y650", "M500 Y1"];
    a.poll_serial(&messages(&report), "");
    assert_eq!(a.config.steps_y, num(80.0));
    assert_eq!(show(&a.read_config()), vec!["send M503"]);
    assert!(a.reading_config);
    let steps = a.poll_serial(&messages(&report), "");
    assert_eq!(steps.len(), 5);
    assert_eq!(a.config.steps_y, num(81.5));
    assert_eq!(a.config.max_feedrate_y, num(300.0));
    assert_eq!(a.config.max_accel_y, num(500.0));
    assert_eq!(a.config.motor_current_y, num(650.0));
    assert!(a.reading_config);
    assert_eq!(
        show(&a.poll_serial(&messages(&["ok", "M92 Y1"]), "")),
        vec!["log < ok", "log Config loaded from board.", "log < M92 Y1"]
    );
    assert!(!a.reading_config);
    assert_eq!(a.config.steps_y, num(81.5));
}

#[test]
fn endstops_are_noted_at_any_time() {
    let mut a = StepperApp::default();
    a.poll_serial(&messages(&["ok", "Y_MIN: TRIGGERED ", "y_max:open", "y_other: x"]), "");
    assert_eq!(a.endstop_y_min, "triggered");
    assert_eq!(a.endstop_y_max, "open");
    assert_eq!(show(&a.query_endstop()), vec!["send M119"]);
    assert_eq!(a.endstop_y_min, "");
    assert_eq!(a.endstop_y_max, "");
    a.note_endstop("y_min: filament");
    assert_eq!(a.endstop_y_min, "filament");
    a.note_endstop("Y_MIN: upper");
    assert_eq!(a.endstop_y_min, "filament");
}

#[test]
fn a_line_and_its_lower_case_form() {
    let mut a = StepperApp::default();
    a.home_y();
    let steps = a.handle_line("OK", "ok", None, "1.0");
    assert_eq!(show(&steps), vec!["log < OK"]);
    assert_eq!(a.homing_state, HomingState::Homing);
}

#[test]
fn moves_without_a_known_position() {
    let mut a = StepperApp::default();
    a.min_pos = num(9.0);
    a.max_pos = num(1.0);
    let steps = a.move_y(num(1e9), num(0.0), &texts());
    assert_eq!(show(&steps), vec!["send G1 Y25.00 F1000"]);
    assert_eq!(a.current_pos, num(0.0));
}

#[test]
fn moves_stay_within_the_limits() {
    let mut a = StepperApp::default();
    a.homing_state = HomingState::Homed;
    a.current_pos = num(490.0);
    assert_eq!(a.move_target(num(515.0)), num(500.0));
    assert_eq!(a.move_target(num(-1.0)), num(5.0));
    assert_eq!(a.move_target(num(7.5)), num(7.5));
    let steps = a.move_y(num(515.0), num(10.0), &texts());
    assert_eq!(show(&steps), vec!["send G1 Y10.00 F1000"]);
    assert_eq!(a.current_pos, num(500.0));
    let steps = a.move_y(num(525.0), num(0.0), &texts());
    assert_eq!(show(&steps), vec!["log At position limit (490.0 mm) — move ignored."]);
    assert_eq!(a.current_pos, num(500.0));
}

#[test]
fn a_hundredth_is_the_shortest_move() {
    let mut a = StepperApp::default();
    a.homing_state = HomingState::Homed;
    a.current_pos = num(100.0);
    for short in [0.009_999f32, -0.009_999, -0.0] {
        assert_eq!(a.move_y(num(100.0), num(short), &texts()).len(), 1);
        assert_eq!(a.current_pos, num(100.0));
    }
    assert_eq!(
        show(&a.move_y(num(99.99), num(-0.01), &texts())),
        vec!["send G1 Y10.00 F1000"]
    );
    assert_eq!(a.current_pos, num(99.99));
}

#[test]
fn applying_the_settings() {
    let mut a = StepperApp::default();
    a.config.motor_current_y = num(799.99);
    let t = RuntimeTexts {
        steps_y: "80.00".to_string(),
        max_feedrate_y: "500.00".to_string(),
        max_accel_y: "500.00".to_string(),
    };
    assert_eq!(
        show(&a.apply_config(&t)),
        vec![
            "send M92 Y80.00",
            "send M203 Y500.00",
            "send M201 Y500.00",
            "send M906 Y799",
            "log Changes applied. Click \"Save to EEPROM\" to persist across reboots.",
        ]
    );
    assert_eq!(show(&a.save_eeprom()), vec!["send M500", "log Settings saved to EEPROM."]);
    assert_eq!(
        show(&a.reset_eeprom()),
        vec![
            "send M502",
            "log EEPROM reset to firmware defaults. Click Read from Board to refresh.",
        ]
    );
}

#[test]
fn running_a_macro() {
    let mut a = StepperApp::default();
    a.config.macros.push(MacroDef {
        name: "m".to_string(),
        label: "m".to_string(),
        gcode: "G1 Y1\n# no\n\n G4 P2 ".to_string(),
    });
    assert_eq!(show(&a.run_macro(0)), vec!["send G1 Y1", "send G4 P2"]);
    assert!(a.run_macro(1).is_empty());
}
