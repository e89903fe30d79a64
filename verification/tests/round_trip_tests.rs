use stepper_control::config::{number_texts, Config, ConfigTexts, NumberTable};
use stepper_control::firmware::{build_start, patch_configuration_h, BuildOutcome, PatchPlan};
use stepper_control::gcode::{flatten, unflatten, MacroDef};
use stepper_control::num::Num;
use stepper_control::project::{build_done_message, build_messages, FileStep};
use stepper_control::serial::read_message;
use stepper_control::stepper::{HomingState, Message, Step, StepperApp};

fn num(x: f32) -> Num {
    Num { bits: x.to_bits() }
}

fn show(n: Num) -> String {
    f32::from_bits(n.bits).to_string()
}

fn table(text: &str) -> NumberTable {
    let entries = number_texts(text)
        .into_iter()
        .filter_map(|t| t.parse::<f32>().ok().map(|x| (t, num(x))))
        .collect();
    NumberTable { entries }
}

fn texts(c: &Config) -> ConfigTexts {
    ConfigTexts {
        steps_y: show(c.steps_y),
        max_feedrate_y: show(c.max_feedrate_y),
        max_accel_y: show(c.max_accel_y),
        y_min_pos: show(c.y_min_pos),
        y_max_pos: show(c.y_max_pos),
    }
}

fn load(a: &mut StepperApp, text: &str) {
    a.load_config(&Ok(text.to_string()), &table(text), "");
}

fn macro_of(name: &str, label: &str, gcode: &str) -> MacroDef {
    MacroDef { name: name.to_string(), label: label.to_string(), gcode: gcode.to_string() }
}

fn sent(steps: &[Step]) -> Vec<String> {
    steps
        .iter()
        .filter_map(|s| match s {
            Step::Send(c) => Some(c.clone()),
            Step::Log(_) => None,
        })
        .collect()
}

fn row(outcome: &BuildOutcome) -> Vec<String> {
    let mut all = vec![build_start()];
    all.extend(build_messages(outcome));
    all
}

fn ended(success: bool, stdout: &[u8]) -> BuildOutcome {
    BuildOutcome::Ended {
        stdout: stdout.to_vec(),
        stderr: b"note\n".to_vec(),
        success,
        status: "exit status: 2".to_string(),
    }
}

#[test]
fn everything_is_there_after_a_restart() {
    let mut a = StepperApp::default();
    a.firmware_dir = "/home/me/fw 2".to_string();
    a.config.steps_y = num(80.25);
    a.config.max_feedrate_y = num(333.5);
    a.config.max_accel_y = num(0.1);
    a.config.motor_current_y = num(750.0);
    a.config.y_home_dir = -1;
    a.config.y_min_pos = num(-12.5);
    a.config.y_max_pos = num(10000.0);
    a.config.y_max_endstop_override = true;
    a.config.y_max_endstop_pin = "PC7".to_string();
    a.config.macros.push(macro_of("load", "Load it", "G1 Y100 F500\n# wait\nG4 P200"));
    a.config.macros.push(macro_of("none", "", ""));
    let settings = a.save_settings();
    let config = a.save_config(&texts(&a.config));

    let mut b = StepperApp::default();
    assert!(b.load_settings(&Some(settings)));
    load(&mut b, &config);
    assert_eq!(b.firmware_dir, "/home/me/fw 2");
    assert_eq!(b.config.steps_y, num(80.25));
    assert_eq!(b.config.max_feedrate_y, num(333.5));
    assert_eq!(b.config.max_accel_y, num(0.1));
    assert_eq!(b.config.motor_current_y, num(750.0));
    assert_eq!(b.config.y_home_dir, -1);
    assert_eq!(b.config.y_min_pos, num(-12.5));
    assert_eq!(b.config.y_max_pos, num(10000.0));
    assert!(!b.config.y_min_endstop_override);
    assert!(b.config.y_max_endstop_override);
    assert_eq!(b.config.y_max_endstop_pin, "PC7");
    assert_eq!(b.config.macros.len(), 2);
    assert_eq!(b.config.macros[0].name, "load");
    assert_eq!(b.config.macros[0].label, "Load it");
    assert_eq!(b.config.macros[0].gcode, "G1 Y100 F500\n# wait\nG4 P200");
    assert_eq!(b.config.macros[1].name, "none");
    assert_eq!(b.config.macros[1].label, "");
    assert_eq!(b.config.macros[1].gcode, "");
}

#[test]
fn macros_run_alike_whatever_white_space_stands_around_names() {
    let mut a = StepperApp::default();
    a.config.y_min_endstop_pin = " P1\r".to_string();
    a.config.macros.push(macro_of(" m ", "label \r", "  G28\n\n# c\r\nG1 Y5  "));
    a.config.macros.push(macro_of("]", "=x", "M119"));
    let t = ConfigTexts {
        steps_y: "no number".to_string(),
        max_feedrate_y: "".to_string(),
        max_accel_y: " 7\r".to_string(),
        y_min_pos: "x=y".to_string(),
        y_max_pos: "[macro:z]".to_string(),
    };
    let text = a.save_config(&t);
    let mut b = StepperApp::default();
    b.config.steps_y = num(1.5);
    load(&mut b, &text);
    assert_eq!(b.config.steps_y, num(1.5));
    assert_eq!(b.config.max_accel_y, num(7.0));
    assert_eq!(b.config.y_min_endstop_pin, "P1");
    assert_eq!(b.config.macros[0].name, "m");
    assert_eq!(b.config.macros[0].label, "label");
    assert_eq!(b.config.macros[1].name, "]");
    assert_eq!(b.config.macros[1].label, "=x");
    assert_eq!(sent(&a.run_macro(0)), vec!["G28", "G1 Y5"]);
    assert_eq!(sent(&b.run_macro(0)), vec!["G28", "G1 Y5"]);
    assert_eq!(sent(&b.run_macro(1)), vec!["M119"]);
    assert!(b.run_macro(2).is_empty());
}

#[test]
fn gcode_in_the_form_of_the_file_does_not_change() {
    for gcode in ["", "G28", "G28\n# home\nG1 Y5 F100"] {
        assert_eq!(unflatten(&flatten(gcode)), gcode);
    }
    let once = unflatten(&flatten("  G28\n\n G1 Y5 "));
    assert_eq!(once, "G28\nG1 Y5");
    assert_eq!(unflatten(&flatten(&once)), once);
}

#[test]
fn loading_twice_and_layout() {
    let plain = "steps_per_mm=81\n[macro:a]\ngcode=G28;M119\n";
    let other = "# c\r\n\r\n  steps_per_mm =\t81\r\nnothing\r\n [macro: a ]\r\n\r\ngcode= G28;M119";
    let mut a = StepperApp::default();
    load(&mut a, plain);
    let first = a.save_config(&texts(&a.config));
    load(&mut a, plain);
    assert_eq!(a.save_config(&texts(&a.config)), first);
    let mut b = StepperApp::default();
    load(&mut b, other);
    assert_eq!(b.save_config(&texts(&b.config)), first);
    assert_eq!(b.config.steps_y, num(81.0));
}

#[test]
fn messages_of_a_build_that_succeeded() {
    assert_eq!(
        row(&ended(true, "a\n\nü".as_bytes())),
        vec![
            "[pio] Starting PlatformIO compile & upload...",
            "[pio] a",
            "[pio] ü",
            "[pio] note",
            "[pio] ✓ Flash complete.",
            "\0DONE",
        ]
    );
}

#[test]
fn messages_of_a_build_that_failed() {
    assert_eq!(
        row(&ended(false, b"\0DONE")),
        vec![
            "[pio] Starting PlatformIO compile & upload...",
            "[pio] \0DONE",
            "[pio] note",
            "[pio] ✗ Build failed (exit exit status: 2).",
            "\0DONE",
        ]
    );
}

#[test]
fn messages_of_a_build_that_was_not_launched() {
    assert_eq!(
        row(&BuildOutcome::NotLaunched("no pio".to_string())),
        vec![
            "[pio] Starting PlatformIO compile & upload...",
            "[pio] Failed to launch pio: no pio",
            "[pio] Is PlatformIO Core installed and in PATH?",
            "\0DONE",
        ]
    );
}

#[test]
fn only_the_whole_row_ends_the_build() {
    for outcome in [
        ended(true, b"x"),
        ended(false, b"\xff\0DONE"),
        BuildOutcome::NotLaunched("\0DONE".to_string()),
    ] {
        let all = row(&outcome);
        let n = all.len();
        assert_eq!(all[n - 1], build_done_message());
        assert!(all[..n - 1].iter().all(|m| m.starts_with("[pio] ")));
        let mut a = StepperApp::default();
        a.firmware_dir = "fw".to_string();
        assert!(a.compile_and_flash().is_ok());
        assert!(!a.poll_compile(&all[..1].to_vec()));
        assert!(!a.poll_compile(&all[1..n - 1].to_vec()));
        assert!(a.compiling);
        assert!(a.poll_compile(&all[n - 1..].to_vec()));
        assert!(!a.compiling);
        assert_eq!(a.log, all[..n - 1].to_vec());
    }
}

#[test]
fn a_line_is_read_with_its_number() {
    let numbers = NumberTable {
        entries: vec![("80.50".to_string(), num(80.5)), ("7".to_string(), num(7.0))],
    };
    let read = |text: &str| {
        let m = read_message(text.to_string(), &numbers);
        assert_eq!(m.text, text);
        m.y
    };
    assert_eq!(read("echo: M92 X80.00 Y80.50 Z400"), Some(num(80.5)));
    assert_eq!(read("M203 Y7 Y80.50"), Some(num(7.0)));
    assert_eq!(read("M203 Y8"), None);
    assert_eq!(read("M203 Y"), None);
    assert_eq!(read("ok"), None);
    assert_eq!(read("XY7"), None);
}

#[test]
fn homing_over_a_row_of_lines() {
    let none = NumberTable { entries: Vec::new() };
    let lines = |texts: &[&str]| -> Vec<Message> {
        texts.iter().map(|t| read_message(t.to_string(), &none)).collect()
    };
    let mut a = StepperApp::default();
    a.homing_state = HomingState::Homing;
    assert!(sent(&a.poll_serial(&lines(&["echo:busy", "X:0 ok"]), "500.0")).is_empty());
    assert_eq!(a.homing_state, HomingState::Homing);
    let steps = a.poll_serial(&lines(&["busy", " ok P15", "ok", "done"]), "500.0");
    assert_eq!(sent(&steps), vec!["G91"]);
    assert_eq!(a.homing_state, HomingState::Homed);
    assert_eq!(a.current_pos, a.max_pos);
    assert!(sent(&a.poll_serial(&lines(&["ok"]), "500.0")).is_empty());
    let mut b = StepperApp::default();
    assert!(sent(&b.poll_serial(&lines(&["ok", "ok"]), "500.0")).is_empty());
    assert_eq!(b.homing_state, HomingState::NotHomed);
}

#[test]
fn the_header_is_brought_in_once() {
    let line = "#include \"Configuration_Zeus.h\"";
    for text in ["#pragma once\n#if X\n#endif\n", "#endif#endif", "", "no end"] {
        match patch_configuration_h(&Ok(text.to_string())) {
            PatchPlan::Write(p) => assert_eq!(p.matches(line).count(), 1),
            PatchPlan::Leave(m) => panic!("{}", m),
        }
    }
}

#[test]
fn what_a_build_takes() {
    let all = vec![
        FileStep::SaveConfig,
        FileStep::WriteHeader,
        FileStep::PatchConfigurationH,
        FileStep::RunBuild,
    ];
    let mut a = StepperApp::default();
    a.firmware_dir = " /fw ".to_string();
    assert_eq!(a.flash_plan(), all);
    assert_eq!(a.compile_and_flash().unwrap(), all);
    assert!(a.compiling);
    assert_eq!(a.flash_plan(), all);
    let command = a.build_command();
    assert_eq!(command.program, "pio");
    assert_eq!(command.args, vec!["run", "--target", "upload"]);
    assert_eq!(command.dir, " /fw ");
}

#[test]
fn what_the_header_alone_takes() {
    let mut a = StepperApp::default();
    a.firmware_dir = "/fw".to_string();
    assert_eq!(a.header_plan(), vec![FileStep::WriteHeader, FileStep::PatchConfigurationH]);
    assert!(!a.compiling);
    a.compiling = true;
    assert!(a.header_plan().is_empty());
}

#[test]
fn nothing_to_do_without_a_directory() {
    let mut a = StepperApp::default();
    a.firmware_dir = " \t".to_string();
    assert!(a.flash_plan().is_empty());
    assert!(a.header_plan().is_empty());
    assert!(a.compile_and_flash().is_err());
    assert!(!a.compiling);
}
