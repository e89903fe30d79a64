use stepper_control::config::{ConfigTexts, NumberTable};
use stepper_control::gcode::MacroDef;
use stepper_control::panel::{endstop_kind, log_kind, log_kind_of, EndstopKind, LogKind};
use stepper_control::project::build_done_message;
use stepper_control::stepper::{HomingState, Step, StepperApp};

fn show(steps: &[Step]) -> Vec<String> {
    steps
        .iter()
        .map(|s| match s {
            Step::Send(c) => format!("send {}", c),
            Step::Log(m) => format!("log {}", m),
        })
        .collect()
}

fn with_macros(names: &[&str]) -> StepperApp {
    let mut a = StepperApp::default();
    for n in names {
        a.config.macros.push(MacroDef {
            name: n.to_string(),
            label: n.to_string(),
            gcode: format!("{}\n", n),
        });
    }
    a
}

fn names(a: &StepperApp) -> Vec<String> {
    a.config.macros.iter().map(|m| m.name.clone()).collect()
}

#[test]
fn a_new_macro() {
    let mut a = with_macros(&["a"]);
    a.add_macro();
    assert!(a.editor.editing);
    a.editor.name = " new\t".to_string();
    assert!(!a.editor.has_good_name());
    a.editor.name = "new\t".to_string();
    a.editor.gcode = " G1 ".to_string();
    assert!(a.editor.has_good_name());
    a.save_macro();
    assert!(!a.editor.editing);
    assert_eq!(names(&a), vec!["a", "new"]);
    assert_eq!(a.config.macros[1].label, "new");
    assert_eq!(a.config.macros[1].gcode, " G1 ");
}

#[test]
fn a_changed_macro() {
    let mut a = with_macros(&["a", "b", "c"]);
    a.edit_macro(1);
    assert_eq!(a.editor.name, "b");
    a.editor.name = "x".to_string();
    a.editor.label = " X ".to_string();
    a.delete_macro(0);
    a.edit_macro(0);
    a.add_macro();
    assert_eq!(a.editor.name, "x");
    a.save_macro();
    assert_eq!(names(&a), vec!["a", "x", "c"]);
    assert_eq!(a.config.macros[1].label, "X");
    a.delete_macro(0);
    assert_eq!(names(&a), vec!["x", "c"]);
}

#[test]
fn an_edit_without_change() {
    let mut a = with_macros(&["a", "b"]);
    a.edit_macro(1);
    a.save_macro();
    assert_eq!(names(&a), vec!["a", "b"]);
    assert_eq!(a.config.macros[1].gcode, "b\n");
    a.edit_macro(0);
    a.editor.name = "z".to_string();
    a.cancel_edit();
    assert!(!a.editor.editing);
    assert_eq!(names(&a), vec!["a", "b"]);
}

#[test]
fn names_with_blanks() {
    let mut a = StepperApp::default();
    for (name, good, warn) in
        [("", false, false), ("  ", false, false), ("a b", false, true), ("ab", true, false)]
    {
        a.editor.name = name.to_string();
        assert_eq!(a.editor.has_good_name(), good);
        assert_eq!(a.editor.has_blank_in_name(), warn);
        assert_eq!(a.config_tab().can_save_macro, good);
        assert_eq!(a.config_tab().warn_name, warn);
    }
}

#[test]
fn kinds_of_log_entries() {
    assert_eq!(log_kind("> error"), LogKind::Sent);
    assert_eq!(log_kind("< error"), LogKind::Received);
    assert_eq!(log_kind("[pio] ✗ error"), LogKind::Build);
    assert_eq!(log_kind("Send ERROR: x"), LogKind::Error);
    assert_eq!(log_kind("✗"), LogKind::Error);
    assert_eq!(log_kind("Connected."), LogKind::Plain);
    assert_eq!(log_kind_of("ERROR", "ERROR"), LogKind::Plain);
}

#[test]
fn kinds_of_endstops() {
    assert_eq!(endstop_kind("Triggered"), EndstopKind::Triggered);
    assert_eq!(endstop_kind("open"), EndstopKind::Open);
    assert_eq!(endstop_kind("OPEN"), EndstopKind::Unknown);
    assert_eq!(endstop_kind(""), EndstopKind::Unknown);
}

#[test]
fn the_control_tab() {
    let mut a = StepperApp::default();
    let t = a.control_tab("0.00", None);
    assert!(!t.can_home && !t.can_query && !t.can_move && !t.querying && !t.show_endstops);
    assert_eq!(t.status, "Not homed");
    assert!(!t.show_macros);
    a.connected = true;
    let t = a.control_tab("0.00", Some(1));
    assert!(t.can_home && t.can_move && t.querying && !t.can_query);
    let t = a.control_tab("0.00", Some(2));
    assert!(!t.querying && t.can_query);
    a.homing_state = HomingState::Homing;
    let t = a.control_tab("0.00", None);
    assert!(!t.can_home && !t.can_move && !t.can_query);
    assert_eq!(t.status, "Homing…");
    a.homing_state = HomingState::Homed;
    a.endstop_y_max = "triggered".to_string();
    let t = a.control_tab("12.50", None);
    assert_eq!(t.status, "Position:  12.50 mm");
    assert!(t.show_endstops);
    assert!(!a.control_tab("12.50", Some(0)).show_endstops);
    assert_eq!(t.y_min, "y_min: ");
    assert_eq!(t.y_min_kind, EndstopKind::Unknown);
    assert_eq!(t.y_max, "y_max: triggered");
    assert_eq!(t.y_max_kind, EndstopKind::Triggered);
    assert!(with_macros(&["a"]).control_tab("", None).show_macros);
}

#[test]
fn the_config_tab() {
    let mut a = StepperApp::default();
    let t = a.config_tab();
    assert!(t.paths.is_none() && !t.can_use_files && !t.can_flash && !t.can_talk);
    assert!(t.editor_title.is_none());
    a.firmware_dir = " ".to_string();
    let t = a.config_tab();
    assert!(t.paths.is_some() && !t.can_use_files && !t.can_flash);
    a.firmware_dir = "C:\\fw".to_string();
    a.connected = true;
    let t = a.config_tab();
    assert_eq!(
        t.paths,
        Some("Config:  C:\\fw\\zeus_config.cfg\nHeader:  C:\\fw\\Marlin\\Configuration_Zeus.h".to_string())
    );
    assert!(t.can_use_files && t.can_flash && t.can_talk);
    a.compiling = true;
    a.reading_config = true;
    let t = a.config_tab();
    assert!(!t.can_flash && !t.can_talk);
    a.reading_config = false;
    a.homing_state = HomingState::Homing;
    assert!(!a.config_tab().can_talk);
    a.add_macro();
    assert_eq!(a.config_tab().editor_title, Some("New Macro".to_string()));
    a.editor.idx = Some(0);
    assert_eq!(a.config_tab().editor_title, Some("Edit Macro".to_string()));
}

#[test]
fn paths_of_the_files() {
    let mut a = StepperApp::default();
    a.firmware_dir = "fw".to_string();
    assert_eq!(a.config_file_path(), vec!["fw", "zeus_config.cfg"]);
    assert_eq!(a.zeus_h_path(), vec!["fw", "Marlin", "Configuration_Zeus.h"]);
    assert_eq!(a.configuration_h_path(), vec!["fw", "Marlin", "Configuration.h"]);
}

#[test]
fn saving_and_loading_files() {
    let mut a = with_macros(&["m"]);
    a.firmware_dir = "fw".to_string();
    let t = ConfigTexts {
        steps_y: "80".to_string(),
        max_feedrate_y: "500".to_string(),
        max_accel_y: "500".to_string(),
        y_min_pos: "0".to_string(),
        y_max_pos: "500".to_string(),
    };
    let text = a.save_config(&t);
    assert_eq!(text, a.config.save(&t));
    let (steps, settings) = a.config_saved("fw/c", &Ok(()));
    assert_eq!(show(&steps), vec!["log Saved fw/c"]);
    assert_eq!(settings, Some(a.save_settings()));
    let (steps, settings) = a.config_saved("fw/c", &Err("full".to_string()));
    assert_eq!(show(&steps), vec!["log Save error: full"]);
    assert_eq!(settings, None);

    let none = NumberTable { entries: Vec::new() };
    let mut b = with_macros(&["x", "y"]);
    assert_eq!(
        show(&b.load_config(&Err("gone".to_string()), &none, "p")),
        vec!["log Load error: gone"]
    );
    assert_eq!(names(&b), vec!["x", "y"]);
    assert_eq!(show(&b.load_config(&Ok(text), &none, "p")), vec!["log Loaded p"]);
    assert_eq!(names(&b), vec!["m"]);

    assert_eq!(a.write_zeus_h("0", "500"), a.config.zeus_h("0", "500"));
    assert_eq!(show(&a.zeus_h_written("h", &Ok(()))), vec!["log Wrote h"]);
    assert_eq!(
        show(&a.zeus_h_written("h", &Err("e".to_string()))),
        vec!["log Write error: e"]
    );
    assert_eq!(
        show(&a.configuration_h_patched(&Ok(()))),
        vec!["log Patched Configuration.h — added #include \"Configuration_Zeus.h\"."]
    );
    assert_eq!(
        show(&a.configuration_h_patched(&Err("e".to_string()))),
        vec!["log Cannot patch Configuration.h: e"]
    );
}

#[test]
fn building() {
    let mut a = StepperApp::default();
    a.firmware_dir = " \t".to_string();
    match a.compile_and_flash() {
        Ok(_) => panic!(),
        Err(steps) => {
            assert_eq!(show(&steps), vec!["log Set firmware directory before compiling."])
        },
    }
    assert!(!a.compiling);
    a.firmware_dir = "fw".to_string();
    assert!(a.compile_and_flash().is_ok());
    assert!(a.compiling);
    assert!(!a.poll_compile(&vec!["[pio] a".to_string()]));
    assert!(a.compiling);
    assert_eq!(build_done_message(), "\x00DONE");
    assert!(a.poll_compile(&vec!["b".to_string(), "\x00DONE".to_string(), "c".to_string()]));
    assert!(!a.compiling);
    assert_eq!(a.log, vec!["[pio] a", "b", "c"]);
}

#[test]
fn settings_at_start_up() {
    let mut a = StepperApp::default();
    assert!(!a.load_settings(&None));
    assert!(!a.load_settings(&Some("firmware_dir=\n".to_string())));
    assert!(a.load_settings(&Some("firmware_dir= fw \n".to_string())));
    assert_eq!(a.firmware_dir, "fw");
    assert!(a.load_settings(&None));
    let text = a.save_settings();
    let mut b = StepperApp::default();
    assert!(b.load_settings(&Some(text)));
    assert_eq!(b.firmware_dir, "fw");
}
