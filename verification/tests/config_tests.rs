use stepper_control::config::{
    find_setting, number_texts, parse_line, Config, ConfigLine, ConfigTexts, NumberTable, Setting,
};
use stepper_control::gcode::MacroDef;
use stepper_control::num::Num;
use stepper_control::stepper::StepperApp;

fn num(x: f32) -> Num {
    Num { bits: x.to_bits() }
}

fn table(text: &str) -> NumberTable {
    let mut entries = Vec::new();
    for t in number_texts(text) {
        if let Ok(x) = t.parse::<f32>() {
            entries.push((t, num(x)));
        }
    }
    NumberTable { entries }
}

fn texts(c: &Config) -> ConfigTexts {
    let show = |n: Num| f32::from_bits(n.bits).to_string();
    ConfigTexts {
        steps_y: show(c.steps_y),
        max_feedrate_y: show(c.max_feedrate_y),
        max_accel_y: show(c.max_accel_y),
        y_min_pos: show(c.y_min_pos),
        y_max_pos: show(c.y_max_pos),
    }
}

fn sample() -> Config {
    let mut c = StepperApp::default().config;
    c.steps_y = num(80.25);
    c.max_feedrate_y = num(333.5);
    c.max_accel_y = num(0.1);
    c.motor_current_y = num(799.75);
    c.y_home_dir = -1;
    c.y_min_pos = num(-12.5);
    c.y_max_pos = num(10000.0);
    c.y_min_endstop_override = true;
    c.y_min_endstop_pin = "PC7".to_string();
    c.y_max_endstop_pin = "a=b".to_string();
    c.macros.push(MacroDef {
        name: "load".to_string(),
        label: "Move to Load Position".to_string(),
        gcode: "  G1 Y100 F500\n\n# wait\nG4 P200  ".to_string(),
    });
    c.macros.push(MacroDef {
        name: "empty".to_string(),
        label: "".to_string(),
        gcode: "".to_string(),
    });
    c
}

#[test]
fn saved_text() {
    let c = sample();
    assert_eq!(
        c.save(&texts(&c)),
        "# Zeus Test Stand Configuration\n\
         # Managed by Stepper Control app\n\
         \n\
         # Runtime settings (applied via G-code; also stored in EEPROM)\n\
         steps_per_mm=80.25\n\
         max_feedrate=333.5\n\
         max_accel=0.1\n\
         motor_current=799\n\
         \n\
         # Compile-time settings (require Compile & Flash)\n\
         y_home_dir=-1\n\
         y_min_pos=-12.5\n\
         y_max_pos=10000\n\
         y_min_endstop_override=true\n\
         y_min_endstop_pin=PC7\n\
         y_max_endstop_override=false\n\
         y_max_endstop_pin=a=b\n\
         \n\
         [macro:load]\n\
         label=Move to Load Position\n\
         gcode=G1 Y100 F500;# wait;G4 P200\n\
         \n\
         [macro:empty]\n\
         label=\n\
         gcode=\n"
    );
}

#[test]
fn loading_restores_what_was_saved() {
    let c = sample();
    let text = c.save(&texts(&c));
    let mut d = StepperApp::default().config;
    d.macros.push(MacroDef { name: "old".to_string(), label: "old".to_string(), gcode: "G0".to_string() });
    d.load(&text, &table(&text));
    assert_eq!(d.steps_y, num(80.25));
    assert_eq!(d.max_feedrate_y, num(333.5));
    assert_eq!(d.max_accel_y, num(0.1));
    assert_eq!(d.motor_current_y, num(799.0));
    assert_eq!(d.y_home_dir, -1);
    assert_eq!(d.y_min_pos, num(-12.5));
    assert_eq!(d.y_max_pos, num(10000.0));
    assert!(d.y_min_endstop_override);
    assert_eq!(d.y_min_endstop_pin, "PC7");
    assert!(!d.y_max_endstop_override);
    assert_eq!(d.y_max_endstop_pin, "a=b");
    assert_eq!(d.macros.len(), 2);
    assert_eq!(d.macros[0].name, "load");
    assert_eq!(d.macros[0].label, "Move to Load Position");
    assert_eq!(d.macros[0].gcode, "G1 Y100 F500\n# wait\nG4 P200");
    assert_eq!(d.macros[1].name, "empty");
    assert_eq!(d.macros[1].label, "");
    assert_eq!(d.macros[1].gcode, "");
}

#[test]
fn loading_a_file_written_by_hand() {
    let text = "  steps_per_mm = 100.5 \r\n\
                max_accel=fast\n\
                y_home_dir=1.0\n\
                y_home_dir = -1\n\
                y_min_endstop_override=TRUE\n\
                y_max_endstop_override= true\n\
                unknown=1\n\
                no equals sign\n\
                #max_feedrate=1\n\
                [macro: a b ]\n\
                steps_per_mm=1\n\
                gcode = G1 Y1;G1 Y2\n\
                [other]\n\
                max_feedrate=200\n\
                [macro:c]\n\
                label=C\n\
                label=D";
    let mut c = StepperApp::default().config;
    c.load(text, &table(text));
    assert_eq!(c.steps_y, num(100.5));
    assert_eq!(c.max_accel_y, num(500.0));
    assert_eq!(c.max_feedrate_y, num(200.0));
    assert_eq!(c.y_home_dir, -1);
    assert!(!c.y_min_endstop_override);
    assert!(c.y_max_endstop_override);
    assert_eq!(c.macros.len(), 2);
    assert_eq!(c.macros[0].name, "a b");
    assert_eq!(c.macros[0].label, "a b");
    assert_eq!(c.macros[0].gcode, "G1 Y1\nG1 Y2");
    assert_eq!(c.macros[1].name, "c");
    assert_eq!(c.macros[1].label, "D");
    assert_eq!(number_texts(text), vec!["100.5", "fast", "200"]);
}

#[test]
fn only_listed_numbers_are_read() {
    let text = "steps_per_mm=3\n[macro:m]\nlabel=4\n";
    let mut small = StepperApp::default().config;
    small.load(text, &table(text));
    let mut large = StepperApp::default().config;
    let mut t = table(text);
    t.entries.push(("4".to_string(), num(4.0)));
    large.load(text, &t);
    assert_eq!(small.steps_y, num(3.0));
    assert_eq!(large.steps_y, small.steps_y);
    assert_eq!(large.macros[0].label, "4");
}

#[test]
fn an_empty_file_clears_the_macros_only() {
    let mut c = sample();
    c.load("", &table(""));
    assert!(c.macros.is_empty());
    assert_eq!(c.steps_y, num(80.25));
    assert_eq!(c.y_min_endstop_pin, "PC7");
}

#[test]
fn lines_taken_apart() {
    assert!(matches!(parse_line("  # a=b"), ConfigLine::Nothing));
    assert!(matches!(parse_line(""), ConfigLine::Nothing));
    assert!(matches!(parse_line("["), ConfigLine::Nothing));
    assert!(matches!(parse_line("[]"), ConfigLine::OtherHead));
    assert!(matches!(parse_line("[macro]"), ConfigLine::OtherHead));
    match parse_line(" [macro:x]] ") {
        ConfigLine::MacroHead(n) => assert_eq!(n, "x]"),
        _ => panic!(),
    }
    match parse_line("[a = b") {
        ConfigLine::Entry(k, v) => {
            assert_eq!(k, "[a");
            assert_eq!(v, "b");
        },
        _ => panic!(),
    }
}

#[test]
fn keys_of_the_settings() {
    assert_eq!(find_setting("steps_per_mm"), Some(Setting::StepsPerMm));
    assert_eq!(find_setting("max_feedrate"), Some(Setting::MaxFeedrate));
    assert_eq!(find_setting("max_accel"), Some(Setting::MaxAccel));
    assert_eq!(find_setting("motor_current"), Some(Setting::MotorCurrent));
    assert_eq!(find_setting("y_home_dir"), Some(Setting::YHomeDir));
    assert_eq!(find_setting("y_min_pos"), Some(Setting::YMinPos));
    assert_eq!(find_setting("y_max_pos"), Some(Setting::YMaxPos));
    assert_eq!(find_setting("y_min_endstop_override"), Some(Setting::YMinEndstopOverride));
    assert_eq!(find_setting("y_min_endstop_pin"), Some(Setting::YMinEndstopPin));
    assert_eq!(find_setting("y_max_endstop_override"), Some(Setting::YMaxEndstopOverride));
    assert_eq!(find_setting("y_max_endstop_pin"), Some(Setting::YMaxEndstopPin));
    assert_eq!(find_setting("label"), None);
}

#[test]
fn the_first_entry_of_a_table_counts() {
    let t = NumberTable {
        entries: vec![("1".to_string(), num(1.0)), ("1".to_string(), num(2.0))],
    };
    assert_eq!(t.read("1"), Some(num(1.0)));
    assert_eq!(t.read("2"), None);
}
