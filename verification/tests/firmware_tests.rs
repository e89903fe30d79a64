use stepper_control::firmware::{
    build_launch_failed, build_output_report, build_report, build_start, patch_configuration_h,
    PatchPlan,
};
use stepper_control::settings::{read_settings, settings_text};
use stepper_control::stepper::StepperApp;

const INC: &str = "#include \"Configuration_Zeus.h\"";

fn patched(text: &str) -> String {
    match patch_configuration_h(&Ok(text.to_string())) {
        PatchPlan::Write(p) => p,
        PatchPlan::Leave(m) => panic!("{}", m),
    }
}

fn left(file: Result<String, String>) -> String {
    match patch_configuration_h(&file) {
        PatchPlan::Write(p) => panic!("{}", p),
        PatchPlan::Leave(m) => m,
    }
}

#[test]
fn header_text() {
    let mut c = StepperApp::default().config;
    assert_eq!(
        c.zeus_h("0", "500"),
        "// Configuration_Zeus.h — Auto-generated by Stepper Control\n\
         // Add to the end of Configuration.h:\n\
         //   #include \"Configuration_Zeus.h\"\n\
         // Do not edit manually.\n\
         \n\
         #ifdef Y_HOME_DIR\n\
         #  undef Y_HOME_DIR\n\
         #endif\n\
         #define Y_HOME_DIR 1\n\
         \n\
         #ifdef Y_MIN_POS\n\
         #  undef Y_MIN_POS\n\
         #endif\n\
         #define Y_MIN_POS 0\n\
         \n\
         #ifdef Y_MAX_POS\n\
         #  undef Y_MAX_POS\n\
         #endif\n\
         #define Y_MAX_POS 500\n"
    );
    let plain = c.zeus_h("0", "500");
    c.y_min_endstop_pin = " PC7 ".to_string();
    c.y_max_endstop_pin = "  ".to_string();
    c.y_max_endstop_override = true;
    assert_eq!(c.zeus_h("0", "500"), plain);
    c.y_min_endstop_override = true;
    c.y_max_endstop_pin = "14".to_string();
    assert_eq!(
        c.zeus_h("0", "500"),
        plain
            + "\n#ifdef Y_MIN_ENDSTOP_PIN\n#  undef Y_MIN_ENDSTOP_PIN\n#endif\n#define Y_MIN_ENDSTOP_PIN PC7\n"
            + "\n#ifdef Y_MAX_ENDSTOP_PIN\n#  undef Y_MAX_ENDSTOP_PIN\n#endif\n#define Y_MAX_ENDSTOP_PIN 14\n"
    );
}

#[test]
fn patch_goes_before_the_last_endif() {
    assert_eq!(
        patched("#if A\n#endif // A\nx\n#endif\n"),
        format!("#if A\n#endif // A\nx\n\n{}\n\n#endif\n", INC)
    );
    assert_eq!(patched("no guard"), format!("no guard\n{}\n", INC));
    assert_eq!(patched(""), format!("\n{}\n", INC));
    assert_eq!(patched("é#endif"), format!("é\n{}\n\n#endif", INC));
}

#[test]
fn a_patched_file_is_left_alone() {
    for text in ["", "#endif", "a\n#endif\nb\n#endif\nc"] {
        assert_eq!(
            left(Ok(patched(text))),
            "Configuration.h already includes Configuration_Zeus.h."
        );
    }
    assert_eq!(left(Ok(format!("// {}", INC))), "Configuration.h already includes Configuration_Zeus.h.");
}

#[test]
fn an_unreadable_file_is_left_alone() {
    assert_eq!(left(Err("gone".to_string())), "Cannot read Configuration.h: gone");
}

#[test]
fn report_of_a_build() {
    assert_eq!(
        build_report("a\n\n  b\r\n", "\t\nwarn", true, "exit status: 0"),
        vec!["[pio] a", "[pio]   b", "[pio] warn", "[pio] ✓ Flash complete."]
    );
    assert_eq!(
        build_report("", "", false, "exit status: 1"),
        vec!["[pio] ✗ Build failed (exit exit status: 1)."]
    );
}

#[test]
fn report_of_bytes() {
    assert_eq!(
        build_output_report("ü\n".as_bytes(), b"\xff!", true, ""),
        vec!["[pio] ü", "[pio] \u{fffd}!", "[pio] ✓ Flash complete."]
    );
}

#[test]
fn report_of_a_build_that_did_not_start() {
    assert_eq!(build_start(), "[pio] Starting PlatformIO compile & upload...");
    assert_eq!(
        build_launch_failed("not found"),
        vec![
            "[pio] Failed to launch pio: not found",
            "[pio] Is PlatformIO Core installed and in PATH?"
        ]
    );
}

#[test]
fn settings_restore_the_directory() {
    assert_eq!(
        settings_text("C:\\fw"),
        "# Zeus Test Stand settings — auto-generated\nfirmware_dir=C:\\fw\n"
    );
    assert_eq!(read_settings("old", &settings_text("C:\\fw=1")), "C:\\fw=1");
    assert_eq!(read_settings("old", &settings_text("")), "old");
}

#[test]
fn settings_written_by_hand() {
    assert_eq!(read_settings("old", "#firmware_dir=x\nfirmware_dir\nother=y\n"), "old");
    assert_eq!(read_settings("old", " firmware_dir = a \nfirmware_dir= b\nfirmware_dir=  \n"), "b");
}
