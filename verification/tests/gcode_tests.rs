use stepper_control::gcode::{command_lines, flatten, unflatten};

#[test]
fn commands_without_blanks_and_comments() {
    assert_eq!(
        command_lines("G1 Y100 F500\n\n  # up\r\n  G4 P200\t\n   \nG28 Y ; home"),
        vec!["G1 Y100 F500", "G4 P200", "G28 Y ; home"]
    );
    assert!(command_lines("").is_empty());
    assert!(command_lines("#\n#x\n").is_empty());
}

#[test]
fn flat_form() {
    assert_eq!(flatten(" a \n\n b\nc"), "a;b;c");
    assert_eq!(flatten("\n \n"), "");
    assert_eq!(unflatten("a;b"), "a\nb");
}

#[test]
fn flat_form_keeps_commands() {
    let g = " G1 Y1\n\n# c\n G1 Y2 ";
    let back = unflatten(&flatten(g));
    assert_eq!(command_lines(&back), command_lines(g));
    assert_eq!(flatten(&back), flatten(g));
}

#[test]
fn semicolons_split_a_line() {
    let g = "G28 ; home";
    assert_eq!(command_lines(&unflatten(&flatten(g))), vec!["G28", "home"]);
}

#[test]
fn commands_are_single_lines() {
    for c in command_lines(" a\r\nb\rc \n\td") {
        assert!(!c.is_empty());
        assert_eq!(c, c.trim());
        assert!(!c.contains('\n'));
    }
}
