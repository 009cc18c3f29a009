use nova_wayland::keyboard::{hold_key, press_key, release_key, type_text};
use nova_wayland::platform::{Command, NovaError};
use nova_wayland::script::Step;

fn command(program: &str, args: &[&str]) -> Command {
    Command {
        program: program.to_string(),
        args: args.iter().map(|a| a.to_string()).collect(),
    }
}

fn combo(parts: &[&str]) -> Vec<String> {
    parts.iter().map(|p| p.to_string()).collect()
}

#[test]
fn typing_tries_wtype_first() {
    assert_eq!(
        type_text("héllo -x"),
        vec![
            Step::Attempt(command("wtype", &["héllo -x"])),
            Step::NeedYdotool,
            Step::Run(command("ydotool", &["type", "--key-delay", "12", "héllo -x"])),
        ]
    );
}

#[test]
fn combos_nest() {
    assert_eq!(
        press_key(&combo(&["ctrl", "shift", "s"])),
        vec![
            Step::Attempt(command(
                "wtype",
                &["-M", "ctrl", "-M", "shift", "-k", "s", "-m", "shift", "-m", "ctrl"]
            )),
            Step::NeedYdotool,
            Step::Run(command(
                "ydotool",
                &["key", "29:1", "42:1", "31:1", "31:0", "42:0", "29:0"]
            )),
        ]
    );
}

#[test]
fn combos_part_modifiers_from_keys() {
    assert_eq!(
        press_key(&combo(&["a", "super", "return", "alt"])),
        vec![
            Step::Attempt(command(
                "wtype",
                &["-M", "logo", "-M", "alt", "-k", "a", "-k", "Return", "-m", "alt", "-m", "logo"]
            )),
            Step::NeedYdotool,
            Step::Run(command(
                "ydotool",
                &["key", "125:1", "56:1", "30:1", "30:0", "28:1", "28:0", "56:0", "125:0"]
            )),
        ]
    );
}

#[test]
fn combo_of_modifiers_alone_presses_them() {
    assert_eq!(
        press_key(&combo(&["super"])),
        vec![
            Step::Attempt(command("wtype", &["-M", "logo", "-m", "logo"])),
            Step::NeedYdotool,
            Step::Run(command("ydotool", &["key", "125:1", "125:0"])),
        ]
    );
}

#[test]
fn empty_combo_fails() {
    assert_eq!(press_key(&combo(&[])), vec![Step::Fail(NovaError::msg("empty key combo"))]);
}

#[test]
fn unknown_key_fails_once_wtype_has_failed() {
    assert_eq!(
        press_key(&combo(&["ctrl", "a", "wat", "huh"])),
        vec![
            Step::Attempt(command(
                "wtype",
                &["-M", "ctrl", "-k", "a", "-k", "wat", "-k", "huh", "-m", "ctrl"]
            )),
            Step::NeedYdotool,
            Step::Fail(NovaError::msg("unknown key `wat`")),
        ]
    );
}

#[test]
fn holding_and_releasing_take_the_first_key() {
    assert_eq!(
        hold_key(&combo(&["shift", "a"])),
        vec![Step::NeedYdotool, Step::Run(command("ydotool", &["key", "42:1"]))]
    );
    assert_eq!(
        release_key(&combo(&["shift", "a"])),
        vec![Step::NeedYdotool, Step::Run(command("ydotool", &["key", "42:0"]))]
    );
}

#[test]
fn holding_an_unknown_key_fails() {
    assert_eq!(
        hold_key(&combo(&["wat"])),
        vec![Step::NeedYdotool, Step::Fail(NovaError::msg("unknown key `wat`"))]
    );
    assert_eq!(
        release_key(&combo(&[])),
        vec![Step::NeedYdotool, Step::Fail(NovaError::msg("unknown key ``"))]
    );
}

#[test]
fn combo_leaves_no_key_down() {
    let steps = press_key(&combo(&["ctrl", "alt", "x", "y"]));
    let events = match &steps[2] {
        Step::Run(command) => &command.args[1..],
        _ => panic!(),
    };
    let mut down: Vec<String> = Vec::new();
    for event in events {
        let (code, state) = event.split_once(':').unwrap();
        if state == "1" {
            down.push(code.to_string());
        } else {
            assert_eq!(down.pop(), Some(code.to_string()));
        }
    }
    assert!(down.is_empty());
}
