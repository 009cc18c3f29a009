use nova_wayland::keyboard::type_text;
use nova_wayland::mouse::{drag, move_mouse};
use nova_wayland::platform::{compositor, Command, Compositor, NovaError, Output, PlatformInfo};
use nova_wayland::script::{need_ydotool, Player, Reply, Request, Step, YDOTOOL_HINT};

fn ran(success: bool) -> Reply {
    Reply::Ran(Ok(Output {
        stdout: String::new(),
        stderr: String::new(),
        exit_code: if success { 0 } else { 1 },
        success,
    }))
}

fn broken() -> Reply {
    Reply::Ran(Err(NovaError::msg("broken")))
}

fn missing() -> NovaError {
    NovaError::Missing {
        tool: "ydotool".to_string(),
        hint: "Input control on Wayland needs ydotool, and its daemon must be running \
               (`systemctl --user enable --now ydotool` or `sudo systemctl enable --now ydotoold`)."
            .to_string(),
    }
}

#[test]
fn compositor_is_that_of_the_session() {
    assert_eq!(compositor(&PlatformInfo { compositor: Compositor::Sway }), Compositor::Sway);
}

#[test]
fn ydotool_is_needed() {
    assert_eq!(need_ydotool(true), Ok(()));
    assert_eq!(need_ydotool(false), Err(missing()));
    assert_eq!(NovaError::missing("ydotool", YDOTOOL_HINT), missing());
}

#[test]
fn empty_script_is_over() {
    assert_eq!(Player::new(vec![]).request(), Request::Finished);
}

#[test]
fn missing_ydotool_stops_a_script() {
    let player = Player::new(move_mouse(1, 2));
    assert_eq!(player.request(), Request::Probe("ydotool".to_string()));
    let player = player.reply(Reply::Installed(false));
    assert_eq!(player.request(), Request::Failed(missing()));
    assert_eq!(player.reply(ran(true)).request(), Request::Failed(missing()));
}

#[test]
fn run_goes_on_whatever_the_program_reports() {
    let player = Player::new(move_mouse(1, 2)).reply(Reply::Installed(true));
    let wanted = Command::new("ydotool")
        .arg("mousemove")
        .arg("--absolute")
        .arg("-x")
        .arg("1")
        .arg("-y")
        .arg("2");
    assert_eq!(player.request(), Request::Run(wanted));
    assert_eq!(player.reply(ran(false)).request(), Request::Finished);
}

#[test]
fn command_that_cannot_be_run_stops_a_script() {
    let player = Player::new(move_mouse(1, 2)).reply(Reply::Installed(true)).reply(broken());
    assert_eq!(player.request(), Request::Failed(NovaError::msg("broken")));
}

#[test]
fn attempt_that_succeeds_ends_a_script() {
    let player = Player::new(type_text("x"));
    assert_eq!(player.request(), Request::Probe("wtype".to_string()));
    let player = player.reply(Reply::Installed(true));
    assert_eq!(player.request(), Request::Run(Command::new("wtype").arg("x")));
    assert_eq!(player.reply(ran(true)).request(), Request::Finished);
}

#[test]
fn attempt_that_fails_goes_on() {
    let player = Player::new(type_text("x")).reply(Reply::Installed(true)).reply(ran(false));
    assert_eq!(player.request(), Request::Probe("ydotool".to_string()));
}

#[test]
fn attempt_without_its_program_goes_on() {
    let player = Player::new(type_text("x")).reply(Reply::Installed(false));
    assert_eq!(player.request(), Request::Probe("ydotool".to_string()));
}

#[test]
fn attempt_that_cannot_be_run_stops_a_script() {
    let player = Player::new(type_text("x")).reply(Reply::Installed(true)).reply(broken());
    assert_eq!(player.request(), Request::Failed(NovaError::msg("broken")));
}

#[test]
fn pauses_are_asked_for() {
    let player = Player::new(vec![Step::Pause(16)]);
    assert_eq!(player.request(), Request::Pause(16));
    assert_eq!(player.reply(Reply::Paused).request(), Request::Finished);
}

#[test]
fn script_can_fail_by_itself() {
    let player = Player::new(vec![Step::Fail(NovaError::msg("no"))]);
    assert_eq!(player.request(), Request::Failed(NovaError::msg("no")));
}

#[test]
fn reply_to_another_request_is_ignored() {
    let player = Player::new(move_mouse(1, 2)).reply(Reply::Paused);
    assert_eq!(player.request(), Request::Probe("ydotool".to_string()));
}

#[test]
fn every_answer_takes_a_script_on() {
    let mut player = Player::new(drag(0, 0, 10, 10));
    let mut answers = 0;
    loop {
        let reply = match player.request() {
            Request::Probe(_) => Reply::Installed(true),
            Request::Run(_) => ran(true),
            Request::Pause(_) => Reply::Paused,
            Request::Finished => break,
            other => panic!("{other:?}"),
        };
        player = player.reply(reply);
        answers += 1;
    }
    assert_eq!(answers, 35);
}

#[test]
fn commands_and_errors_can_be_copied() {
    let command = Command::new("a").arg("b").arg("");
    assert_eq!(command.clone(), command);
    assert_eq!(missing().clone(), missing());
}

#[test]
fn outputs_are_read() {
    let output = Output {
        stdout: " x \n".to_string(),
        stderr: String::new(),
        exit_code: 0,
        success: true,
    };
    assert!(output.ok());
    assert_eq!(output.trimmed(), "x");
}
