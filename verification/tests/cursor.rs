use nova_wayland::cursor::{mouse_position, parse_position, CursorQuery};
use nova_wayland::platform::{Command, Compositor, NovaError, Output, Point};
use nova_wayland::script::{Reply, Request};

fn refusal() -> Request {
    Request::Failed(NovaError::msg(
        "Reading the cursor position is not possible on this Wayland compositor. \
         Hyprland is the only one that exposes it (via `hyprctl cursorpos`).",
    ))
}

fn printed(stdout: &str) -> Reply {
    Reply::Ran(Ok(Output {
        stdout: stdout.to_string(),
        stderr: String::new(),
        exit_code: 0,
        success: true,
    }))
}

fn asking() -> CursorQuery {
    mouse_position(Compositor::Hyprland).reply(Reply::Installed(true))
}

#[test]
fn hyprland_tells_the_position() {
    let query = mouse_position(Compositor::Hyprland);
    assert_eq!(query.request(), Request::Probe("hyprctl".to_string()));
    let query = query.reply(Reply::Installed(true));
    assert_eq!(query.request(), Request::Run(Command::new("hyprctl").arg("cursorpos")));
    assert_eq!(query.position(), None);
    let query = query.reply(printed("  12, -34\n"));
    assert_eq!(query.request(), Request::Finished);
    assert_eq!(query.position(), Some(Point { x: 12, y: -34 }));
}

#[test]
fn other_compositors_do_not_tell_the_position() {
    for compositor in [Compositor::Sway, Compositor::Gnome, Compositor::Kde, Compositor::Other] {
        let query = mouse_position(compositor);
        assert_eq!(query.request(), refusal());
        assert_eq!(query.reply(Reply::Installed(true)).request(), refusal());
    }
}

#[test]
fn missing_hyprctl_refuses_the_position() {
    let query = mouse_position(Compositor::Hyprland).reply(Reply::Installed(false));
    assert_eq!(query.request(), refusal());
}

#[test]
fn answer_without_a_comma_refuses_the_position() {
    assert_eq!(asking().reply(printed("12 34")).request(), refusal());
    assert_eq!(asking().reply(printed("")).request(), refusal());
}

#[test]
fn position_question_that_cannot_be_asked_fails() {
    let query = asking().reply(Reply::Ran(Err(NovaError::msg("broken"))));
    assert_eq!(query.request(), Request::Failed(NovaError::msg("broken")));
}

#[test]
fn positions_are_parsed() {
    for (text, x, y) in [
        ("1,2", 1, 2),
        ("-1 , +2", -1, 2),
        (",", 0, 0),
        ("a,5", 0, 5),
        ("5,6,7", 5, 0),
        ("2147483648,2147483647", 0, 2147483647),
        ("1.5,2", 0, 2),
    ] {
        assert_eq!(parse_position(text), Some(Point { x, y }), "{text}");
    }
    assert_eq!(parse_position("12"), None);
}

#[test]
fn positions_read_back() {
    for (x, y) in [(0, 0), (-5, 7), (i32::MIN, i32::MAX)] {
        assert_eq!(parse_position(&format!("{x}, {y}")), Some(Point { x, y }));
    }
}
