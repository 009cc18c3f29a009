use nova_wayland::mouse::{click, click_code, double_click, drag, move_mouse, scroll};
use nova_wayland::platform::{Command, MouseButton, ScrollDirection};
use nova_wayland::script::Step;

fn ydotool(args: &[&str]) -> Step {
    Step::Run(Command {
        program: "ydotool".to_string(),
        args: args.iter().map(|a| a.to_string()).collect(),
    })
}

fn moved(x: &str, y: &str) -> Step {
    ydotool(&["mousemove", "--absolute", "-x", x, "-y", y])
}

#[test]
fn moving_is_absolute() {
    assert_eq!(move_mouse(12, -7), vec![Step::NeedYdotool, moved("12", "-7")]);
    assert_eq!(
        move_mouse(i32::MIN, i32::MAX),
        vec![Step::NeedYdotool, moved("-2147483648", "2147483647")]
    );
}

#[test]
fn click_codes_press_and_release() {
    for (button, number) in
        [(MouseButton::Left, 0), (MouseButton::Right, 1), (MouseButton::Middle, 2)]
    {
        assert_eq!(click_code(button), format!("0x{:X}", 0x40 + 0x80 + number));
    }
}

#[test]
fn clicking_moves_only_with_both_coordinates() {
    assert_eq!(
        click(Some(1), Some(2), MouseButton::Right),
        vec![Step::NeedYdotool, Step::NeedYdotool, moved("1", "2"), ydotool(&["click", "0xC1"])]
    );
    for (x, y) in [(None, None), (Some(1), None), (None, Some(2))] {
        assert_eq!(
            click(x, y, MouseButton::Middle),
            vec![Step::NeedYdotool, ydotool(&["click", "0xC2"])]
        );
    }
}

#[test]
fn double_clicking_repeats_a_left_click() {
    let twice = || ydotool(&["click", "--repeat", "2", "--next-delay", "60", "0xC0"]);
    assert_eq!(double_click(None, Some(3)), vec![Step::NeedYdotool, twice()]);
    assert_eq!(
        double_click(Some(0), Some(3)),
        vec![Step::NeedYdotool, Step::NeedYdotool, moved("0", "3"), twice()]
    );
}

fn stops(steps: &[Step]) -> Vec<(i32, i32)> {
    let mut stops = Vec::new();
    for step in steps {
        if let Step::Run(command) = step {
            if command.args[0] == "mousemove" {
                stops.push((command.args[3].parse().unwrap(), command.args[5].parse().unwrap()));
            }
        }
    }
    stops
}

#[test]
fn dragging_presses_moves_and_releases() {
    let steps = drag(0, 100, 25, 0);
    assert_eq!(steps.len(), 35);
    assert_eq!(steps[0], Step::NeedYdotool);
    assert_eq!(steps[2], moved("0", "100"));
    assert_eq!(steps[3], ydotool(&["click", "0x40"]));
    assert_eq!(steps[4], Step::NeedYdotool);
    assert_eq!(steps[5], moved("2", "90"));
    assert_eq!(steps[6], Step::Pause(16));
    assert_eq!(steps[32], moved("25", "0"));
    assert_eq!(steps[33], Step::Pause(16));
    assert_eq!(steps[34], ydotool(&["click", "0x80"]));
    assert_eq!(
        stops(&steps),
        vec![
            (0, 100), (2, 90), (5, 80), (7, 70), (10, 60), (12, 50), (15, 40), (17, 30), (20, 20),
            (22, 10), (25, 0),
        ]
    );
}

#[test]
fn drag_rounds_toward_its_start() {
    let steps = drag(0, 0, -25, -9);
    assert_eq!(
        stops(&steps),
        vec![
            (0, 0), (-2, 0), (-5, -1), (-7, -2), (-10, -3), (-12, -4), (-15, -5), (-17, -6),
            (-20, -7), (-22, -8), (-25, -9),
        ]
    );
}

#[test]
fn drag_stays_between_its_ends_and_never_turns_back() {
    let far = 214_748_364;
    for (a, b) in [(5, 5), (-3, 14), (14, -3), (0, far), (far, 0), (i32::MAX, i32::MAX - far)] {
        let xs: Vec<i32> = stops(&drag(a, 0, b, 0)).into_iter().map(|(x, _)| x).collect();
        assert_eq!(xs[0], a);
        assert_eq!(xs[10], b);
        for pair in xs.windows(2) {
            assert!(if a <= b { pair[0] <= pair[1] } else { pair[0] >= pair[1] });
        }
        for x in xs {
            assert!(a.min(b) <= x && x <= a.max(b));
        }
    }
}

fn wheel(x: &str, y: &str) -> Vec<Step> {
    vec![Step::NeedYdotool, ydotool(&["mousemove", "--wheel", "-x", x, "-y", y])]
}

#[test]
fn scrolling_turns_the_wheel() {
    assert_eq!(scroll(ScrollDirection::Up, 3), wheel("0", "-3"));
    assert_eq!(scroll(ScrollDirection::Down, 3), wheel("0", "3"));
    assert_eq!(scroll(ScrollDirection::Left, 3), wheel("-3", "0"));
    assert_eq!(scroll(ScrollDirection::Right, 3), wheel("3", "0"));
}

#[test]
fn scrolling_turns_at_least_one_tick() {
    assert_eq!(scroll(ScrollDirection::Down, 0), wheel("0", "1"));
    assert_eq!(scroll(ScrollDirection::Up, 0), wheel("0", "-1"));
}

#[test]
fn scrolling_wraps_large_amounts() {
    assert_eq!(scroll(ScrollDirection::Down, 2147483647), wheel("0", "2147483647"));
    assert_eq!(scroll(ScrollDirection::Down, 2147483648), wheel("0", "-2147483648"));
    assert_eq!(scroll(ScrollDirection::Right, u32::MAX), wheel("-1", "0"));
    assert_eq!(scroll(ScrollDirection::Left, u32::MAX), wheel("1", "0"));
}

#[test]
fn everything_the_mouse_does_starts_with_a_check() {
    for steps in [
        move_mouse(1, 1),
        click(None, None, MouseButton::Left),
        double_click(None, None),
        drag(0, 0, 9, 9),
        scroll(ScrollDirection::Up, 1),
    ] {
        assert_eq!(steps[0], Step::NeedYdotool);
    }
}
