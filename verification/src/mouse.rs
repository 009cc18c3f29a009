//! The mouse, by way of ydotool.
use crate::platform::{command_line, Command, CommandLine, MouseButton, Point, ScrollDirection};
use crate::script::{guarded, no_steps, push_step, push_steps, step_views, Step, StepView};
use crate::text::{all_digits, decimal, decimal_text, i32_of, lemma_decimal_reads_back, number};
use vstd::prelude::*;

verus! {

/* ── Moving ─────────────────────────────────────────────────────── */

/// The command that moves the pointer to a position.
pub open spec fn move_command(x: int, y: int) -> CommandLine {
    command_line(
        "ydotool"@,
        seq!["mousemove"@, "--absolute"@, "-x"@, decimal(x), "-y"@, decimal(y)],
    )
}

/// The script that moves the pointer to a position.
pub open spec fn move_script(x: int, y: int) -> Seq<StepView> {
    seq![StepView::NeedYdotool, StepView::Run(move_command(x, y))]
}

/// Moves the pointer to a position.
pub fn move_mouse(x: i32, y: i32) -> (steps: Vec<Step>)
    ensures
        step_views(steps@) == move_script(x as int, y as int),
{
    let x_text = decimal_text(x as i64);
    let y_text = decimal_text(y as i64);
    let command = Command::new("ydotool").arg("mousemove").arg("--absolute").arg("-x").arg(
        x_text.as_str(),
    ).arg("-y").arg(y_text.as_str());
    assert(command@.args =~= move_command(x as int, y as int).args);
    let mut steps = no_steps();
    push_step(&mut steps, Step::NeedYdotool);
    push_step(&mut steps, Step::Run(command));
    assert(step_views(steps@) =~= move_script(x as int, y as int));
    steps
}

/* ── Clicking ───────────────────────────────────────────────────── */

/// The ydotool code of a full click of a button.
pub open spec fn click_code_of(button: MouseButton) -> Seq<char> {
    match button {
        MouseButton::Left => "0xC0"@,
        MouseButton::Right => "0xC1"@,
        MouseButton::Middle => "0xC2"@,
    }
}

/// ydotool click codes: the low nibble selects the button, 0x40 presses and 0x80 releases, so
/// 0xC0 to 0xC2 are a full click of left, right and middle.
pub fn click_code(button: MouseButton) -> (code: &'static str)
    ensures
        code@ == click_code_of(button),
{
    match button {
        MouseButton::Left => "0xC0",
        MouseButton::Right => "0xC1",
        MouseButton::Middle => "0xC2",
    }
}

/// The number that ydotool gives a button.
pub open spec fn button_number(button: MouseButton) -> nat {
    match button {
        MouseButton::Left => 0,
        MouseButton::Right => 1,
        MouseButton::Middle => 2,
    }
}

/// An upper-case hexadecimal digit.
pub open spec fn hex_char(d: nat) -> char {
    if d < 10 {
        (48 + d) as char
    } else {
        (55 + d) as char
    }
}

/// A byte as ydotool reads it.
pub open spec fn hex_text(byte: nat) -> Seq<char> {
    seq!['0', 'x', hex_char(byte / 16), hex_char(byte % 16)]
}

/// A click code is the press bit, the release bit and the number of the button.
pub proof fn lemma_click_code_bits(button: MouseButton)
    ensures
        click_code_of(button) == hex_text(0x40 + 0x80 + button_number(button)),
{
    reveal_strlit("0xC0");
    reveal_strlit("0xC1");
    reveal_strlit("0xC2");
    assert(click_code_of(button) =~= hex_text(0x40 + 0x80 + button_number(button)));
}

/// The script that moves the pointer, if both coordinates are given.
pub open spec fn optional_move_script(x: Option<i32>, y: Option<i32>) -> Seq<StepView> {
    match (x, y) {
        (Some(x), Some(y)) => move_script(x as int, y as int),
        _ => Seq::empty(),
    }
}

/// The command that sends a click code.
pub open spec fn click_command(code: Seq<char>) -> CommandLine {
    command_line("ydotool"@, seq!["click"@, code])
}

/// The script that clicks a button.
pub open spec fn click_script(x: Option<i32>, y: Option<i32>, button: MouseButton) -> Seq<
    StepView,
> {
    seq![StepView::NeedYdotool] + optional_move_script(x, y) + seq![
        StepView::Run(click_command(click_code_of(button))),
    ]
}

fn click_with(code: &str) -> (command: Command)
    ensures
        command@ == click_command(code@),
{
    let command = Command::new("ydotool").arg("click").arg(code);
    assert(command@.args =~= click_command(code@).args);
    command
}

fn push_optional_move(steps: &mut Vec<Step>, x: Option<i32>, y: Option<i32>)
    ensures
        step_views(final(steps)@) == step_views(old(steps)@) + optional_move_script(x, y),
{
    if let (Some(x), Some(y)) = (x, y) {
        push_steps(steps, move_mouse(x, y));
    } else {
        assert(step_views(steps@) + Seq::<StepView>::empty() =~= step_views(steps@));
    }
}

/// Clicks a button, at a position if both coordinates are given.
pub fn click(x: Option<i32>, y: Option<i32>, button: MouseButton) -> (steps: Vec<Step>)
    ensures
        step_views(steps@) == click_script(x, y, button),
{
    let mut steps = no_steps();
    push_step(&mut steps, Step::NeedYdotool);
    push_optional_move(&mut steps, x, y);
    push_step(&mut steps, Step::Run(click_with(click_code(button))));
    assert(step_views(steps@) =~= click_script(x, y, button));
    steps
}

/// The command that double-clicks the left button.
pub open spec fn double_click_command() -> CommandLine {
    command_line(
        "ydotool"@,
        seq!["click"@, "--repeat"@, "2"@, "--next-delay"@, "60"@, "0xC0"@],
    )
}

/// The script that double-clicks the left button.
pub open spec fn double_click_script(x: Option<i32>, y: Option<i32>) -> Seq<StepView> {
    seq![StepView::NeedYdotool] + optional_move_script(x, y) + seq![
        StepView::Run(double_click_command()),
    ]
}

/// Double-clicks the left button, at a position if both coordinates are given.
pub fn double_click(x: Option<i32>, y: Option<i32>) -> (steps: Vec<Step>)
    ensures
        step_views(steps@) == double_click_script(x, y),
{
    let mut steps = no_steps();
    push_step(&mut steps, Step::NeedYdotool);
    push_optional_move(&mut steps, x, y);
    let command = Command::new("ydotool").arg("click").arg("--repeat").arg("2").arg(
        "--next-delay",
    ).arg("60").arg("0xC0");
    assert(command@.args =~= double_click_command().args);
    push_step(&mut steps, Step::Run(command));
    assert(step_views(steps@) =~= double_click_script(x, y));
    steps
}

/* ── Dragging ───────────────────────────────────────────────────── */

/// The quotient of two integers, rounded toward zero.
pub open spec fn quotient(n: int, d: int) -> int {
    if n >= 0 {
        n / d
    } else {
        -((-n) / d)
    }
}

/// The coordinate after `i` tenths of the way from `a` to `b`.
pub open spec fn waypoint(a: int, b: int, i: int) -> int {
    a + quotient((b - a) * i, 10)
}

/// The first `n` tenths of a drag: the pointer moves and rests.
pub open spec fn drag_moves(x1: int, y1: int, x2: int, y2: int, n: nat) -> Seq<StepView>
    decreases n,
{
    if n == 0 {
        Seq::empty()
    } else {
        drag_moves(x1, y1, x2, y2, (n - 1) as nat) + move_script(
            waypoint(x1, x2, n as int),
            waypoint(y1, y2, n as int),
        ) + seq![StepView::Pause(16)]
    }
}

/// The script that drags from one position to another: move there, press the left button, move in
/// ten parts, release the button.
pub open spec fn drag_script(x1: int, y1: int, x2: int, y2: int) -> Seq<StepView> {
    seq![StepView::NeedYdotool] + move_script(x1, y1) + seq![
        StepView::Run(click_command("0x40"@)),
    ] + drag_moves(x1, y1, x2, y2, 10) + seq![StepView::Run(click_command("0x80"@))]
}

/// Whether the way from `a` to `b` is short enough that ten times its length is an `i32`.
pub open spec fn draggable(a: i32, b: i32) -> bool {
    i32::MIN <= (b - a) * 10 <= i32::MAX
}

fn way(a: i32, b: i32, i: i32) -> (at: i32)
    requires
        draggable(a, b),
        0 <= i <= 10,
    ensures
        at == waypoint(a as int, b as int, i as int),
{
    proof {
        lemma_waypoint_between(a as int, b as int, i as int);
    }
    let d: i64 = b as i64 - a as i64;
    assert(-214748365 < d < 214748365);
    assert(-2147483650 < d * i < 2147483650) by (nonlinear_arith)
        requires
            -214748365 < d < 214748365,
            0 <= i <= 10,
    ;
    let product: i64 = d * (i as i64);
    let part: i64 = if product >= 0 {
        product / 10
    } else {
        -((-product) / 10)
    };
    (a as i64 + part) as i32
}

/// Drags with the left button from one position to another.
pub fn drag(x1: i32, y1: i32, x2: i32, y2: i32) -> (steps: Vec<Step>)
    requires
        draggable(x1, x2),
        draggable(y1, y2),
    ensures
        step_views(steps@) == drag_script(x1 as int, y1 as int, x2 as int, y2 as int),
{
    let mut steps = no_steps();
    push_step(&mut steps, Step::NeedYdotool);
    push_steps(&mut steps, move_mouse(x1, y1));
    push_step(&mut steps, Step::Run(click_with("0x40")));
    let ghost front = step_views(steps@);
    let mut i: i32 = 1;
    assert(front + drag_moves(x1 as int, y1 as int, x2 as int, y2 as int, 0) =~= front);
    while i <= 10
        invariant
            1 <= i <= 11,
            draggable(x1, x2),
            draggable(y1, y2),
            step_views(steps@) == front + drag_moves(
                x1 as int,
                y1 as int,
                x2 as int,
                y2 as int,
                (i - 1) as nat,
            ),
        decreases 11 - i,
    {
        push_steps(&mut steps, move_mouse(way(x1, x2, i), way(y1, y2, i)));
        push_step(&mut steps, Step::Pause(16));
        assert(step_views(steps@) =~= front + drag_moves(
            x1 as int,
            y1 as int,
            x2 as int,
            y2 as int,
            i as nat,
        ));
        i = i + 1;
    }
    push_step(&mut steps, Step::Run(click_with("0x80")));
    assert(step_views(steps@) =~= drag_script(x1 as int, y1 as int, x2 as int, y2 as int));
    steps
}

/// A waypoint lies between the two ends, and the last one is the far end.
pub proof fn lemma_waypoint_between(a: int, b: int, i: int)
    requires
        0 <= i <= 10,
    ensures
        a <= b ==> a <= waypoint(a, b, i) <= b,
        b <= a ==> b <= waypoint(a, b, i) <= a,
        waypoint(a, b, 0) == a,
        waypoint(a, b, 10) == b,
{
    assert(a <= b ==> 0 <= (b - a) * i <= (b - a) * 10) by (nonlinear_arith)
        requires
            0 <= i <= 10,
    ;
    assert(b <= a ==> 0 <= -((b - a) * i) <= (a - b) * 10) by (nonlinear_arith)
        requires
            0 <= i <= 10,
    ;
}

/// The pointer never turns back during a drag.
pub proof fn lemma_waypoints_advance(a: int, b: int, i: int, j: int)
    requires
        0 <= i <= j <= 10,
    ensures
        a <= b ==> waypoint(a, b, i) <= waypoint(a, b, j),
        b <= a ==> waypoint(a, b, j) <= waypoint(a, b, i),
{
    assert(a <= b ==> 0 <= (b - a) * i <= (b - a) * j) by (nonlinear_arith)
        requires
            0 <= i <= j,
    ;
    assert(b <= a ==> 0 <= -((b - a) * i) <= -((b - a) * j)) by (nonlinear_arith)
        requires
            0 <= i <= j,
    ;
}

proof fn lemma_drag_moves(x1: int, y1: int, x2: int, y2: int, n: nat)
    ensures
        drag_moves(x1, y1, x2, y2, n).len() == 3 * n,
        forall|k: int|
            0 <= k < n ==> {
                &&& drag_moves(x1, y1, x2, y2, n)[3 * k] == StepView::NeedYdotool
                &&& #[trigger] drag_moves(x1, y1, x2, y2, n)[3 * k + 1] == StepView::Run(
                    move_command(waypoint(x1, x2, k + 1), waypoint(y1, y2, k + 1)),
                )
                &&& drag_moves(x1, y1, x2, y2, n)[3 * k + 2] == StepView::Pause(16)
            },
    decreases n,
{
    if n > 0 {
        lemma_drag_moves(x1, y1, x2, y2, (n - 1) as nat);
        let before = drag_moves(x1, y1, x2, y2, (n - 1) as nat);
        let all = drag_moves(x1, y1, x2, y2, n);
        assert forall|k: int| 0 <= k < n implies {
            &&& all[3 * k] == StepView::NeedYdotool
            &&& #[trigger] all[3 * k + 1] == StepView::Run(
                move_command(waypoint(x1, x2, k + 1), waypoint(y1, y2, k + 1)),
            )
            &&& all[3 * k + 2] == StepView::Pause(16)
        } by {
            if k < n - 1 {
                assert(all[3 * k] == before[3 * k]);
                assert(all[3 * k + 1] == before[3 * k + 1]);
                assert(all[3 * k + 2] == before[3 * k + 2]);
            }
        }
    }
}

/// A drag presses the left button at the near end and releases it at the far end, and between the
/// two it does nothing but move.
pub proof fn lemma_drag_presses_and_releases(x1: int, y1: int, x2: int, y2: int)
    ensures
        ({
            let script = drag_script(x1, y1, x2, y2);
            let last = script.len() - 1;
            &&& script.len() == 35
            &&& script[2] == StepView::Run(move_command(x1, y1))
            &&& script[3] == StepView::Run(click_command("0x40"@))
            &&& script[last - 2] == StepView::Run(move_command(x2, y2))
            &&& script[last - 1] is Pause
            &&& script[last] == StepView::Run(click_command("0x80"@))
            &&& forall|i: int|
                4 <= i < last ==> {
                    ||| #[trigger] script[i] is NeedYdotool
                    ||| script[i] is Pause
                    ||| exists|k: int|
                        1 <= k <= 10 && script[i] == StepView::Run(
                            #[trigger] move_command(waypoint(x1, x2, k), waypoint(y1, y2, k)),
                        )
                }
        }),
{
    lemma_drag_moves(x1, y1, x2, y2, 10);
    lemma_waypoint_between(x1, x2, 10);
    lemma_waypoint_between(y1, y2, 10);
    let script = drag_script(x1, y1, x2, y2);
    let moves = drag_moves(x1, y1, x2, y2, 10);
    let tenth: int = 9;
    assert(moves[3 * tenth + 1] == StepView::Run(move_command(x2, y2)));
    assert(script[32] == moves[28]);
    assert(script[33] == moves[29]);
    assert forall|i: int| 4 <= i < 34 implies {
        ||| #[trigger] script[i] is NeedYdotool
        ||| script[i] is Pause
        ||| exists|k: int|
            1 <= k <= 10 && script[i] == StepView::Run(
                #[trigger] move_command(waypoint(x1, x2, k), waypoint(y1, y2, k)),
            )
    } by {
        let k = (i - 4) / 3;
        assert(script[i] == moves[i - 4]);
        assert(moves[3 * k + 1] == StepView::Run(
            move_command(waypoint(x1, x2, k + 1), waypoint(y1, y2, k + 1)),
        ));
        assert(i - 4 == 3 * k || i - 4 == 3 * k + 1 || i - 4 == 3 * k + 2);
    }
}

/* ── Scrolling ──────────────────────────────────────────────────── */

/// The number of wheel ticks for an amount: at least one. An amount that an `i32` cannot hold
/// wraps around.
pub open spec fn ticks(amount: u32) -> int {
    if amount == 0 {
        1
    } else if amount <= i32::MAX {
        amount as int
    } else {
        amount - 0x1_0000_0000
    }
}

/// How far the wheel turns, across and down.
pub open spec fn wheel(direction: ScrollDirection, amount: u32) -> (int, int) {
    match direction {
        ScrollDirection::Up => (0, -ticks(amount)),
        ScrollDirection::Down => (0, ticks(amount)),
        ScrollDirection::Left => (-ticks(amount), 0),
        ScrollDirection::Right => (ticks(amount), 0),
    }
}

/// The script that turns the wheel.
pub open spec fn scroll_script(direction: ScrollDirection, amount: u32) -> Seq<StepView> {
    seq![
        StepView::NeedYdotool,
        StepView::Run(
            command_line(
                "ydotool"@,
                seq![
                    "mousemove"@,
                    "--wheel"@,
                    "-x"@,
                    decimal(wheel(direction, amount).0),
                    "-y"@,
                    decimal(wheel(direction, amount).1),
                ],
            ),
        ),
    ]
}

/// Turns the wheel. The one amount that has no negative, 2^31, cannot be scrolled up or left.
pub fn scroll(direction: ScrollDirection, amount: u32) -> (steps: Vec<Step>)
    requires
        direction is Up || direction is Left ==> amount != 0x8000_0000,
    ensures
        step_views(steps@) == scroll_script(direction, amount),
{
    let least: u32 = if amount == 0 {
        1
    } else {
        amount
    };
    let turn: i32 = if least <= i32::MAX as u32 {
        least as i32
    } else {
        (least as i64 - 0x1_0000_0000) as i32
    };
    let (dx, dy): (i32, i32) = match direction {
        ScrollDirection::Up => (0, -turn),
        ScrollDirection::Down => (0, turn),
        ScrollDirection::Left => (-turn, 0),
        ScrollDirection::Right => (turn, 0),
    };
    let dx_text = decimal_text(dx as i64);
    let dy_text = decimal_text(dy as i64);
    let command = Command::new("ydotool").arg("mousemove").arg("--wheel").arg("-x").arg(
        dx_text.as_str(),
    ).arg("-y").arg(dy_text.as_str());
    assert(command@.args =~= seq![
        "mousemove"@,
        "--wheel"@,
        "-x"@,
        decimal(wheel(direction, amount).0),
        "-y"@,
        decimal(wheel(direction, amount).1),
    ]);
    let mut steps = no_steps();
    push_step(&mut steps, Step::NeedYdotool);
    push_step(&mut steps, Step::Run(command));
    assert(step_views(steps@) =~= scroll_script(direction, amount));
    steps
}

/// Scrolling back by the same amount turns the wheel as far the other way.
pub proof fn lemma_scroll_directions_oppose(amount: u32)
    ensures
        wheel(ScrollDirection::Up, amount).0 == -wheel(ScrollDirection::Down, amount).0,
        wheel(ScrollDirection::Up, amount).1 == -wheel(ScrollDirection::Down, amount).1,
        wheel(ScrollDirection::Left, amount).0 == -wheel(ScrollDirection::Right, amount).0,
        wheel(ScrollDirection::Left, amount).1 == -wheel(ScrollDirection::Right, amount).1,
        wheel(ScrollDirection::Down, amount).1 != 0,
{
}

/* ── ydotool ────────────────────────────────────────────────────── */

proof fn lemma_first_step_guards(steps: Seq<StepView>)
    requires
        steps.len() > 0,
        steps[0] is NeedYdotool,
    ensures
        guarded(steps),
{
    assert forall|i: int|
        0 <= i < steps.len() && #[trigger] steps[i] is Run && steps[i]->Run_0.program
            == "ydotool"@ implies exists|j: int| 0 <= j < i && #[trigger] steps[j] is NeedYdotool by {
        assert(i > 0);
        assert(steps[0] is NeedYdotool);
    }
}

/// Everything that the mouse does starts with a check of ydotool.
pub proof fn lemma_mouse_checks_ydotool(
    x: Option<i32>,
    y: Option<i32>,
    button: MouseButton,
    from: Point,
    to: Point,
    direction: ScrollDirection,
    amount: u32,
)
    ensures
        ({
            let scripts = seq![
                move_script(to.x as int, to.y as int),
                click_script(x, y, button),
                double_click_script(x, y),
                drag_script(from.x as int, from.y as int, to.x as int, to.y as int),
                scroll_script(direction, amount),
            ];
            forall|i: int|
                0 <= i < scripts.len() ==> {
                    &&& (#[trigger] scripts[i]).len() > 0
                    &&& scripts[i][0] is NeedYdotool
                    &&& guarded(scripts[i])
                }
        }),
{
    lemma_first_step_guards(move_script(to.x as int, to.y as int));
    lemma_first_step_guards(click_script(x, y, button));
    lemma_first_step_guards(double_click_script(x, y));
    lemma_first_step_guards(drag_script(from.x as int, from.y as int, to.x as int, to.y as int));
    lemma_first_step_guards(scroll_script(direction, amount));
}

/* ── What ydotool makes of it ───────────────────────────────────── */

/// What happens to the mouse.
pub enum MouseAct {
    /// The pointer goes to a position.
    Move(i32, i32),
    /// The wheel turns, across and down.
    Wheel(i32, i32),
    /// The button with a number goes down.
    Down(nat),
    /// The button with a number goes up.
    Up(nat),
    /// Nothing, for some milliseconds.
    Rest(nat),
}

/// The value of a hexadecimal digit.
pub open spec fn hex_value(c: char) -> Option<nat> {
    if '0' <= c <= '9' {
        Some((c as nat - 48) as nat)
    } else if 'A' <= c <= 'F' {
        Some((c as nat - 55) as nat)
    } else {
        None
    }
}

/// The number that a text such as `0xC0` stands for.
pub open spec fn hex_number(text: Seq<char>) -> Option<nat> {
    if text.len() == 4 && text[0] == '0' && text[1] == 'x' {
        match (hex_value(text[2]), hex_value(text[3])) {
            (Some(high), Some(low)) => Some(16 * high + low),
            _ => None,
        }
    } else {
        None
    }
}

/// What a click code does: the bit 0x40 presses, the bit 0x80 releases, and the low nibble is the
/// number of the button.
pub open spec fn code_acts(code: nat) -> Seq<MouseAct> {
    let down = if code / 0x40 % 2 == 1 {
        seq![MouseAct::Down(code % 16)]
    } else {
        Seq::empty()
    };
    let up = if code / 0x80 % 2 == 1 {
        seq![MouseAct::Up(code % 16)]
    } else {
        Seq::empty()
    };
    down + up
}

/// Something that happens a number of times, with a rest between one time and the next.
pub open spec fn repeated(acts: Seq<MouseAct>, times: nat, rest: nat) -> Seq<MouseAct>
    decreases times,
{
    if times == 0 {
        Seq::empty()
    } else if times == 1 {
        acts
    } else {
        repeated(acts, (times - 1) as nat, rest).push(MouseAct::Rest(rest)) + acts
    }
}

/// What ydotool does when it is run with some arguments, as far as the mouse goes.
pub open spec fn ydotool_acts(args: Seq<Seq<char>>) -> Option<Seq<MouseAct>> {
    if args.len() == 6 && args[0] == "mousemove"@ && args[2] == "-x"@ && args[4] == "-y"@ {
        match (i32_of(args[3]), i32_of(args[5])) {
            (Some(x), Some(y)) => if args[1] == "--absolute"@ {
                Some(seq![MouseAct::Move(x, y)])
            } else if args[1] == "--wheel"@ {
                Some(seq![MouseAct::Wheel(x, y)])
            } else {
                None
            },
            _ => None,
        }
    } else if args.len() == 2 && args[0] == "click"@ {
        match hex_number(args[1]) {
            Some(code) => Some(code_acts(code)),
            None => None,
        }
    } else if args.len() == 6 && args[0] == "click"@ && args[1] == "--repeat"@ && args[3]
        == "--next-delay"@ && all_digits(args[2]) && all_digits(args[4]) {
        match hex_number(args[5]) {
            Some(code) => Some(repeated(code_acts(code), number(args[2]), number(args[4]))),
            None => None,
        }
    } else {
        None
    }
}

/// What a step does to the mouse.
pub open spec fn step_acts(step: StepView) -> Option<Seq<MouseAct>> {
    match step {
        StepView::NeedYdotool => Some(Seq::empty()),
        StepView::Run(command) => if command.program == "ydotool"@ {
            ydotool_acts(command.args)
        } else {
            None
        },
        StepView::Pause(ms) => Some(seq![MouseAct::Rest(ms as nat)]),
        _ => None,
    }
}

/// What a script does to the mouse, in order.
pub open spec fn script_acts(steps: Seq<StepView>) -> Option<Seq<MouseAct>>
    decreases steps.len(),
{
    if steps.len() == 0 {
        Some(Seq::empty())
    } else {
        match (script_acts(steps.drop_last()), step_acts(steps.last())) {
            (Some(before), Some(now)) => Some(before + now),
            _ => None,
        }
    }
}

proof fn lemma_acts_append(first: Seq<StepView>, second: Seq<StepView>)
    requires
        script_acts(first) is Some,
        script_acts(second) is Some,
    ensures
        script_acts(first + second) == Some(script_acts(first)->0 + script_acts(second)->0),
    decreases second.len(),
{
    if second.len() == 0 {
        assert(first + second =~= first);
        assert(script_acts(first)->0 + Seq::<MouseAct>::empty() =~= script_acts(first)->0);
    } else {
        let all = first + second;
        assert(all.drop_last() =~= first + second.drop_last());
        assert(all.last() == second.last());
        lemma_acts_append(first, second.drop_last());
        let a = script_acts(first)->0;
        let b = script_acts(second.drop_last())->0;
        let c = step_acts(second.last())->0;
        assert((a + b) + c =~= a + (b + c));
    }
}

proof fn lemma_acts_of_one(step: StepView)
    requires
        step_acts(step) is Some,
    ensures
        script_acts(seq![step]) == step_acts(step),
{
    let steps = seq![step];
    assert(steps.drop_last() =~= Seq::<StepView>::empty());
    assert(script_acts(steps.drop_last()) == Some(Seq::<MouseAct>::empty()));
    assert(Seq::<MouseAct>::empty() + step_acts(step)->0 =~= step_acts(step)->0);
}

/// Moving the pointer takes it to the position, whatever the position, and does nothing else.
pub proof fn lemma_move_moves(x: i32, y: i32)
    ensures
        script_acts(move_script(x as int, y as int)) == Some(seq![MouseAct::Move(x, y)]),
{
    let script = move_script(x as int, y as int);
    reveal_strlit("mousemove");
    reveal_strlit("click");
    lemma_decimal_reads_back(x);
    lemma_decimal_reads_back(y);
    lemma_acts_of_one(StepView::NeedYdotool);
    lemma_acts_of_one(script[1]);
    lemma_acts_append(seq![StepView::NeedYdotool], seq![script[1]]);
    assert(script =~= seq![StepView::NeedYdotool] + seq![script[1]]);
    assert(Seq::<MouseAct>::empty() + seq![MouseAct::Move(x, y)] =~= seq![MouseAct::Move(x, y)]);
}

/// What a move does before a click: nothing, unless both coordinates are given.
pub open spec fn first_move(x: Option<i32>, y: Option<i32>) -> Seq<MouseAct> {
    if x is Some && y is Some {
        seq![MouseAct::Move(x->0, y->0)]
    } else {
        Seq::empty()
    }
}

proof fn lemma_optional_move(x: Option<i32>, y: Option<i32>)
    ensures
        script_acts(seq![StepView::NeedYdotool] + optional_move_script(x, y)) == Some(
            first_move(x, y),
        ),
{
    lemma_acts_of_one(StepView::NeedYdotool);
    if let (Some(a), Some(b)) = (x, y) {
        lemma_move_moves(a, b);
    }
    lemma_acts_append(seq![StepView::NeedYdotool], optional_move_script(x, y));
    assert(Seq::<MouseAct>::empty() + first_move(x, y) =~= first_move(x, y));
}

proof fn lemma_codes()
    ensures
        hex_number("0xC0"@) == Some(0xC0nat),
        hex_number("0xC1"@) == Some(0xC1nat),
        hex_number("0xC2"@) == Some(0xC2nat),
        hex_number("0x40"@) == Some(0x40nat),
        hex_number("0x80"@) == Some(0x80nat),
{
    reveal_strlit("0xC0");
    reveal_strlit("0xC1");
    reveal_strlit("0xC2");
    reveal_strlit("0x40");
    reveal_strlit("0x80");
}

proof fn lemma_click_command(code: Seq<char>)
    requires
        hex_number(code) is Some,
    ensures
        step_acts(StepView::Run(click_command(code))) == Some(code_acts(hex_number(code)->0)),
        script_acts(seq![StepView::Run(click_command(code))]) == Some(
            code_acts(hex_number(code)->0),
        ),
{
    reveal_strlit("mousemove");
    reveal_strlit("click");
    lemma_acts_of_one(StepView::Run(click_command(code)));
}

/// A click moves the pointer if both coordinates are given, then presses the button and releases
/// it, and does nothing else: it leaves no button down.
pub proof fn lemma_click_presses_and_releases(x: Option<i32>, y: Option<i32>, button: MouseButton)
    ensures
        script_acts(click_script(x, y, button)) == Some(
            first_move(x, y) + seq![
                MouseAct::Down(button_number(button)),
                MouseAct::Up(button_number(button)),
            ],
        ),
{
    let front = seq![StepView::NeedYdotool] + optional_move_script(x, y);
    let code = click_code_of(button);
    lemma_codes();
    lemma_optional_move(x, y);
    lemma_click_command(code);
    assert(click_script(x, y, button) =~= front + seq![StepView::Run(click_command(code))]);
    lemma_acts_append(front, seq![StepView::Run(click_command(code))]);
    assert(code_acts(hex_number(code)->0) =~= seq![
        MouseAct::Down(button_number(button)),
        MouseAct::Up(button_number(button)),
    ]);
}

/// A double click moves the pointer if both coordinates are given, then presses and releases the
/// left button twice, a short while apart, and does nothing else.
pub proof fn lemma_double_click_clicks_twice(x: Option<i32>, y: Option<i32>)
    ensures
        script_acts(double_click_script(x, y)) == Some(
            first_move(x, y) + seq![
                MouseAct::Down(0),
                MouseAct::Up(0),
                MouseAct::Rest(60),
                MouseAct::Down(0),
                MouseAct::Up(0),
            ],
        ),
{
    let front = seq![StepView::NeedYdotool] + optional_move_script(x, y);
    let step = StepView::Run(double_click_command());
    let once = code_acts(0xC0);
    lemma_codes();
    lemma_optional_move(x, y);
    reveal_strlit("mousemove");
    reveal_strlit("click");
    reveal_strlit("2");
    reveal_strlit("60");
    assert("2"@ =~= seq!['2']);
    assert("60"@ =~= seq!['6', '0']);
    assert(seq!['2'].drop_last() =~= Seq::<char>::empty());
    assert(seq!['6', '0'].drop_last() =~= seq!['6']);
    assert(seq!['6'].drop_last() =~= Seq::<char>::empty());
    reveal_with_fuel(number, 3);
    assert(number("2"@) == 2);
    assert(number("60"@) == 60);
    assert(once =~= seq![MouseAct::Down(0), MouseAct::Up(0)]);
    reveal_with_fuel(repeated, 3);
    assert(repeated(once, 1, 60) == once);
    assert(repeated(once, 2, 60) =~= seq![
        MouseAct::Down(0),
        MouseAct::Up(0),
        MouseAct::Rest(60),
        MouseAct::Down(0),
        MouseAct::Up(0),
    ]);
    let args = double_click_command().args;
    assert(args[0] == "click"@ && args[2] == "2"@ && args[4] == "60"@ && args[5] == "0xC0"@);
    assert("click"@.len() != "mousemove"@.len());
    assert(all_digits("2"@) && all_digits("60"@));
    lemma_acts_of_one(step);
    assert(double_click_script(x, y) =~= front + seq![step]);
    lemma_acts_append(front, seq![step]);
}

/// Whether a coordinate is that of the point after `k` tenths of the way from `a` to `b`, as near
/// to it as an integer on the side of `a` can be.
pub open spec fn tenth(a: int, b: int, k: int, at: int) -> bool {
    if a <= b {
        10 * (at - a) <= k * (b - a) < 10 * (at - a) + 10
    } else {
        10 * (a - at) <= k * (a - b) < 10 * (a - at) + 10
    }
}

proof fn lemma_waypoint_is_tenth(a: int, b: int, k: int)
    requires
        0 <= k <= 10,
    ensures
        tenth(a, b, k, waypoint(a, b, k)),
{
    assert((b - a) * k == k * (b - a)) by (nonlinear_arith);
    assert(-((b - a) * k) == k * (a - b)) by (nonlinear_arith);
    assert(a <= b ==> (b - a) * k >= 0) by (nonlinear_arith)
        requires
            0 <= k,
    ;
    assert(a > b ==> k * (a - b) >= 0) by (nonlinear_arith)
        requires
            0 <= k,
    ;
}

/// What a drag does: the pointer goes to the near end, the left button goes down, the pointer goes
/// on by tenths with a short rest after each, and at the far end the button goes up.
pub proof fn lemma_drag_drags(x1: i32, y1: i32, x2: i32, y2: i32)
    ensures
        ({
            let acts = script_acts(drag_script(x1 as int, y1 as int, x2 as int, y2 as int))->0;
            &&& script_acts(drag_script(x1 as int, y1 as int, x2 as int, y2 as int)) is Some
            &&& acts.len() == 23
            &&& acts[0] == MouseAct::Move(x1, y1)
            &&& acts[1] == MouseAct::Down(0)
            &&& forall|k: int|
                1 <= k <= 10 ==> {
                    &&& (#[trigger] acts[2 * k]) is Move
                    &&& tenth(x1 as int, x2 as int, k, acts[2 * k]->Move_0 as int)
                    &&& tenth(y1 as int, y2 as int, k, acts[2 * k]->Move_1 as int)
                    &&& acts[2 * k + 1] == MouseAct::Rest(16)
                }
            &&& acts[20] == MouseAct::Move(x2, y2)
            &&& acts[22] == MouseAct::Up(0)
        }),
{
    let (a, b, c, d) = (x1 as int, y1 as int, x2 as int, y2 as int);
    let start = seq![StepView::NeedYdotool] + move_script(a, b);
    let press = seq![StepView::Run(click_command("0x40"@))];
    let moves = drag_moves(a, b, c, d, 10);
    let release = seq![StepView::Run(click_command("0x80"@))];
    lemma_codes();
    lemma_acts_of_one(StepView::NeedYdotool);
    lemma_move_moves(x1, y1);
    lemma_acts_append(seq![StepView::NeedYdotool], move_script(a, b));
    lemma_click_command("0x40"@);
    lemma_click_command("0x80"@);
    lemma_drag_moves_acts(x1, y1, x2, y2, 10);
    lemma_acts_append(start, press);
    lemma_acts_append(start + press, moves);
    lemma_acts_append(start + press + moves, release);
    assert(drag_script(a, b, c, d) =~= start + press + moves + release);
    assert(code_acts(0x40) =~= seq![MouseAct::Down(0)]);
    assert(code_acts(0x80) =~= seq![MouseAct::Up(0)]);
    let middle = script_acts(moves)->0;
    let acts = script_acts(drag_script(a, b, c, d))->0;
    assert(acts =~= seq![MouseAct::Move(x1, y1), MouseAct::Down(0)] + middle + seq![
        MouseAct::Up(0),
    ]);
    assert forall|k: int| 1 <= k <= 10 implies {
        &&& (#[trigger] acts[2 * k]) is Move
        &&& tenth(a, c, k, acts[2 * k]->Move_0 as int)
        &&& tenth(b, d, k, acts[2 * k]->Move_1 as int)
        &&& acts[2 * k + 1] == MouseAct::Rest(16)
    } by {
        let j = k - 1;
        assert(acts[2 * k] == middle[2 * j]);
        assert(acts[2 * k + 1] == middle[2 * j + 1]);
        lemma_waypoint_is_tenth(a, c, k);
        lemma_waypoint_is_tenth(b, d, k);
    }
    let ninth: int = 9;
    assert(acts[20] == middle[2 * ninth]);
    lemma_waypoint_between(a, c, 10);
    lemma_waypoint_between(b, d, 10);
}

proof fn lemma_drag_moves_acts(x1: i32, y1: i32, x2: i32, y2: i32, n: nat)
    requires
        n <= 10,
    ensures
        ({
            let moves = drag_moves(x1 as int, y1 as int, x2 as int, y2 as int, n);
            let acts = script_acts(moves)->0;
            &&& script_acts(moves) is Some
            &&& acts.len() == 2 * n
            &&& forall|j: int|
                0 <= j < n ==> {
                    &&& (#[trigger] acts[2 * j]) is Move
                    &&& acts[2 * j]->Move_0 == waypoint(x1 as int, x2 as int, j + 1)
                    &&& acts[2 * j]->Move_1 == waypoint(y1 as int, y2 as int, j + 1)
                    &&& acts[2 * j + 1] == MouseAct::Rest(16)
                }
        }),
    decreases n,
{
    if n > 0 {
        let (a, b, c, d) = (x1 as int, y1 as int, x2 as int, y2 as int);
        let shorter = drag_moves(a, b, c, d, (n - 1) as nat);
        let moves = drag_moves(a, b, c, d, n);
        lemma_drag_moves_acts(x1, y1, x2, y2, (n - 1) as nat);
        lemma_waypoint_between(a, c, n as int);
        lemma_waypoint_between(b, d, n as int);
        let (x, y) = (waypoint(a, c, n as int) as i32, waypoint(b, d, n as int) as i32);
        lemma_move_moves(x, y);
        lemma_acts_of_one(StepView::Pause(16));
        lemma_acts_append(shorter, move_script(x as int, y as int));
        lemma_acts_append(
            shorter + move_script(x as int, y as int),
            seq![StepView::Pause(16)],
        );
        let before = script_acts(shorter)->0;
        let acts = script_acts(moves)->0;
        assert(acts =~= before + seq![MouseAct::Move(x, y), MouseAct::Rest(16)]);
        assert forall|j: int| 0 <= j < n implies {
            &&& (#[trigger] acts[2 * j]) is Move
            &&& acts[2 * j]->Move_0 == waypoint(a, c, j + 1)
            &&& acts[2 * j]->Move_1 == waypoint(b, d, j + 1)
            &&& acts[2 * j + 1] == MouseAct::Rest(16)
        } by {
            if j < n - 1 {
                assert(acts[2 * j] == before[2 * j]);
                assert(acts[2 * j + 1] == before[2 * j + 1]);
            }
        }
    }
}

/// Scrolling turns the wheel once, along one axis: down and right as far as the amount says, up and
/// left as far the other way. No amount turns it by nothing: zero counts as one. What an `i32`
/// cannot hold differs from the amount by a multiple of 2^32.
pub proof fn lemma_scroll_turns(direction: ScrollDirection, amount: u32)
    requires
        direction is Up || direction is Left ==> amount != 0x8000_0000,
    ensures
        ({
            let acts = script_acts(scroll_script(direction, amount))->0;
            let (dx, dy) = (acts[0]->Wheel_0 as int, acts[0]->Wheel_1 as int);
            let along = match direction {
                ScrollDirection::Up => -dy,
                ScrollDirection::Down => dy,
                ScrollDirection::Left => -dx,
                ScrollDirection::Right => dx,
            };
            &&& script_acts(scroll_script(direction, amount)) is Some
            &&& acts.len() == 1
            &&& acts[0] is Wheel
            &&& direction is Up || direction is Down ==> dx == 0
            &&& direction is Left || direction is Right ==> dy == 0
            &&& amount == 0 ==> along == 1
            &&& amount > 0 ==> (along - amount) % 0x1_0000_0000 == 0
            &&& 0 < amount <= i32::MAX ==> along == amount
        }),
{
    let script = scroll_script(direction, amount);
    let (dx, dy) = wheel(direction, amount);
    reveal_strlit("mousemove");
    reveal_strlit("click");
    reveal_strlit("--absolute");
    reveal_strlit("--wheel");
    lemma_decimal_reads_back(dx as i32);
    lemma_decimal_reads_back(dy as i32);
    lemma_acts_of_one(StepView::NeedYdotool);
    lemma_acts_of_one(script[1]);
    lemma_acts_append(seq![StepView::NeedYdotool], seq![script[1]]);
    assert(script =~= seq![StepView::NeedYdotool] + seq![script[1]]);
    assert(script_acts(script)->0 =~= seq![MouseAct::Wheel(dx as i32, dy as i32)]);
}

} // verus!
