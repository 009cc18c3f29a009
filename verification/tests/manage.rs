use nova_wayland::manage::{
    close_window, deed_steps, focus_window, list_windows, maximize_window, minimize_window,
    move_window, resize_window, target_id, unsupported, Deed, Listing, WindowTask,
};
use nova_wayland::platform::{Command, Compositor, NovaError, Output, WindowInfo};
use nova_wayland::script::{Reply, Request, Step};

const GNOME: &str = "GNOME on Wayland does not expose window management to applications. \
    Install the 'Window Calls' GNOME extension, or use an X11 session, to let NOVA manage windows.";
const KDE: &str = "KDE on Wayland restricts window management to KWin scripts. \
    Use an X11 session for full window control.";
const OTHER: &str = "Window management on this Wayland compositor is not supported. \
    Hyprland and Sway are fully supported; other compositors work on X11.";

fn command(program: &str, args: &[&str]) -> Command {
    Command {
        program: program.to_string(),
        args: args.iter().map(|a| a.to_string()).collect(),
    }
}

fn printed(stdout: &str) -> Reply {
    Reply::Ran(Ok(Output {
        stdout: stdout.to_string(),
        stderr: String::new(),
        exit_code: 0,
        success: true,
    }))
}

fn window(id: &str) -> WindowInfo {
    WindowInfo {
        id: id.to_string(),
        title: "t".to_string(),
        app: "a".to_string(),
        x: 0,
        y: 0,
        w: 1,
        h: 1,
        focused: false,
    }
}

fn ended(task: WindowTask, clients: &str) -> WindowTask {
    task.reply(Reply::Installed(true)).reply(printed(clients)).reply(printed("{}"))
}

/// A task on Hyprland that has listed two windows.
fn hyprland_listed(task: WindowTask) -> WindowTask {
    ended(task, r#"[{"address": "0x6"}, {"address": "0x7"}]"#)
}

/// A task on Sway that has listed two windows.
fn sway_listed(task: WindowTask) -> WindowTask {
    let tree = r#"{"nodes": [
        {"id": 6, "type": "con", "app_id": "a"},
        {"id": 7, "type": "con", "app_id": "b"}
    ]}"#;
    task.reply(Reply::Installed(true)).reply(printed(tree))
}

fn ids(request: Request) -> (Vec<String>, String) {
    match request {
        Request::Choose { windows, target } => {
            (windows.into_iter().map(|w| w.id).collect(), target)
        }
        other => panic!("{other:?}"),
    }
}

fn words(list: &[&str]) -> Vec<String> {
    list.iter().map(|w| w.to_string()).collect()
}

/* ── Listing ────────────────────────────────────────────────────── */

#[test]
fn unsupported_compositors_are_told_why() {
    assert_eq!(unsupported(Compositor::Gnome), NovaError::msg(GNOME));
    assert_eq!(unsupported(Compositor::Kde), NovaError::msg(KDE));
    assert_eq!(unsupported(Compositor::Other), NovaError::msg(OTHER));
    assert_eq!(unsupported(Compositor::Sway), NovaError::msg(OTHER));
}

#[test]
fn listing_is_refused_at_once_where_it_is_unsupported() {
    for (compositor, words) in
        [(Compositor::Gnome, GNOME), (Compositor::Kde, KDE), (Compositor::Other, OTHER)]
    {
        let listing = list_windows(compositor);
        assert_eq!(listing.request(), Request::Failed(NovaError::msg(words)));
        assert_eq!(
            listing.reply(Reply::Installed(true)).request(),
            Request::Failed(NovaError::msg(words))
        );
    }
}

#[test]
fn hyprland_is_asked_for_clients_and_the_active_window() {
    let listing = list_windows(Compositor::Hyprland);
    assert_eq!(listing.request(), Request::Probe("hyprctl".to_string()));
    let listing = listing.reply(Reply::Installed(true));
    assert_eq!(listing.request(), Request::Run(command("hyprctl", &["-j", "clients"])));
    let listing = listing.reply(printed(r#"[{"address": "0x1"}]"#));
    assert_eq!(listing.request(), Request::Run(command("hyprctl", &["-j", "activewindow"])));
    let listing = listing.reply(printed(r#"{"address": "0x1"}"#));
    assert_eq!(listing.request(), Request::Finished);
    let windows = listing.windows().unwrap();
    assert_eq!(windows.len(), 1);
    assert_eq!(windows[0].id, "0x1");
    assert!(windows[0].focused);
}

#[test]
fn unknown_active_window_is_no_failure() {
    let listing = list_windows(Compositor::Hyprland)
        .reply(Reply::Installed(true))
        .reply(printed(r#"[{"address": "0x1"}]"#))
        .reply(Reply::Ran(Err(NovaError::msg("broken"))));
    let windows = listing.windows().unwrap();
    assert_eq!(windows.len(), 1);
    assert!(!windows[0].focused);
}

#[test]
fn sway_is_asked_for_its_tree() {
    let listing = list_windows(Compositor::Sway);
    assert_eq!(listing.request(), Request::Probe("swaymsg".to_string()));
    let listing = listing.reply(Reply::Installed(true));
    assert_eq!(
        listing.request(),
        Request::Run(command("swaymsg", &["-t", "get_tree", "-r"]))
    );
    let listing = listing.reply(printed(r#"{"id": 4, "type": "con", "app_id": "x"}"#));
    assert_eq!(listing.windows().unwrap()[0].id, "4");
}

#[test]
fn listing_fails_without_its_tool() {
    assert_eq!(
        list_windows(Compositor::Hyprland).reply(Reply::Installed(false)).request(),
        Request::Failed(NovaError::missing("hyprctl", "It ships with Hyprland."))
    );
    assert_eq!(
        list_windows(Compositor::Sway).reply(Reply::Installed(false)).request(),
        Request::Failed(NovaError::missing("swaymsg", "It ships with Sway."))
    );
}

#[test]
fn listing_fails_where_its_tool_cannot_be_run() {
    for compositor in [Compositor::Hyprland, Compositor::Sway] {
        let listing = list_windows(compositor)
            .reply(Reply::Installed(true))
            .reply(Reply::Ran(Err(NovaError::msg("broken"))));
        assert_eq!(listing.request(), Request::Failed(NovaError::msg("broken")));
        assert_eq!(listing.windows(), None);
    }
}

#[test]
fn listing_fails_on_output_that_is_no_document() {
    let listing = list_windows(Compositor::Sway).reply(Reply::Installed(true)).reply(printed("{"));
    assert!(matches!(listing, Listing::Failed(_)));
    let listing = list_windows(Compositor::Hyprland)
        .reply(Reply::Installed(true))
        .reply(printed("["))
        .reply(printed("{}"));
    assert!(matches!(listing, Listing::Failed(_)));
}

/* ── Acting on a window ─────────────────────────────────────────── */

fn dispatch(what: &str, arg: &str) -> Step {
    Step::Run(command("hyprctl", &["dispatch", what, arg]))
}

fn swaymsg(words: &str) -> Step {
    Step::Run(command("swaymsg", &[words]))
}

#[test]
fn hyprland_does_what_is_asked() {
    let steps = |deed| deed_steps(Compositor::Hyprland, deed, "0xab");
    assert_eq!(steps(Deed::Focus), vec![dispatch("focuswindow", "address:0xab")]);
    assert_eq!(
        steps(Deed::Move { x: -1, y: 20 }),
        vec![dispatch("movewindowpixel", "exact -1 20,address:0xab")]
    );
    assert_eq!(
        steps(Deed::Resize { w: 640, h: 480 }),
        vec![dispatch("resizewindowpixel", "exact 640 480,address:0xab")]
    );
    assert_eq!(steps(Deed::Close), vec![dispatch("closewindow", "address:0xab")]);
    assert_eq!(
        steps(Deed::Minimize),
        vec![dispatch("movetoworkspacesilent", "special,address:0xab")]
    );
    assert_eq!(
        steps(Deed::Maximize),
        vec![dispatch("focuswindow", "address:0xab"), dispatch("fullscreen", "1")]
    );
}

#[test]
fn sway_does_what_is_asked() {
    let steps = |deed| deed_steps(Compositor::Sway, deed, "12");
    assert_eq!(steps(Deed::Focus), vec![swaymsg("[con_id=12] focus")]);
    assert_eq!(
        steps(Deed::Move { x: -1, y: 20 }),
        vec![swaymsg("[con_id=12] move absolute position -1 20")]
    );
    assert_eq!(
        steps(Deed::Resize { w: 640, h: 480 }),
        vec![swaymsg("[con_id=12] resize set 640 480")]
    );
    assert_eq!(steps(Deed::Close), vec![swaymsg("[con_id=12] kill")]);
    assert_eq!(steps(Deed::Minimize), vec![swaymsg("[con_id=12] move scratchpad")]);
    assert_eq!(steps(Deed::Maximize), vec![swaymsg("[con_id=12] fullscreen enable")]);
}

#[test]
fn other_compositors_do_nothing_and_say_so() {
    for (compositor, words) in
        [(Compositor::Gnome, GNOME), (Compositor::Kde, KDE), (Compositor::Other, OTHER)]
    {
        assert_eq!(
            deed_steps(compositor, Deed::Close, "1"),
            vec![Step::Fail(NovaError::msg(words))]
        );
        let task = close_window(compositor, "x");
        assert_eq!(task.request(), Request::Failed(NovaError::msg(words)));
        let task = task.reply(Reply::Chosen(Some(0)));
        assert_eq!(task.request(), Request::Failed(NovaError::msg(words)));
    }
}

#[test]
fn target_is_the_identifier_of_the_window() {
    assert_eq!(target_id("x", Some(&window("7"))), Ok("7".to_string()));
    assert_eq!(target_id("x", None), Err(NovaError::msg("no window matching `x`")));
}

#[test]
fn tasks_find_their_window_first() {
    let c = Compositor::Sway;
    for (task, line) in [
        (focus_window(c, "fire"), "[con_id=7] focus"),
        (move_window(c, "fire", 1, 2), "[con_id=7] move absolute position 1 2"),
        (resize_window(c, "fire", 3, 4), "[con_id=7] resize set 3 4"),
        (close_window(c, "fire"), "[con_id=7] kill"),
        (minimize_window(c, "fire"), "[con_id=7] move scratchpad"),
        (maximize_window(c, "fire"), "[con_id=7] fullscreen enable"),
    ] {
        assert_eq!(task.request(), Request::Probe("swaymsg".to_string()));
        let task = sway_listed(task);
        assert_eq!(ids(task.request()), (words(&["6", "7"]), "fire".to_string()));
        let task = task.reply(Reply::Chosen(Some(1)));
        assert_eq!(task.request(), Request::Run(command("swaymsg", &[line])));
        assert_eq!(task.reply(printed("")).request(), Request::Finished);
    }
}

#[test]
fn tasks_on_hyprland_list_its_clients() {
    let task = focus_window(Compositor::Hyprland, "fire");
    assert_eq!(task.request(), Request::Probe("hyprctl".to_string()));
    let task = task.reply(Reply::Installed(true));
    assert_eq!(task.request(), Request::Run(command("hyprctl", &["-j", "clients"])));
    let task = hyprland_listed(focus_window(Compositor::Hyprland, "fire"));
    assert_eq!(ids(task.request()), (words(&["0x6", "0x7"]), "fire".to_string()));
    let task = task.reply(Reply::Chosen(Some(0)));
    assert_eq!(
        task.request(),
        Request::Run(command("hyprctl", &["dispatch", "focuswindow", "address:0x6"]))
    );
    assert_eq!(task.reply(printed("ok")).request(), Request::Finished);
}

fn maximizing_again() -> WindowTask {
    hyprland_listed(maximize_window(Compositor::Hyprland, "fire")).reply(Reply::Chosen(Some(1)))
}

#[test]
fn maximizing_on_hyprland_focuses_first() {
    let task = maximizing_again();
    assert_eq!(task.request(), Request::Probe("hyprctl".to_string()));
    let task = hyprland_listed(task);
    assert_eq!(ids(task.request()), (words(&["0x6", "0x7"]), "0x7".to_string()));
    let task = task.reply(Reply::Chosen(Some(1)));
    assert_eq!(
        task.request(),
        Request::Run(command("hyprctl", &["dispatch", "focuswindow", "address:0x7"]))
    );
    let task = task.reply(printed("ok"));
    assert_eq!(
        task.request(),
        Request::Run(command("hyprctl", &["dispatch", "fullscreen", "1"]))
    );
    assert_eq!(task.reply(printed("ok")).request(), Request::Finished);
}

#[test]
fn maximizing_on_hyprland_fails_where_focusing_does() {
    let task = hyprland_listed(maximizing_again()).reply(Reply::Chosen(None));
    assert_eq!(task.request(), Request::Failed(NovaError::msg("no window matching `0x7`")));
    let task = maximizing_again().reply(Reply::Installed(false));
    assert_eq!(
        task.request(),
        Request::Failed(NovaError::missing("hyprctl", "It ships with Hyprland."))
    );
    let task = hyprland_listed(maximizing_again())
        .reply(Reply::Chosen(Some(1)))
        .reply(Reply::Ran(Err(NovaError::msg("broken"))));
    assert_eq!(task.request(), Request::Failed(NovaError::msg("broken")));
}

#[test]
fn unfound_window_is_left_alone() {
    for choice in [None, Some(2)] {
        let task = sway_listed(close_window(Compositor::Sway, "fire")).reply(Reply::Chosen(choice));
        let wanted = || Request::Failed(NovaError::msg("no window matching `fire`"));
        assert_eq!(task.request(), wanted());
        assert_eq!(task.reply(Reply::Chosen(Some(0))).request(), wanted());
    }
}

#[test]
fn task_fails_where_windows_cannot_be_listed() {
    let task = close_window(Compositor::Sway, "fire")
        .reply(Reply::Installed(true))
        .reply(Reply::Ran(Err(NovaError::msg("broken"))));
    assert_eq!(task.request(), Request::Failed(NovaError::msg("broken")));
}

#[test]
fn early_choice_is_ignored() {
    let task = close_window(Compositor::Sway, "fire").reply(Reply::Chosen(Some(0)));
    assert_eq!(task.request(), Request::Probe("swaymsg".to_string()));
}

#[test]
fn windows_can_be_copied() {
    assert_eq!(window("1").clone(), window("1"));
}
