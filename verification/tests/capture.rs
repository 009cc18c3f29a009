use nova_wayland::capture::{
    capture_failed, finish, screenshot, shell_line, tool_line, Capture, CaptureReply,
    CaptureRequest, CaptureTool, Finish,
};
use nova_wayland::platform::{Command, Compositor, NovaError, Output, Region};

const REGION: Region = Region { x: -1, y: 2, w: 30, h: 40 };

fn command(program: &str, args: &[&str]) -> Command {
    Command {
        program: program.to_string(),
        args: args.iter().map(|a| a.to_string()).collect(),
    }
}

fn ran(stdout: &str, stderr: &str, exit_code: i32) -> CaptureReply {
    CaptureReply::Ran(Some(Output {
        stdout: stdout.to_string(),
        stderr: stderr.to_string(),
        exit_code,
        success: exit_code == 0,
    }))
}

fn named(path: &str) -> CaptureReply {
    CaptureReply::Named(path.to_string())
}

fn refused(words: &str) -> CaptureReply {
    CaptureReply::Portal(Err(words.to_string()))
}

fn after(capture: Capture, replies: Vec<CaptureReply>) -> Capture {
    let mut capture = capture;
    for reply in replies {
        capture = capture.reply(reply);
    }
    capture
}

fn report(bullets: &str) -> CaptureRequest {
    CaptureRequest::Failed(NovaError::msg(&format!(
        "Screen capture failed on this Wayland session.\n{bullets}\n\nInstall the portal \
         backend for your desktop (xdg-desktop-portal-gnome, xdg-desktop-portal-kde \
         or xdg-desktop-portal-wlr), or run an X11 session."
    )))
}

#[test]
fn image_is_cropped_only_where_it_has_to_be() {
    assert_eq!(finish(vec![1], Some(REGION), true), Finish::Crop(vec![1], REGION));
    assert_eq!(finish(vec![1], Some(REGION), false), Finish::Whole(vec![1]));
    assert_eq!(finish(vec![1], None, true), Finish::Whole(vec![1]));
    assert_eq!(finish(vec![1], None, false), Finish::Whole(vec![1]));
}

#[test]
fn report_lists_the_attempts() {
    for (attempts, bullets) in [
        (vec![], ""),
        (vec!["a"], "  • a"),
        (vec!["a", "b", "c"], "  • a\n  • b\n  • c"),
    ] {
        let attempts: Vec<String> = attempts.into_iter().map(|a| a.to_string()).collect();
        assert_eq!(CaptureRequest::Failed(capture_failed(&attempts)), report(bullets));
    }
}

#[test]
fn tools_get_their_arguments() {
    assert_eq!(
        tool_line(CaptureTool::Grim, Some(REGION), "/t/a.png"),
        command("grim", &["-g", "-1,2 30x40", "/t/a.png"])
    );
    assert_eq!(tool_line(CaptureTool::Grim, None, "/t/a.png"), command("grim", &["/t/a.png"]));
    for region in [None, Some(REGION)] {
        assert_eq!(
            tool_line(CaptureTool::Spectacle, region, "/t/a.png"),
            command("spectacle", &["-b", "-n", "-o", "/t/a.png"])
        );
    }
    assert_eq!(
        shell_line("/t/a.png"),
        command(
            "gdbus",
            &[
                "call",
                "--session",
                "--dest",
                "org.gnome.Shell.Screenshot",
                "--object-path",
                "/org/gnome/Shell/Screenshot",
                "--method",
                "org.gnome.Shell.Screenshot.Screenshot",
                "false",
                "false",
                "/t/a.png",
            ]
        )
    );
}

#[test]
fn wlroots_gets_grim() {
    for compositor in [Compositor::Hyprland, Compositor::Sway, Compositor::Other] {
        let capture = screenshot(compositor, Some(REGION));
        assert_eq!(capture.request(), CaptureRequest::Probe("grim".to_string()));
        let capture = capture.reply(CaptureReply::Installed(true));
        assert_eq!(capture.request(), CaptureRequest::NameFile);
        let capture = capture.reply(named("/t/a"));
        assert_eq!(
            capture.request(),
            CaptureRequest::Run(command("grim", &["-g", "-1,2 30x40", "/t/a"]))
        );
        let capture = capture.reply(ran("", "", 1));
        assert_eq!(capture.request(), CaptureRequest::Check("/t/a".to_string()));
        let capture = capture.reply(CaptureReply::Exists(true));
        assert_eq!(capture.request(), CaptureRequest::Load("/t/a".to_string()));
        let capture = capture.reply(CaptureReply::Loaded(Some(vec![1])));
        assert_eq!(capture.request(), CaptureRequest::Remove("/t/a".to_string()));
        let capture = capture.reply(CaptureReply::Removed);
        assert_eq!(capture.request(), CaptureRequest::Finished);
        assert_eq!(capture.image(), Some(Finish::Whole(vec![1])));
    }
}

#[test]
fn kde_gets_spectacle_and_a_crop() {
    let capture = screenshot(Compositor::Kde, Some(REGION));
    assert_eq!(capture.request(), CaptureRequest::Probe("spectacle".to_string()));
    let capture = after(
        capture,
        vec![
            CaptureReply::Installed(true),
            named("/t/a"),
            ran("", "", 0),
            CaptureReply::Exists(true),
            CaptureReply::Loaded(Some(vec![1])),
            CaptureReply::Removed,
        ],
    );
    assert_eq!(capture.image(), Some(Finish::Crop(vec![1], REGION)));
}

#[test]
fn gnome_gets_the_portal_and_a_crop() {
    let capture = screenshot(Compositor::Gnome, Some(REGION));
    assert_eq!(capture.request(), CaptureRequest::AskPortal);
    let capture = capture.reply(CaptureReply::Portal(Ok(vec![1])));
    assert_eq!(capture.image(), Some(Finish::Crop(vec![1], REGION)));
    let capture = screenshot(Compositor::Gnome, None).reply(CaptureReply::Portal(Ok(vec![1])));
    assert_eq!(capture.image(), Some(Finish::Whole(vec![1])));
}

#[test]
fn missing_tool_falls_back_to_the_portal() {
    for (compositor, tool) in [(Compositor::Sway, "grim"), (Compositor::Kde, "spectacle")] {
        let capture = screenshot(compositor, Some(REGION)).reply(CaptureReply::Installed(false));
        assert_eq!(capture.request(), CaptureRequest::AskPortal);
        let capture = capture.reply(refused("denied"));
        assert_eq!(
            capture.request(),
            report(&format!("  • {tool} is not installed\n  • xdg-desktop-portal: denied"))
        );
        let capture = screenshot(compositor, Some(REGION)).reply(CaptureReply::Installed(false));
        let capture = capture.reply(CaptureReply::Portal(Ok(vec![2])));
        assert_eq!(capture.image(), Some(Finish::Crop(vec![2], REGION)));
    }
}

#[test]
fn tool_that_writes_no_file_is_noted() {
    for (stderr, exit_code, note) in [
        (" no screencopy \n", 1, "grim: no screencopy"),
        (" \n", -9, "grim: exit -9"),
        ("", 0, "grim: exit 0"),
    ] {
        let capture = after(
            screenshot(Compositor::Hyprland, None),
            vec![
                CaptureReply::Installed(true),
                named("/t/a"),
                ran("x", stderr, exit_code),
                CaptureReply::Exists(false),
                refused("denied"),
            ],
        );
        assert_eq!(
            capture.request(),
            report(&format!("  • {note}\n  • xdg-desktop-portal: denied"))
        );
    }
}

#[test]
fn tool_that_cannot_be_run_leaves_no_note() {
    let capture = after(
        screenshot(Compositor::Kde, None),
        vec![
            CaptureReply::Installed(true),
            named("/t/a"),
            CaptureReply::Ran(None),
            refused("denied"),
        ],
    );
    assert_eq!(capture.request(), report("  • xdg-desktop-portal: denied"));
}

#[test]
fn unreadable_file_of_a_tool_is_removed_and_noted() {
    let capture = after(
        screenshot(Compositor::Kde, None),
        vec![
            CaptureReply::Installed(true),
            named("/t/a"),
            ran("", "", 0),
            CaptureReply::Exists(true),
            CaptureReply::Loaded(None),
        ],
    );
    assert_eq!(capture.request(), CaptureRequest::Remove("/t/a".to_string()));
    let capture = after(capture, vec![CaptureReply::Removed, refused("denied")]);
    assert_eq!(
        capture.request(),
        report("  • spectacle wrote an unreadable file\n  • xdg-desktop-portal: denied")
    );
}

fn shell_running() -> Capture {
    after(
        screenshot(Compositor::Gnome, Some(REGION)),
        vec![refused("denied"), CaptureReply::Installed(true), named("/t/a")],
    )
}

#[test]
fn gnome_falls_back_to_the_shell() {
    let capture = screenshot(Compositor::Gnome, Some(REGION)).reply(refused("denied"));
    assert_eq!(capture.request(), CaptureRequest::Probe("gdbus".to_string()));
    let capture = capture.reply(CaptureReply::Installed(true));
    assert_eq!(capture.request(), CaptureRequest::NameFile);
    assert_eq!(shell_running().request(), CaptureRequest::Run(shell_line("/t/a")));
    let capture = shell_running().reply(ran(" (true, '/t/a')\n", "", 0));
    assert_eq!(capture.request(), CaptureRequest::Load("/t/a".to_string()));
    let capture = capture.reply(CaptureReply::Loaded(Some(vec![3])));
    assert_eq!(capture.request(), CaptureRequest::Remove("/t/a".to_string()));
    let capture = capture.reply(CaptureReply::Removed);
    assert_eq!(capture.image(), Some(Finish::Crop(vec![3], REGION)));
}

#[test]
fn gnome_without_gdbus_gives_up() {
    let capture = after(
        screenshot(Compositor::Gnome, None),
        vec![refused("denied"), CaptureReply::Installed(false)],
    );
    assert_eq!(
        capture.request(),
        report("  • xdg-desktop-portal: denied\n  • gdbus is not installed")
    );
}

#[test]
fn refusal_of_the_shell_is_noted_and_its_file_removed() {
    for (reply, detail) in [
        (ran("(false, '')", "", 0), "(false, '')"),
        (ran("(true, '/t/a')", " AccessDenied \n", 1), "AccessDenied"),
        (ran(" odd ", "", 3), "odd"),
    ] {
        let capture = shell_running().reply(reply);
        assert_eq!(capture.request(), CaptureRequest::Remove("/t/a".to_string()));
        let capture = capture.reply(CaptureReply::Removed);
        assert_eq!(
            capture.request(),
            report(&format!(
                "  • xdg-desktop-portal: denied\n  • org.gnome.Shell.Screenshot: {detail}"
            ))
        );
    }
}

#[test]
fn shell_that_writes_no_file_is_noted() {
    let capture = after(
        shell_running(),
        vec![ran("(true, '/t/a')", "", 0), CaptureReply::Loaded(None), CaptureReply::Removed],
    );
    assert_eq!(
        capture.request(),
        report("  • xdg-desktop-portal: denied\n  • org.gnome.Shell.Screenshot wrote no file")
    );
}

#[test]
fn shell_that_cannot_be_run_leaves_no_note() {
    let capture = shell_running().reply(CaptureReply::Ran(None));
    assert_eq!(capture.request(), report("  • xdg-desktop-portal: denied"));
}

#[test]
fn capture_that_is_over_stays() {
    let capture = screenshot(Compositor::Gnome, None).reply(CaptureReply::Portal(Ok(vec![1])));
    let capture = capture.reply(refused("late"));
    assert_eq!(capture.image(), Some(Finish::Whole(vec![1])));
    assert_eq!(screenshot(Compositor::Gnome, None).image(), None);
}
