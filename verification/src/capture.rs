//! Screen capture, by a method that the compositor actually supports.
//!
//! There is no single Wayland capture path. Each compositor family exposes a different one, and
//! picking the wrong one does not degrade, it fails outright:
//!
//! * wlroots (Hyprland, Sway) implement `wlr-screencopy`, which is what `grim` speaks.
//! * GNOME implements neither that nor an open `org.gnome.Shell.Screenshot` (restricted since
//!   GNOME 41). The portal is the supported route.
//! * KDE ships `spectacle`, and also has a portal backend.
//!
//! So each family gets its native tool first and the portal as the fallback, except GNOME, where
//! the portal is the native route and the Shell interface is kept behind it for old desktops.
use crate::platform::{
    command_line, fails_with, lemma_fails_with, Command, CommandLine, Compositor, NovaError,
    Output, OutputView, Reason, Region,
};
use crate::text::{
    append_decimal, blank, decimal, fields, i32_of, is_digit, is_space, lemma_decimal_chars,
    lemma_decimal_reads_back, lemma_fields_next, lemma_fields_single, lemma_trimming, starts_with,
    texts, trim, trimmed,
};
use vstd::prelude::*;
use vstd::string::*;

verus! {

/* ── Finishing ──────────────────────────────────────────────────── */

/// A captured image, and what is still to be done to it.
#[derive(Debug, PartialEq, Eq)]
pub enum Finish {
    /// The image is as it was asked for.
    Whole(Vec<u8>),
    /// The image has to be cropped.
    Crop(Vec<u8>, Region),
}

/// A captured image as a mathematical value.
pub enum FinishView {
    Whole(Seq<u8>),
    Crop(Seq<u8>, Region),
}

impl View for Finish {
    type V = FinishView;

    open spec fn view(&self) -> FinishView {
        match self {
            Finish::Whole(bytes) => FinishView::Whole(bytes@),
            Finish::Crop(bytes, region) => FinishView::Crop(bytes@, *region),
        }
    }
}

/// What is to be done to an image: it has to be cropped if a region was asked for and the capture
/// could not restrict itself to it.
pub open spec fn finish_of(bytes: Seq<u8>, region: Option<Region>, needs_crop: bool) -> FinishView {
    match region {
        Some(region) => if needs_crop {
            FinishView::Crop(bytes, region)
        } else {
            FinishView::Whole(bytes)
        },
        None => FinishView::Whole(bytes),
    }
}

/// Has an image cropped when the capture method could not restrict the region itself.
pub fn finish(bytes: Vec<u8>, region: Option<Region>, needs_crop: bool) -> (finish: Finish)
    ensures
        finish@ == finish_of(bytes@, region, needs_crop),
{
    match region {
        Some(region) => if needs_crop {
            Finish::Crop(bytes, region)
        } else {
            Finish::Whole(bytes)
        },
        None => Finish::Whole(bytes),
    }
}

/// How a report of failed attempts begins.
pub const CAPTURE_FAILED: &'static str = "Screen capture failed on this Wayland session.\n";

/// How a report of failed attempts ends.
pub const CAPTURE_ADVICE: &'static str =
    "\n\nInstall the portal \
     backend for your desktop (xdg-desktop-portal-gnome, xdg-desktop-portal-kde \
     or xdg-desktop-portal-wlr), or run an X11 session.";

/// A list of attempts, one to a line, in order.
pub open spec fn bullets(attempts: Seq<Seq<char>>) -> Seq<char>
    decreases attempts.len(),
{
    if attempts.len() == 0 {
        Seq::empty()
    } else if attempts.len() == 1 {
        "  • "@ + attempts[0]
    } else {
        bullets(attempts.drop_last()) + "\n"@ + "  • "@ + attempts.last()
    }
}

/// The failure after some attempts.
pub open spec fn capture_failure(attempts: Seq<Seq<char>>) -> Reason {
    Reason::Message(CAPTURE_FAILED@ + bullets(attempts) + CAPTURE_ADVICE@)
}

/// The failure after some attempts.
pub fn capture_failed(attempts: &Vec<String>) -> (error: NovaError)
    ensures
        error@ == capture_failure(texts(attempts@)),
{
    let ghost all = texts(attempts@);
    let mut words = CAPTURE_FAILED.to_owned();
    let mut i: usize = 0;
    assert(words@ =~= CAPTURE_FAILED@ + bullets(all.take(0)));
    while i < attempts.len()
        invariant
            i <= attempts@.len(),
            all == texts(attempts@),
            words@ == CAPTURE_FAILED@ + bullets(all.take(i as int)),
        decreases attempts.len() - i,
    {
        assert(all.take(i + 1).drop_last() =~= all.take(i as int));
        if i > 0 {
            words.append("\n");
        }
        words.append("  • ");
        words.append(attempts[i].as_str());
        i = i + 1;
        assert(words@ =~= CAPTURE_FAILED@ + bullets(all.take(i as int)));
    }
    assert(all.take(i as int) =~= all);
    words.append(CAPTURE_ADVICE);
    NovaError::Message(words)
}

/* ── The ways to capture ────────────────────────────────────────── */

/// A program that writes a capture to a file.
#[derive(Clone, Copy, Debug, PartialEq, Eq, Structural)]
pub enum CaptureTool {
    Grim,
    Spectacle,
}

/// The name of a program.
pub open spec fn tool_name(tool: CaptureTool) -> Seq<char> {
    match tool {
        CaptureTool::Grim => "grim"@,
        CaptureTool::Spectacle => "spectacle"@,
    }
}

/// A region as grim reads it.
pub open spec fn geometry(region: Region) -> Seq<char> {
    decimal(region.x as int) + ","@ + decimal(region.y as int) + " "@ + decimal(region.w as int)
        + "x"@ + decimal(region.h as int)
}

/// The command that writes a capture to a file. grim restricts it to the region; spectacle has no
/// region flag that works unattended.
pub open spec fn tool_command(
    tool: CaptureTool,
    region: Option<Region>,
    path: Seq<char>,
) -> CommandLine {
    match (tool, region) {
        (CaptureTool::Grim, Some(region)) => command_line(
            "grim"@,
            seq!["-g"@, geometry(region), path],
        ),
        (CaptureTool::Grim, None) => command_line("grim"@, seq![path]),
        (CaptureTool::Spectacle, _) => command_line(
            "spectacle"@,
            seq!["-b"@, "-n"@, "-o"@, path],
        ),
    }
}

/// The command that has GNOME's Shell write a capture to a file, without cursor or flash.
pub open spec fn shell_command(path: Seq<char>) -> CommandLine {
    command_line(
        "gdbus"@,
        seq![
            "call"@,
            "--session"@,
            "--dest"@,
            "org.gnome.Shell.Screenshot"@,
            "--object-path"@,
            "/org/gnome/Shell/Screenshot"@,
            "--method"@,
            "org.gnome.Shell.Screenshot.Screenshot"@,
            "false"@,
            "false"@,
            path,
        ],
    )
}

/// Whether GNOME's Shell says that it has captured the screen: it answers `(true, '/path')` on
/// success; a refusal is a D-Bus error, and `(false, …)` means that it ran but captured nothing.
pub open spec fn shell_succeeded(output: OutputView) -> bool {
    output.success && "(true"@.is_prefix_of(trimmed(output.stdout))
}

/// What GNOME's Shell gives as the reason of a failure.
pub open spec fn shell_detail(output: OutputView) -> Seq<char> {
    if trimmed(output.stderr).len() == 0 {
        trimmed(output.stdout)
    } else {
        trimmed(output.stderr)
    }
}

/// What a program gives as the reason of a failure.
pub open spec fn tool_detail(output: OutputView) -> Seq<char> {
    if trimmed(output.stderr).len() == 0 {
        "exit "@ + decimal(output.exit_code as int)
    } else {
        trimmed(output.stderr)
    }
}

fn name_of_tool(tool: CaptureTool) -> (name: &'static str)
    ensures
        name@ == tool_name(tool),
{
    match tool {
        CaptureTool::Grim => "grim",
        CaptureTool::Spectacle => "spectacle",
    }
}

fn geometry_text(region: Region) -> (text: String)
    ensures
        text@ == geometry(region),
{
    let mut text = String::new();
    append_decimal(&mut text, region.x as i64);
    text.append(",");
    append_decimal(&mut text, region.y as i64);
    text.append(" ");
    append_decimal(&mut text, region.w as i64);
    text.append("x");
    append_decimal(&mut text, region.h as i64);
    assert(text@ =~= geometry(region));
    text
}

/// The command that writes a capture to a file.
pub fn tool_line(tool: CaptureTool, region: Option<Region>, path: &str) -> (command: Command)
    ensures
        command@ == tool_command(tool, region, path@),
{
    let command = match tool {
        CaptureTool::Grim => match region {
            Some(region) => {
                let area = geometry_text(region);
                Command::new("grim").arg("-g").arg(area.as_str()).arg(path)
            },
            None => Command::new("grim").arg(path),
        },
        CaptureTool::Spectacle => Command::new("spectacle").arg("-b").arg("-n").arg("-o").arg(path),
    };
    assert(command@.args =~= tool_command(tool, region, path@).args);
    command
}

/// The command that has GNOME's Shell write a capture to a file.
pub fn shell_line(path: &str) -> (command: Command)
    ensures
        command@ == shell_command(path@),
{
    let command = Command::new("gdbus").arg("call").arg("--session").arg("--dest").arg(
        "org.gnome.Shell.Screenshot",
    ).arg("--object-path").arg("/org/gnome/Shell/Screenshot").arg("--method").arg(
        "org.gnome.Shell.Screenshot.Screenshot",
    ).arg("false").arg("false").arg(path);
    assert(command@.args =~= shell_command(path@).args);
    command
}

fn shell_ok(output: &Output) -> (yes: bool)
    ensures
        yes == shell_succeeded(output@),
{
    output.ok() && starts_with(output.trimmed(), "(true")
}

fn shell_reason(output: &Output) -> (detail: &str)
    ensures
        detail@ == shell_detail(output@),
{
    let words = trim(output.stderr.as_str());
    if words.is_empty() {
        output.trimmed()
    } else {
        words
    }
}

fn tool_reason(output: &Output) -> (detail: String)
    ensures
        detail@ == tool_detail(output@),
{
    let words = trim(output.stderr.as_str());
    if words.is_empty() {
        let mut detail = "exit ".to_owned();
        append_decimal(&mut detail, output.exit_code as i64);
        detail
    } else {
        words.to_owned()
    }
}

/* ── The course of a capture ────────────────────────────────────── */

/// How far a capture has got, as a mathematical value.
pub enum StageView {
    /// The portal is asked.
    Portal,
    /// It is not known whether gdbus is installed.
    ProbingShell,
    /// The Shell needs a file to write to.
    NamingShell,
    /// The Shell is asked to write to a file.
    RunningShell(Seq<char>),
    /// The Shell has failed, and its file is removed.
    DiscardingShell(Seq<char>),
    /// The Shell's file is loaded.
    LoadingShell(Seq<char>),
    /// The Shell's file is removed; what it held is known.
    RemovingShell(Seq<char>, Option<Seq<u8>>),
    /// It is not known whether a program is installed.
    ProbingTool(CaptureTool),
    /// The program needs a file to write to.
    NamingTool(CaptureTool),
    /// The program is run and writes to a file.
    RunningTool(CaptureTool, Seq<char>),
    /// The program has ended; it is not known whether its file exists.
    CheckingTool(CaptureTool, Seq<char>, OutputView),
    /// The program's file is loaded.
    LoadingTool(CaptureTool, Seq<char>),
    /// The program's file is removed; what it held is known.
    RemovingTool(CaptureTool, Seq<char>, Option<Seq<u8>>),
    /// The image is known.
    Captured(FinishView),
    /// Every way has failed.
    Failed(Reason),
}

/// A capture as a mathematical value.
pub struct CaptureView {
    pub compositor: Compositor,
    pub region: Option<Region>,
    /// What was tried in vain.
    pub attempts: Seq<Seq<char>>,
    pub stage: StageView,
}

impl CaptureView {
    /// The same capture at another stage.
    pub open spec fn at(self, stage: StageView) -> CaptureView {
        CaptureView {
            compositor: self.compositor,
            region: self.region,
            attempts: self.attempts,
            stage,
        }
    }

    /// The same capture with one more attempt in vain.
    pub open spec fn noting(self, attempt: Seq<char>) -> CaptureView {
        CaptureView {
            compositor: self.compositor,
            region: self.region,
            attempts: self.attempts.push(attempt),
            stage: self.stage,
        }
    }

    /// The capture has failed in every way.
    pub open spec fn given_up(self) -> CaptureView {
        self.at(StageView::Failed(capture_failure(self.attempts)))
    }

    /// What comes after a program: the portal.
    pub open spec fn past_tool(self) -> CaptureView {
        self.at(StageView::Portal)
    }

    /// What comes after the portal: on GNOME the Shell, elsewhere nothing.
    pub open spec fn past_portal(self) -> CaptureView {
        if self.compositor is Gnome {
            self.at(StageView::ProbingShell)
        } else {
            self.given_up()
        }
    }

    /// The capture has an image.
    pub open spec fn captured(self, bytes: Seq<u8>, needs_crop: bool) -> CaptureView {
        self.at(StageView::Captured(finish_of(bytes, self.region, needs_crop)))
    }
}

/// How a capture starts.
pub open spec fn capture_start(compositor: Compositor, region: Option<Region>) -> CaptureView {
    CaptureView {
        compositor,
        region,
        attempts: Seq::empty(),
        stage: match compositor {
            Compositor::Gnome => StageView::Portal,
            Compositor::Kde => StageView::ProbingTool(CaptureTool::Spectacle),
            _ => StageView::ProbingTool(CaptureTool::Grim),
        },
    }
}

/// What has to be done next, as a mathematical value.
pub enum CaptureRequestView {
    AskPortal,
    Probe(Seq<char>),
    NameFile,
    Run(CommandLine),
    Check(Seq<char>),
    Load(Seq<char>),
    Remove(Seq<char>),
    Finished,
    Failed(Reason),
}

/// What has to be done next in a capture.
pub open spec fn capture_request(capture: CaptureView) -> CaptureRequestView {
    match capture.stage {
        StageView::Portal => CaptureRequestView::AskPortal,
        StageView::ProbingShell => CaptureRequestView::Probe("gdbus"@),
        StageView::NamingShell => CaptureRequestView::NameFile,
        StageView::RunningShell(path) => CaptureRequestView::Run(shell_command(path)),
        StageView::DiscardingShell(path) => CaptureRequestView::Remove(path),
        StageView::LoadingShell(path) => CaptureRequestView::Load(path),
        StageView::RemovingShell(path, _) => CaptureRequestView::Remove(path),
        StageView::ProbingTool(tool) => CaptureRequestView::Probe(tool_name(tool)),
        StageView::NamingTool(_) => CaptureRequestView::NameFile,
        StageView::RunningTool(tool, path) => CaptureRequestView::Run(
            tool_command(tool, capture.region, path),
        ),
        StageView::CheckingTool(_, path, _) => CaptureRequestView::Check(path),
        StageView::LoadingTool(_, path) => CaptureRequestView::Load(path),
        StageView::RemovingTool(_, path, _) => CaptureRequestView::Remove(path),
        StageView::Captured(_) => CaptureRequestView::Finished,
        StageView::Failed(reason) => CaptureRequestView::Failed(reason),
    }
}

/// How it went, as a mathematical value.
pub enum CaptureReplyView {
    Portal(Result<Seq<u8>, Seq<char>>),
    Installed(bool),
    Named(Seq<char>),
    Ran(Option<OutputView>),
    Exists(bool),
    Loaded(Option<Seq<u8>>),
    Removed,
}

/// How far a capture has got once a request has been answered. A program that cannot be run at all
/// leaves no note. A reply that answers no request changes nothing.
pub open spec fn capture_after(capture: CaptureView, reply: CaptureReplyView) -> CaptureView {
    match (capture.stage, reply) {
        (StageView::Portal, CaptureReplyView::Portal(Ok(bytes))) => capture.captured(bytes, true),
        (StageView::Portal, CaptureReplyView::Portal(Err(words))) => capture.noting(
            "xdg-desktop-portal: "@ + words,
        ).past_portal(),
        (StageView::ProbingShell, CaptureReplyView::Installed(yes)) => if yes {
            capture.at(StageView::NamingShell)
        } else {
            capture.noting("gdbus is not installed"@).given_up()
        },
        (StageView::NamingShell, CaptureReplyView::Named(path)) => capture.at(
            StageView::RunningShell(path),
        ),
        (StageView::RunningShell(_), CaptureReplyView::Ran(None)) => capture.given_up(),
        (StageView::RunningShell(path), CaptureReplyView::Ran(Some(output))) => {
            if shell_succeeded(output) {
                capture.at(StageView::LoadingShell(path))
            } else {
                capture.noting("org.gnome.Shell.Screenshot: "@ + shell_detail(output)).at(
                    StageView::DiscardingShell(path),
                )
            }
        },
        (StageView::DiscardingShell(_), CaptureReplyView::Removed) => capture.given_up(),
        (StageView::LoadingShell(path), CaptureReplyView::Loaded(bytes)) => capture.at(
            StageView::RemovingShell(path, bytes),
        ),
        (StageView::RemovingShell(_, Some(bytes)), CaptureReplyView::Removed) => capture.captured(
            bytes,
            true,
        ),
        (StageView::RemovingShell(_, None), CaptureReplyView::Removed) => capture.noting(
            "org.gnome.Shell.Screenshot wrote no file"@,
        ).given_up(),
        (StageView::ProbingTool(tool), CaptureReplyView::Installed(yes)) => if yes {
            capture.at(StageView::NamingTool(tool))
        } else {
            capture.noting(tool_name(tool) + " is not installed"@).past_tool()
        },
        (StageView::NamingTool(tool), CaptureReplyView::Named(path)) => capture.at(
            StageView::RunningTool(tool, path),
        ),
        (StageView::RunningTool(_, _), CaptureReplyView::Ran(None)) => capture.past_tool(),
        (StageView::RunningTool(tool, path), CaptureReplyView::Ran(Some(output))) => capture.at(
            StageView::CheckingTool(tool, path, output),
        ),
        (StageView::CheckingTool(tool, path, output), CaptureReplyView::Exists(yes)) => if yes {
            capture.at(StageView::LoadingTool(tool, path))
        } else {
            capture.noting(tool_name(tool) + ": "@ + tool_detail(output)).past_tool()
        },
        (StageView::LoadingTool(tool, path), CaptureReplyView::Loaded(bytes)) => capture.at(
            StageView::RemovingTool(tool, path, bytes),
        ),
        (
            StageView::RemovingTool(tool, _, Some(bytes)),
            CaptureReplyView::Removed,
        ) => capture.captured(bytes, tool is Spectacle),
        (StageView::RemovingTool(tool, _, None), CaptureReplyView::Removed) => capture.noting(
            tool_name(tool) + " wrote an unreadable file"@,
        ).past_tool(),
        _ => capture,
    }
}

/// What has to be done next in a capture.
#[derive(Debug, PartialEq, Eq)]
pub enum CaptureRequest {
    /// Capture the whole screen through the portal.
    AskPortal,
    /// Find out whether a program is installed.
    Probe(String),
    /// Choose a file for a capture.
    NameFile,
    /// Run a command and wait for its end.
    Run(Command),
    /// Find out whether a file exists.
    Check(String),
    /// Load a file.
    Load(String),
    /// Remove a file.
    Remove(String),
    /// Nothing: the image is known.
    Finished,
    /// Nothing: every way has failed.
    Failed(NovaError),
}

impl View for CaptureRequest {
    type V = CaptureRequestView;

    open spec fn view(&self) -> CaptureRequestView {
        match self {
            CaptureRequest::AskPortal => CaptureRequestView::AskPortal,
            CaptureRequest::Probe(tool) => CaptureRequestView::Probe(tool@),
            CaptureRequest::NameFile => CaptureRequestView::NameFile,
            CaptureRequest::Run(command) => CaptureRequestView::Run(command@),
            CaptureRequest::Check(path) => CaptureRequestView::Check(path@),
            CaptureRequest::Load(path) => CaptureRequestView::Load(path@),
            CaptureRequest::Remove(path) => CaptureRequestView::Remove(path@),
            CaptureRequest::Finished => CaptureRequestView::Finished,
            CaptureRequest::Failed(error) => CaptureRequestView::Failed(error@),
        }
    }
}

/// How it went.
#[derive(Debug, PartialEq, Eq)]
pub enum CaptureReply {
    /// The image, or in words why the portal gave none.
    Portal(Result<Vec<u8>, String>),
    /// Whether the program is installed.
    Installed(bool),
    /// The path of the file.
    Named(String),
    /// What the command left behind, if it could be run.
    Ran(Option<Output>),
    /// Whether the file exists.
    Exists(bool),
    /// What the file holds, if it could be read.
    Loaded(Option<Vec<u8>>),
    /// The file is gone, if it could be removed.
    Removed,
}

impl View for CaptureReply {
    type V = CaptureReplyView;

    open spec fn view(&self) -> CaptureReplyView {
        match self {
            CaptureReply::Portal(Ok(bytes)) => CaptureReplyView::Portal(Ok(bytes@)),
            CaptureReply::Portal(Err(words)) => CaptureReplyView::Portal(Err(words@)),
            CaptureReply::Installed(yes) => CaptureReplyView::Installed(*yes),
            CaptureReply::Named(path) => CaptureReplyView::Named(path@),
            CaptureReply::Ran(Some(output)) => CaptureReplyView::Ran(Some(output@)),
            CaptureReply::Ran(None) => CaptureReplyView::Ran(None),
            CaptureReply::Exists(yes) => CaptureReplyView::Exists(*yes),
            CaptureReply::Loaded(Some(bytes)) => CaptureReplyView::Loaded(Some(bytes@)),
            CaptureReply::Loaded(None) => CaptureReplyView::Loaded(None),
            CaptureReply::Removed => CaptureReplyView::Removed,
        }
    }
}

#[derive(Debug)]
enum Stage {
    Portal,
    ProbingShell,
    NamingShell,
    RunningShell(String),
    DiscardingShell(String),
    LoadingShell(String),
    RemovingShell(String, Option<Vec<u8>>),
    ProbingTool(CaptureTool),
    NamingTool(CaptureTool),
    RunningTool(CaptureTool, String),
    CheckingTool(CaptureTool, String, Output),
    LoadingTool(CaptureTool, String),
    RemovingTool(CaptureTool, String, Option<Vec<u8>>),
    Captured(Finish),
    Failed(NovaError),
}

impl Stage {
    spec fn view(self) -> StageView {
        match self {
            Stage::Portal => StageView::Portal,
            Stage::ProbingShell => StageView::ProbingShell,
            Stage::NamingShell => StageView::NamingShell,
            Stage::RunningShell(path) => StageView::RunningShell(path@),
            Stage::DiscardingShell(path) => StageView::DiscardingShell(path@),
            Stage::LoadingShell(path) => StageView::LoadingShell(path@),
            Stage::RemovingShell(path, Some(bytes)) => StageView::RemovingShell(
                path@,
                Some(bytes@),
            ),
            Stage::RemovingShell(path, None) => StageView::RemovingShell(path@, None),
            Stage::ProbingTool(tool) => StageView::ProbingTool(tool),
            Stage::NamingTool(tool) => StageView::NamingTool(tool),
            Stage::RunningTool(tool, path) => StageView::RunningTool(tool, path@),
            Stage::CheckingTool(tool, path, output) => StageView::CheckingTool(
                tool,
                path@,
                output@,
            ),
            Stage::LoadingTool(tool, path) => StageView::LoadingTool(tool, path@),
            Stage::RemovingTool(tool, path, Some(bytes)) => StageView::RemovingTool(
                tool,
                path@,
                Some(bytes@),
            ),
            Stage::RemovingTool(tool, path, None) => StageView::RemovingTool(tool, path@, None),
            Stage::Captured(finish) => StageView::Captured(finish@),
            Stage::Failed(error) => StageView::Failed(error@),
        }
    }
}

/// A screen capture.
#[derive(Debug)]
pub struct Capture {
    compositor: Compositor,
    region: Option<Region>,
    attempts: Vec<String>,
    stage: Stage,
}

impl View for Capture {
    type V = CaptureView;

    closed spec fn view(&self) -> CaptureView {
        CaptureView {
            compositor: self.compositor,
            region: self.region,
            attempts: texts(self.attempts@),
            stage: self.stage.view(),
        }
    }
}

/// Captures the screen, or a region of it.
pub fn screenshot(compositor: Compositor, region: Option<Region>) -> (capture: Capture)
    ensures
        capture@ == capture_start(compositor, region),
{
    let attempts: Vec<String> = Vec::new();
    assert(texts(attempts@) =~= Seq::<Seq<char>>::empty());
    let stage = match compositor {
        Compositor::Gnome => Stage::Portal,
        Compositor::Kde => Stage::ProbingTool(CaptureTool::Spectacle),
        _ => Stage::ProbingTool(CaptureTool::Grim),
    };
    Capture { compositor, region, attempts, stage }
}

fn joined(front: &str, back: &str) -> (text: String)
    ensures
        text@ == front@ + back@,
{
    let mut text = front.to_owned();
    text.append(back);
    text
}

impl Capture {
    fn at(self, stage: Stage) -> (capture: Capture)
        ensures
            capture@ == self@.at(stage.view()),
    {
        Capture {
            compositor: self.compositor,
            region: self.region,
            attempts: self.attempts,
            stage,
        }
    }

    fn noting(self, attempt: String) -> (capture: Capture)
        ensures
            capture@ == self@.noting(attempt@),
    {
        let Capture { compositor, region, attempts, stage } = self;
        let ghost before = attempts@;
        let mut attempts = attempts;
        attempts.push(attempt);
        assert(texts(attempts@) =~= texts(before).push(attempt@));
        Capture { compositor, region, attempts, stage }
    }

    fn given_up(self) -> (capture: Capture)
        ensures
            capture@ == self@.given_up(),
    {
        let error = capture_failed(&self.attempts);
        self.at(Stage::Failed(error))
    }

    fn past_tool(self) -> (capture: Capture)
        ensures
            capture@ == self@.past_tool(),
    {
        self.at(Stage::Portal)
    }

    fn past_portal(self) -> (capture: Capture)
        ensures
            capture@ == self@.past_portal(),
    {
        match self.compositor {
            Compositor::Gnome => self.at(Stage::ProbingShell),
            _ => self.given_up(),
        }
    }

    fn captured(self, bytes: Vec<u8>, needs_crop: bool) -> (capture: Capture)
        ensures
            capture@ == self@.captured(bytes@, needs_crop),
    {
        let finish = finish(bytes, self.region, needs_crop);
        self.at(Stage::Captured(finish))
    }

    /// What has to be done next.
    pub fn request(&self) -> (request: CaptureRequest)
        ensures
            request@ == capture_request(self@),
    {
        match &self.stage {
            Stage::Portal => CaptureRequest::AskPortal,
            Stage::ProbingShell => CaptureRequest::Probe("gdbus".to_owned()),
            Stage::NamingShell => CaptureRequest::NameFile,
            Stage::RunningShell(path) => CaptureRequest::Run(shell_line(path.as_str())),
            Stage::DiscardingShell(path) => CaptureRequest::Remove(path.clone()),
            Stage::LoadingShell(path) => CaptureRequest::Load(path.clone()),
            Stage::RemovingShell(path, _) => CaptureRequest::Remove(path.clone()),
            Stage::ProbingTool(tool) => CaptureRequest::Probe(name_of_tool(*tool).to_owned()),
            Stage::NamingTool(_) => CaptureRequest::NameFile,
            Stage::RunningTool(tool, path) => CaptureRequest::Run(
                tool_line(*tool, self.region, path.as_str()),
            ),
            Stage::CheckingTool(_, path, _) => CaptureRequest::Check(path.clone()),
            Stage::LoadingTool(_, path) => CaptureRequest::Load(path.clone()),
            Stage::RemovingTool(_, path, _) => CaptureRequest::Remove(path.clone()),
            Stage::Captured(_) => CaptureRequest::Finished,
            Stage::Failed(error) => CaptureRequest::Failed(error.clone()),
        }
    }

    fn try_portal(self, result: Result<Vec<u8>, String>) -> (capture: Capture)
        requires
            self@.stage is Portal,
        ensures
            capture@ == capture_after(self@, CaptureReply::Portal(result)@),
    {
        match result {
            Ok(bytes) => self.captured(bytes, true),
            Err(words) => self.noting(
                joined("xdg-desktop-portal: ", words.as_str()),
            ).past_portal(),
        }
    }

    /// Takes the answer to a request.
    pub fn reply(self, reply: CaptureReply) -> (capture: Capture)
        ensures
            capture@ == capture_after(self@, reply@),
    {
        let Capture { compositor, region, attempts, stage } = self;
        let rest = Capture { compositor, region, attempts, stage: Stage::Portal };
        match (stage, reply) {
            (Stage::Portal, CaptureReply::Portal(result)) => rest.try_portal(result),
            (Stage::ProbingShell, CaptureReply::Installed(yes)) => if yes {
                rest.at(Stage::NamingShell)
            } else {
                rest.noting("gdbus is not installed".to_owned()).given_up()
            },
            (Stage::NamingShell, CaptureReply::Named(path)) => rest.at(Stage::RunningShell(path)),
            (Stage::RunningShell(_), CaptureReply::Ran(None)) => rest.given_up(),
            (Stage::RunningShell(path), CaptureReply::Ran(Some(output))) => if shell_ok(&output) {
                rest.at(Stage::LoadingShell(path))
            } else {
                rest.noting(
                    joined("org.gnome.Shell.Screenshot: ", shell_reason(&output)),
                ).at(Stage::DiscardingShell(path))
            },
            (Stage::DiscardingShell(_), CaptureReply::Removed) => rest.given_up(),
            (Stage::LoadingShell(path), CaptureReply::Loaded(bytes)) => rest.at(
                Stage::RemovingShell(path, bytes),
            ),
            (Stage::RemovingShell(_, Some(bytes)), CaptureReply::Removed) => rest.captured(
                bytes,
                true,
            ),
            (Stage::RemovingShell(_, None), CaptureReply::Removed) => rest.noting(
                "org.gnome.Shell.Screenshot wrote no file".to_owned(),
            ).given_up(),
            (Stage::ProbingTool(tool), CaptureReply::Installed(yes)) => if yes {
                rest.at(Stage::NamingTool(tool))
            } else {
                rest.noting(joined(name_of_tool(tool), " is not installed")).past_tool()
            },
            (Stage::NamingTool(tool), CaptureReply::Named(path)) => rest.at(
                Stage::RunningTool(tool, path),
            ),
            (Stage::RunningTool(_, _), CaptureReply::Ran(None)) => rest.past_tool(),
            (Stage::RunningTool(tool, path), CaptureReply::Ran(Some(output))) => rest.at(
                Stage::CheckingTool(tool, path, output),
            ),
            (Stage::CheckingTool(tool, path, output), CaptureReply::Exists(yes)) => if yes {
                rest.at(Stage::LoadingTool(tool, path))
            } else {
                let named = joined(name_of_tool(tool), ": ");
                let detail = tool_reason(&output);
                rest.noting(joined(named.as_str(), detail.as_str())).past_tool()
            },
            (Stage::LoadingTool(tool, path), CaptureReply::Loaded(bytes)) => rest.at(
                Stage::RemovingTool(tool, path, bytes),
            ),
            // grim applies the region itself, so it needs no crop.
            (Stage::RemovingTool(tool, _, Some(bytes)), CaptureReply::Removed) => rest.captured(
                bytes,
                matches!(tool, CaptureTool::Spectacle),
            ),
            (Stage::RemovingTool(tool, _, None), CaptureReply::Removed) => rest.noting(
                joined(name_of_tool(tool), " wrote an unreadable file"),
            ).past_tool(),
            (stage, _) => rest.at(stage),
        }
    }

    /// The image, if it is known.
    pub fn image(self) -> (image: Option<Finish>)
        ensures
            match image {
                Some(finish) => self@.stage == StageView::Captured(finish@),
                None => !(self@.stage is Captured),
            },
    {
        match self.stage {
            Stage::Captured(finish) => Some(finish),
            _ => None,
        }
    }
}

/* ── What a capture comes to ────────────────────────────────────── */

/// How the world answers, whatever is asked.
pub struct World {
    /// What the portal gives.
    pub portal: Result<Seq<u8>, Seq<char>>,
    /// Whether gdbus is installed.
    pub gdbus: bool,
    /// The file that is chosen for the Shell.
    pub shell_path: Seq<char>,
    /// What gdbus leaves behind, if it can be run.
    pub shell_output: Option<OutputView>,
    /// What the Shell's file holds, if it can be read.
    pub shell_file: Option<Seq<u8>>,
    /// Whether the program is installed.
    pub tool: bool,
    /// The file that is chosen for the program.
    pub tool_path: Seq<char>,
    /// What the program leaves behind, if it can be run.
    pub tool_output: Option<OutputView>,
    /// Whether the program's file exists once the program has ended.
    pub tool_file_exists: bool,
    /// What the program's file holds, if it can be read.
    pub tool_file: Option<Seq<u8>>,
}

/// The world's answer to the request of a stage.
pub open spec fn answer(world: World, stage: StageView) -> CaptureReplyView {
    match stage {
        StageView::Portal => CaptureReplyView::Portal(world.portal),
        StageView::ProbingShell => CaptureReplyView::Installed(world.gdbus),
        StageView::NamingShell => CaptureReplyView::Named(world.shell_path),
        StageView::RunningShell(_) => CaptureReplyView::Ran(world.shell_output),
        StageView::LoadingShell(_) => CaptureReplyView::Loaded(world.shell_file),
        StageView::ProbingTool(_) => CaptureReplyView::Installed(world.tool),
        StageView::NamingTool(_) => CaptureReplyView::Named(world.tool_path),
        StageView::RunningTool(_, _) => CaptureReplyView::Ran(world.tool_output),
        StageView::CheckingTool(_, _, _) => CaptureReplyView::Exists(world.tool_file_exists),
        StageView::LoadingTool(_, _) => CaptureReplyView::Loaded(world.tool_file),
        _ => CaptureReplyView::Removed,
    }
}

/// A capture after some requests have been answered.
pub open spec fn capture_run(capture: CaptureView, world: World, n: nat) -> CaptureView
    decreases n,
{
    if n == 0 {
        capture
    } else {
        capture_run(
            capture_after(capture, answer(world, capture.stage)),
            world,
            (n - 1) as nat,
        )
    }
}

/// What the portal comes to: an image, or a note of the attempt.
pub open spec fn portal_try(world: World) -> Result<Seq<u8>, Seq<Seq<char>>> {
    match world.portal {
        Ok(bytes) => Ok(bytes),
        Err(words) => Err(seq!["xdg-desktop-portal: "@ + words]),
    }
}

/// What GNOME's Shell comes to: an image, or a note of the attempt, or neither.
pub open spec fn shell_try(world: World) -> Result<Seq<u8>, Seq<Seq<char>>> {
    if !world.gdbus {
        Err(seq!["gdbus is not installed"@])
    } else {
        match world.shell_output {
            None => Err(Seq::empty()),
            Some(output) => if !shell_succeeded(output) {
                Err(seq!["org.gnome.Shell.Screenshot: "@ + shell_detail(output)])
            } else {
                match world.shell_file {
                    Some(bytes) => Ok(bytes),
                    None => Err(seq!["org.gnome.Shell.Screenshot wrote no file"@]),
                }
            },
        }
    }
}

/// What a program comes to: an image, or a note of the attempt, or neither.
pub open spec fn tool_try(tool: CaptureTool, world: World) -> Result<Seq<u8>, Seq<Seq<char>>> {
    if !world.tool {
        Err(seq![tool_name(tool) + " is not installed"@])
    } else {
        match world.tool_output {
            None => Err(Seq::empty()),
            Some(output) => if !world.tool_file_exists {
                Err(seq![tool_name(tool) + ": "@ + tool_detail(output)])
            } else {
                match world.tool_file {
                    Some(bytes) => Ok(bytes),
                    None => Err(seq![tool_name(tool) + " wrote an unreadable file"@]),
                }
            },
        }
    }
}

/// What a capture comes to: the image of the first way that works, or a report of the attempts.
/// grim's image is restricted to the region already; any other has to be cropped.
pub open spec fn capture_outcome(
    compositor: Compositor,
    region: Option<Region>,
    world: World,
) -> StageView {
    let cropped = |bytes: Seq<u8>| StageView::Captured(finish_of(bytes, region, true));
    let report = |a: Seq<Seq<char>>, b: Seq<Seq<char>>| StageView::Failed(capture_failure(a + b));
    match compositor {
        Compositor::Gnome => match portal_try(world) {
            Ok(bytes) => cropped(bytes),
            Err(first) => match shell_try(world) {
                Ok(bytes) => cropped(bytes),
                Err(second) => report(first, second),
            },
        },
        Compositor::Kde => match tool_try(CaptureTool::Spectacle, world) {
            Ok(bytes) => cropped(bytes),
            Err(first) => match portal_try(world) {
                Ok(bytes) => cropped(bytes),
                Err(second) => report(first, second),
            },
        },
        _ => match tool_try(CaptureTool::Grim, world) {
            Ok(bytes) => StageView::Captured(FinishView::Whole(bytes)),
            Err(first) => match portal_try(world) {
                Ok(bytes) => cropped(bytes),
                Err(second) => report(first, second),
            },
        },
    }
}

/// A capture that is over stays as it is.
pub proof fn lemma_capture_stays(capture: CaptureView, world: World, n: nat)
    requires
        capture.stage is Captured || capture.stage is Failed,
    ensures
        capture_run(capture, world, n) == capture,
    decreases n,
{
    if n > 0 {
        lemma_capture_stays(capture, world, (n - 1) as nat);
    }
}

proof fn lemma_step(capture: CaptureView, world: World, n: nat)
    requires
        n > 0,
    ensures
        capture_run(capture, world, n) == capture_run(
            capture_after(capture, answer(world, capture.stage)),
            world,
            (n - 1) as nat,
        ),
{
}

proof fn lemma_portal_run(capture: CaptureView, world: World, n: nat)
    requires
        capture.stage is Portal,
        !(capture.compositor is Gnome),
        n > 0,
    ensures
        capture_run(capture, world, n).stage == match portal_try(world) {
            Ok(bytes) => StageView::Captured(finish_of(bytes, capture.region, true)),
            Err(notes) => StageView::Failed(capture_failure(capture.attempts + notes)),
        },
{
    let next = capture_after(capture, CaptureReplyView::Portal(world.portal));
    lemma_step(capture, world, n);
    lemma_capture_stays(next, world, (n - 1) as nat);
    if world.portal is Err {
        assert(capture.attempts + portal_try(world)->Err_0 =~= next.attempts);
    }
}

proof fn lemma_shell_run(capture: CaptureView, world: World, n: nat)
    requires
        capture.stage is ProbingShell,
        n >= 5,
    ensures
        capture_run(capture, world, n).stage == match shell_try(world) {
            Ok(bytes) => StageView::Captured(finish_of(bytes, capture.region, true)),
            Err(notes) => StageView::Failed(capture_failure(capture.attempts + notes)),
        },
{
    let c1 = capture_after(capture, answer(world, capture.stage));
    let c2 = capture_after(c1, answer(world, c1.stage));
    let c3 = capture_after(c2, answer(world, c2.stage));
    let c4 = capture_after(c3, answer(world, c3.stage));
    let c5 = capture_after(c4, answer(world, c4.stage));
    lemma_step(capture, world, n);
    lemma_step(c1, world, (n - 1) as nat);
    lemma_step(c2, world, (n - 2) as nat);
    lemma_step(c3, world, (n - 3) as nat);
    lemma_step(c4, world, (n - 4) as nat);
    assert(c5.stage is Captured || c5.stage is Failed);
    lemma_capture_stays(c5, world, (n - 5) as nat);
    if shell_try(world) is Err {
        assert(capture.attempts + shell_try(world)->Err_0 =~= c5.attempts);
    }
}

proof fn lemma_tool_run(capture: CaptureView, world: World, n: nat) -> (left: nat)
    requires
        capture.stage is ProbingTool,
        n >= 7,
    ensures
        match tool_try(capture.stage->ProbingTool_0, world) {
            Ok(bytes) => capture_run(capture, world, n).stage == StageView::Captured(
                finish_of(bytes, capture.region, capture.stage->ProbingTool_0 is Spectacle),
            ),
            Err(notes) => {
                &&& left > 0
                &&& capture_run(capture, world, n) == capture_run(
                    (CaptureView {
                        compositor: capture.compositor,
                        region: capture.region,
                        attempts: capture.attempts + notes,
                        stage: StageView::Portal,
                    }),
                    world,
                    left,
                )
            },
        },
{
    let tool = capture.stage->ProbingTool_0;
    let c1 = capture_after(capture, answer(world, capture.stage));
    let c2 = capture_after(c1, answer(world, c1.stage));
    let c3 = capture_after(c2, answer(world, c2.stage));
    let c4 = capture_after(c3, answer(world, c3.stage));
    let c5 = capture_after(c4, answer(world, c4.stage));
    let c6 = capture_after(c5, answer(world, c5.stage));
    lemma_step(capture, world, n);
    if !world.tool {
        assert(c1.attempts =~= capture.attempts + tool_try(tool, world)->Err_0);
        (n - 1) as nat
    } else {
        lemma_step(c1, world, (n - 1) as nat);
        lemma_step(c2, world, (n - 2) as nat);
        if world.tool_output is None {
            assert(c3.attempts =~= capture.attempts + tool_try(tool, world)->Err_0);
            (n - 3) as nat
        } else {
            lemma_step(c3, world, (n - 3) as nat);
            if !world.tool_file_exists {
                assert(c4.attempts =~= capture.attempts + tool_try(tool, world)->Err_0);
                (n - 4) as nat
            } else {
                lemma_step(c4, world, (n - 4) as nat);
                lemma_step(c5, world, (n - 5) as nat);
                if world.tool_file is None {
                    assert(c6.attempts =~= capture.attempts + tool_try(tool, world)->Err_0);
                    (n - 6) as nat
                } else {
                    lemma_capture_stays(c6, world, (n - 6) as nat);
                    0
                }
            }
        }
    }
}

/// Whatever the world answers, a capture is over after seven answers, and comes to what
/// [`capture_outcome`] says: the ways of the compositor are tried in order, the first image ends
/// it, and if none works the report lists every attempt in order.
pub proof fn lemma_capture_comes_to_outcome(
    compositor: Compositor,
    region: Option<Region>,
    world: World,
    n: nat,
)
    requires
        n >= 7,
    ensures
        capture_run(capture_start(compositor, region), world, n).stage == capture_outcome(
            compositor,
            region,
            world,
        ),
{
    let start = capture_start(compositor, region);
    match compositor {
        Compositor::Gnome => {
            let next = capture_after(start, CaptureReplyView::Portal(world.portal));
            lemma_step(start, world, n);
            if world.portal is Ok {
                lemma_capture_stays(next, world, (n - 1) as nat);
            } else {
                assert(next.attempts =~= portal_try(world)->Err_0);
                lemma_shell_run(next, world, (n - 1) as nat);
            }
        },
        _ => {
            let left = lemma_tool_run(start, world, n);
            let tool = start.stage->ProbingTool_0;
            if tool_try(tool, world) is Err {
                let notes = tool_try(tool, world)->Err_0;
                let next = CaptureView {
                    compositor,
                    region,
                    attempts: notes,
                    stage: StageView::Portal,
                };
                assert(start.attempts + notes =~= notes);
                lemma_portal_run(next, world, left);
            }
        },
    }
}

/// A file that was loaded is removed next, whether it could be read or not.
pub proof fn lemma_loaded_file_is_removed(capture: CaptureView, bytes: Option<Seq<u8>>)
    requires
        capture.stage is LoadingShell || capture.stage is LoadingTool,
    ensures
        capture_request(capture) is Load,
        capture_request(capture_after(capture, CaptureReplyView::Loaded(bytes)))
            == CaptureRequestView::Remove(capture_request(capture)->Load_0),
{
}

/// On GNOME no capture program is ever run, and elsewhere the Shell is never asked.
pub open spec fn fits_compositor(capture: CaptureView) -> bool {
    match capture.stage {
        StageView::ProbingShell => capture.compositor is Gnome,
        StageView::NamingShell => capture.compositor is Gnome,
        StageView::RunningShell(_) => capture.compositor is Gnome,
        StageView::DiscardingShell(_) => capture.compositor is Gnome,
        StageView::LoadingShell(_) => capture.compositor is Gnome,
        StageView::RemovingShell(_, _) => capture.compositor is Gnome,
        StageView::ProbingTool(tool) => tool_of(capture.compositor) == Some(tool),
        StageView::NamingTool(tool) => tool_of(capture.compositor) == Some(tool),
        StageView::RunningTool(tool, _) => tool_of(capture.compositor) == Some(tool),
        StageView::CheckingTool(tool, _, _) => tool_of(capture.compositor) == Some(tool),
        StageView::LoadingTool(tool, _) => tool_of(capture.compositor) == Some(tool),
        StageView::RemovingTool(tool, _, _) => tool_of(capture.compositor) == Some(tool),
        _ => true,
    }
}

/// The program that captures the screen of a compositor.
pub open spec fn tool_of(compositor: Compositor) -> Option<CaptureTool> {
    match compositor {
        Compositor::Gnome => None,
        Compositor::Kde => Some(CaptureTool::Spectacle),
        _ => Some(CaptureTool::Grim),
    }
}

/// A capture uses only what fits its compositor, whatever the replies.
pub proof fn lemma_capture_fits_compositor(
    compositor: Compositor,
    region: Option<Region>,
    capture: CaptureView,
    reply: CaptureReplyView,
)
    ensures
        fits_compositor(capture_start(compositor, region)),
        fits_compositor(capture) ==> fits_compositor(capture_after(capture, reply)),
        capture_after(capture, reply).compositor == capture.compositor,
        capture_after(capture, reply).region == capture.region,
{
}

/* ── What is handed out ─────────────────────────────────────────── */

/// What a capture program has written, if it is installed, can be run, and leaves a file that can be
/// read.
pub open spec fn tool_image(world: World) -> Option<Seq<u8>> {
    if world.tool && world.tool_output is Some && world.tool_file_exists {
        world.tool_file
    } else {
        None
    }
}

/// What GNOME's Shell has written, if gdbus is installed, can be run and reports success, the Shell
/// answers `(true`, and its file can be read.
pub open spec fn shell_image(world: World) -> Option<Seq<u8>> {
    if world.gdbus && world.shell_output is Some && world.shell_output->0.success
        && "(true"@.is_prefix_of(trimmed(world.shell_output->0.stdout)) {
        world.shell_file
    } else {
        None
    }
}

/// Whether a picture of the whole screen is handed out as it was asked for: cropped to exactly the
/// region, or whole where no region was asked for.
pub open spec fn handed_out(stage: StageView, screen: Seq<u8>, region: Option<Region>) -> bool {
    match region {
        Some(area) => stage == StageView::Captured(FinishView::Crop(screen, area)),
        None => stage == StageView::Captured(FinishView::Whole(screen)),
    }
}

/// What a capture hands out, for every region. The picture of the portal, of the Shell or of
/// spectacle shows the whole screen, so it goes out with a crop to exactly the region that was asked
/// for. That of grim shows the region already and goes out whole. Where there is no picture, the
/// capture fails.
pub proof fn lemma_region_is_handed_out(
    compositor: Compositor,
    region: Option<Region>,
    world: World,
    n: nat,
)
    requires
        n >= 7,
    ensures
        ({
            let end = capture_run(capture_start(compositor, region), world, n).stage;
            let (tool, shell) = (tool_image(world), shell_image(world));
            match compositor {
                Compositor::Gnome => if world.portal is Ok {
                    handed_out(end, world.portal->Ok_0, region)
                } else if shell is Some {
                    handed_out(end, shell->0, region)
                } else {
                    end is Failed
                },
                Compositor::Kde => if tool is Some {
                    handed_out(end, tool->0, region)
                } else if world.portal is Ok {
                    handed_out(end, world.portal->Ok_0, region)
                } else {
                    end is Failed
                },
                _ => if tool is Some {
                    end == StageView::Captured(FinishView::Whole(tool->0))
                } else if world.portal is Ok {
                    handed_out(end, world.portal->Ok_0, region)
                } else {
                    end is Failed
                },
            }
        }),
{
    lemma_capture_comes_to_outcome(compositor, region, world, n);
}

/// An image is cropped exactly if a region was asked for and the capture could not restrict itself
/// to it, and to exactly that region; the bytes are handed on as they are.
pub proof fn lemma_finish_crops_to_region(bytes: Seq<u8>, region: Region)
    ensures
        finish_of(bytes, Some(region), true) == FinishView::Crop(bytes, region),
        finish_of(bytes, Some(region), false) == FinishView::Whole(bytes),
        finish_of(bytes, None, true) == FinishView::Whole(bytes),
        finish_of(bytes, None, false) == FinishView::Whole(bytes),
{
}

/* ── What is reported ───────────────────────────────────────────── */

/// The notes that a capture program leaves when it gives no image: that it is not installed, what it
/// said when it wrote no file, or that its file cannot be read; none if it cannot be run at all.
pub open spec fn tool_notes(name: Seq<char>, world: World) -> Seq<Seq<char>> {
    if !world.tool {
        seq![name + " is not installed"@]
    } else if world.tool_output is None {
        Seq::empty()
    } else if !world.tool_file_exists {
        seq![name + ": "@ + tool_detail(world.tool_output->0)]
    } else {
        seq![name + " wrote an unreadable file"@]
    }
}

/// The notes that GNOME's Shell leaves when it gives no image.
pub open spec fn shell_notes(world: World) -> Seq<Seq<char>> {
    if !world.gdbus {
        seq!["gdbus is not installed"@]
    } else if world.shell_output is None {
        Seq::empty()
    } else if !(world.shell_output->0.success && "(true"@.is_prefix_of(
        trimmed(world.shell_output->0.stdout),
    )) {
        seq!["org.gnome.Shell.Screenshot: "@ + shell_detail(world.shell_output->0)]
    } else {
        seq!["org.gnome.Shell.Screenshot wrote no file"@]
    }
}

/// A capture that fails reports every attempt, in order, between fixed words.
pub proof fn lemma_attempts_are_reported(
    compositor: Compositor,
    region: Option<Region>,
    world: World,
    n: nat,
)
    requires
        n >= 7,
        world.portal is Err,
        compositor is Gnome ==> shell_image(world) is None,
        !(compositor is Gnome) ==> tool_image(world) is None,
    ensures
        ({
            let end = capture_run(capture_start(compositor, region), world, n).stage;
            let portal = seq!["xdg-desktop-portal: "@ + world.portal->Err_0];
            let notes = match compositor {
                Compositor::Gnome => portal + shell_notes(world),
                Compositor::Kde => tool_notes("spectacle"@, world) + portal,
                _ => tool_notes("grim"@, world) + portal,
            };
            &&& end is Failed
            &&& end->Failed_0 is Message
            &&& fails_with(
                end->Failed_0->Message_0,
                CAPTURE_FAILED@,
                bullets(notes),
                CAPTURE_ADVICE@,
            )
        }),
{
    lemma_capture_comes_to_outcome(compositor, region, world, n);
    let portal = seq!["xdg-desktop-portal: "@ + world.portal->Err_0];
    let notes = match compositor {
        Compositor::Gnome => portal + shell_notes(world),
        Compositor::Kde => tool_notes("spectacle"@, world) + portal,
        _ => tool_notes("grim"@, world) + portal,
    };
    lemma_fails_with(CAPTURE_FAILED@, bullets(notes), CAPTURE_ADVICE@);
}

/// Each attempt gets a line of its own with a bullet in front of it, in order.
pub proof fn lemma_bullets_go_in_order(first: Seq<Seq<char>>, second: Seq<Seq<char>>, note: Seq<char>)
    requires
        first.len() > 0,
        second.len() > 0,
    ensures
        bullets(first + second) == bullets(first) + seq!['\n'] + bullets(second),
        bullets(seq![note]) == seq![' ', ' ', '•', ' '] + note,
        bullets(Seq::empty()).len() == 0,
    decreases second.len(),
{
    reveal_strlit("\n");
    reveal_strlit("  • ");
    assert("\n"@ =~= seq!['\n']);
    assert("  • "@ =~= seq![' ', ' ', '•', ' ']);
    let all = first + second;
    assert(all.drop_last() =~= first + second.drop_last());
    assert(all.last() == second.last());
    if second.len() == 1 {
        assert(all.drop_last() =~= first);
        assert(bullets(all) =~= bullets(first) + seq!['\n'] + bullets(second));
    } else {
        lemma_bullets_go_in_order(first, second.drop_last(), note);
        assert(bullets(all) =~= bullets(first) + seq!['\n'] + bullets(second));
    }
}

/// The failure after some attempts lists them all between fixed words.
pub proof fn lemma_failure_lists_attempts(attempts: Seq<Seq<char>>)
    ensures
        capture_failure(attempts) matches Reason::Message(words) && fails_with(
            words,
            CAPTURE_FAILED@,
            bullets(attempts),
            CAPTURE_ADVICE@,
        ),
{
    lemma_fails_with(CAPTURE_FAILED@, bullets(attempts), CAPTURE_ADVICE@);
}

/// What is told of a failure is what the program wrote to its error output, without the whitespace
/// around it.
pub proof fn lemma_error_output_is_told(
    output: OutputView,
    front: Seq<char>,
    inner: Seq<char>,
    back: Seq<char>,
)
    requires
        blank(front),
        blank(back),
        inner.len() > 0,
        !is_space(inner[0]),
        !is_space(inner.last()),
        output.stderr == front + inner + back,
    ensures
        tool_detail(output) == inner,
        shell_detail(output) == inner,
{
    lemma_trimming(front, inner, back);
}

/// Where the error output is blank, a capture program's exit code is told, and of the Shell what it
/// printed, without the whitespace around it.
pub proof fn lemma_silent_failure_is_told(
    output: OutputView,
    front: Seq<char>,
    inner: Seq<char>,
    back: Seq<char>,
)
    requires
        blank(output.stderr),
        blank(front),
        blank(back),
        inner.len() > 0 ==> !is_space(inner[0]) && !is_space(inner.last()),
        output.stdout == front + inner + back,
    ensures
        fails_with(
            tool_detail(output),
            "exit "@,
            decimal(output.exit_code as int),
            Seq::empty(),
        ),
        i32_of(decimal(output.exit_code as int)) == Some(output.exit_code),
        shell_detail(output) == inner,
{
    let none = Seq::<char>::empty();
    lemma_trimming(output.stderr, none, none);
    assert(output.stderr + none + none =~= output.stderr);
    lemma_trimming(front, inner, back);
    lemma_fails_with("exit "@, decimal(output.exit_code as int), none);
    lemma_decimal_reads_back(output.exit_code);
}

/// GNOME's Shell has captured the screen exactly if gdbus reports success and the answer, without the
/// whitespace in front of it, starts with `(true`.
pub proof fn lemma_shell_success(output: OutputView, front: Seq<char>, answer: Seq<char>)
    requires
        blank(front),
        answer.len() > 0,
        !is_space(answer[0]),
        !is_space(answer.last()),
        output.stdout == front + answer,
    ensures
        shell_succeeded(output) <==> output.success && "(true"@.is_prefix_of(answer),
{
    let none = Seq::<char>::empty();
    lemma_trimming(front, answer, none);
    assert(front + answer + none =~= front + answer);
}

/* ── What the programs are told ─────────────────────────────────── */

/// grim writes to the file that was chosen, and where a region was asked for it gets that region:
/// position and size read back.
pub proof fn lemma_grim_gets_region(region: Region, path: Seq<char>)
    ensures
        ({
            let whole = tool_command(CaptureTool::Grim, None, path);
            let part = tool_command(CaptureTool::Grim, Some(region), path);
            let sides = fields(part.args[1], ' ');
            let (at, size) = (fields(sides[0], ','), fields(sides[1], 'x'));
            &&& whole.program == "grim"@
            &&& whole.args.len() == 1
            &&& whole.args[0] == path
            &&& part.program == "grim"@
            &&& part.args.len() == 3
            &&& part.args[0] == "-g"@
            &&& part.args[2] == path
            &&& sides.len() == 2
            &&& at.len() == 2
            &&& i32_of(at[0]) == Some(region.x)
            &&& i32_of(at[1]) == Some(region.y)
            &&& size.len() == 2
            &&& i32_of(size[0]) == Some(region.w)
            &&& i32_of(size[1]) == Some(region.h)
        }),
{
    let (x, y) = (decimal(region.x as int), decimal(region.y as int));
    let (w, h) = (decimal(region.w as int), decimal(region.h as int));
    lemma_plain_decimal(region.x);
    lemma_plain_decimal(region.y);
    lemma_plain_decimal(region.w);
    lemma_plain_decimal(region.h);
    reveal_strlit(",");
    reveal_strlit(" ");
    reveal_strlit("x");
    assert(","@ =~= seq![',']);
    assert(" "@ =~= seq![' ']);
    assert("x"@ =~= seq!['x']);
    let at = x.push(',') + y;
    let size = w.push('x') + h;
    assert(geometry(region) =~= at.push(' ') + size);
    assert forall|i: int| 0 <= i < at.len() implies #[trigger] at[i] != ' ' by {
        if i < x.len() {
            assert(at[i] == x[i]);
        } else if i > x.len() {
            assert(at[i] == y[i - x.len() - 1]);
        }
    }
    assert forall|i: int| 0 <= i < size.len() implies #[trigger] size[i] != ' ' by {
        if i < w.len() {
            assert(size[i] == w[i]);
        } else if i > w.len() {
            assert(size[i] == h[i - w.len() - 1]);
        }
    }
    lemma_fields_single(at, ' ');
    lemma_fields_next(at, size, ' ');
    lemma_fields_single(x, ',');
    lemma_fields_next(x, y, ',');
    lemma_fields_single(w, 'x');
    lemma_fields_next(w, h, 'x');
}

proof fn lemma_plain_decimal(n: i32)
    ensures
        i32_of(decimal(n as int)) == Some(n),
        forall|i: int|
            0 <= i < decimal(n as int).len() ==> {
                &&& #[trigger] decimal(n as int)[i] != ' '
                &&& decimal(n as int)[i] != ','
                &&& decimal(n as int)[i] != 'x'
            },
{
    let text = decimal(n as int);
    lemma_decimal_reads_back(n);
    lemma_decimal_chars(n as int);
    assert forall|i: int| 0 <= i < text.len() implies {
        &&& #[trigger] text[i] != ' '
        &&& text[i] != ','
        &&& text[i] != 'x'
    } by {
        assert(i > 0 ==> is_digit(text[i]));
    }
}

/// spectacle captures the whole screen, unattended, and writes to the file that was chosen, whatever
/// the region; so does GNOME's Shell, without the cursor and without a flash.
pub proof fn lemma_whole_screen_is_written(region: Option<Region>, path: Seq<char>)
    ensures
        ({
            let command = tool_command(CaptureTool::Spectacle, region, path);
            &&& command.program == "spectacle"@
            &&& command.args.len() == 4
            &&& command.args.contains("-b"@)
            &&& command.args.contains("-n"@)
            &&& command.args[2] == "-o"@
            &&& command.args[3] == path
        }),
        ({
            let args = shell_command(path).args;
            &&& shell_command(path).program == "gdbus"@
            &&& args.len() == 11
            &&& args[0] == "call"@
            &&& args[1] == "--session"@
            &&& args[2] == "--dest"@
            &&& args[3] == "org.gnome.Shell.Screenshot"@
            &&& args[4] == "--object-path"@
            &&& args[5] == "/org/gnome/Shell/Screenshot"@
            &&& args[6] == "--method"@
            &&& args[7] == "org.gnome.Shell.Screenshot.Screenshot"@
            &&& args[8] == "false"@
            &&& args[9] == "false"@
            &&& args[10] == path
        }),
{
    let command = tool_command(CaptureTool::Spectacle, region, path);
    assert(command.args[0] == "-b"@);
    assert(command.args[1] == "-n"@);
}

/// The program that is looked for is the one that is run, and the file that was chosen is the one
/// that is written, looked for, loaded and removed; its bytes are the image.
pub proof fn lemma_tool_uses_one_file(
    capture: CaptureView,
    tool: CaptureTool,
    path: Seq<char>,
    output: OutputView,
    bytes: Seq<u8>,
)
    requires
        capture.stage == StageView::ProbingTool(tool),
    ensures
        ({
            let c1 = capture_after(capture, CaptureReplyView::Installed(true));
            let c2 = capture_after(c1, CaptureReplyView::Named(path));
            let c3 = capture_after(c2, CaptureReplyView::Ran(Some(output)));
            let c4 = capture_after(c3, CaptureReplyView::Exists(true));
            let c5 = capture_after(c4, CaptureReplyView::Loaded(Some(bytes)));
            let c6 = capture_after(c5, CaptureReplyView::Removed);
            let run = tool_command(tool, capture.region, path);
            &&& capture_request(capture) == CaptureRequestView::Probe(run.program)
            &&& capture_request(c1) is NameFile
            &&& capture_request(c2) == CaptureRequestView::Run(run)
            &&& run.args.last() == path
            &&& capture_request(c3) == CaptureRequestView::Check(path)
            &&& capture_request(c4) == CaptureRequestView::Load(path)
            &&& capture_request(c5) == CaptureRequestView::Remove(path)
            &&& tool is Grim ==> c6.stage == StageView::Captured(FinishView::Whole(bytes))
            &&& tool is Spectacle ==> handed_out(c6.stage, bytes, capture.region)
            &&& capture_request(c6) is Finished
        }),
{
}

/// The same holds of GNOME's Shell, and a file that the Shell may have left behind when it refused is
/// removed too.
pub proof fn lemma_shell_uses_one_file(
    capture: CaptureView,
    path: Seq<char>,
    output: OutputView,
    bytes: Seq<u8>,
)
    requires
        capture.stage is ProbingShell,
    ensures
        ({
            let c1 = capture_after(capture, CaptureReplyView::Installed(true));
            let c2 = capture_after(c1, CaptureReplyView::Named(path));
            let c3 = capture_after(c2, CaptureReplyView::Ran(Some(output)));
            let c4 = capture_after(c3, CaptureReplyView::Loaded(Some(bytes)));
            let c5 = capture_after(c4, CaptureReplyView::Removed);
            &&& capture_request(capture) == CaptureRequestView::Probe("gdbus"@)
            &&& capture_request(c1) is NameFile
            &&& capture_request(c2) == CaptureRequestView::Run(shell_command(path))
            &&& if output.success && "(true"@.is_prefix_of(trimmed(output.stdout)) {
                &&& capture_request(c3) == CaptureRequestView::Load(path)
                &&& capture_request(c4) == CaptureRequestView::Remove(path)
                &&& handed_out(c5.stage, bytes, capture.region)
                &&& capture_request(c5) is Finished
            } else {
                &&& capture_request(c3) == CaptureRequestView::Remove(path)
                &&& capture_after(c3, CaptureReplyView::Removed).stage is Failed
            }
        }),
{
}

/// What a request, a reply and an image hold is what they are made of.
pub proof fn lemma_capture_views_are_faithful(
    request: CaptureRequest,
    reply: CaptureReply,
    image: Finish,
)
    ensures
        match request {
            CaptureRequest::AskPortal => request@ is AskPortal,
            CaptureRequest::Probe(tool) => request@ == CaptureRequestView::Probe(tool@),
            CaptureRequest::NameFile => request@ is NameFile,
            CaptureRequest::Run(command) => request@ == CaptureRequestView::Run(command@),
            CaptureRequest::Check(path) => request@ == CaptureRequestView::Check(path@),
            CaptureRequest::Load(path) => request@ == CaptureRequestView::Load(path@),
            CaptureRequest::Remove(path) => request@ == CaptureRequestView::Remove(path@),
            CaptureRequest::Finished => request@ is Finished,
            CaptureRequest::Failed(error) => request@ == CaptureRequestView::Failed(error@),
        },
        match reply {
            CaptureReply::Portal(Ok(bytes)) => reply@ == CaptureReplyView::Portal(Ok(bytes@)),
            CaptureReply::Portal(Err(words)) => reply@ == CaptureReplyView::Portal(Err(words@)),
            CaptureReply::Installed(yes) => reply@ == CaptureReplyView::Installed(yes),
            CaptureReply::Named(path) => reply@ == CaptureReplyView::Named(path@),
            CaptureReply::Ran(Some(output)) => reply@ == CaptureReplyView::Ran(Some(output@)),
            CaptureReply::Ran(None) => reply@ == CaptureReplyView::Ran(None),
            CaptureReply::Exists(yes) => reply@ == CaptureReplyView::Exists(yes),
            CaptureReply::Loaded(Some(bytes)) => reply@ == CaptureReplyView::Loaded(Some(bytes@)),
            CaptureReply::Loaded(None) => reply@ == CaptureReplyView::Loaded(None),
            CaptureReply::Removed => reply@ is Removed,
        },
        image matches Finish::Whole(bytes) ==> image@ == FinishView::Whole(bytes@),
        image matches Finish::Crop(bytes, region) ==> image@ == FinishView::Crop(bytes@, region),
{
}

/// Whether a reply answers a request.
pub open spec fn capture_answers(request: CaptureRequestView, reply: CaptureReplyView) -> bool {
    match request {
        CaptureRequestView::AskPortal => reply is Portal,
        CaptureRequestView::Probe(_) => reply is Installed,
        CaptureRequestView::NameFile => reply is Named,
        CaptureRequestView::Run(_) => reply is Ran,
        CaptureRequestView::Check(_) => reply is Exists,
        CaptureRequestView::Load(_) => reply is Loaded,
        CaptureRequestView::Remove(_) => reply is Removed,
        CaptureRequestView::Finished => false,
        CaptureRequestView::Failed(_) => false,
    }
}

/// Only the answer to the request that is open moves a capture, and every such answer does.
pub proof fn lemma_only_answers_move_a_capture(capture: CaptureView, reply: CaptureReplyView)
    ensures
        capture_answers(capture_request(capture), reply) <==> capture_after(capture, reply).stage
            != capture.stage,
        !capture_answers(capture_request(capture), reply) ==> capture_after(capture, reply)
            == capture,
{
}

} // verus!
