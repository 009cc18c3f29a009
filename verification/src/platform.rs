//! What the desktop is made of: the compositor, the pointer, the screen, its windows, and the
//! programs that act on them.
use crate::text::{texts, trim, trimmed};
use vstd::prelude::*;

verus! {

/// The compositor that runs the session.
#[derive(Clone, Copy, Debug, PartialEq, Eq, Structural)]
pub enum Compositor {
    Hyprland,
    Sway,
    Gnome,
    Kde,
    /// Any other compositor.
    Other,
}

/// What is known of the session.
#[derive(Clone, Copy, Debug, PartialEq, Eq, Structural)]
pub struct PlatformInfo {
    pub compositor: Compositor,
}

/// The compositor of the session.
pub fn compositor(info: &PlatformInfo) -> (compositor: Compositor)
    ensures
        compositor == info.compositor,
{
    info.compositor
}

/// A mouse button.
#[derive(Clone, Copy, Debug, PartialEq, Eq, Structural)]
pub enum MouseButton {
    Left,
    Right,
    Middle,
}

/// The direction in which the wheel turns.
#[derive(Clone, Copy, Debug, PartialEq, Eq, Structural)]
pub enum ScrollDirection {
    Up,
    Down,
    Left,
    Right,
}

/// A position on the screen.
#[derive(Clone, Copy, Debug, PartialEq, Eq, Structural)]
pub struct Point {
    pub x: i32,
    pub y: i32,
}

/// A rectangle of the screen.
#[derive(Clone, Copy, Debug, PartialEq, Eq, Structural)]
pub struct Region {
    pub x: i32,
    pub y: i32,
    pub w: i32,
    pub h: i32,
}

/// A window.
#[derive(Debug, PartialEq, Eq)]
pub struct WindowInfo {
    pub id: String,
    pub title: String,
    pub app: String,
    pub x: i32,
    pub y: i32,
    pub w: i32,
    pub h: i32,
    pub focused: bool,
}

/// A window as a mathematical value.
pub struct WindowView {
    pub id: Seq<char>,
    pub title: Seq<char>,
    pub app: Seq<char>,
    pub x: i32,
    pub y: i32,
    pub w: i32,
    pub h: i32,
    pub focused: bool,
}

impl View for WindowInfo {
    type V = WindowView;

    open spec fn view(&self) -> WindowView {
        WindowView {
            id: self.id@,
            title: self.title@,
            app: self.app@,
            x: self.x,
            y: self.y,
            w: self.w,
            h: self.h,
            focused: self.focused,
        }
    }
}

impl Clone for WindowInfo {
    fn clone(&self) -> (window: WindowInfo)
        ensures
            window@ == self@,
    {
        WindowInfo {
            id: self.id.clone(),
            title: self.title.clone(),
            app: self.app.clone(),
            x: self.x,
            y: self.y,
            w: self.w,
            h: self.h,
            focused: self.focused,
        }
    }
}

/// The windows of a list.
pub open spec fn window_views(list: Seq<WindowInfo>) -> Seq<WindowView> {
    list.map_values(|w: WindowInfo| w@)
}

/// Copies a list of windows.
pub(crate) fn copy_windows(list: &Vec<WindowInfo>) -> (copy: Vec<WindowInfo>)
    ensures
        window_views(copy@) == window_views(list@),
{
    let mut copy: Vec<WindowInfo> = Vec::new();
    let mut i: usize = 0;
    while i < list.len()
        invariant
            i <= list@.len(),
            copy@.len() == i,
            forall|k: int| 0 <= k < i ==> #[trigger] copy@[k]@ == list@[k]@,
        decreases list.len() - i,
    {
        copy.push(list[i].clone());
        i = i + 1;
    }
    assert(window_views(copy@) =~= window_views(list@));
    copy
}

/// Why an operation failed.
#[derive(Debug, PartialEq, Eq)]
pub enum NovaError {
    /// The reason, in words.
    Message(String),
    /// A program is not installed.
    Missing {
        tool: String,
        /// What to do about it.
        hint: String,
    },
}

/// The reason of a failure as a mathematical value.
pub enum Reason {
    Message(Seq<char>),
    Missing { tool: Seq<char>, hint: Seq<char> },
}

impl View for NovaError {
    type V = Reason;

    open spec fn view(&self) -> Reason {
        match self {
            NovaError::Message(words) => Reason::Message(words@),
            NovaError::Missing { tool, hint } => Reason::Missing { tool: tool@, hint: hint@ },
        }
    }
}

/// Whether the words of a failure are some detail between fixed words.
pub open spec fn fails_with(
    words: Seq<char>,
    front: Seq<char>,
    detail: Seq<char>,
    back: Seq<char>,
) -> bool {
    &&& words.len() == front.len() + detail.len() + back.len()
    &&& front.is_prefix_of(words)
    &&& back.is_suffix_of(words)
    &&& words.subrange(front.len() as int, (front.len() + detail.len()) as int) == detail
}

pub(crate) proof fn lemma_fails_with(front: Seq<char>, detail: Seq<char>, back: Seq<char>)
    ensures
        fails_with(front + detail + back, front, detail, back),
        back.len() == 0 ==> fails_with(front + detail, front, detail, back),
{
    let words = front + detail + back;
    assert(words.subrange(front.len() as int, (front.len() + detail.len()) as int) =~= detail);
    assert(words.subrange(0, front.len() as int) =~= front);
    assert(words.subrange(words.len() - back.len(), words.len() as int) =~= back);
    if back.len() == 0 {
        assert(words =~= front + detail);
    }
}

impl NovaError {
    /// A failure for a reason in words.
    pub fn msg(words: &str) -> (error: NovaError)
        ensures
            error@ == Reason::Message(words@),
    {
        NovaError::Message(words.to_owned())
    }

    /// A failure for want of a program.
    pub fn missing(tool: &str, hint: &str) -> (error: NovaError)
        ensures
            error@ == (Reason::Missing { tool: tool@, hint: hint@ }),
    {
        NovaError::Missing { tool: tool.to_owned(), hint: hint.to_owned() }
    }
}

impl Clone for NovaError {
    fn clone(&self) -> (error: NovaError)
        ensures
            error@ == self@,
    {
        match self {
            NovaError::Message(words) => NovaError::Message(words.clone()),
            NovaError::Missing { tool, hint } => NovaError::Missing {
                tool: tool.clone(),
                hint: hint.clone(),
            },
        }
    }
}

/// A program and the arguments to run it with.
#[derive(Debug, PartialEq, Eq)]
pub struct Command {
    pub program: String,
    pub args: Vec<String>,
}

/// A program and its arguments as a mathematical value.
pub struct CommandLine {
    pub program: Seq<char>,
    pub args: Seq<Seq<char>>,
}

impl View for Command {
    type V = CommandLine;

    open spec fn view(&self) -> CommandLine {
        CommandLine { program: self.program@, args: texts(self.args@) }
    }
}

/// A program that is run with the given arguments.
pub open spec fn command_line(program: Seq<char>, args: Seq<Seq<char>>) -> CommandLine {
    CommandLine { program, args }
}

impl Command {
    /// A program without arguments.
    pub fn new(program: &str) -> (command: Command)
        ensures
            command@ == command_line(program@, Seq::empty()),
    {
        let args: Vec<String> = Vec::new();
        assert(texts(args@) =~= Seq::<Seq<char>>::empty());
        Command { program: program.to_owned(), args }
    }

    /// Puts one more argument behind the others.
    pub fn push(&mut self, arg: String)
        ensures
            final(self)@ == command_line(old(self)@.program, old(self)@.args.push(arg@)),
    {
        self.args.push(arg);
        assert(texts(self.args@) =~= texts(old(self).args@).push(arg@));
    }

    /// The same command with one more argument behind the others.
    pub fn arg(self, arg: &str) -> (command: Command)
        ensures
            command@ == command_line(self@.program, self@.args.push(arg@)),
    {
        let mut command = self;
        command.push(arg.to_owned());
        command
    }
}

impl Clone for Command {
    fn clone(&self) -> (command: Command)
        ensures
            command@ == self@,
    {
        let mut command = Command::new(self.program.as_str());
        let mut i: usize = 0;
        assert(self@.args.take(0) =~= Seq::<Seq<char>>::empty());
        while i < self.args.len()
            invariant
                i <= self.args@.len(),
                command@ == command_line(self@.program, self@.args.take(i as int)),
            decreases self.args.len() - i,
        {
            command.push(self.args[i].clone());
            i = i + 1;
            assert(self@.args.take(i as int) =~= self@.args.take(i - 1).push(self@.args[i - 1]));
        }
        assert(self@.args.take(i as int) =~= self@.args);
        command
    }
}

/// What a program left behind when it ended.
#[derive(Debug, PartialEq, Eq)]
pub struct Output {
    pub stdout: String,
    pub stderr: String,
    pub exit_code: i32,
    /// Whether the program reported success.
    pub success: bool,
}

/// What a program left behind, as a mathematical value.
pub struct OutputView {
    pub stdout: Seq<char>,
    pub stderr: Seq<char>,
    pub exit_code: i32,
    pub success: bool,
}

impl View for Output {
    type V = OutputView;

    open spec fn view(&self) -> OutputView {
        OutputView {
            stdout: self.stdout@,
            stderr: self.stderr@,
            exit_code: self.exit_code,
            success: self.success,
        }
    }
}

impl Output {
    /// Whether the program reported success.
    pub fn ok(&self) -> (yes: bool)
        ensures
            yes == self.success,
    {
        self.success
    }

    /// What the program printed, without the whitespace around it.
    pub fn trimmed(&self) -> (printed: &str)
        ensures
            printed@ == trimmed(self.stdout@),
    {
        trim(self.stdout.as_str())
    }
}

/// What a command holds is its program and its arguments, one by one and in order.
pub proof fn lemma_command_is_its_parts(command: Command, i: int)
    requires
        0 <= i < command.args@.len(),
    ensures
        command@.program == command.program@,
        command@.args.len() == command.args@.len(),
        command@.args[i] == command.args@[i]@,
{
}

/// What a window, an output and a failure hold is each of their fields.
pub proof fn lemma_views_are_faithful(window: WindowInfo, output: Output, error: NovaError)
    ensures
        window@.id == window.id@,
        window@.title == window.title@,
        window@.app == window.app@,
        window@.x == window.x,
        window@.y == window.y,
        window@.w == window.w,
        window@.h == window.h,
        window@.focused == window.focused,
        output@.stdout == output.stdout@,
        output@.stderr == output.stderr@,
        output@.exit_code == output.exit_code,
        output@.success == output.success,
        error matches NovaError::Message(words) ==> error@ == Reason::Message(words@),
        error matches NovaError::Missing { tool, hint } ==> error@ is Missing && error@->tool
            == tool@ && error@->hint == hint@,
{
}

/// A list of windows is looked at window by window, in order.
pub proof fn lemma_window_views_are_the_windows(list: Seq<WindowInfo>, i: int)
    requires
        0 <= i < list.len(),
    ensures
        window_views(list).len() == list.len(),
        window_views(list)[i] == list[i]@,
{
}

} // verus!
