//! Window management through the compositor's own IPC. Hyprland and Sway are fully supported;
//! GNOME and KDE gate the equivalent behind their shells, so there an actionable error comes
//! back rather than silence.
use crate::platform::{
    command_line, copy_windows, fails_with, lemma_fails_with, window_views, Command, Compositor,
    NovaError, OutputView, Reason, WindowInfo, WindowView,
};
use crate::script::{
    after_reply, answers, behind, lemma_answers_advance, next_request, no_steps, push_step,
    step_views, Player, Progress, Reply, ReplyView, Request, RequestView, Step, StepView,
};
use crate::text::{
    append_decimal, decimal, fields, i32_of, is_digit, lemma_decimal_chars,
    lemma_decimal_reads_back, lemma_fields_next, lemma_fields_single,
};
use crate::windows::{hyprland_outcome, hyprland_windows, sway_outcome, sway_windows};
use vstd::prelude::*;
use vstd::string::*;

verus! {

/// Why GNOME's windows cannot be managed.
pub const NO_GNOME: &'static str =
    "GNOME on Wayland does not expose window management to applications. \
     Install the 'Window Calls' GNOME extension, or use an X11 session, \
     to let NOVA manage windows.";

/// Why KDE's windows cannot be managed.
pub const NO_KDE: &'static str =
    "KDE on Wayland restricts window management to KWin scripts. \
     Use an X11 session for full window control.";

/// Why another compositor's windows cannot be managed.
pub const NO_OTHER: &'static str =
    "Window management on this Wayland compositor is not supported. \
     Hyprland and Sway are fully supported; other compositors work on X11.";

/// Why a compositor's windows cannot be managed.
pub open spec fn unsupported_by(compositor: Compositor) -> Reason {
    match compositor {
        Compositor::Gnome => Reason::Message(NO_GNOME@),
        Compositor::Kde => Reason::Message(NO_KDE@),
        _ => Reason::Message(NO_OTHER@),
    }
}

/// The failure on a compositor whose windows cannot be managed.
pub fn unsupported(compositor: Compositor) -> (error: NovaError)
    ensures
        error@ == unsupported_by(compositor),
{
    match compositor {
        Compositor::Gnome => NovaError::msg(NO_GNOME),
        Compositor::Kde => NovaError::msg(NO_KDE),
        _ => NovaError::msg(NO_OTHER),
    }
}

/* ── Listing ────────────────────────────────────────────────────── */

/// How far a listing has got, as a mathematical value.
pub enum ListingView {
    /// It is not known whether hyprctl is installed.
    ProbingHyprctl,
    /// Hyprland is asked for its clients.
    Clients,
    /// Hyprland has told its clients, and is asked for the active one.
    Active(Seq<char>),
    /// It is not known whether swaymsg is installed.
    ProbingSwaymsg,
    /// Sway is asked for its tree.
    Tree,
    /// The windows are known.
    Listed(Seq<WindowView>),
    /// The windows cannot be listed.
    Failed(Reason),
}

/// How a listing starts.
pub open spec fn listing_start(compositor: Compositor) -> ListingView {
    match compositor {
        Compositor::Hyprland => ListingView::ProbingHyprctl,
        Compositor::Sway => ListingView::ProbingSwaymsg,
        _ => ListingView::Failed(unsupported_by(compositor)),
    }
}

/// What has to be done next in a listing.
pub open spec fn listing_request(state: ListingView) -> RequestView {
    match state {
        ListingView::ProbingHyprctl => RequestView::Probe("hyprctl"@),
        ListingView::Clients => RequestView::Run(
            command_line("hyprctl"@, seq!["-j"@, "clients"@]),
        ),
        ListingView::Active(_) => RequestView::Run(
            command_line("hyprctl"@, seq!["-j"@, "activewindow"@]),
        ),
        ListingView::ProbingSwaymsg => RequestView::Probe("swaymsg"@),
        ListingView::Tree => RequestView::Run(
            command_line("swaymsg"@, seq!["-t"@, "get_tree"@, "-r"@]),
        ),
        ListingView::Listed(_) => RequestView::Finished,
        ListingView::Failed(reason) => RequestView::Failed(reason),
    }
}

/// The end of a listing.
pub open spec fn listing_end(outcome: Result<Seq<WindowView>, Reason>) -> ListingView {
    match outcome {
        Ok(windows) => ListingView::Listed(windows),
        Err(reason) => ListingView::Failed(reason),
    }
}

/// How far a listing has got once a request has been answered. That Hyprland does not tell the
/// active window is no failure. A reply that answers no request changes nothing.
pub open spec fn listing_after(state: ListingView, reply: ReplyView) -> ListingView {
    match (state, reply) {
        (ListingView::ProbingHyprctl, ReplyView::Installed(yes)) => if yes {
            ListingView::Clients
        } else {
            ListingView::Failed(
                Reason::Missing { tool: "hyprctl"@, hint: "It ships with Hyprland."@ },
            )
        },
        (ListingView::Clients, ReplyView::Ran(Ok(output))) => ListingView::Active(output.stdout),
        (ListingView::Clients, ReplyView::Ran(Err(reason))) => ListingView::Failed(reason),
        (ListingView::Active(clients), ReplyView::Ran(Ok(output))) => listing_end(
            hyprland_outcome(clients, Some(output.stdout)),
        ),
        (ListingView::Active(clients), ReplyView::Ran(Err(_))) => listing_end(
            hyprland_outcome(clients, None),
        ),
        (ListingView::ProbingSwaymsg, ReplyView::Installed(yes)) => if yes {
            ListingView::Tree
        } else {
            ListingView::Failed(
                Reason::Missing { tool: "swaymsg"@, hint: "It ships with Sway."@ },
            )
        },
        (ListingView::Tree, ReplyView::Ran(Ok(output))) => listing_end(
            sway_outcome(output.stdout),
        ),
        (ListingView::Tree, ReplyView::Ran(Err(reason))) => ListingView::Failed(reason),
        _ => state,
    }
}

/// The listing of the windows.
#[derive(Debug, PartialEq, Eq)]
pub enum Listing {
    /// It is not known whether hyprctl is installed.
    ProbingHyprctl,
    /// Hyprland is asked for its clients.
    Clients,
    /// Hyprland has told its clients, and is asked for the active one.
    Active(String),
    /// It is not known whether swaymsg is installed.
    ProbingSwaymsg,
    /// Sway is asked for its tree.
    Tree,
    /// The windows are known.
    Listed(Vec<WindowInfo>),
    /// The windows cannot be listed.
    Failed(NovaError),
}

impl View for Listing {
    type V = ListingView;

    open spec fn view(&self) -> ListingView {
        match self {
            Listing::ProbingHyprctl => ListingView::ProbingHyprctl,
            Listing::Clients => ListingView::Clients,
            Listing::Active(clients) => ListingView::Active(clients@),
            Listing::ProbingSwaymsg => ListingView::ProbingSwaymsg,
            Listing::Tree => ListingView::Tree,
            Listing::Listed(windows) => ListingView::Listed(window_views(windows@)),
            Listing::Failed(error) => ListingView::Failed(error@),
        }
    }
}

/// Lists the windows.
pub fn list_windows(compositor: Compositor) -> (listing: Listing)
    ensures
        listing@ == listing_start(compositor),
{
    match compositor {
        Compositor::Hyprland => Listing::ProbingHyprctl,
        Compositor::Sway => Listing::ProbingSwaymsg,
        _ => Listing::Failed(unsupported(compositor)),
    }
}

fn listing_of(outcome: Result<Vec<WindowInfo>, NovaError>) -> (listing: Listing)
    ensures
        listing@ == match outcome {
            Ok(windows) => ListingView::Listed(window_views(windows@)),
            Err(error) => ListingView::Failed(error@),
        },
{
    match outcome {
        Ok(windows) => Listing::Listed(windows),
        Err(error) => Listing::Failed(error),
    }
}

impl Listing {
    /// What has to be done next.
    pub fn request(&self) -> (request: Request)
        ensures
            request@ == listing_request(self@),
    {
        match self {
            Listing::ProbingHyprctl => Request::Probe("hyprctl".to_owned()),
            Listing::Clients => {
                let command = Command::new("hyprctl").arg("-j").arg("clients");
                assert(command@.args =~= seq!["-j"@, "clients"@]);
                Request::Run(command)
            },
            Listing::Active(_) => {
                let command = Command::new("hyprctl").arg("-j").arg("activewindow");
                assert(command@.args =~= seq!["-j"@, "activewindow"@]);
                Request::Run(command)
            },
            Listing::ProbingSwaymsg => Request::Probe("swaymsg".to_owned()),
            Listing::Tree => {
                let command = Command::new("swaymsg").arg("-t").arg("get_tree").arg("-r");
                assert(command@.args =~= seq!["-t"@, "get_tree"@, "-r"@]);
                Request::Run(command)
            },
            Listing::Listed(_) => Request::Finished,
            Listing::Failed(error) => Request::Failed(error.clone()),
        }
    }

    /// Takes the answer to a request.
    pub fn reply(self, reply: Reply) -> (listing: Listing)
        ensures
            listing@ == listing_after(self@, reply@),
    {
        match (self, reply) {
            (Listing::ProbingHyprctl, Reply::Installed(yes)) => if yes {
                Listing::Clients
            } else {
                Listing::Failed(NovaError::missing("hyprctl", "It ships with Hyprland."))
            },
            (Listing::Clients, Reply::Ran(Ok(output))) => Listing::Active(output.stdout),
            (Listing::Clients, Reply::Ran(Err(error))) => Listing::Failed(error),
            (Listing::Active(clients), Reply::Ran(Ok(output))) => listing_of(
                hyprland_windows(clients.as_str(), Some(output.stdout.as_str())),
            ),
            (Listing::Active(clients), Reply::Ran(Err(_))) => listing_of(
                hyprland_windows(clients.as_str(), None),
            ),
            (Listing::ProbingSwaymsg, Reply::Installed(yes)) => if yes {
                Listing::Tree
            } else {
                Listing::Failed(NovaError::missing("swaymsg", "It ships with Sway."))
            },
            (Listing::Tree, Reply::Ran(Ok(output))) => listing_of(
                sway_windows(output.stdout.as_str()),
            ),
            (Listing::Tree, Reply::Ran(Err(error))) => Listing::Failed(error),
            (listing, _) => listing,
        }
    }

    /// The windows, if they are known.
    pub fn windows(self) -> (windows: Option<Vec<WindowInfo>>)
        ensures
            match windows {
                Some(windows) => self@ == ListingView::Listed(window_views(windows@)),
                None => !(self@ is Listed),
            },
    {
        match self {
            Listing::Listed(windows) => Some(windows),
            _ => None,
        }
    }
}

/// How far a listing has got, as a number.
pub open spec fn listing_rank(state: ListingView) -> nat {
    match state {
        ListingView::ProbingHyprctl => 0,
        ListingView::ProbingSwaymsg => 0,
        ListingView::Clients => 1,
        ListingView::Tree => 1,
        ListingView::Active(_) => 2,
        _ => 3,
    }
}

/// A listing never gets stuck: every answer to its request takes it on, and it is over after
/// three.
pub proof fn lemma_listing_answers_advance(state: ListingView, reply: ReplyView)
    requires
        answers(listing_request(state), reply),
    ensures
        listing_rank(state) < listing_rank(listing_after(state, reply)) <= 3,
{
}

/// Only Hyprland and Sway are ever asked for their windows: any other compositor is refused at
/// once with the reason that fits it, and no reply changes that.
pub proof fn lemma_other_compositors_refused(compositor: Compositor, reply: ReplyView)
    requires
        !(compositor is Hyprland) && !(compositor is Sway),
    ensures
        listing_start(compositor) == ListingView::Failed(unsupported_by(compositor)),
        listing_after(listing_start(compositor), reply) == listing_start(compositor),
{
}

/* ── Acting on a window ─────────────────────────────────────────── */

/// The failure where no window matches a target.
pub open spec fn no_window(target: Seq<char>) -> Reason {
    Reason::Message("no window matching `"@ + target + "`"@)
}

/// The identifier of the window that was found for a target.
pub fn target_id(target: &str, found: Option<&WindowInfo>) -> (id: Result<String, NovaError>)
    ensures
        match (found, id) {
            (Some(window), Ok(id)) => id@ == window.id@,
            (None, Err(error)) => error@ == no_window(target@),
            _ => false,
        },
{
    match found {
        Some(window) => Ok(window.id.clone()),
        None => {
            let mut words = "no window matching `".to_owned();
            words.append(target);
            words.append("`");
            Err(NovaError::Message(words))
        },
    }
}

/// What is done to a window.
#[derive(Clone, Copy, Debug, PartialEq, Eq, Structural)]
pub enum Deed {
    Focus,
    Move { x: i32, y: i32 },
    Resize { w: i32, h: i32 },
    Close,
    Minimize,
    Maximize,
}

/// The command that has Hyprland's dispatcher do something.
pub open spec fn dispatch(what: Seq<char>, arg: Seq<char>) -> StepView {
    StepView::Run(command_line("hyprctl"@, seq!["dispatch"@, what, arg]))
}

/// The command that has Sway do something to the window with an identifier.
pub open spec fn sway_do(id: Seq<char>, what: Seq<char>) -> StepView {
    StepView::Run(command_line("swaymsg"@, seq!["[con_id="@ + id + "] "@ + what]))
}

/// The script that does something to the window with an identifier.
pub open spec fn deed_script(compositor: Compositor, deed: Deed, id: Seq<char>) -> Seq<StepView> {
    match compositor {
        Compositor::Hyprland => match deed {
            Deed::Focus => seq![dispatch("focuswindow"@, "address:"@ + id)],
            Deed::Move { x, y } => seq![
                dispatch(
                    "movewindowpixel"@,
                    "exact "@ + decimal(x as int) + " "@ + decimal(y as int) + ",address:"@ + id,
                ),
            ],
            Deed::Resize { w, h } => seq![
                dispatch(
                    "resizewindowpixel"@,
                    "exact "@ + decimal(w as int) + " "@ + decimal(h as int) + ",address:"@ + id,
                ),
            ],
            Deed::Close => seq![dispatch("closewindow"@, "address:"@ + id)],
            Deed::Minimize => seq![dispatch("movetoworkspacesilent"@, "special,address:"@ + id)],
            Deed::Maximize => seq![
                dispatch("focuswindow"@, "address:"@ + id),
                dispatch("fullscreen"@, "1"@),
            ],
        },
        Compositor::Sway => match deed {
            Deed::Focus => seq![sway_do(id, "focus"@)],
            Deed::Move { x, y } => seq![
                sway_do(
                    id,
                    "move absolute position "@ + decimal(x as int) + " "@ + decimal(y as int),
                ),
            ],
            Deed::Resize { w, h } => seq![
                sway_do(id, "resize set "@ + decimal(w as int) + " "@ + decimal(h as int)),
            ],
            Deed::Close => seq![sway_do(id, "kill"@)],
            Deed::Minimize => seq![sway_do(id, "move scratchpad"@)],
            Deed::Maximize => seq![sway_do(id, "fullscreen enable"@)],
        },
        _ => seq![StepView::Fail(unsupported_by(compositor))],
    }
}

fn dispatch_step(what: &str, arg: &str) -> (step: Step)
    ensures
        step@ == dispatch(what@, arg@),
{
    let command = Command::new("hyprctl").arg("dispatch").arg(what).arg(arg);
    assert(command@.args =~= seq!["dispatch"@, what@, arg@]);
    Step::Run(command)
}

fn sway_step(id: &str, what: &str) -> (step: Step)
    ensures
        step@ == sway_do(id@, what@),
{
    let mut words = "[con_id=".to_owned();
    words.append(id);
    words.append("] ");
    words.append(what);
    let command = Command::new("swaymsg").arg(words.as_str());
    assert(command@.args =~= seq!["[con_id="@ + id@ + "] "@ + what@]);
    Step::Run(command)
}

fn with_id(front: &str, id: &str) -> (text: String)
    ensures
        text@ == front@ + id@,
{
    let mut text = front.to_owned();
    text.append(id);
    text
}

fn with_numbers(front: &str, a: i32, b: i32) -> (text: String)
    ensures
        text@ == front@ + decimal(a as int) + " "@ + decimal(b as int),
{
    let mut text = front.to_owned();
    append_decimal(&mut text, a as i64);
    text.append(" ");
    append_decimal(&mut text, b as i64);
    text
}

fn exact(a: i32, b: i32, id: &str) -> (text: String)
    ensures
        text@ == "exact "@ + decimal(a as int) + " "@ + decimal(b as int) + ",address:"@ + id@,
{
    let mut text = with_numbers("exact ", a, b);
    text.append(",address:");
    text.append(id);
    text
}

/// What to do to the window with an identifier.
pub fn deed_steps(compositor: Compositor, deed: Deed, id: &str) -> (steps: Vec<Step>)
    ensures
        step_views(steps@) == deed_script(compositor, deed, id@),
{
    let mut steps = no_steps();
    match compositor {
        Compositor::Hyprland => match deed {
            Deed::Focus => {
                let arg = with_id("address:", id);
                push_step(&mut steps, dispatch_step("focuswindow", arg.as_str()));
            },
            Deed::Move { x, y } => {
                let arg = exact(x, y, id);
                push_step(&mut steps, dispatch_step("movewindowpixel", arg.as_str()));
            },
            Deed::Resize { w, h } => {
                let arg = exact(w, h, id);
                push_step(&mut steps, dispatch_step("resizewindowpixel", arg.as_str()));
            },
            Deed::Close => {
                let arg = with_id("address:", id);
                push_step(&mut steps, dispatch_step("closewindow", arg.as_str()));
            },
            Deed::Minimize => {
                // wlroots compositors have no "minimise"; moving to the special scratchpad
                // workspace is the established equivalent.
                let arg = with_id("special,address:", id);
                push_step(&mut steps, dispatch_step("movetoworkspacesilent", arg.as_str()));
            },
            Deed::Maximize => {
                // The dispatcher makes the focused window fill the screen.
                let arg = with_id("address:", id);
                push_step(&mut steps, dispatch_step("focuswindow", arg.as_str()));
                push_step(&mut steps, dispatch_step("fullscreen", "1"));
            },
        },
        Compositor::Sway => match deed {
            Deed::Focus => push_step(&mut steps, sway_step(id, "focus")),
            Deed::Move { x, y } => {
                let what = with_numbers("move absolute position ", x, y);
                push_step(&mut steps, sway_step(id, what.as_str()));
            },
            Deed::Resize { w, h } => {
                let what = with_numbers("resize set ", w, h);
                push_step(&mut steps, sway_step(id, what.as_str()));
            },
            Deed::Close => push_step(&mut steps, sway_step(id, "kill")),
            Deed::Minimize => push_step(&mut steps, sway_step(id, "move scratchpad")),
            Deed::Maximize => push_step(&mut steps, sway_step(id, "fullscreen enable")),
        },
        _ => push_step(&mut steps, Step::Fail(unsupported(compositor))),
    }
    assert(step_views(steps@) =~= deed_script(compositor, deed, id@));
    steps
}

/// How far the search for a window has got, as a mathematical value.
pub enum SearchView {
    /// The windows are listed.
    Listing(ListingView),
    /// One of these windows is chosen.
    Choosing(Seq<WindowView>),
    /// The window was found; it has this identifier.
    Found(Seq<char>),
    /// There is no such window, or the windows cannot be listed.
    Failed(Reason),
}

/// How far a search has got when its listing has got so far.
pub open spec fn search_at(listing: ListingView) -> SearchView {
    match listing {
        ListingView::Listed(windows) => SearchView::Choosing(windows),
        ListingView::Failed(reason) => SearchView::Failed(reason),
        _ => SearchView::Listing(listing),
    }
}

/// How a search starts.
pub open spec fn search_start(compositor: Compositor) -> SearchView {
    search_at(listing_start(compositor))
}

/// What has to be done next in a search for the window that matches a target.
pub open spec fn search_request(search: SearchView, target: Seq<char>) -> RequestView {
    match search {
        SearchView::Listing(listing) => listing_request(listing),
        SearchView::Choosing(windows) => RequestView::Choose { windows, target },
        SearchView::Found(_) => RequestView::Finished,
        SearchView::Failed(reason) => RequestView::Failed(reason),
    }
}

/// How far a search has got once a request has been answered. An index that is none of a window
/// chooses none. A reply that answers no request changes nothing.
pub open spec fn search_after(
    search: SearchView,
    target: Seq<char>,
    reply: ReplyView,
) -> SearchView {
    match (search, reply) {
        (SearchView::Listing(listing), _) => search_at(listing_after(listing, reply)),
        (SearchView::Choosing(windows), ReplyView::Chosen(Some(i))) => if i < windows.len() {
            SearchView::Found(windows[i as int].id)
        } else {
            SearchView::Failed(no_window(target))
        },
        (SearchView::Choosing(_), ReplyView::Chosen(None)) => SearchView::Failed(
            no_window(target),
        ),
        _ => search,
    }
}

#[derive(Debug)]
enum Search {
    Listing(Listing),
    Choosing(Vec<WindowInfo>),
    Found(String),
    Failed(NovaError),
}

impl Search {
    spec fn view(self) -> SearchView {
        match self {
            Search::Listing(listing) => SearchView::Listing(listing@),
            Search::Choosing(windows) => SearchView::Choosing(window_views(windows@)),
            Search::Found(id) => SearchView::Found(id@),
            Search::Failed(error) => SearchView::Failed(error@),
        }
    }

    fn at(listing: Listing) -> (search: Search)
        ensures
            search.view() == search_at(listing@),
    {
        match listing {
            Listing::Listed(windows) => Search::Choosing(windows),
            Listing::Failed(error) => Search::Failed(error),
            listing => Search::Listing(listing),
        }
    }

    fn request(&self, target: &str) -> (request: Request)
        ensures
            request@ == search_request(self.view(), target@),
    {
        match self {
            Search::Listing(listing) => listing.request(),
            Search::Choosing(windows) => Request::Choose {
                windows: copy_windows(windows),
                target: target.to_owned(),
            },
            Search::Found(_) => Request::Finished,
            Search::Failed(error) => Request::Failed(error.clone()),
        }
    }

    fn reply(self, target: &str, reply: Reply) -> (search: Search)
        ensures
            search.view() == search_after(self.view(), target@, reply@),
    {
        match (self, reply) {
            (Search::Listing(listing), reply) => Search::at(listing.reply(reply)),
            (Search::Choosing(windows), Reply::Chosen(index)) => {
                let found = match index {
                    Some(i) => if i < windows.len() {
                        assert(window_views(windows@)[i as int] == windows@[i as int]@);
                        Some(&windows[i])
                    } else {
                        None
                    },
                    None => None,
                };
                match target_id(target, found) {
                    Ok(id) => Search::Found(id),
                    Err(error) => Search::Failed(error),
                }
            },
            (search, _) => search,
        }
    }
}

/// How far a task has got.
pub enum TaskStage {
    /// The window that matches the target is searched for.
    Finding(SearchView),
    /// That window was found, and the one that matches its identifier is searched for, to give it
    /// the focus.
    Refinding(Seq<char>, SearchView),
    /// The window was found, and the script for it is under way.
    Playing(Seq<StepView>, Progress),
    /// There is no such window, or the windows cannot be listed.
    Failed(Reason),
}

/// A task as a mathematical value.
pub struct TaskView {
    pub compositor: Compositor,
    pub deed: Deed,
    pub target: Seq<char>,
    pub stage: TaskStage,
}

/// Whether a window is searched for twice: Hyprland maximises the focused window, so the window is
/// first given the focus, as by a task of its own for its identifier.
pub open spec fn searched_twice(compositor: Compositor, deed: Deed) -> bool {
    compositor is Hyprland && deed is Maximize
}

/// The stage of a task whose only, or first, search has got so far.
pub open spec fn finding(compositor: Compositor, deed: Deed, search: SearchView) -> TaskStage {
    match search {
        SearchView::Found(id) => if searched_twice(compositor, deed) {
            TaskStage::Refinding(id, search_start(compositor))
        } else {
            TaskStage::Playing(deed_script(compositor, deed, id), Progress::At(0))
        },
        SearchView::Failed(reason) => TaskStage::Failed(reason),
        _ => TaskStage::Finding(search),
    }
}

/// The stage of a task whose second search, for the window with an identifier, has got so far.
pub open spec fn refinding(
    compositor: Compositor,
    deed: Deed,
    id: Seq<char>,
    search: SearchView,
) -> TaskStage {
    match search {
        SearchView::Found(again) => TaskStage::Playing(
            deed_script(compositor, deed, again),
            Progress::At(0),
        ),
        SearchView::Failed(reason) => TaskStage::Failed(reason),
        _ => TaskStage::Refinding(id, search),
    }
}

/// A task that has not begun.
pub open spec fn task_start(compositor: Compositor, deed: Deed, target: Seq<char>) -> TaskView {
    TaskView { compositor, deed, target, stage: finding(compositor, deed, search_start(compositor)) }
}

/// What has to be done next in a task.
pub open spec fn task_request(task: TaskView) -> RequestView {
    match task.stage {
        TaskStage::Finding(search) => search_request(search, task.target),
        TaskStage::Refinding(id, search) => search_request(search, id),
        TaskStage::Playing(steps, progress) => next_request(steps, progress),
        TaskStage::Failed(reason) => RequestView::Failed(reason),
    }
}

/// How far a task has got once a request has been answered. A reply that answers no request changes
/// nothing.
pub open spec fn task_after(task: TaskView, reply: ReplyView) -> TaskView {
    let stage = match task.stage {
        TaskStage::Finding(search) => finding(
            task.compositor,
            task.deed,
            search_after(search, task.target, reply),
        ),
        TaskStage::Refinding(id, search) => refinding(
            task.compositor,
            task.deed,
            id,
            search_after(search, id, reply),
        ),
        TaskStage::Playing(steps, progress) => TaskStage::Playing(
            steps,
            after_reply(steps, progress, reply),
        ),
        TaskStage::Failed(reason) => TaskStage::Failed(reason),
    };
    TaskView { compositor: task.compositor, deed: task.deed, target: task.target, stage }
}

#[derive(Debug)]
enum Stage {
    Finding(Search),
    Refinding(String, Search),
    Playing(Player),
    Failed(NovaError),
}

impl Stage {
    spec fn view(self) -> TaskStage {
        match self {
            Stage::Finding(search) => TaskStage::Finding(search.view()),
            Stage::Refinding(id, search) => TaskStage::Refinding(id@, search.view()),
            Stage::Playing(player) => TaskStage::Playing(player.steps(), player.progress()),
            Stage::Failed(error) => TaskStage::Failed(error@),
        }
    }

    fn finding(compositor: Compositor, deed: Deed, search: Search) -> (stage: Stage)
        ensures
            stage.view() == finding(compositor, deed, search.view()),
    {
        match search {
            Search::Found(id) => match (compositor, deed) {
                (Compositor::Hyprland, Deed::Maximize) => Stage::Refinding(
                    id,
                    Search::at(list_windows(compositor)),
                ),
                _ => Stage::Playing(Player::new(deed_steps(compositor, deed, id.as_str()))),
            },
            Search::Failed(error) => Stage::Failed(error),
            search => Stage::Finding(search),
        }
    }

    fn refinding(compositor: Compositor, deed: Deed, id: String, search: Search) -> (stage: Stage)
        ensures
            stage.view() == refinding(compositor, deed, id@, search.view()),
    {
        match search {
            Search::Found(again) => Stage::Playing(
                Player::new(deed_steps(compositor, deed, again.as_str())),
            ),
            Search::Failed(error) => Stage::Failed(error),
            search => Stage::Refinding(id, search),
        }
    }
}

/// Something that is done to the window that matches a target.
#[derive(Debug)]
pub struct WindowTask {
    compositor: Compositor,
    deed: Deed,
    target: String,
    stage: Stage,
}

impl View for WindowTask {
    type V = TaskView;

    closed spec fn view(&self) -> TaskView {
        TaskView {
            compositor: self.compositor,
            deed: self.deed,
            target: self.target@,
            stage: self.stage.view(),
        }
    }
}

impl WindowTask {
    fn new(compositor: Compositor, deed: Deed, target: &str) -> (task: WindowTask)
        ensures
            task@ == task_start(compositor, deed, target@),
    {
        let search = Search::at(list_windows(compositor));
        let stage = Stage::finding(compositor, deed, search);
        WindowTask { compositor, deed, target: target.to_owned(), stage }
    }

    /// What has to be done next.
    pub fn request(&self) -> (request: Request)
        ensures
            request@ == task_request(self@),
    {
        match &self.stage {
            Stage::Finding(search) => search.request(self.target.as_str()),
            Stage::Refinding(id, search) => search.request(id.as_str()),
            Stage::Playing(player) => player.request(),
            Stage::Failed(error) => Request::Failed(error.clone()),
        }
    }

    /// Takes the answer to a request.
    pub fn reply(self, reply: Reply) -> (task: WindowTask)
        ensures
            task@ == task_after(self@, reply@),
    {
        let WindowTask { compositor, deed, target, stage } = self;
        let stage = match stage {
            Stage::Finding(search) => Stage::finding(
                compositor,
                deed,
                search.reply(target.as_str(), reply),
            ),
            Stage::Refinding(id, search) => {
                let search = search.reply(id.as_str(), reply);
                Stage::refinding(compositor, deed, id, search)
            },
            Stage::Playing(player) => Stage::Playing(player.reply(reply)),
            Stage::Failed(error) => Stage::Failed(error),
        };
        WindowTask { compositor, deed, target, stage }
    }
}

/// Focuses the window that matches a target.
pub fn focus_window(compositor: Compositor, target: &str) -> (task: WindowTask)
    ensures
        task@ == task_start(compositor, Deed::Focus, target@),
{
    WindowTask::new(compositor, Deed::Focus, target)
}

/// Moves the window that matches a target to a position.
pub fn move_window(compositor: Compositor, target: &str, x: i32, y: i32) -> (task: WindowTask)
    ensures
        task@ == task_start(compositor, Deed::Move { x, y }, target@),
{
    WindowTask::new(compositor, Deed::Move { x, y }, target)
}

/// Gives the window that matches a target a size.
pub fn resize_window(compositor: Compositor, target: &str, w: i32, h: i32) -> (task: WindowTask)
    ensures
        task@ == task_start(compositor, Deed::Resize { w, h }, target@),
{
    WindowTask::new(compositor, Deed::Resize { w, h }, target)
}

/// Closes the window that matches a target.
pub fn close_window(compositor: Compositor, target: &str) -> (task: WindowTask)
    ensures
        task@ == task_start(compositor, Deed::Close, target@),
{
    WindowTask::new(compositor, Deed::Close, target)
}

/// Puts the window that matches a target out of sight.
pub fn minimize_window(compositor: Compositor, target: &str) -> (task: WindowTask)
    ensures
        task@ == task_start(compositor, Deed::Minimize, target@),
{
    WindowTask::new(compositor, Deed::Minimize, target)
}

/// Has the window that matches a target fill the screen.
pub fn maximize_window(compositor: Compositor, target: &str) -> (task: WindowTask)
    ensures
        task@ == task_start(compositor, Deed::Maximize, target@),
{
    WindowTask::new(compositor, Deed::Maximize, target)
}

/// Nothing is silently left undone: on Hyprland and Sway a script ends by running a command, and
/// on any other compositor it is a failure with the reason that fits.
pub proof fn lemma_deeds_run_or_fail(compositor: Compositor, deed: Deed, id: Seq<char>)
    ensures
        deed_script(compositor, deed, id).len() > 0,
        compositor is Hyprland || compositor is Sway ==> deed_script(
            compositor,
            deed,
            id,
        ).last() is Run,
        !(compositor is Hyprland || compositor is Sway) ==> deed_script(compositor, deed, id)
            == seq![StepView::Fail(unsupported_by(compositor))],
{
}

/// Whether one stage of a task comes behind another.
pub open spec fn further(before: TaskStage, after: TaskStage) -> bool {
    match (before, after) {
        (TaskStage::Finding(search), TaskStage::Finding(next)) => {
            search_rank(search) < search_rank(next)
        },
        (TaskStage::Finding(_), _) => true,
        (TaskStage::Refinding(id, search), TaskStage::Refinding(same, next)) => {
            same == id && search_rank(search) < search_rank(next)
        },
        (TaskStage::Refinding(_, _), next) => next is Playing || next is Failed,
        (TaskStage::Playing(steps, progress), TaskStage::Playing(same, next)) => {
            same == steps && behind(steps, progress) < behind(steps, next) <= 2 * steps.len() + 1
        },
        _ => false,
    }
}

/// How far a search has got, as a number.
pub open spec fn search_rank(search: SearchView) -> nat {
    match search {
        SearchView::Listing(listing) => listing_rank(listing),
        SearchView::Choosing(_) => 3,
        _ => 4,
    }
}

/// A task never gets stuck: every answer to its request takes a search on, starts what follows
/// from it, or takes the script for the window on.
pub proof fn lemma_task_answers_advance(task: TaskView, reply: ReplyView)
    requires
        answers(task_request(task), reply),
    ensures
        further(task.stage, task_after(task, reply).stage),
{
    match task.stage {
        TaskStage::Finding(SearchView::Listing(listing)) => {
            lemma_listing_answers_advance(listing, reply);
        },
        TaskStage::Refinding(_, SearchView::Listing(listing)) => {
            lemma_listing_answers_advance(listing, reply);
        },
        TaskStage::Playing(steps, progress) => {
            lemma_answers_advance(steps, progress, reply);
        },
        _ => {},
    }
}

/// A task after some replies.
pub open spec fn task_run(
    compositor: Compositor,
    deed: Deed,
    target: Seq<char>,
    replies: Seq<ReplyView>,
) -> TaskView
    decreases replies.len(),
{
    if replies.len() == 0 {
        task_start(compositor, deed, target)
    } else {
        task_after(task_run(compositor, deed, target, replies.drop_last()), replies.last())
    }
}

/// The identifier of the window that a reply chooses from those that a task has listed, if it
/// does.
pub open spec fn choice(task: TaskView, reply: ReplyView) -> Option<Seq<char>> {
    let windows = match task.stage {
        TaskStage::Finding(SearchView::Choosing(windows)) => windows,
        TaskStage::Refinding(_, SearchView::Choosing(windows)) => windows,
        _ => Seq::empty(),
    };
    match reply {
        ReplyView::Chosen(Some(i)) => if i < windows.len() {
            Some(windows[i as int].id)
        } else {
            None
        },
        _ => None,
    }
}

/// Whether, during a task, the window with an identifier was chosen from those that were listed.
pub open spec fn chosen(
    compositor: Compositor,
    deed: Deed,
    target: Seq<char>,
    replies: Seq<ReplyView>,
    id: Seq<char>,
) -> bool {
    exists|k: int|
        0 <= k < replies.len() && #[trigger] choice(
            task_run(compositor, deed, target, replies.take(k)),
            replies[k],
        ) == Some(id)
}

/// Whatever the replies, a task does its deed to a window that was chosen from a list of the
/// compositor's windows, and to no other.
pub proof fn lemma_task_acts_on_chosen_window(
    compositor: Compositor,
    deed: Deed,
    target: Seq<char>,
    replies: Seq<ReplyView>,
)
    requires
        task_run(compositor, deed, target, replies).stage is Playing,
    ensures
        exists|id: Seq<char>| #[trigger]
            chosen(compositor, deed, target, replies, id) && task_run(
                compositor,
                deed,
                target,
                replies,
            ).stage->Playing_0 == deed_script(compositor, deed, id),
    decreases replies.len(),
{
    let before = replies.drop_last();
    let task = task_run(compositor, deed, target, before);
    let last = replies.len() - 1;
    lemma_task_keeps_its_purpose(compositor, deed, target, before);
    assert(before =~= replies.take(last));
    if task.stage is Playing {
        lemma_task_acts_on_chosen_window(compositor, deed, target, before);
        let id = choose|id: Seq<char>| #[trigger]
            chosen(compositor, deed, target, before, id) && task.stage->Playing_0 == deed_script(
                compositor,
                deed,
                id,
            );
        let k = choose|k: int|
            0 <= k < before.len() && #[trigger] choice(
                task_run(compositor, deed, target, before.take(k)),
                before[k],
            ) == Some(id);
        assert(before.take(k) =~= replies.take(k));
        assert(before[k] == replies[k]);
        assert(chosen(compositor, deed, target, replies, id));
    } else {
        let id = choice(task, replies.last())->0;
        assert(choice(task_run(compositor, deed, target, replies.take(last)), replies[last])
            == Some(id));
        assert(chosen(compositor, deed, target, replies, id));
    }
}

/// A task keeps its compositor, its deed and its target.
pub proof fn lemma_task_keeps_its_purpose(
    compositor: Compositor,
    deed: Deed,
    target: Seq<char>,
    replies: Seq<ReplyView>,
)
    ensures
        task_run(compositor, deed, target, replies).compositor == compositor,
        task_run(compositor, deed, target, replies).deed == deed,
        task_run(compositor, deed, target, replies).target == target,
    decreases replies.len(),
{
    if replies.len() > 0 {
        lemma_task_keeps_its_purpose(compositor, deed, target, replies.drop_last());
    }
}

/// On Hyprland, maximising goes through the task that focuses the window that was found: the second
/// search asks for what that task asks for, answers lead both to the same place, and the script is
/// that of the focus and one command more.
pub proof fn lemma_maximize_focuses_first(
    target: Seq<char>,
    id: Seq<char>,
    search: SearchView,
    reply: ReplyView,
)
    ensures
        ({
            let compositor = Compositor::Hyprland;
            let maximize = TaskView {
                compositor,
                deed: Deed::Maximize,
                target,
                stage: TaskStage::Refinding(id, search),
            };
            let focus = TaskView {
                compositor,
                deed: Deed::Focus,
                target: id,
                stage: TaskStage::Finding(search),
            };
            &&& finding(compositor, Deed::Maximize, SearchView::Found(id)) == TaskStage::Refinding(
                id,
                search_start(compositor),
            )
            &&& task_start(compositor, Deed::Focus, id).stage == TaskStage::Finding(
                search_start(compositor),
            )
            &&& task_request(maximize) == task_request(focus)
            &&& match task_after(focus, reply).stage {
                TaskStage::Finding(next) => task_after(maximize, reply).stage
                    == TaskStage::Refinding(id, next),
                TaskStage::Playing(steps, progress) => task_after(maximize, reply).stage
                    == TaskStage::Playing(steps + seq![dispatch("fullscreen"@, "1"@)], progress),
                next => task_after(maximize, reply).stage == next,
            }
        }),
{
    if let SearchView::Found(again) = search_after(search, id, reply) {
        let focus = deed_script(Compositor::Hyprland, Deed::Focus, again);
        assert(deed_script(Compositor::Hyprland, Deed::Maximize, again) =~= focus + seq![
            dispatch("fullscreen"@, "1"@),
        ]);
    }
}

/// On any compositor but Hyprland and Sway, a task fails at once with the reason that fits, and no
/// reply makes it run anything.
pub proof fn lemma_tasks_refused_elsewhere(
    compositor: Compositor,
    deed: Deed,
    target: Seq<char>,
    reply: ReplyView,
)
    requires
        !(compositor is Hyprland) && !(compositor is Sway),
    ensures
        ({
            let task = task_start(compositor, deed, target);
            &&& task_request(task) == RequestView::Failed(unsupported_by(compositor))
            &&& task_after(task, reply) == task
        }),
{
}

/// A window that cannot be found is left alone: the task fails, and no reply makes it run anything.
pub proof fn lemma_unfound_window_left_alone(task: TaskView, reply: ReplyView)
    requires
        task.stage is Failed,
    ensures
        task_request(task) is Failed,
        task_after(task, reply) == task,
{
}

/* ── What the compositors make of it ────────────────────────────── */

/// Whether a request runs a program with some arguments.
pub open spec fn runs(request: RequestView, program: Seq<char>, args: Seq<Seq<char>>) -> bool {
    &&& request is Run
    &&& request->Run_0.program == program
    &&& request->Run_0.args.len() == args.len()
    &&& forall|i: int| 0 <= i < args.len() ==> #[trigger] request->Run_0.args[i] == args[i]
}

/// The whole course of a listing on Hyprland: hyprctl is looked for, then asked for the clients,
/// then for the active window. What it prints decides; an active window that cannot be asked for is
/// no failure; without hyprctl, or the clients, the listing fails.
pub proof fn lemma_hyprland_listing_course(
    clients: OutputView,
    active: OutputView,
    reason: Reason,
)
    ensures
        ({
            let start = listing_start(Compositor::Hyprland);
            let asked = listing_after(start, ReplyView::Installed(true));
            let told = listing_after(asked, ReplyView::Ran(Ok(clients)));
            let both = hyprland_outcome(clients.stdout, Some(active.stdout));
            let one = hyprland_outcome(clients.stdout, None);
            &&& listing_request(start) == RequestView::Probe("hyprctl"@)
            &&& listing_after(start, ReplyView::Installed(false)) == ListingView::Failed(
                Reason::Missing { tool: "hyprctl"@, hint: "It ships with Hyprland."@ },
            )
            &&& runs(listing_request(asked), "hyprctl"@, seq!["-j"@, "clients"@])
            &&& listing_after(asked, ReplyView::Ran(Err(reason))) == ListingView::Failed(reason)
            &&& runs(listing_request(told), "hyprctl"@, seq!["-j"@, "activewindow"@])
            &&& both matches Ok(list) ==> listing_after(told, ReplyView::Ran(Ok(active)))
                == ListingView::Listed(list)
            &&& both matches Err(why) ==> listing_after(told, ReplyView::Ran(Ok(active)))
                == ListingView::Failed(why)
            &&& one matches Ok(list) ==> listing_after(told, ReplyView::Ran(Err(reason)))
                == ListingView::Listed(list)
            &&& one matches Err(why) ==> listing_after(told, ReplyView::Ran(Err(reason)))
                == ListingView::Failed(why)
        }),
{
}

/// The whole course of a listing on Sway: swaymsg is looked for and asked for the tree. What it
/// prints decides; without swaymsg, or the tree, the listing fails.
pub proof fn lemma_sway_listing_course(tree: OutputView, reason: Reason)
    ensures
        ({
            let start = listing_start(Compositor::Sway);
            let asked = listing_after(start, ReplyView::Installed(true));
            let told = listing_after(asked, ReplyView::Ran(Ok(tree)));
            &&& listing_request(start) == RequestView::Probe("swaymsg"@)
            &&& listing_after(start, ReplyView::Installed(false)) == ListingView::Failed(
                Reason::Missing { tool: "swaymsg"@, hint: "It ships with Sway."@ },
            )
            &&& runs(listing_request(asked), "swaymsg"@, seq!["-t"@, "get_tree"@, "-r"@])
            &&& listing_after(asked, ReplyView::Ran(Err(reason))) == ListingView::Failed(reason)
            &&& sway_outcome(tree.stdout) matches Ok(list) ==> told == ListingView::Listed(list)
            &&& sway_outcome(tree.stdout) matches Err(why) ==> told == ListingView::Failed(why)
        }),
{
}

/// A listing that is over says so and stays so, and an answer to another request changes nothing.
pub proof fn lemma_listing_stays(
    state: ListingView,
    reply: ReplyView,
    list: Seq<WindowView>,
    reason: Reason,
)
    requires
        !answers(listing_request(state), reply),
    ensures
        listing_after(state, reply) == state,
        listing_request(ListingView::Listed(list)) is Finished,
        listing_request(ListingView::Failed(reason)) == RequestView::Failed(reason),
{
}

/// The words in which GNOME, KDE and the other compositors are refused differ.
pub proof fn lemma_refusals_fit(compositor: Compositor)
    ensures
        compositor is Gnome ==> unsupported_by(compositor) == Reason::Message(NO_GNOME@),
        compositor is Kde ==> unsupported_by(compositor) == Reason::Message(NO_KDE@),
        !(compositor is Gnome) && !(compositor is Kde) ==> unsupported_by(compositor)
            == Reason::Message(NO_OTHER@),
{
}

/// Whether a step runs Hyprland's dispatcher with an argument that ends with the address of a
/// window.
pub open spec fn dispatches(step: StepView, what: Seq<char>, id: Seq<char>) -> bool {
    let args = step->Run_0.args;
    &&& step is Run
    &&& step->Run_0.program == "hyprctl"@
    &&& args.len() == 3
    &&& args[0] == "dispatch"@
    &&& args[1] == what
    &&& args[2].len() >= id.len()
    &&& id.is_suffix_of(args[2])
}

/// What comes before the address of the window in the argument of the dispatcher.
pub open spec fn before_id(step: StepView, id: Seq<char>) -> Seq<char> {
    step->Run_0.args[2].take(step->Run_0.args[2].len() - id.len())
}

/// Whether the argument of the dispatcher gives two exact numbers and then the address of a window.
pub open spec fn gives_numbers(step: StepView, id: Seq<char>, a: i32, b: i32) -> bool {
    let parts = fields(before_id(step, id), ',');
    let words = fields(parts[0], ' ');
    &&& parts.len() == 2
    &&& parts[1] == "address:"@
    &&& words.len() == 3
    &&& words[0] == "exact"@
    &&& i32_of(words[1]) == Some(a)
    &&& i32_of(words[2]) == Some(b)
}

proof fn lemma_exact(a: i32, b: i32, id: Seq<char>)
    ensures
        ({
            let arg = "exact "@ + decimal(a as int) + " "@ + decimal(b as int) + ",address:"@ + id;
            let front = arg.take(arg.len() - id.len());
            &&& id.is_suffix_of(arg)
            &&& fields(front, ',').len() == 2
            &&& fields(front, ',')[1] == "address:"@
            &&& fields(fields(front, ',')[0], ' ') == seq![
                "exact"@,
                decimal(a as int),
                decimal(b as int),
            ]
        }),
{
    let (da, db) = (decimal(a as int), decimal(b as int));
    let arg = "exact "@ + da + " "@ + db + ",address:"@ + id;
    let front = arg.take(arg.len() - id.len());
    reveal_strlit("exact ");
    reveal_strlit("exact");
    reveal_strlit(" ");
    reveal_strlit(",address:");
    reveal_strlit("address:");
    assert("exact "@ =~= "exact"@.push(' '));
    assert(" "@ =~= seq![' ']);
    assert(",address:"@ =~= seq![','] + "address:"@);
    lemma_decimal_chars(a as int);
    lemma_decimal_chars(b as int);
    let first = "exact"@;
    let second = first.push(' ') + da;
    let third = second.push(' ') + db;
    assert(arg.subrange(arg.len() - id.len(), arg.len() as int) =~= id);
    assert(front =~= third.push(',') + "address:"@);
    lemma_fields_single(first, ' ');
    assert forall|i: int| 0 <= i < da.len() implies #[trigger] da[i] != ' ' && da[i] != ',' by {
        assert(i > 0 ==> is_digit(da[i]));
    }
    assert forall|i: int| 0 <= i < db.len() implies #[trigger] db[i] != ' ' && db[i] != ',' by {
        assert(i > 0 ==> is_digit(db[i]));
    }
    lemma_fields_next(first, da, ' ');
    lemma_fields_next(second, db, ' ');
    assert(fields(third, ' ') =~= seq![first, da, db]);
    assert forall|i: int| 0 <= i < third.len() implies #[trigger] third[i] != ',' by {
        if i < first.len() {
            assert(third[i] == first[i]);
        } else if first.len() < i < second.len() {
            assert(third[i] == da[i - first.len() - 1]);
        } else if i > second.len() {
            assert(third[i] == db[i - second.len() - 1]);
        }
    }
    lemma_fields_single(third, ',');
    lemma_fields_next(third, "address:"@, ',');
}

/// What is done to a window on Hyprland, as its dispatcher reads it: the right dispatcher gets the
/// address of that window, and the numbers, where there are any, read back.
pub proof fn lemma_hyprland_does_the_deed(deed: Deed, id: Seq<char>)
    ensures
        ({
            let script = deed_script(Compositor::Hyprland, deed, id);
            let first = script[0];
            &&& script.len() == if deed is Maximize {
                2int
            } else {
                1int
            }
            &&& match deed {
                Deed::Focus => dispatches(first, "focuswindow"@, id) && before_id(first, id)
                    == "address:"@,
                Deed::Move { x, y } => dispatches(first, "movewindowpixel"@, id)
                    && gives_numbers(first, id, x, y),
                Deed::Resize { w, h } => dispatches(first, "resizewindowpixel"@, id)
                    && gives_numbers(first, id, w, h),
                Deed::Close => dispatches(first, "closewindow"@, id) && before_id(first, id)
                    == "address:"@,
                Deed::Minimize => dispatches(first, "movetoworkspacesilent"@, id) && fields(
                    before_id(first, id),
                    ',',
                ) == seq!["special"@, "address:"@],
                Deed::Maximize => {
                    &&& dispatches(first, "focuswindow"@, id)
                    &&& before_id(first, id) == "address:"@
                    &&& dispatches(script[1], "fullscreen"@, "1"@)
                    &&& script[1]->Run_0.args[2] == "1"@
                },
            }
        }),
{
    let script = deed_script(Compositor::Hyprland, deed, id);
    let arg = script[0]->Run_0.args[2];
    match deed {
        Deed::Move { x, y } => {
            lemma_exact(x, y, id);
            lemma_decimal_reads_back(x);
            lemma_decimal_reads_back(y);
        },
        Deed::Resize { w, h } => {
            lemma_exact(w, h, id);
            lemma_decimal_reads_back(w);
            lemma_decimal_reads_back(h);
        },
        Deed::Minimize => {
            reveal_strlit("special,address:");
            reveal_strlit("special");
            reveal_strlit("address:");
            assert(arg.subrange(arg.len() - id.len(), arg.len() as int) =~= id);
            assert(before_id(script[0], id) =~= "special,address:"@);
            assert("special,address:"@ =~= "special"@.push(',') + "address:"@);
            lemma_fields_single("special"@, ',');
            lemma_fields_next("special"@, "address:"@, ',');
            assert(fields(before_id(script[0], id), ',') =~= seq!["special"@, "address:"@]);
        },
        _ => {
            assert(arg.subrange(arg.len() - id.len(), arg.len() as int) =~= id);
            assert(before_id(script[0], id) =~= "address:"@);
            if deed is Maximize {
                let last = script[1]->Run_0.args[2];
                assert(last.subrange(0, last.len() as int) =~= "1"@);
            }
        },
    }
}

/// The words of Sway's command behind the window that it is for: the argument is `[con_id=`, the
/// identifier, `]`, a space and those words.
pub open spec fn sway_words(step: StepView, id: Seq<char>) -> Option<Seq<Seq<char>>> {
    let front = "[con_id="@ + id + "] "@;
    let args = step->Run_0.args;
    if step is Run && step->Run_0.program == "swaymsg"@ && args.len() == 1 && front.is_prefix_of(
        args[0],
    ) {
        Some(fields(args[0].skip(front.len() as int), ' '))
    } else {
        None
    }
}

proof fn lemma_sway_words(id: Seq<char>, what: Seq<char>)
    ensures
        sway_words(sway_do(id, what), id) == Some(fields(what, ' ')),
{
    let front = "[con_id="@ + id + "] "@;
    let arg = front + what;
    assert(arg.skip(front.len() as int) =~= what);
    assert(arg.subrange(0, front.len() as int) =~= front);
}

proof fn lemma_two_numbers(front: Seq<char>, words: Seq<Seq<char>>, a: i32, b: i32)
    requires
        fields(front, ' ') == words,
    ensures
        fields(front.push(' ') + decimal(a as int) + " "@ + decimal(b as int), ' ') == words.push(
            decimal(a as int),
        ).push(decimal(b as int)),
{
    let (da, db) = (decimal(a as int), decimal(b as int));
    reveal_strlit(" ");
    assert(" "@ =~= seq![' ']);
    lemma_decimal_chars(a as int);
    lemma_decimal_chars(b as int);
    assert forall|i: int| 0 <= i < da.len() implies #[trigger] da[i] != ' ' by {
        assert(i > 0 ==> is_digit(da[i]));
    }
    assert forall|i: int| 0 <= i < db.len() implies #[trigger] db[i] != ' ' by {
        assert(i > 0 ==> is_digit(db[i]));
    }
    lemma_fields_next(front, da, ' ');
    lemma_fields_next(front.push(' ') + da, db, ' ');
    assert(front.push(' ') + da + " "@ + db =~= (front.push(' ') + da).push(' ') + db);
}

/// What is done to a window on Sway, as Sway reads it: one command, for the window with that
/// identifier, and the numbers, where there are any, read back.
pub proof fn lemma_sway_does_the_deed(deed: Deed, id: Seq<char>)
    ensures
        ({
            let script = deed_script(Compositor::Sway, deed, id);
            let words = sway_words(script[0], id)->0;
            &&& script.len() == 1
            &&& sway_words(script[0], id) is Some
            &&& match deed {
                Deed::Focus => words == seq!["focus"@],
                Deed::Move { x, y } => {
                    &&& words.len() == 5
                    &&& words.take(3) == seq!["move"@, "absolute"@, "position"@]
                    &&& i32_of(words[3]) == Some(x)
                    &&& i32_of(words[4]) == Some(y)
                },
                Deed::Resize { w, h } => {
                    &&& words.len() == 4
                    &&& words.take(2) == seq!["resize"@, "set"@]
                    &&& i32_of(words[2]) == Some(w)
                    &&& i32_of(words[3]) == Some(h)
                },
                Deed::Close => words == seq!["kill"@],
                Deed::Minimize => words == seq!["move"@, "scratchpad"@],
                Deed::Maximize => words == seq!["fullscreen"@, "enable"@],
            }
        }),
{
    match deed {
        Deed::Focus => {
            reveal_strlit("focus");
            lemma_sway_words(id, "focus"@);
            lemma_fields_single("focus"@, ' ');
        },
        Deed::Move { x, y } => {
            reveal_strlit("move absolute position ");
            reveal_strlit("move");
            reveal_strlit("absolute");
            reveal_strlit("position");
            let two = "move"@.push(' ') + "absolute"@;
            let three = two.push(' ') + "position"@;
            lemma_fields_single("move"@, ' ');
            lemma_fields_next("move"@, "absolute"@, ' ');
            lemma_fields_next(two, "position"@, ' ');
            assert(fields(three, ' ') =~= seq!["move"@, "absolute"@, "position"@]);
            lemma_two_numbers(three, fields(three, ' '), x, y);
            let what = "move absolute position "@ + decimal(x as int) + " "@ + decimal(y as int);
            assert("move absolute position "@ =~= three.push(' '));
            lemma_sway_words(id, what);
            lemma_decimal_reads_back(x);
            lemma_decimal_reads_back(y);
            assert(fields(what, ' ').take(3) =~= seq!["move"@, "absolute"@, "position"@]);
        },
        Deed::Resize { w, h } => {
            reveal_strlit("resize set ");
            reveal_strlit("resize");
            reveal_strlit("set");
            let two = "resize"@.push(' ') + "set"@;
            lemma_fields_single("resize"@, ' ');
            lemma_fields_next("resize"@, "set"@, ' ');
            assert(fields(two, ' ') =~= seq!["resize"@, "set"@]);
            lemma_two_numbers(two, fields(two, ' '), w, h);
            let what = "resize set "@ + decimal(w as int) + " "@ + decimal(h as int);
            assert("resize set "@ =~= two.push(' '));
            lemma_sway_words(id, what);
            lemma_decimal_reads_back(w);
            lemma_decimal_reads_back(h);
            assert(fields(what, ' ').take(2) =~= seq!["resize"@, "set"@]);
        },
        Deed::Close => {
            reveal_strlit("kill");
            lemma_sway_words(id, "kill"@);
            lemma_fields_single("kill"@, ' ');
        },
        Deed::Minimize => {
            reveal_strlit("move scratchpad");
            reveal_strlit("move");
            reveal_strlit("scratchpad");
            assert("move scratchpad"@ =~= "move"@.push(' ') + "scratchpad"@);
            lemma_fields_single("move"@, ' ');
            lemma_fields_next("move"@, "scratchpad"@, ' ');
            lemma_sway_words(id, "move scratchpad"@);
            assert(fields("move scratchpad"@, ' ') =~= seq!["move"@, "scratchpad"@]);
        },
        Deed::Maximize => {
            reveal_strlit("fullscreen enable");
            reveal_strlit("fullscreen");
            reveal_strlit("enable");
            assert("fullscreen enable"@ =~= "fullscreen"@.push(' ') + "enable"@);
            lemma_fields_single("fullscreen"@, ' ');
            lemma_fields_next("fullscreen"@, "enable"@, ' ');
            lemma_sway_words(id, "fullscreen enable"@);
            assert(fields("fullscreen enable"@, ' ') =~= seq!["fullscreen"@, "enable"@]);
        },
    }
}

/// The course of a task: it lists the windows as a listing does, fails for the reason for which
/// that fails, and offers all the windows that were listed for its target.
pub proof fn lemma_task_course(
    compositor: Compositor,
    deed: Deed,
    target: Seq<char>,
    listing: ListingView,
    reply: ReplyView,
)
    requires
        compositor is Hyprland || compositor is Sway,
        !(listing is Listed) && !(listing is Failed),
    ensures
        ({
            let task = task_start(compositor, deed, target);
            let under_way = TaskView {
                compositor,
                deed,
                target,
                stage: TaskStage::Finding(SearchView::Listing(listing)),
            };
            let next = task_after(under_way, reply);
            &&& task_request(task) == listing_request(listing_start(compositor))
            &&& task.stage == TaskStage::Finding(SearchView::Listing(listing_start(compositor)))
            &&& task_request(under_way) == listing_request(listing)
            &&& match listing_after(listing, reply) {
                ListingView::Listed(windows) => task_request(next) is Choose && task_request(
                    next,
                )->windows == windows && task_request(next)->target == target,
                ListingView::Failed(reason) => task_request(next) == RequestView::Failed(reason),
                other => next.stage == TaskStage::Finding(SearchView::Listing(other)),
            }
        }),
{
}

/// What follows from the choice: the deed is done to the window with that index, and where none is
/// chosen the task fails and repeats its target.
pub proof fn lemma_choice_decides(
    compositor: Compositor,
    deed: Deed,
    target: Seq<char>,
    windows: Seq<WindowView>,
    i: usize,
    j: usize,
)
    requires
        i < windows.len() <= j,
    ensures
        ({
            let task = TaskView {
                compositor,
                deed,
                target,
                stage: TaskStage::Finding(SearchView::Choosing(windows)),
            };
            let chosen = task_after(task, ReplyView::Chosen(Some(i)));
            let none = task_after(task, ReplyView::Chosen(None));
            let beyond = task_after(task, ReplyView::Chosen(Some(j)));
            &&& !(compositor is Hyprland && deed is Maximize) ==> chosen.stage
                == TaskStage::Playing(
                deed_script(compositor, deed, windows[i as int].id),
                Progress::At(0),
            )
            &&& compositor is Hyprland && deed is Maximize ==> chosen.stage
                == TaskStage::Refinding(
                windows[i as int].id,
                SearchView::Listing(listing_start(compositor)),
            )
            &&& beyond == none
            &&& task_request(none) matches RequestView::Failed(Reason::Message(words))
                && fails_with(words, "no window matching `"@, target, "`"@)
        }),
{
    lemma_fails_with("no window matching `"@, target, "`"@);
}

/// Only the answer to the request that is open moves a task.
pub proof fn lemma_other_task_replies_are_ignored(task: TaskView, reply: ReplyView)
    requires
        !answers(task_request(task), reply),
        task.stage matches TaskStage::Finding(search) ==> search is Choosing || (
        search matches SearchView::Listing(listing) && !(listing is Listed) && !(
        listing is Failed)),
        task.stage matches TaskStage::Refinding(_, search) ==> search is Choosing || (
        search matches SearchView::Listing(listing) && !(listing is Listed) && !(
        listing is Failed)),
        task.stage matches TaskStage::Playing(steps, Progress::Attempting(i)) ==> i < steps.len()
            && steps[i as int] is Attempt,
    ensures
        task_after(task, reply) == task,
{
}

} // verus!
