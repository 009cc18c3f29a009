//! Scripts: what to do, step by step, to carry out an operation with the desktop's own tools.
//!
//! A script is decided in full before its first step is taken. [`Player`] walks through one: it
//! says what to do next, is told how it went, and stops at the first failure.
use crate::platform::{
    window_views, Command, CommandLine, NovaError, Output, OutputView, Reason, WindowInfo,
    WindowView,
};
use vstd::prelude::*;
use vstd::string::*;

verus! {

/// What to do about a missing ydotool.
pub const YDOTOOL_HINT: &'static str =
    "Input control on Wayland needs ydotool, and its daemon must be running \
     (`systemctl --user enable --now ydotool` or `sudo systemctl enable --now ydotoold`).";

/// The failure of an operation that needs ydotool where it is not installed.
pub open spec fn ydotool_missing() -> Reason {
    Reason::Missing { tool: "ydotool"@, hint: YDOTOOL_HINT@ }
}

/// Fails unless ydotool is installed.
pub fn need_ydotool(installed: bool) -> (result: Result<(), NovaError>)
    ensures
        result is Ok <==> installed,
        result matches Err(error) ==> error@ == ydotool_missing(),
{
    if installed {
        return Ok(());
    }
    Err(NovaError::missing("ydotool", YDOTOOL_HINT))
}

/// One step of a script.
#[derive(Debug, PartialEq, Eq)]
pub enum Step {
    /// Fail unless ydotool is installed.
    NeedYdotool,
    /// Run a command if its program is installed. If the program reports success, the script is
    /// over; otherwise it goes on.
    Attempt(Command),
    /// Run a command, whatever its program reports.
    Run(Command),
    /// Wait for some milliseconds.
    Pause(u64),
    /// Fail.
    Fail(NovaError),
}

/// A step as a mathematical value.
pub enum StepView {
    NeedYdotool,
    Attempt(CommandLine),
    Run(CommandLine),
    Pause(u64),
    Fail(Reason),
}

impl View for Step {
    type V = StepView;

    open spec fn view(&self) -> StepView {
        match self {
            Step::NeedYdotool => StepView::NeedYdotool,
            Step::Attempt(command) => StepView::Attempt(command@),
            Step::Run(command) => StepView::Run(command@),
            Step::Pause(ms) => StepView::Pause(*ms),
            Step::Fail(error) => StepView::Fail(error@),
        }
    }
}

/// The steps of a script.
pub open spec fn step_views(steps: Seq<Step>) -> Seq<StepView> {
    steps.map_values(|s: Step| s@)
}

/// Puts one more step behind the others.
pub(crate) fn push_step(steps: &mut Vec<Step>, step: Step)
    ensures
        step_views(final(steps)@) == step_views(old(steps)@).push(step@),
{
    steps.push(step);
    assert(step_views(steps@) =~= step_views(old(steps)@).push(step@));
}

/// Puts the steps of a script behind the others.
pub(crate) fn push_steps(steps: &mut Vec<Step>, more: Vec<Step>)
    ensures
        step_views(final(steps)@) == step_views(old(steps)@) + step_views(more@),
{
    let ghost added = more@;
    let mut more = more;
    steps.append(&mut more);
    assert(step_views(steps@) =~= step_views(old(steps)@) + step_views(added));
}

/// A script without steps.
pub(crate) fn no_steps() -> (steps: Vec<Step>)
    ensures
        step_views(steps@) == Seq::<StepView>::empty(),
{
    let steps: Vec<Step> = Vec::new();
    assert(step_views(steps@) =~= Seq::<StepView>::empty());
    steps
}

/* ── Walking through a script ───────────────────────────────────── */

/// What has to be done next.
#[derive(Debug, PartialEq, Eq)]
pub enum Request {
    /// Find out whether a program is installed.
    Probe(String),
    /// Run a command and wait for its end.
    Run(Command),
    /// Wait for some milliseconds.
    Pause(u64),
    /// Choose the window that a target stands for.
    Choose { windows: Vec<WindowInfo>, target: String },
    /// Nothing: the operation has succeeded.
    Finished,
    /// Nothing: the operation has failed.
    Failed(NovaError),
}

/// What has to be done next, as a mathematical value.
pub enum RequestView {
    Probe(Seq<char>),
    Run(CommandLine),
    Pause(u64),
    Choose { windows: Seq<WindowView>, target: Seq<char> },
    Finished,
    Failed(Reason),
}

impl View for Request {
    type V = RequestView;

    open spec fn view(&self) -> RequestView {
        match self {
            Request::Probe(tool) => RequestView::Probe(tool@),
            Request::Run(command) => RequestView::Run(command@),
            Request::Pause(ms) => RequestView::Pause(*ms),
            Request::Choose { windows, target } => RequestView::Choose {
                windows: window_views(windows@),
                target: target@,
            },
            Request::Finished => RequestView::Finished,
            Request::Failed(error) => RequestView::Failed(error@),
        }
    }
}

/// How it went.
#[derive(Debug, PartialEq, Eq)]
pub enum Reply {
    /// Whether the program is installed.
    Installed(bool),
    /// What the command left behind, or why it could not be run.
    Ran(Result<Output, NovaError>),
    /// The time has passed.
    Paused,
    /// The index of the window, if there is one.
    Chosen(Option<usize>),
}

/// How it went, as a mathematical value.
pub enum ReplyView {
    Installed(bool),
    Ran(Result<OutputView, Reason>),
    Paused,
    Chosen(Option<usize>),
}

impl View for Reply {
    type V = ReplyView;

    open spec fn view(&self) -> ReplyView {
        match self {
            Reply::Installed(yes) => ReplyView::Installed(*yes),
            Reply::Ran(Ok(output)) => ReplyView::Ran(Ok(output@)),
            Reply::Ran(Err(error)) => ReplyView::Ran(Err(error@)),
            Reply::Paused => ReplyView::Paused,
            Reply::Chosen(index) => ReplyView::Chosen(*index),
        }
    }
}

/// How far a script has got.
pub enum Progress {
    /// The steps before this one have been taken.
    At(nat),
    /// The step is an attempt, and its program is installed.
    Attempting(nat),
    /// The script is over.
    Finished,
    /// The script has failed.
    Failed(Reason),
}

/// What has to be done next in a script.
pub open spec fn next_request(steps: Seq<StepView>, progress: Progress) -> RequestView {
    match progress {
        Progress::At(i) => if i >= steps.len() {
            RequestView::Finished
        } else {
            match steps[i as int] {
                StepView::NeedYdotool => RequestView::Probe("ydotool"@),
                StepView::Attempt(command) => RequestView::Probe(command.program),
                StepView::Run(command) => RequestView::Run(command),
                StepView::Pause(ms) => RequestView::Pause(ms),
                StepView::Fail(reason) => RequestView::Failed(reason),
            }
        },
        Progress::Attempting(i) => if i < steps.len() && steps[i as int] is Attempt {
            RequestView::Run(steps[i as int]->Attempt_0)
        } else {
            RequestView::Finished
        },
        Progress::Finished => RequestView::Finished,
        Progress::Failed(reason) => RequestView::Failed(reason),
    }
}

/// How far a script has got once a request has been answered. A reply that answers no request
/// changes nothing.
pub open spec fn after_reply(
    steps: Seq<StepView>,
    progress: Progress,
    reply: ReplyView,
) -> Progress {
    match progress {
        Progress::At(i) => if i >= steps.len() {
            progress
        } else {
            match (steps[i as int], reply) {
                (StepView::NeedYdotool, ReplyView::Installed(yes)) => if yes {
                    Progress::At(i + 1)
                } else {
                    Progress::Failed(ydotool_missing())
                },
                (StepView::Attempt(_), ReplyView::Installed(yes)) => if yes {
                    Progress::Attempting(i)
                } else {
                    Progress::At(i + 1)
                },
                (StepView::Run(_), ReplyView::Ran(Ok(_))) => Progress::At(i + 1),
                (StepView::Run(_), ReplyView::Ran(Err(reason))) => Progress::Failed(reason),
                (StepView::Pause(_), ReplyView::Paused) => Progress::At(i + 1),
                _ => progress,
            }
        },
        Progress::Attempting(i) => match reply {
            ReplyView::Ran(Ok(output)) => if output.success {
                Progress::Finished
            } else {
                Progress::At(i + 1)
            },
            ReplyView::Ran(Err(reason)) => Progress::Failed(reason),
            _ => progress,
        },
        _ => progress,
    }
}

#[derive(Debug)]
enum Mark {
    At(usize),
    Attempting(usize),
    Finished,
    Failed(NovaError),
}

impl Mark {
    spec fn progress(self) -> Progress {
        match self {
            Mark::At(i) => Progress::At(i as nat),
            Mark::Attempting(i) => Progress::Attempting(i as nat),
            Mark::Finished => Progress::Finished,
            Mark::Failed(error) => Progress::Failed(error@),
        }
    }
}

/// A walk through a script.
#[derive(Debug)]
pub struct Player {
    steps: Vec<Step>,
    mark: Mark,
}

impl Player {
    /// The steps of the script.
    pub closed spec fn steps(self) -> Seq<StepView> {
        step_views(self.steps@)
    }

    /// How far the script has got.
    pub closed spec fn progress(self) -> Progress {
        self.mark.progress()
    }

    #[verifier::type_invariant]
    spec fn inv(self) -> bool {
        match self.mark {
            Mark::At(i) => i <= self.steps@.len(),
            Mark::Attempting(i) => i < self.steps@.len() && self.steps@[i as int] is Attempt,
            _ => true,
        }
    }

    /// A walk that starts at the first step.
    pub fn new(steps: Vec<Step>) -> (player: Player)
        ensures
            player.steps() == step_views(steps@),
            player.progress() == Progress::At(0),
    {
        Player { steps, mark: Mark::At(0) }
    }

    /// What has to be done next.
    pub fn request(&self) -> (request: Request)
        ensures
            request@ == next_request(self.steps(), self.progress()),
    {
        proof {
            use_type_invariant(self);
        }
        match &self.mark {
            Mark::At(i) => if *i >= self.steps.len() {
                Request::Finished
            } else {
                assert(self.steps()[*i as int] == self.steps@[*i as int]@);
                match &self.steps[*i] {
                    Step::NeedYdotool => Request::Probe("ydotool".to_owned()),
                    Step::Attempt(command) => Request::Probe(command.program.clone()),
                    Step::Run(command) => Request::Run(command.clone()),
                    Step::Pause(ms) => Request::Pause(*ms),
                    Step::Fail(error) => Request::Failed(error.clone()),
                }
            },
            Mark::Attempting(i) => {
                assert(self.steps()[*i as int] == self.steps@[*i as int]@);
                match &self.steps[*i] {
                    Step::Attempt(command) => Request::Run(command.clone()),
                    _ => Request::Finished,
                }
            },
            Mark::Finished => Request::Finished,
            Mark::Failed(error) => Request::Failed(error.clone()),
        }
    }

    /// Takes the answer to a request.
    pub fn reply(self, reply: Reply) -> (player: Player)
        ensures
            player.steps() == self.steps(),
            player.progress() == after_reply(self.steps(), self.progress(), reply@),
    {
        proof {
            use_type_invariant(&self);
        }
        let Player { steps, mark } = self;
        let mark = match mark {
            Mark::At(i) => if i >= steps.len() {
                Mark::At(i)
            } else {
                assert(step_views(steps@)[i as int] == steps@[i as int]@);
                match (&steps[i], reply) {
                    (Step::NeedYdotool, Reply::Installed(yes)) => match need_ydotool(yes) {
                        Ok(_) => Mark::At(i + 1),
                        Err(error) => Mark::Failed(error),
                    },
                    (Step::Attempt(_), Reply::Installed(yes)) => if yes {
                        Mark::Attempting(i)
                    } else {
                        Mark::At(i + 1)
                    },
                    (Step::Run(_), Reply::Ran(Ok(_))) => Mark::At(i + 1),
                    (Step::Run(_), Reply::Ran(Err(error))) => Mark::Failed(error),
                    (Step::Pause(_), Reply::Paused) => Mark::At(i + 1),
                    _ => Mark::At(i),
                }
            },
            Mark::Attempting(i) => {
                assert(i < steps.len());
                match reply {
                    Reply::Ran(Ok(output)) => if output.ok() {
                        Mark::Finished
                    } else {
                        Mark::At(i + 1)
                    },
                    Reply::Ran(Err(error)) => Mark::Failed(error),
                    _ => Mark::Attempting(i),
                }
            },
            Mark::Finished => Mark::Finished,
            Mark::Failed(error) => Mark::Failed(error),
        };
        Player { steps, mark }
    }
}

/* ── What holds of every walk ───────────────────────────────────── */

/// How far a script has got after some replies.
pub open spec fn played(steps: Seq<StepView>, replies: Seq<ReplyView>) -> Progress
    decreases replies.len(),
{
    if replies.len() == 0 {
        Progress::At(0)
    } else {
        after_reply(steps, played(steps, replies.drop_last()), replies.last())
    }
}

/// The number of steps that have been taken.
pub open spec fn taken(progress: Progress) -> nat {
    match progress {
        Progress::At(i) => i,
        Progress::Attempting(i) => i,
        _ => 0,
    }
}

/// A script that is over or has failed stays as it is.
pub proof fn lemma_script_stays(steps: Seq<StepView>, progress: Progress, reply: ReplyView)
    requires
        progress is Finished || progress is Failed,
    ensures
        after_reply(steps, progress, reply) == progress,
{
}

/// Whether a reply answers a request.
pub open spec fn answers(request: RequestView, reply: ReplyView) -> bool {
    match request {
        RequestView::Probe(_) => reply is Installed,
        RequestView::Run(_) => reply is Ran,
        RequestView::Pause(_) => reply is Paused,
        RequestView::Choose { .. } => reply is Chosen,
        RequestView::Finished => false,
        RequestView::Failed(_) => false,
    }
}

/// How much of a script is behind: two for each step, one for an attempt under way.
pub open spec fn behind(steps: Seq<StepView>, progress: Progress) -> nat {
    match progress {
        Progress::At(i) => 2 * i,
        Progress::Attempting(i) => 2 * i + 1,
        _ => 2 * steps.len() + 1,
    }
}

/// A script never gets stuck: every answer to its request takes it on, so it is over after a
/// number of answers that its length bounds.
pub proof fn lemma_answers_advance(steps: Seq<StepView>, progress: Progress, reply: ReplyView)
    requires
        answers(next_request(steps, progress), reply),
    ensures
        behind(steps, progress) < behind(steps, after_reply(steps, progress, reply)),
        behind(steps, after_reply(steps, progress, reply)) <= 2 * steps.len() + 1,
{
}

/// An attempt that succeeds ends a script; one that does not, or whose program is not installed,
/// takes it to the next step.
pub proof fn lemma_attempt_ends_or_goes_on(steps: Seq<StepView>, i: nat, output: OutputView)
    requires
        i < steps.len(),
        steps[i as int] is Attempt,
    ensures
        ({
            let command = steps[i as int]->Attempt_0;
            let tried = Progress::Attempting(i);
            let ran = ReplyView::Ran(Ok(output));
            &&& next_request(steps, Progress::At(i)) == RequestView::Probe(command.program)
            &&& after_reply(steps, Progress::At(i), ReplyView::Installed(false)) == Progress::At(
                i + 1,
            )
            &&& after_reply(steps, Progress::At(i), ReplyView::Installed(true)) == tried
            &&& next_request(steps, tried) == RequestView::Run(command)
            &&& after_reply(steps, tried, ran) == if output.success {
                Progress::Finished
            } else {
                Progress::At(i + 1)
            }
        }),
{
}

/// Steps are taken one at a time and in order.
pub proof fn lemma_steps_in_order(steps: Seq<StepView>, progress: Progress, reply: ReplyView)
    requires
        progress is At || progress is Attempting,
    ensures
        ({
            let next = after_reply(steps, progress, reply);
            ||| next == progress
            ||| progress is At && next == Progress::Attempting(taken(progress))
            ||| next == Progress::At(taken(progress) + 1)
            ||| next is Finished
            ||| next is Failed
        }),
{
}

/// Whether, during a walk, the check of ydotool at some step found it installed.
pub open spec fn found_ydotool(
    steps: Seq<StepView>,
    replies: Seq<ReplyView>,
    j: nat,
) -> bool {
    exists|k: int|
        0 <= k < replies.len() && #[trigger] played(steps, replies.take(k)) == Progress::At(j)
            && replies[k] == ReplyView::Installed(true)
}

proof fn lemma_attempts_are_attempts(steps: Seq<StepView>, replies: Seq<ReplyView>)
    requires
        played(steps, replies) is Attempting,
    ensures
        taken(played(steps, replies)) < steps.len(),
        steps[taken(played(steps, replies)) as int] is Attempt,
    decreases replies.len(),
{
    if played(steps, replies.drop_last()) is Attempting {
        lemma_attempts_are_attempts(steps, replies.drop_last());
    }
}

/// A walk that is past a check of ydotool has found ydotool installed.
pub proof fn lemma_past_check_found_ydotool(
    steps: Seq<StepView>,
    replies: Seq<ReplyView>,
    j: nat,
)
    requires
        j < steps.len(),
        steps[j as int] is NeedYdotool,
        played(steps, replies) is At || played(steps, replies) is Attempting,
        taken(played(steps, replies)) > j,
    ensures
        found_ydotool(steps, replies, j),
    decreases replies.len(),
{
    let before = replies.drop_last();
    let progress = played(steps, before);
    lemma_steps_in_order(steps, progress, replies.last());
    if taken(progress) > j {
        lemma_past_check_found_ydotool(steps, before, j);
        let k = choose|k: int|
            0 <= k < before.len() && #[trigger] played(steps, before.take(k)) == Progress::At(j)
                && before[k] == ReplyView::Installed(true);
        assert(before.take(k) =~= replies.take(k));
        assert(replies[k] == before[k]);
    } else {
        if progress is Attempting {
            lemma_attempts_are_attempts(steps, before);
        }
        let k = replies.len() - 1;
        assert(before =~= replies.take(k));
        assert(played(steps, replies.take(k)) == Progress::At(j));
    }
}

/// Whether every command of a script that runs ydotool stands behind a check of ydotool.
pub open spec fn guarded(steps: Seq<StepView>) -> bool {
    forall|i: int|
        0 <= i < steps.len() && #[trigger] steps[i] is Run && steps[i]->Run_0.program
            == "ydotool"@ ==> exists|j: int| 0 <= j < i && #[trigger] steps[j] is NeedYdotool
}

/// A guarded script never runs ydotool without having found it installed.
pub proof fn lemma_guarded_script_finds_ydotool(steps: Seq<StepView>, replies: Seq<ReplyView>)
    requires
        guarded(steps),
        played(steps, replies) is At,
        next_request(steps, played(steps, replies)) is Run,
        next_request(steps, played(steps, replies))->Run_0.program == "ydotool"@,
    ensures
        exists|j: nat| #[trigger] found_ydotool(steps, replies, j),
{
    let i = taken(played(steps, replies)) as int;
    assert(steps[i] is Run);
    let j = choose|j: int| 0 <= j < i && #[trigger] steps[j] is NeedYdotool;
    lemma_past_check_found_ydotool(steps, replies, j as nat);
    assert(found_ydotool(steps, replies, j as nat));
}

/// Where ydotool is not installed, a script that starts with a check of it fails at once and runs
/// nothing.
pub proof fn lemma_check_comes_first(steps: Seq<StepView>)
    requires
        steps.len() > 0,
        steps[0] is NeedYdotool,
    ensures
        next_request(steps, Progress::At(0)) == RequestView::Probe("ydotool"@),
        after_reply(steps, Progress::At(0), ReplyView::Installed(false)) == Progress::Failed(
            ydotool_missing(),
        ),
{
}

/// Each step asks for what it says, and for nothing else: a check for ydotool, an attempt for its
/// program, a command for that command, a pause for that pause.
pub proof fn lemma_steps_ask_for_what_they_say(steps: Seq<StepView>, i: nat)
    requires
        i < steps.len(),
    ensures
        ({
            let request = next_request(steps, Progress::At(i));
            match steps[i as int] {
                StepView::NeedYdotool => request == RequestView::Probe("ydotool"@),
                StepView::Attempt(command) => request == RequestView::Probe(command.program),
                StepView::Run(command) => request == RequestView::Run(command),
                StepView::Pause(ms) => request == RequestView::Pause(ms),
                StepView::Fail(reason) => request == RequestView::Failed(reason),
            }
        }),
        next_request(steps, Progress::At(steps.len())) == RequestView::Finished,
{
}

/// A command that was run takes the script on, whatever its program printed or reported; one that
/// could not be run ends it with that failure. The same holds of the failure of an attempt. A pause
/// and a check that finds ydotool take the script on too.
pub proof fn lemma_answers_lead_on(
    steps: Seq<StepView>,
    i: nat,
    output: OutputView,
    reason: Reason,
)
    requires
        i < steps.len(),
    ensures
        ({
            let (at, next) = (Progress::At(i), Progress::At(i + 1));
            let (ran, broken) = (ReplyView::Ran(Ok(output)), ReplyView::Ran(Err(reason)));
            match steps[i as int] {
                StepView::Run(_) => {
                    &&& after_reply(steps, at, ran) == next
                    &&& after_reply(steps, at, broken) == Progress::Failed(reason)
                },
                StepView::Attempt(_) => after_reply(steps, Progress::Attempting(i), broken)
                    == Progress::Failed(reason),
                StepView::Pause(_) => after_reply(steps, at, ReplyView::Paused) == next,
                StepView::NeedYdotool => {
                    &&& after_reply(steps, at, ReplyView::Installed(true)) == next
                    &&& after_reply(steps, at, ReplyView::Installed(false)) == Progress::Failed(
                        Reason::Missing { tool: "ydotool"@, hint: YDOTOOL_HINT@ },
                    )
                },
                StepView::Fail(_) => true,
            }
        }),
{
}

/// Only the answer to the request that is open moves a script.
pub proof fn lemma_other_replies_are_ignored(
    steps: Seq<StepView>,
    progress: Progress,
    reply: ReplyView,
)
    requires
        progress is Attempting ==> taken(progress) < steps.len() && steps[taken(
            progress,
        ) as int] is Attempt,
        !answers(next_request(steps, progress), reply),
    ensures
        after_reply(steps, progress, reply) == progress,
{
}

/// What a step, a request and a reply hold is what they are made of.
pub proof fn lemma_script_views_are_faithful(step: Step, request: Request, reply: Reply)
    ensures
        match step {
            Step::NeedYdotool => step@ is NeedYdotool,
            Step::Attempt(command) => step@ == StepView::Attempt(command@),
            Step::Run(command) => step@ == StepView::Run(command@),
            Step::Pause(ms) => step@ == StepView::Pause(ms),
            Step::Fail(error) => step@ == StepView::Fail(error@),
        },
        match request {
            Request::Probe(tool) => request@ == RequestView::Probe(tool@),
            Request::Run(command) => request@ == RequestView::Run(command@),
            Request::Pause(ms) => request@ == RequestView::Pause(ms),
            Request::Choose { windows, target } => request@ is Choose && request@->windows
                == window_views(windows@) && request@->target == target@,
            Request::Finished => request@ is Finished,
            Request::Failed(error) => request@ == RequestView::Failed(error@),
        },
        match reply {
            Reply::Installed(yes) => reply@ == ReplyView::Installed(yes),
            Reply::Ran(Ok(output)) => reply@ == ReplyView::Ran(Ok(output@)),
            Reply::Ran(Err(error)) => reply@ == ReplyView::Ran(Err(error@)),
            Reply::Paused => reply@ is Paused,
            Reply::Chosen(index) => reply@ == ReplyView::Chosen(index),
        },
{
}

/// A list of steps is looked at step by step, in order.
pub proof fn lemma_step_views_are_the_steps(steps: Seq<Step>, i: int)
    requires
        0 <= i < steps.len(),
    ensures
        step_views(steps).len() == steps.len(),
        step_views(steps)[i] == steps[i]@,
{
}

} // verus!
