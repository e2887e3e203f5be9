//! The steady-state loop, as a machine that the caller drives.
//!
//! The caller performs what an [`Action`] asks for (waits for the next file
//! event, resolves a path, runs the command) and hands the outcome back as an
//! [`Input`]. The machine decides: which events matter, whether a resolved
//! path is watched, and what a failure leads to.

use vstd::prelude::*;
use vstd::string::*;
use crate::command::{
    names_program, parse_invocation, judge, texts, verdict, words, CommandError, Invocation,
    RunReport,
};
use crate::watch::WatchSet;

verus! {

/// For how long the source of events gathers the changes of one path before
/// it hands on a single event, in milliseconds.
pub const DEBOUNCE_MILLIS: u64 = 250;

/// What happened to a file.
#[derive(Debug, Clone, Copy, PartialEq, Eq)]
pub enum EventKind {
    /// Its content was written.
    Write,
    /// Anything else.
    Other,
}

/// A change that the source of events reports.
#[derive(Debug, Clone, PartialEq, Eq)]
pub struct FileEvent {
    pub kind: EventKind,
    /// The path as the source reported it, not yet resolved.
    pub path: Vec<u8>,
}

/// What a failure in the steady state leads to.
#[derive(Debug, Clone, Copy, PartialEq, Eq)]
pub enum Policy {
    /// The failure ends the loop.
    Abort,
    /// The failure is reported and the loop goes on with the next event.
    Continue,
}

/// A failure in the steady state.
#[derive(Debug, Clone, PartialEq, Eq)]
pub enum DispatchError {
    /// The path of a write event could not be resolved.
    EventPath,
    /// The command failed.
    Command(CommandError),
}

impl DispatchError {
    /// The text shown for this error.
    pub open spec fn text(&self) -> Seq<char> {
        match self {
            DispatchError::EventPath => "Could not resolve the path of an event"@,
            DispatchError::Command(error) => error.text(),
        }
    }

    /// Renders the error for a reader.
    pub fn message(&self) -> (m: String)
        ensures
            m@ == self.text(),
    {
        match self {
            DispatchError::EventPath => "Could not resolve the path of an event".to_owned(),
            DispatchError::Command(error) => error.message(),
        }
    }
}

/// Where the loop stands, by what it awaits.
#[derive(Debug, Clone, Copy, PartialEq, Eq)]
pub enum Phase {
    /// The next file event.
    Waiting,
    /// The resolved form of a written path.
    Resolving,
    /// The end of a run of the command.
    Running,
    /// Nothing: the loop has ended.
    Stopped,
}

/// What the caller hands to the machine.
#[derive(Debug, Clone, PartialEq, Eq)]
pub enum Input {
    /// A file event arrived.
    Event(FileEvent),
    /// The path was resolved to the one given, or could not be resolved.
    Resolved(Option<Vec<u8>>),
    /// The run of the command ended as reported.
    Finished(RunReport),
}

/// What the caller is to do next.
#[derive(Debug, Clone, PartialEq, Eq)]
pub enum Action {
    /// Nothing new: hand over what the phase awaits.
    Await,
    /// Resolve this path and hand back the result.
    Resolve(Vec<u8>),
    /// Run this command to its end and hand back the report.
    Run(Invocation),
    /// Report this failure, then go on.
    Report(DispatchError),
    /// Report this failure and end the loop.
    Abort(DispatchError),
    /// The loop has ended: there is nothing left to do.
    Halt,
}

/// An [`Action`] as contracts speak of it.
pub enum ActionView {
    Await,
    Resolve(Seq<u8>),
    Run { program: Seq<char>, arguments: Seq<Seq<char>> },
    Report(DispatchError),
    Abort(DispatchError),
    Halt,
}

impl View for Action {
    type V = ActionView;

    open spec fn view(&self) -> ActionView {
        match self {
            Action::Await => ActionView::Await,
            Action::Resolve(path) => ActionView::Resolve(path@),
            Action::Run(invocation) => ActionView::Run {
                program: invocation.program@,
                arguments: texts(invocation.arguments@),
            },
            Action::Report(error) => ActionView::Report(*error),
            Action::Abort(error) => ActionView::Abort(*error),
            Action::Halt => ActionView::Halt,
        }
    }
}

/// Why a dispatcher could not be made.
#[derive(Debug, Clone, PartialEq, Eq)]
pub enum ConfigError {
    /// The command holds no word, so there is no program to run.
    NoProgram,
}

impl ConfigError {
    /// The text shown for this error.
    pub open spec fn text(&self) -> Seq<char> {
        "The command names no program"@
    }

    /// Renders the error for a reader.
    pub fn message(&self) -> (m: String)
        ensures
            m@ == self.text(),
    {
        "The command names no program".to_owned()
    }
}

/// The fixed settings of the loop: what is watched, what to run, and what a
/// failure leads to.
#[derive(Debug, PartialEq, Eq)]
pub struct Dispatcher {
    watch: WatchSet,
    command: String,
    policy: Policy,
}

impl Dispatcher {
    /// The watched paths.
    pub closed spec fn watched(&self) -> Seq<Seq<u8>> {
        self.watch@
    }

    /// The command, as it was given.
    pub closed spec fn command(&self) -> Seq<char> {
        self.command@
    }

    /// What a failure leads to.
    pub closed spec fn policy(&self) -> Policy {
        self.policy
    }

    /// Whether the settings are sound: no path is watched twice, and the
    /// command names a program.
    pub open spec fn wf(&self) -> bool {
        &&& self.watched().no_duplicates()
        &&& names_program(self.command())
    }

    #[verifier::type_invariant]
    pub open spec fn inv(self) -> bool {
        self.wf()
    }

    /// Where a failure leads, and what the caller is to do about it.
    pub open spec fn on_failure(&self, error: DispatchError) -> (Phase, ActionView) {
        match self.policy() {
            Policy::Abort => (Phase::Stopped, ActionView::Abort(error)),
            Policy::Continue => (Phase::Waiting, ActionView::Report(error)),
        }
    }

    /// The run of the command: it is split anew each time.
    pub open spec fn run_action(&self) -> ActionView {
        ActionView::Run {
            program: words(self.command())[0],
            arguments: words(self.command()).skip(1),
        }
    }

    /// The phase that follows `phase` on `input`, and what the caller is to
    /// do next.
    ///
    /// While waiting, only a write event matters: its path is to be resolved.
    /// A resolved path starts the command exactly when it is watched. A run
    /// that did not end in success is a failure, as is a path that could not
    /// be resolved. An input that the phase does not await is discarded, and
    /// once stopped the loop stays stopped.
    pub open spec fn next(&self, phase: Phase, input: Input) -> (Phase, ActionView) {
        match phase {
            Phase::Waiting => match input {
                Input::Event(event) => if event.kind is Write {
                    (Phase::Resolving, ActionView::Resolve(event.path@))
                } else {
                    (Phase::Waiting, ActionView::Await)
                },
                _ => (Phase::Waiting, ActionView::Await),
            },
            Phase::Resolving => match input {
                Input::Resolved(Some(path)) => if self.watched().contains(path@) {
                    (Phase::Running, self.run_action())
                } else {
                    (Phase::Waiting, ActionView::Await)
                },
                Input::Resolved(None) => self.on_failure(DispatchError::EventPath),
                _ => (Phase::Resolving, ActionView::Await),
            },
            Phase::Running => match input {
                Input::Finished(report) => match verdict(report) {
                    Ok(_) => (Phase::Waiting, ActionView::Await),
                    Err(error) => self.on_failure(DispatchError::Command(error)),
                },
                _ => (Phase::Running, ActionView::Await),
            },
            Phase::Stopped => (Phase::Stopped, ActionView::Halt),
        }
    }

    /// The settings of a loop. A command without a word is refused: there
    /// would be no program to run.
    pub fn new(watch: WatchSet, command: String, policy: Policy) -> (r: Result<
        Dispatcher,
        ConfigError,
    >)
        ensures
            r is Ok <==> names_program(command@),
            r is Ok ==> {
                &&& r->Ok_0.wf()
                &&& r->Ok_0.watched() == watch@
                &&& r->Ok_0.command() == command@
                &&& r->Ok_0.policy() == policy
            },
            r is Err ==> r->Err_0 == ConfigError::NoProgram,
    {
        proof {
            use_type_invariant(&watch);
        }
        if parse_invocation(command.as_str()).is_some() {
            Ok(Dispatcher { watch, command, policy })
        } else {
            Err(ConfigError::NoProgram)
        }
    }

    /// The watched paths, for the caller to register them.
    pub fn watch_set(&self) -> (set: &WatchSet)
        ensures
            set@ == self.watched(),
            set.wf(),
    {
        proof {
            use_type_invariant(self);
        }
        &self.watch
    }

    /// The phase in which a loop starts.
    pub fn start(&self) -> (phase: Phase)
        ensures
            phase == Phase::Waiting,
    {
        Phase::Waiting
    }

    fn fail(&self, error: DispatchError) -> (r: (Phase, Action))
        ensures
            r.0 == self.on_failure(error).0,
            r.1@ == self.on_failure(error).1,
    {
        match self.policy {
            Policy::Abort => (Phase::Stopped, Action::Abort(error)),
            Policy::Continue => (Phase::Waiting, Action::Report(error)),
        }
    }

    /// Takes one step of the loop.
    pub fn step(&self, phase: Phase, input: Input) -> (r: (Phase, Action))
        ensures
            r.0 == self.next(phase, input).0,
            r.1@ == self.next(phase, input).1,
    {
        proof {
            use_type_invariant(self);
        }
        match phase {
            Phase::Waiting => match input {
                Input::Event(event) => match event.kind {
                    EventKind::Write => (Phase::Resolving, Action::Resolve(event.path)),
                    EventKind::Other => (Phase::Waiting, Action::Await),
                },
                _ => (Phase::Waiting, Action::Await),
            },
            Phase::Resolving => match input {
                Input::Resolved(Some(path)) => {
                    if self.watch.contains(&path) {
                        match parse_invocation(self.command.as_str()) {
                            Some(invocation) => (Phase::Running, Action::Run(invocation)),
                            None => {
                                // The command names a program, so it has words.
                                proof {
                                    assert(false);
                                }
                                (Phase::Stopped, Action::Halt)
                            },
                        }
                    } else {
                        (Phase::Waiting, Action::Await)
                    }
                },
                Input::Resolved(None) => self.fail(DispatchError::EventPath),
                _ => (Phase::Resolving, Action::Await),
            },
            Phase::Running => match input {
                Input::Finished(report) => match judge(report) {
                    Ok(_) => (Phase::Waiting, Action::Await),
                    Err(error) => self.fail(DispatchError::Command(error)),
                },
                _ => (Phase::Running, Action::Await),
            },
            Phase::Stopped => (Phase::Stopped, Action::Halt),
        }
    }
}

/// A write event runs the command exactly when the path it resolves to is
/// watched: the event asks for its path to be resolved, and the resolved
/// path then either starts the run or sends the loop back to waiting.
pub proof fn law_write_runs_command_iff_watched(d: Dispatcher, event: FileEvent, resolved: Vec<u8>)
    requires
        d.wf(),
        event.kind is Write,
    ensures
        d.next(Phase::Waiting, Input::Event(event)) == (
            Phase::Resolving,
            ActionView::Resolve(event.path@),
        ),
        d.watched().contains(resolved@) ==> d.next(
            Phase::Resolving,
            Input::Resolved(Some(resolved)),
        ) == (Phase::Running, d.run_action()),
        !d.watched().contains(resolved@) ==> d.next(
            Phase::Resolving,
            Input::Resolved(Some(resolved)),
        ) == (Phase::Waiting, ActionView::Await),
{
}

/// The command is run on no other occasion: a step asks for a run only when
/// it is handed a resolved path that is watched while a path is being
/// resolved.
pub proof fn law_run_only_for_watched_path(d: Dispatcher, phase: Phase, input: Input)
    requires
        d.wf(),
        d.next(phase, input).1 is Run,
    ensures
        phase == Phase::Resolving,
        input is Resolved,
        input->Resolved_0 is Some,
        d.watched().contains(input->Resolved_0->Some_0@),
        d.next(phase, input) == (Phase::Running, d.run_action()),
{
}

/// A run that did not end in success is never taken for a success: under
/// either policy the failure is handed to the caller, and under
/// [`Policy::Abort`] the loop ends.
pub proof fn law_failed_run_is_reported(d: Dispatcher, report: RunReport)
    requires
        d.wf(),
        verdict(report) is Err,
    ensures
        d.policy() == Policy::Abort ==> d.next(Phase::Running, Input::Finished(report)) == (
            Phase::Stopped,
            ActionView::Abort(DispatchError::Command(verdict(report)->Err_0)),
        ),
        d.policy() == Policy::Continue ==> d.next(Phase::Running, Input::Finished(report)) == (
            Phase::Waiting,
            ActionView::Report(DispatchError::Command(verdict(report)->Err_0)),
        ),
{
}

/// A failure is handed out only where there was one: for a path that could
/// not be resolved, or for a run whose verdict is a failure. And the loop
/// ends only under [`Policy::Abort`].
pub proof fn law_reported_failure_is_real(d: Dispatcher, phase: Phase, input: Input)
    requires
        d.wf(),
    ensures
        (d.next(phase, input).1 is Report || d.next(phase, input).1 is Abort) ==> {
            ||| phase == Phase::Resolving && input == Input::Resolved(None)
            ||| phase == Phase::Running && input is Finished && verdict(input->Finished_0) is Err
        },
        d.next(phase, input).0 == Phase::Stopped ==> phase == Phase::Stopped || d.policy()
            == Policy::Abort,
{
}

/// Once stopped, the loop stays stopped and asks for nothing.
pub proof fn law_stopped_is_final(d: Dispatcher, input: Input)
    ensures
        d.next(Phase::Stopped, input) == (Phase::Stopped, ActionView::Halt),
{
}

/// What is watched counts only by which paths it holds: two dispatchers with
/// the same command and policy whose sets hold the same paths take the same
/// steps, however often or in whatever order the paths were given.
pub proof fn law_steps_depend_on_members(a: Dispatcher, b: Dispatcher, phase: Phase, input: Input)
    requires
        a.command() == b.command(),
        a.policy() == b.policy(),
        forall|path: Seq<u8>| a.watched().contains(path) <==> b.watched().contains(path),
    ensures
        a.next(phase, input) == b.next(phase, input),
{
}

} // verus!
