//! Running a shell command for a project and forwarding what it prints.
//!
//! The command's standard output and standard error are forwarded line by
//! line, each line behind a prefix that names the project. The two streams
//! are drained side by side, and the command's exit status is asked for only
//! when both are at their end, so that nothing the command printed is lost,
//! whatever its exit status is.

pub mod laws;

use vstd::prelude::*;
use vstd::string::*;
use crate::config::project::Project;
use crate::config::Config;
use crate::errors::{AppError, ErrorView};
use crate::names::NameSet;
use crate::numbers::{parsed, IntFailure};
use crate::sync::{chosen, projects_view, result_view, select_projects};
use crate::text::slice;
use crate::util::{lemma_wraps_itself, paint, wraps, Colour};

verus! {

/// The width of the prefix before a line of standard output.
pub const OUT_WIDTH: usize = 25;

/// The width of the prefix before a line of standard error, which has the
/// marker `ERR` before it.
pub const ERR_WIDTH: usize = 21;

/// `n` blanks.
pub open spec fn blanks(n: nat) -> Seq<char> {
    Seq::new(n, |i: int| ' ')
}

/// `name` in exactly `width` characters: cut off behind `width` characters,
/// and filled up with blanks on the left.
pub open spec fn fitted(name: Seq<char>, width: nat) -> Seq<char> {
    let kept = if name.len() > width {
        name.take(width as int)
    } else {
        name
    };
    blanks((width - kept.len()) as nat) + kept
}

/// The prefix before a line of the project `name`.
pub open spec fn prefix_text(name: Seq<char>, mark_err: bool) -> Seq<char> {
    fitted(
        name,
        if mark_err {
            ERR_WIDTH as nat
        } else {
            OUT_WIDTH as nat
        },
    ) + " |"@
}

/// A forwarded line: the marker if there is one, the prefix, the line, with
/// one blank between each two.
pub open spec fn framed(marker: Option<Seq<char>>, prefix: Seq<char>, line: Seq<char>) -> Seq<
    char,
> {
    match marker {
        Some(m) => m + " "@ + prefix + " "@ + line,
        None => prefix + " "@ + line,
    }
}

/// The marker before a line: `marker` for a line of standard error, none
/// for a line of standard output.
pub open spec fn marked(marker: Seq<char>, mark_err: bool) -> Option<Seq<char>> {
    if mark_err {
        Some(marker)
    } else {
        None
    }
}

/// The prefix before a line of the project `name`: the name right-aligned in
/// 25 characters, or in 21 for a line of standard error, then ` |`.
pub fn prefix(name: &str, mark_err: bool) -> (text: String)
    ensures
        text@ == prefix_text(name@, mark_err),
{
    let width: usize = if mark_err {
        ERR_WIDTH
    } else {
        OUT_WIDTH
    };
    let n = name.unicode_len();
    let kept: &str = if n > width {
        slice(name, 0, width)
    } else {
        name
    };
    let fill: usize = if n > width {
        0
    } else {
        width - n
    };
    let mut text = String::new();
    let mut i: usize = 0;
    proof {
        reveal_strlit(" ");
    }
    while i < fill
        invariant
            i <= fill,
            text@ == blanks(i as nat),
            " "@ == seq![' '],
        decreases fill - i,
    {
        text.append(" ");
        assert(text@ =~= blanks((i + 1) as nat));
        i += 1;
    }
    text.append(kept);
    text.append(" |");
    text
}

/// A forwarded line.
pub fn frame(marker: Option<&str>, prefix: &str, line: &str) -> (text: String)
    ensures
        text@ == framed(
            match marker {
                Some(m) => Some(m@),
                None => None,
            },
            prefix@,
            line@,
        ),
{
    let mut text = String::new();
    if let Some(m) = marker {
        text.append(m);
        text.append(" ");
    }
    text.append(prefix);
    text.append(" ");
    text.append(line);
    proof {
        match marker {
            Some(m) => {
                assert(text@ =~= m@ + " "@ + prefix@ + " "@ + line@);
            },
            None => {
                assert(text@ =~= prefix@ + " "@ + line@);
            },
        }
    }
    text
}

/// Whether `text` is `line` behind the marker `marker` and the prefix
/// `painted`, which are the word `ERR` and the prefix of the project `name`,
/// plain or painted.
pub open spec fn is_framed(
    text: Seq<char>,
    marker: Seq<char>,
    painted: Seq<char>,
    name: Seq<char>,
    line: Seq<char>,
    mark_err: bool,
) -> bool {
    &&& wraps(marker, "ERR"@)
    &&& wraps(painted, prefix_text(name, mark_err))
    &&& text == framed(marked(marker, mark_err), painted, line)
}

/// Whether `text` is `line` behind the prefix of the project `name`, plain
/// or painted, and behind the marker where one is due.
pub open spec fn carries(text: Seq<char>, name: Seq<char>, line: Seq<char>, mark_err: bool) -> bool {
    exists|marker: Seq<char>, painted: Seq<char>|
        is_framed(text, marker, painted, name, line, mark_err)
}

/// The text to print for `line` of the project `name`. On a terminal the
/// prefix is painted in `colour`, and a line of standard error has a red
/// `ERR` before it; elsewhere the prefix is plain, and the marker is the
/// plain word.
pub fn output_line(name: &str, line: &str, colour: Colour, atty: bool, mark_err: bool) -> (text:
    String)
    ensures
        !atty ==> text@ == framed(marked("ERR"@, mark_err), prefix_text(name@, mark_err), line@),
        carries(text@, name@, line@, mark_err),
{
    let plain = prefix(name, mark_err);
    proof {
        lemma_wraps_itself(plain@);
        lemma_wraps_itself("ERR"@);
    }
    if atty {
        let painted = paint(colour, plain.as_str());
        if mark_err {
            let marker = paint(Colour::Red, "ERR");
            let text = frame(Some(marker.as_str()), painted.as_str(), line);
            assert(is_framed(text@, marker@, painted@, name@, line@, mark_err));
            text
        } else {
            let text = frame(None, painted.as_str(), line);
            assert(is_framed(text@, "ERR"@, painted@, name@, line@, mark_err));
            text
        }
    } else {
        if mark_err {
            let text = frame(Some("ERR"), plain.as_str(), line);
            assert(is_framed(text@, "ERR"@, plain@, name@, line@, mark_err));
            text
        } else {
            let text = frame(None, plain.as_str(), line);
            assert(is_framed(text@, "ERR"@, plain@, name@, line@, mark_err));
            text
        }
    }
}

/// What becomes of a command that has ended with `code`: only a command
/// that ended with the code 0 has succeeded. One that ended with another
/// code has failed, and so has one that was ended by a signal and has no
/// code.
pub open spec fn exit_verdict(code: Option<i32>) -> Result<(), ErrorView> {
    if code == Some(0i32) {
        Ok(())
    } else {
        Err(ErrorView::UserError("External command failed."@))
    }
}

/// What becomes of a command that has ended with `code`.
pub fn exit_result(code: Option<i32>) -> (result: Result<(), AppError>)
    ensures
        result_view(result) == exit_verdict(code),
{
    match code {
        Some(0) => Ok(()),
        _ => Err(AppError::UserError(String::from_str("External command failed."))),
    }
}

/// The arguments of the shell for `cmd`: what follows the program in
/// `shell`, then the command.
pub open spec fn shell_args(shell: Seq<Seq<char>>, cmd: Seq<char>) -> Seq<Seq<char>> {
    shell.skip(1).push(cmd)
}

/// The program to start and its arguments for running `cmd` with `shell`.
/// A shell without a program is a mistake in the settings.
pub fn command_line(shell: &Vec<String>, cmd: &str) -> (line: Result<(String, Vec<String>), AppError>)
    ensures
        match line {
            Ok((program, args)) => shell@.len() > 0 && program@ == shell@[0]@ && args.deep_view()
                == shell_args(shell.deep_view(), cmd@),
            Err(e) => shell@.len() == 0 && e@ == ErrorView::UserError(
                "shell entry in project settings must have at least one element"@,
            ),
        },
{
    if shell.len() == 0 {
        return Err(
            AppError::UserError(
                String::from_str("shell entry in project settings must have at least one element"),
            ),
        );
    }
    let program = shell[0].clone();
    let mut args: Vec<String> = Vec::new();
    let mut i: usize = 1;
    while i < shell.len()
        invariant
            1 <= i <= shell.len(),
            args.len() == i - 1,
            forall|k: int| 0 <= k < args.len() ==> args@[k]@ == shell@[k + 1]@,
        decreases shell.len() - i,
    {
        args.push(shell[i].clone());
        i += 1;
    }
    args.push(String::from_str(cmd));
    assert(args.deep_view() =~= shell_args(shell.deep_view(), cmd@));
    Ok((program, args))
}

/// What a forwarder does next.
#[derive(Debug, PartialEq, Eq)]
pub enum ForwardAction {
    /// Print this text, then read the next line.
    Print(String),
    /// Stop: the stream is at its end, or could not be read.
    Finish(Result<(), AppError>),
}

/// An action of a forwarder as plain values.
pub enum ForwardView {
    Print(Seq<char>),
    Finish(Result<(), ErrorView>),
}

impl View for ForwardAction {
    type V = ForwardView;

    open spec fn view(&self) -> ForwardView {
        match self {
            ForwardAction::Print(t) => ForwardView::Print(t@),
            ForwardAction::Finish(r) => ForwardView::Finish(result_view(*r)),
        }
    }
}

/// What was read from a stream, as plain values: a line, the end, or a
/// failure.
pub open spec fn read_view(read: Result<Option<String>, AppError>) -> Result<
    Option<Seq<char>>,
    ErrorView,
> {
    match read {
        Ok(Some(line)) => Ok(Some(line@)),
        Ok(None) => Ok(None),
        Err(e) => Err(e@),
    }
}



/// Whether `action` answers what was read from a stream: a line is printed,
/// whole, behind its prefix; the end of the stream ends the forwarding; a
/// failure ends it as failed.
pub open spec fn answers(
    action: ForwardView,
    read: Result<Option<Seq<char>>, ErrorView>,
    name: Seq<char>,
    mark_err: bool,
) -> bool {
    match read {
        Ok(Some(line)) => action matches ForwardView::Print(text) && carries(
            text,
            name,
            line,
            mark_err,
        ),
        Ok(None) => action == ForwardView::Finish(Ok(())),
        Err(e) => action == ForwardView::Finish(Err(e)),
    }
}

/// Forwards one stream of a command, line by line.
#[derive(Debug)]
pub struct Forwarder {
    pub name: String,
    pub colour: Colour,
    pub atty: bool,
    pub mark_err: bool,
}

impl Forwarder {
    /// What to do with what was read from the stream.
    pub fn next(&self, read: Result<Option<String>, AppError>) -> (action: ForwardAction)
        ensures
            answers(action@, read_view(read), self.name@, self.mark_err),
            !self.atty ==> (read matches Ok(Some(line)) ==> action@ == ForwardView::Print(
                framed(
                    marked("ERR"@, self.mark_err),
                    prefix_text(self.name@, self.mark_err),
                    line@,
                ),
            )),
    {
        match read {
            Ok(Some(line)) => ForwardAction::Print(
                output_line(
                    self.name.as_str(),
                    line.as_str(),
                    self.colour,
                    self.atty,
                    self.mark_err,
                ),
            ),
            Ok(None) => ForwardAction::Finish(Ok(())),
            Err(e) => ForwardAction::Finish(Err(e)),
        }
    }
}

/// How far a run has come: what it is waiting to hear of.
#[derive(Clone, Copy, Debug, PartialEq, Eq)]
pub enum RunPhase {
    /// The start of the command.
    Spawning,
    /// The end of standard error.
    ForwardingStderr,
    /// The end of standard output.
    JoiningStdout,
    /// The exit status.
    Waiting,
    /// Nothing: the run has ended.
    Ended,
}

/// What the caller reports back of a run.
#[derive(Debug, PartialEq, Eq)]
pub enum RunEvent {
    /// The command was started, or could not be.
    Spawned(Result<(), AppError>),
    /// Standard error was forwarded to its end, or could not be read.
    StderrForwarded(Result<(), AppError>),
    /// Standard output was forwarded to its end, or could not be read.
    StdoutForwarded(Result<(), AppError>),
    /// The command has ended with this code, or could not be waited for.
    Exited(Result<Option<i32>, AppError>),
}

/// An event of a run as plain values.
pub enum RunEventView {
    Spawned(Result<(), ErrorView>),
    StderrForwarded(Result<(), ErrorView>),
    StdoutForwarded(Result<(), ErrorView>),
    Exited(Result<Option<i32>, ErrorView>),
}

impl View for RunEvent {
    type V = RunEventView;

    open spec fn view(&self) -> RunEventView {
        match self {
            RunEvent::Spawned(r) => RunEventView::Spawned(result_view(*r)),
            RunEvent::StderrForwarded(r) => RunEventView::StderrForwarded(result_view(*r)),
            RunEvent::StdoutForwarded(r) => RunEventView::StdoutForwarded(result_view(*r)),
            RunEvent::Exited(Ok(code)) => RunEventView::Exited(Ok(*code)),
            RunEvent::Exited(Err(e)) => RunEventView::Exited(Err(e@)),
        }
    }
}

/// What the caller of a run is asked to do next.
#[derive(Debug, PartialEq, Eq)]
pub enum RunAction {
    /// Start `program` with `args` in `workdir`, with the name of the project
    /// in the variable `FW_PROJECT` of its environment, without input, and
    /// with both its outputs piped; begin to forward its standard output on a
    /// thread of its own.
    Spawn { program: String, args: Vec<String>, workdir: String, project_name: String },
    /// Forward standard error to its end, on this thread.
    ForwardStderr,
    /// Wait until standard output is forwarded to its end.
    JoinStdout,
    /// Wait for the command to end.
    Wait,
    /// Stop: the command has run, or could not be run.
    Finish(Result<(), AppError>),
}

/// An action of a run as plain values.
pub enum RunActionView {
    Spawn {
        program: Seq<char>,
        args: Seq<Seq<char>>,
        workdir: Seq<char>,
        project_name: Seq<char>,
    },
    ForwardStderr,
    JoinStdout,
    Wait,
    Finish(Result<(), ErrorView>),
}

impl View for RunAction {
    type V = RunActionView;

    open spec fn view(&self) -> RunActionView {
        match self {
            RunAction::Spawn { program, args, workdir, project_name } => RunActionView::Spawn {
                program: program@,
                args: args.deep_view(),
                workdir: workdir@,
                project_name: project_name@,
            },
            RunAction::ForwardStderr => RunActionView::ForwardStderr,
            RunAction::JoinStdout => RunActionView::JoinStdout,
            RunAction::Wait => RunActionView::Wait,
            RunAction::Finish(r) => RunActionView::Finish(result_view(*r)),
        }
    }
}

/// The next phase and action of a run in `phase` that hears of `event`. Each
/// step is taken only after the one before it has succeeded; the first
/// failure ends the run with that failure.
pub open spec fn run_step(phase: RunPhase, event: RunEventView) -> (RunPhase, RunActionView) {
    match (phase, event) {
        (RunPhase::Spawning, RunEventView::Spawned(Ok(_))) => (
            RunPhase::ForwardingStderr,
            RunActionView::ForwardStderr,
        ),
        (RunPhase::Spawning, RunEventView::Spawned(Err(e))) => (
            RunPhase::Ended,
            RunActionView::Finish(Err(e)),
        ),
        (RunPhase::ForwardingStderr, RunEventView::StderrForwarded(Ok(_))) => (
            RunPhase::JoiningStdout,
            RunActionView::JoinStdout,
        ),
        (RunPhase::ForwardingStderr, RunEventView::StderrForwarded(Err(e))) => (
            RunPhase::Ended,
            RunActionView::Finish(Err(e)),
        ),
        (RunPhase::JoiningStdout, RunEventView::StdoutForwarded(Ok(_))) => (
            RunPhase::Waiting,
            RunActionView::Wait,
        ),
        (RunPhase::JoiningStdout, RunEventView::StdoutForwarded(Err(e))) => (
            RunPhase::Ended,
            RunActionView::Finish(Err(e)),
        ),
        (RunPhase::Waiting, RunEventView::Exited(Ok(code))) => (
            RunPhase::Ended,
            RunActionView::Finish(exit_verdict(code)),
        ),
        (RunPhase::Waiting, RunEventView::Exited(Err(e))) => (
            RunPhase::Ended,
            RunActionView::Finish(Err(e)),
        ),
        _ => (
            RunPhase::Ended,
            RunActionView::Finish(Err(ErrorView::InternalError("unexpected event"@))),
        ),
    }
}

/// One command on its way from its start to its exit status.
#[derive(Debug)]
pub struct Runner {
    pub phase: RunPhase,
    pub project_name: String,
    pub colour: Colour,
}

impl Runner {
    /// What follows `event`: the run moves on and names the next action.
    pub fn next(&mut self, event: RunEvent) -> (action: RunAction)
        ensures
            (final(self).phase, action@) == run_step(old(self).phase, event@),
            final(self).project_name == old(self).project_name,
            final(self).colour == old(self).colour,
    {
        let phase = self.phase;
        self.phase = RunPhase::Ended;
        match (phase, event) {
            (RunPhase::Spawning, RunEvent::Spawned(Ok(_))) => {
                self.phase = RunPhase::ForwardingStderr;
                RunAction::ForwardStderr
            },
            (RunPhase::Spawning, RunEvent::Spawned(Err(e))) => RunAction::Finish(Err(e)),
            (RunPhase::ForwardingStderr, RunEvent::StderrForwarded(Ok(_))) => {
                self.phase = RunPhase::JoiningStdout;
                RunAction::JoinStdout
            },
            (RunPhase::ForwardingStderr, RunEvent::StderrForwarded(Err(e))) => RunAction::Finish(
                Err(e),
            ),
            (RunPhase::JoiningStdout, RunEvent::StdoutForwarded(Ok(_))) => {
                self.phase = RunPhase::Waiting;
                RunAction::Wait
            },
            (RunPhase::JoiningStdout, RunEvent::StdoutForwarded(Err(e))) => RunAction::Finish(
                Err(e),
            ),
            (RunPhase::Waiting, RunEvent::Exited(Ok(code))) => RunAction::Finish(exit_result(code)),
            (RunPhase::Waiting, RunEvent::Exited(Err(e))) => RunAction::Finish(Err(e)),
            _ => RunAction::Finish(Err(AppError::InternalError("unexpected event"))),
        }
    }

    /// The forwarder of the command's standard output.
    pub fn stdout_forwarder(&self, atty: bool) -> (forwarder: Forwarder)
        ensures
            forwarder.name@ == self.project_name@,
            forwarder.colour == self.colour,
            forwarder.atty == atty,
            !forwarder.mark_err,
    {
        Forwarder { name: self.project_name.clone(), colour: self.colour, atty, mark_err: false }
    }

    /// The forwarder of the command's standard error.
    pub fn stderr_forwarder(&self, atty: bool) -> (forwarder: Forwarder)
        ensures
            forwarder.name@ == self.project_name@,
            forwarder.colour == self.colour,
            forwarder.atty == atty,
            forwarder.mark_err,
    {
        Forwarder { name: self.project_name.clone(), colour: self.colour, atty, mark_err: true }
    }
}

/// The run of `cmd` with `shell` in `workdir` for the project
/// `project_name`, and its first action: to start the shell. A shell without
/// a program ends the run at once.
pub fn spawn_maybe(
    shell: &Vec<String>,
    cmd: &str,
    workdir: &str,
    project_name: &str,
    color: Colour,
) -> (start: (Runner, RunAction))
    ensures
        start.0.project_name@ == project_name@,
        start.0.colour == color,
        shell@.len() > 0 ==> start.0.phase == RunPhase::Spawning && start.1@ == (
            RunActionView::Spawn {
                program: shell@[0]@,
                args: shell_args(shell.deep_view(), cmd@),
                workdir: workdir@,
                project_name: project_name@,
            }
        ),
        shell@.len() == 0 ==> start.0.phase == RunPhase::Ended && start.1@
            == RunActionView::Finish(
            Err(
                ErrorView::UserError(
                    "shell entry in project settings must have at least one element"@,
                ),
            ),
        ),
{
    match command_line(shell, cmd) {
        Ok((program, args)) => (
            Runner {
                phase: RunPhase::Spawning,
                project_name: String::from_str(project_name),
                colour: color,
            },
            RunAction::Spawn {
                program,
                args,
                workdir: String::from_str(workdir),
                project_name: String::from_str(project_name),
            },
        ),
        Err(e) => (
            Runner {
                phase: RunPhase::Ended,
                project_name: String::from_str(project_name),
                colour: color,
            },
            RunAction::Finish(Err(e)),
        ),
    }
}

/// The text of a number that could not be read, as the user sees it.
pub open spec fn type_error(failure: IntFailure) -> ErrorView {
    ErrorView::UserError("Type error: "@ + crate::numbers::failure_text(failure))
}

/// The number of threads of the pool that runs commands side by side. It can
/// be fixed once; a second attempt is a fault of the program.
#[derive(Debug)]
pub struct Threads {
    fixed: Option<usize>,
}

/// The text with which a second attempt to fix the number of threads is
/// refused.
pub open spec fn fixed_twice() -> ErrorView {
    ErrorView::InternalError(
        "Tried to initialize rayon more than once (this is a software bug on fw side, please file an issue at https://github.com/brocode/fw/issues/new )"@,
    )
}

impl Threads {
    /// The number that was fixed, if one was.
    pub closed spec fn spec_fixed(&self) -> Option<usize> {
        self.fixed
    }

    /// A pool whose number of threads is still open.
    pub fn new() -> (threads: Threads)
        ensures
            threads.spec_fixed() is None,
    {
        Threads { fixed: None }
    }

    /// The number that was fixed, if one was.
    #[verifier::when_used_as_spec(spec_fixed)]
    pub fn fixed(&self) -> (n: Option<usize>)
        ensures
            n == self.spec_fixed(),
    {
        self.fixed
    }
}

/// Fixes the number of threads to what `parallel_raw` names; without a
/// number nothing is fixed and nothing fails. A text that is no number is a
/// mistake of the user; a number for a pool whose size was fixed before is a
/// fault of the program, and the first number stays.
pub fn init_threads(threads: &mut Threads, parallel_raw: &Option<String>) -> (result: Result<
    (),
    AppError,
>)
    ensures
        match *parallel_raw {
            None => result is Ok && final(threads).fixed() == old(threads).fixed(),
            Some(raw) => match parsed(raw@, 0, usize::MAX as int) {
                Err(failure) => result matches Err(e) && e@ == type_error(failure) && final(threads).fixed() == old(threads).fixed(),
                Ok(n) => if old(threads).fixed() is Some {
                    result matches Err(e) && e@ == fixed_twice() && final(threads).fixed() == old(threads).fixed()
                } else {
                    result is Ok && (final(threads).fixed() matches Some(m) && m as int == n)
                },
            },
        },
{
    if let Some(raw_num) = parallel_raw {
        let num_threads = match crate::numbers::parse_usize(raw_num.as_str()) {
            Ok(n) => n,
            Err(failure) => {
                let mut text = String::from_str("Type error: ");
                text.append(failure.describe());
                return Err(AppError::UserError(text));
            },
        };
        if threads.fixed.is_some() {
            return Err(
                AppError::InternalError(
                    "Tried to initialize rayon more than once (this is a software bug on fw side, please file an issue at https://github.com/brocode/fw/issues/new )",
                ),
            );
        }
        threads.fixed = Some(num_threads);
    }
    Ok(())
}

/// One command to run for one project.
#[derive(Debug, PartialEq, Eq)]
pub struct Invocation {
    pub shell: Vec<String>,
    pub command: String,
    pub workdir: String,
    pub project_name: String,
}

/// Whether `invocation` runs `cmd` for `project` under `config`: with the
/// shell of the settings, in the project's path on some machine.
pub open spec fn invokes(invocation: Invocation, config: Config, project: Project, cmd: Seq<char>) -> bool {
    &&& invocation.shell.deep_view() == config.settings.shell_or_default()
    &&& invocation.command@ == cmd
    &&& invocation.project_name@ == project@.name
    &&& exists|home: Option<Seq<char>>| invocation.workdir@ == config.path_of(&project, home)
    &&& !crate::config::path::in_home(config.raw_path(&project)) ==> invocation.workdir@
        == config.raw_path(&project)
}

/// The path of a project depends on nothing but its plain values.
pub proof fn lemma_path_of_view(config: Config, p: Project, q: Project, home: Option<Seq<char>>)
    requires
        p@ == q@,
    ensures
        config.raw_path(&p) == config.raw_path(&q),
        config.path_of(&p, home) == config.path_of(&q, home),
{
}

/// The command `cmd` for `project`.
pub fn invocation_for(config: &Config, project: &Project, cmd: &str) -> (invocation: Invocation)
    ensures
        invokes(invocation, *config, *project, cmd@),
{
    Invocation {
        shell: config.settings.get_shell_or_default(),
        command: String::from_str(cmd),
        workdir: config.actual_path_to_project(project),
        project_name: project.name.clone(),
    }
}

/// The command `cmd` for each of `jobs`, which are copies of `wanted`.
fn invocations(config: &Config, jobs: &Vec<Project>, Ghost(wanted): Ghost<Seq<Project>>, cmd: &str) -> (list:
    Vec<Invocation>)
    requires
        projects_view(jobs@) == projects_view(wanted),
    ensures
        list@.len() == wanted.len(),
        forall|k: int| 0 <= k < wanted.len() ==> invokes(#[trigger] list@[k], *config, wanted[k], cmd@),
{
    let mut list: Vec<Invocation> = Vec::new();
    let mut i: usize = 0;
    assert(projects_view(jobs@).len() == jobs@.len());
    assert(projects_view(wanted).len() == wanted.len());
    while i < jobs.len()
        invariant
            i <= jobs.len(),
            list.len() == i,
            jobs@.len() == wanted.len(),
            projects_view(jobs@) == projects_view(wanted),
            forall|k: int| 0 <= k < i ==> invokes(#[trigger] list@[k], *config, wanted[k], cmd@),
        decreases jobs.len() - i,
    {
        let invocation = invocation_for(config, &jobs[i], cmd);
        proof {
            assert(projects_view(jobs@)[i as int] == jobs@[i as int]@);
            assert(projects_view(wanted)[i as int] == wanted[i as int]@);
            let home = choose|home: Option<Seq<char>>|
                invocation.workdir@ == config.path_of(&jobs@[i as int], home);
            lemma_path_of_view(*config, jobs@[i as int], wanted[i as int], home);
            assert(invocation.workdir@ == config.path_of(&wanted[i as int], home));
        }
        list.push(invocation);
        i += 1;
    }
    list
}

/// The commands to run for `foreach`: `cmd` once for every project that has
/// one of the tags `tags`, or for every project where `tags` is empty, in
/// order of the projects' names. The commands may run side by side, on as
/// many threads as `parallel_raw` names; what the run comes to is the first
/// failure in the order of this list. A configuration that could not be read
/// fails the whole, and so does a number of threads that is none.
pub fn foreach(
    maybe_config: Result<Config, AppError>,
    cmd: &str,
    tags: &NameSet,
    parallel_raw: &Option<String>,
    threads: &mut Threads,
) -> (plan: Result<Vec<Invocation>, AppError>)
    ensures
        match maybe_config {
            Err(e) => plan matches Err(f) && f@ == e@ && final(threads).fixed() == old(threads).fixed(),
            Ok(config) => {
                let jobs = chosen(config.projects.values(), *tags);
                match plan {
                    Ok(list) => {
                        &&& list@.len() == jobs.len()
                        &&& forall|i: int|
                            0 <= i < jobs.len() ==> invokes(
                                #[trigger] list@[i],
                                config,
                                jobs[i],
                                cmd@,
                            )
                        &&& match *parallel_raw {
                            None => final(threads).fixed() == old(threads).fixed(),
                            Some(raw) => old(threads).fixed() is None && parsed(
                                raw@,
                                0,
                                usize::MAX as int,
                            ) == Ok::<int, IntFailure>(final(threads).fixed().unwrap() as int),
                        }
                    },
                    Err(e) => *parallel_raw matches Some(raw) && final(threads).fixed() == old(threads).fixed() && match parsed(raw@, 0, usize::MAX as int) {
                        Err(failure) => e@ == type_error(failure),
                        Ok(_) => old(threads).fixed() is Some && e@ == fixed_twice(),
                    },
                }
            },
        },
{
    let config = match maybe_config {
        Ok(config) => config,
        Err(e) => {
            return Err(e);
        },
    };
    match init_threads(threads, parallel_raw) {
        Ok(_) => {},
        Err(e) => {
            return Err(e);
        },
    }
    let jobs = select_projects(&config, tags);
    let list = invocations(&config, &jobs, Ghost(chosen(config.projects.values(), *tags)), cmd);
    Ok(list)
}

} // verus!
