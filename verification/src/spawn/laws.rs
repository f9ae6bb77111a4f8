//! What always holds of a run and of its forwarders.

use vstd::prelude::*;
use crate::errors::ErrorView;
use crate::spawn::{
    answers, carries, exit_verdict, is_framed, prefix_text, run_step, ForwardView, RunActionView,
    RunEventView, RunPhase,
};
use crate::util::wraps;

verus! {

/// A forwarded line ends with the line as it was read, and holds the prefix
/// of its project before it: nothing of the line is cut off or changed.
pub proof fn law_line_is_kept(text: Seq<char>, name: Seq<char>, line: Seq<char>, mark_err: bool)
    requires
        carries(text, name, line, mark_err),
    ensures
        line.is_suffix_of(text),
        wraps(text, prefix_text(name, mark_err)),
{
    let (marker, painted) = choose|marker: Seq<char>, painted: Seq<char>|
        is_framed(text, marker, painted, name, line, mark_err);
    assert(line =~= text.subrange(text.len() - line.len(), text.len() as int));
    let plain = prefix_text(name, mark_err);
    let (before, after) = choose|before: Seq<char>, after: Seq<char>|
        painted == #[trigger] (before + plain + after);
    if mark_err {
        let head = marker + " "@ + before;
        let tail = after + " "@ + line;
        assert(text =~= head + plain + tail);
    } else {
        let tail = after + " "@ + line;
        assert(text =~= before + plain + tail);
    }
}

/// Of a stream of `lines` that is read to its end, every line is printed,
/// in order, before the forwarding ends, and the forwarding ends well.
pub proof fn law_every_line_is_printed(
    lines: Seq<Seq<char>>,
    actions: Seq<ForwardView>,
    name: Seq<char>,
    mark_err: bool,
)
    requires
        actions.len() == lines.len() + 1,
        forall|k: int|
            0 <= k < lines.len() ==> answers(
                #[trigger] actions[k],
                Ok(Some(lines[k])),
                name,
                mark_err,
            ),
        answers(actions[lines.len() as int], Ok(None), name, mark_err),
    ensures
        forall|k: int|
            0 <= k < lines.len() ==> ((#[trigger] actions[k]) matches ForwardView::Print(text)
                && lines[k].is_suffix_of(text)),
        actions.last() == ForwardView::Finish(Ok(())),
{
    assert forall|k: int| 0 <= k < lines.len() implies ((
    #[trigger] actions[k]) matches ForwardView::Print(text) && lines[k].is_suffix_of(text)) by {
        assert(answers(actions[k], Ok(Some(lines[k])), name, mark_err));
        let text = actions[k]->Print_0;
        law_line_is_kept(text, name, lines[k], mark_err);
    }
}

/// The exit status is asked for only when both streams have been forwarded
/// to their end.
pub proof fn law_wait_follows_output(phase: RunPhase, event: RunEventView)
    requires
        run_step(phase, event).1 is Wait,
    ensures
        phase is JoiningStdout,
        event matches RunEventView::StdoutForwarded(Ok(_)),
{
}

/// Standard output is joined only when standard error has been forwarded to
/// its end.
pub proof fn law_join_follows_stderr(phase: RunPhase, event: RunEventView)
    requires
        run_step(phase, event).1 is JoinStdout,
    ensures
        phase is ForwardingStderr,
        event matches RunEventView::StderrForwarded(Ok(_)),
{
}

/// A command that does not end with the code 0 fails the run, and this is
/// found out only in the last step, after all output was forwarded: the run
/// that hears of the command's start, of the ends of both streams and of the
/// command's end names the forwarding of both streams before it names the
/// failure.
pub proof fn law_output_precedes_failure(code: Option<i32>)
    requires
        code != Some(0i32),
    ensures
        ({
            let a = run_step(RunPhase::Spawning, RunEventView::Spawned(Ok(())));
            let b = run_step(a.0, RunEventView::StderrForwarded(Ok(())));
            let c = run_step(b.0, RunEventView::StdoutForwarded(Ok(())));
            let d = run_step(c.0, RunEventView::Exited(Ok(code)));
            &&& a.1 is ForwardStderr
            &&& b.1 is JoinStdout
            &&& c.1 is Wait
            &&& d == (
                RunPhase::Ended,
                RunActionView::Finish(
                    Err(ErrorView::UserError("External command failed."@)),
                ),
            )
        }),
{
}

/// Only the exit code 0 makes a run succeed: every other code, and the lack
/// of one, is the same failure of the command.
pub proof fn law_exit_code(code: Option<i32>)
    ensures
        exit_verdict(code) is Ok <==> code == Some(0i32),
        code != Some(0i32) ==> exit_verdict(code) == Err::<(), ErrorView>(
            ErrorView::UserError("External command failed."@),
        ),
{
}

/// A run that has ended names nothing more to do.
pub proof fn law_run_stays_ended(event: RunEventView)
    ensures
        run_step(RunPhase::Ended, event).0 is Ended,
        run_step(RunPhase::Ended, event).1 is Finish,
{
}

} // verus!
