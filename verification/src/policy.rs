//! The order of reporting, the interactive acknowledgement of warnings, and
//! the outcome of a run.

use vstd::prelude::*;

verus! {

/// The flags that decide how warnings are treated.
#[derive(Clone, Copy, Debug, PartialEq, Eq, Structural)]
pub struct Policy {
    /// Warnings fail the run as errors do.
    pub error_on_warning: bool,
    /// Warnings are printed without asking for acknowledgement.
    pub no_confirm: bool,
}

/// What the user answered when asked whether a warning may be ignored.
#[derive(Clone, Copy, Debug, PartialEq, Eq, Structural)]
pub enum Answer {
    /// Exactly `y`: go on.
    Accept,
    /// Exactly `n`: fail at once.
    Decline,
    /// Anything else: ask again.
    Unclear,
}

/// How a run ends.
#[derive(Clone, Copy, Debug, PartialEq, Eq, Structural)]
pub enum Outcome {
    /// Nothing fails the run.
    Success,
    /// The user declined to ignore a warning.
    Declined,
    /// There are errors, or warnings that count as errors.
    Failed,
}

/// What the reporter does next. The number is the position of a group among
/// the report's warnings or errors.
#[derive(Clone, Copy, Debug, PartialEq, Eq, Structural)]
pub enum Step {
    /// Print the warning group at this position.
    ShowWarning(usize),
    /// Ask whether the warning group at this position may be ignored.
    Ask(usize),
    /// Print the error group at this position.
    ShowError(usize),
    /// End the run.
    Stop(Outcome),
}

/// The text that a line of input is reduced to before it is read as an
/// answer: the line without leading and trailing white space.
pub uninterp spec fn trimmed(line: Seq<char>) -> Seq<char>;

/// Calls `str::trim`.
///
/// Trusted: the result depends on the line alone.
#[verifier::external_body]
pub(crate) fn trim(line: &str) -> (rest: &str)
    ensures
        rest@ == trimmed(line@),
{
    line.trim()
}

/// How trimmed input is read: `y` accepts, `n` declines, and nothing else
/// is an answer.
pub open spec fn answer_of(input: Seq<char>) -> Answer {
    if input =~= seq!['y'] {
        Answer::Accept
    } else if input =~= seq!['n'] {
        Answer::Decline
    } else {
        Answer::Unclear
    }
}

/// Reads trimmed input as an answer.
pub fn interpret_answer(input: &str) -> (answer: Answer)
    ensures
        answer == answer_of(input@),
{
    proof {
        reveal_strlit("y");
        reveal_strlit("n");
    }
    let given = input.to_owned();
    let yes = "y".to_owned();
    let no = "n".to_owned();
    assert(yes@ =~= seq!['y']);
    assert(no@ =~= seq!['n']);
    if given == yes {
        Answer::Accept
    } else if given == no {
        Answer::Decline
    } else {
        Answer::Unclear
    }
}

/// Reads a line of input as an answer, white space around it set aside.
pub fn read_answer(line: &str) -> (answer: Answer)
    ensures
        answer == answer_of(trimmed(line@)),
{
    interpret_answer(trim(line))
}

/// The outcome of a run in which no warning was declined: failure if there
/// is an error, or if there is a warning and warnings count as errors.
pub open spec fn verdict(warnings: nat, errors: nat, policy: Policy) -> Outcome {
    if errors > 0 || (policy.error_on_warning && warnings > 0) {
        Outcome::Failed
    } else {
        Outcome::Success
    }
}

/// The step that deals with the errors from the given position on.
pub open spec fn errors_from(warnings: nat, errors: nat, policy: Policy, at: nat) -> Step {
    if at < errors {
        Step::ShowError(at as usize)
    } else {
        Step::Stop(verdict(warnings, errors, policy))
    }
}

/// The step that deals with the warnings from the given position on, and
/// with the errors after them.
pub open spec fn warnings_from(warnings: nat, errors: nat, policy: Policy, at: nat) -> Step {
    if at < warnings {
        Step::ShowWarning(at as usize)
    } else {
        errors_from(warnings, errors, policy, 0)
    }
}

/// The first step of reporting.
pub open spec fn first_step(warnings: nat, errors: nat, policy: Policy) -> Step {
    warnings_from(warnings, errors, policy, 0)
}

/// The step that follows a step. After a warning group the user is asked,
/// unless confirmation is switched off. An accepted warning leads to the
/// next group, a declined one ends the run at once, and any other reply
/// leads to the same question again. Errors are never asked about.
pub open spec fn step_after(
    warnings: nat,
    errors: nat,
    policy: Policy,
    step: Step,
    reply: Answer,
) -> Step {
    match step {
        Step::ShowWarning(i) => if policy.no_confirm {
            warnings_from(warnings, errors, policy, i as nat + 1)
        } else {
            Step::Ask(i)
        },
        Step::Ask(i) => match reply {
            Answer::Accept => warnings_from(warnings, errors, policy, i as nat + 1),
            Answer::Decline => Step::Stop(Outcome::Declined),
            Answer::Unclear => Step::Ask(i),
        },
        Step::ShowError(i) => errors_from(warnings, errors, policy, i as nat + 1),
        Step::Stop(outcome) => Step::Stop(outcome),
    }
}

/// The outcome of a run in which no warning was declined.
pub fn final_outcome(warnings: usize, errors: usize, policy: Policy) -> (outcome: Outcome)
    ensures
        outcome == verdict(warnings as nat, errors as nat, policy),
{
    if errors > 0 || (policy.error_on_warning && warnings > 0) {
        Outcome::Failed
    } else {
        Outcome::Success
    }
}

/// The first step of reporting on `warnings` groups of warnings and `errors`
/// groups of errors.
pub fn start(warnings: usize, errors: usize, policy: Policy) -> (step: Step)
    ensures
        step == first_step(warnings as nat, errors as nat, policy),
{
    if 0 < warnings {
        Step::ShowWarning(0)
    } else if 0 < errors {
        Step::ShowError(0)
    } else {
        Step::Stop(final_outcome(warnings, errors, policy))
    }
}

/// The step that follows `step`. The reply is read only after `Step::Ask`.
pub fn advance(warnings: usize, errors: usize, policy: Policy, step: Step, reply: Answer) -> (next:
    Step)
    ensures
        next == step_after(warnings as nat, errors as nat, policy, step, reply),
{
    match step {
        Step::ShowWarning(i) => {
            if policy.no_confirm {
                next_warning(warnings, errors, policy, i)
            } else {
                Step::Ask(i)
            }
        },
        Step::Ask(i) => match reply {
            Answer::Accept => next_warning(warnings, errors, policy, i),
            Answer::Decline => Step::Stop(Outcome::Declined),
            Answer::Unclear => Step::Ask(i),
        },
        Step::ShowError(i) => {
            if i < usize::MAX && i + 1 < errors {
                Step::ShowError(i + 1)
            } else {
                Step::Stop(final_outcome(warnings, errors, policy))
            }
        },
        Step::Stop(outcome) => Step::Stop(outcome),
    }
}

/// The step that follows the warning group at position `at`.
fn next_warning(warnings: usize, errors: usize, policy: Policy, at: usize) -> (next: Step)
    ensures
        next == warnings_from(warnings as nat, errors as nat, policy, at as nat + 1),
{
    if at < usize::MAX && at + 1 < warnings {
        Step::ShowWarning(at + 1)
    } else if 0 < errors {
        Step::ShowError(0)
    } else {
        Step::Stop(final_outcome(warnings, errors, policy))
    }
}

/// The exit code of a run: 0 on success, 1 otherwise.
pub fn exit_code(outcome: Outcome) -> (code: i32)
    ensures
        code == if outcome == Outcome::Success {
            0i32
        } else {
            1i32
        },
{
    match outcome {
        Outcome::Success => 0,
        Outcome::Declined => 1,
        Outcome::Failed => 1,
    }
}

/// The summary printed on the error stream for an outcome; none on success.
pub open spec fn summary_of(outcome: Outcome) -> Option<Seq<char>> {
    match outcome {
        Outcome::Success => None,
        Outcome::Declined => Some("Failing due to warnings"@),
        Outcome::Failed => Some("Failing due to errors"@),
    }
}

/// The summary printed on the error stream for an outcome; none on success.
pub fn failure_summary(outcome: Outcome) -> (summary: Option<&'static str>)
    ensures
        match summary {
            Some(text) => summary_of(outcome) == Some(text@),
            None => summary_of(outcome) is None,
        },
{
    match outcome {
        Outcome::Success => None,
        Outcome::Declined => Some("Failing due to warnings"),
        Outcome::Failed => Some("Failing due to errors"),
    }
}

/// The question put to the user after a group of warnings.
pub fn prompt() -> (text: &'static str)
    ensures
        text@ == "Ignore warning? y/n "@,
{
    "Ignore warning? y/n "
}

/// Whether a step names a group that the report holds.
pub open spec fn step_in_range(warnings: nat, errors: nat, step: Step) -> bool {
    match step {
        Step::ShowWarning(i) => i < warnings,
        Step::Ask(i) => i < warnings,
        Step::ShowError(i) => i < errors,
        Step::Stop(_) => true,
    }
}

/// How far a step is from the end of the run, at most.
pub open spec fn steps_left(warnings: nat, errors: nat, step: Step) -> nat {
    match step {
        Step::ShowWarning(i) => if i < warnings {
            (2 * (warnings - i) + errors + 1) as nat
        } else {
            0
        },
        Step::Ask(i) => if i < warnings {
            (2 * (warnings - i) + errors) as nat
        } else {
            0
        },
        Step::ShowError(i) => if i < errors {
            (errors - i) as nat
        } else {
            0
        },
        Step::Stop(_) => 0,
    }
}

/// Reporting starts within the report.
pub proof fn lemma_first_step_in_range(warnings: nat, errors: nat, policy: Policy)
    requires
        warnings <= usize::MAX,
        errors <= usize::MAX,
    ensures
        step_in_range(warnings, errors, first_step(warnings, errors, policy)),
{
}

/// Reporting makes progress: every step but an unclear reply to a question
/// leads to a step within the report that is nearer to the end, so a run
/// ends once the user gives clear answers.
pub proof fn lemma_reporting_progresses(
    warnings: nat,
    errors: nat,
    policy: Policy,
    step: Step,
    reply: Answer,
)
    requires
        warnings <= usize::MAX,
        errors <= usize::MAX,
        step_in_range(warnings, errors, step),
        !(step is Stop),
        step is Ask ==> reply != Answer::Unclear,
    ensures
        step_in_range(warnings, errors, step_after(warnings, errors, policy, step, reply)),
        steps_left(warnings, errors, step_after(warnings, errors, policy, step, reply))
            < steps_left(warnings, errors, step),
{
}

/// How a run ends: with `Declined` exactly when a question was answered
/// with a refusal, and otherwise, after the last group, with failure exactly
/// when there is an error, or a warning while warnings count as errors.
pub proof fn lemma_how_a_run_ends(
    warnings: nat,
    errors: nat,
    policy: Policy,
    step: Step,
    reply: Answer,
    outcome: Outcome,
)
    requires
        !(step is Stop),
        step_after(warnings, errors, policy, step, reply) == Step::Stop(outcome),
    ensures
        outcome == Outcome::Declined <==> (step is Ask && reply == Answer::Decline),
        outcome == Outcome::Failed <==> (!(step is Ask && reply == Answer::Decline) && (errors > 0
            || (policy.error_on_warning && warnings > 0))),
        outcome == Outcome::Success <==> (!(step is Ask && reply == Answer::Decline) && errors == 0
            && !(policy.error_on_warning && warnings > 0)),
{
}

/// A run over an empty report succeeds at once; a run with errors never
/// succeeds.
pub proof fn lemma_verdict(warnings: nat, errors: nat, policy: Policy)
    ensures
        warnings == 0 && errors == 0 ==> first_step(warnings, errors, policy) == Step::Stop(
            Outcome::Success,
        ),
        errors > 0 ==> verdict(warnings, errors, policy) == Outcome::Failed,
        errors == 0 && !policy.error_on_warning ==> verdict(warnings, errors, policy)
            == Outcome::Success,
{
}

} // verus!
