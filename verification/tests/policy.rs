use linty::policy::{
    advance, exit_code, failure_summary, final_outcome, interpret_answer, prompt, read_answer,
    start, Answer, Outcome, Policy, Step,
};

fn policy(error_on_warning: bool, no_confirm: bool) -> Policy {
    Policy { error_on_warning, no_confirm }
}

fn run(warnings: usize, errors: usize, policy: Policy, replies: &[Answer]) -> (Vec<Step>, Outcome) {
    let mut trace = Vec::new();
    let mut replies = replies.iter();
    let mut step = start(warnings, errors, policy);
    loop {
        trace.push(step);
        let reply = match step {
            Step::Stop(outcome) => return (trace, outcome),
            Step::Ask(_) => *replies.next().unwrap(),
            _ => Answer::Unclear,
        };
        step = advance(warnings, errors, policy, step, reply);
    }
}

#[test]
fn only_y_and_n_are_answers() {
    assert_eq!(interpret_answer("y"), Answer::Accept);
    assert_eq!(interpret_answer("n"), Answer::Decline);
    assert_eq!(interpret_answer(""), Answer::Unclear);
    assert_eq!(interpret_answer("Y"), Answer::Unclear);
    assert_eq!(interpret_answer("N"), Answer::Unclear);
    assert_eq!(interpret_answer("yes"), Answer::Unclear);
    assert_eq!(interpret_answer("no"), Answer::Unclear);
    assert_eq!(interpret_answer("y n"), Answer::Unclear);
    assert_eq!(interpret_answer(" y"), Answer::Unclear);
}

#[test]
fn white_space_around_an_answer_is_set_aside() {
    assert_eq!(read_answer("y\n"), Answer::Accept);
    assert_eq!(read_answer("  n \r\n"), Answer::Decline);
    assert_eq!(read_answer("\ty"), Answer::Accept);
    assert_eq!(read_answer("\n"), Answer::Unclear);
    assert_eq!(read_answer("y y\n"), Answer::Unclear);
    assert_eq!(read_answer("maybe\n"), Answer::Unclear);
}

#[test]
fn outcome_without_declined_warning() {
    assert_eq!(final_outcome(0, 0, policy(false, false)), Outcome::Success);
    assert_eq!(final_outcome(0, 0, policy(true, true)), Outcome::Success);
    assert_eq!(final_outcome(3, 0, policy(false, false)), Outcome::Success);
    assert_eq!(final_outcome(3, 0, policy(true, false)), Outcome::Failed);
    assert_eq!(final_outcome(0, 1, policy(false, false)), Outcome::Failed);
    assert_eq!(final_outcome(2, 1, policy(false, true)), Outcome::Failed);
}

#[test]
fn exit_code_is_zero_only_on_success() {
    assert_eq!(exit_code(Outcome::Success), 0);
    assert_eq!(exit_code(Outcome::Declined), 1);
    assert_eq!(exit_code(Outcome::Failed), 1);
}

#[test]
fn summaries_name_the_cause() {
    assert_eq!(failure_summary(Outcome::Success), None);
    assert_eq!(failure_summary(Outcome::Declined), Some("Failing due to warnings"));
    assert_eq!(failure_summary(Outcome::Failed), Some("Failing due to errors"));
    assert_eq!(prompt(), "Ignore warning? y/n ");
}

#[test]
fn nothing_found_stops_at_once_with_success() {
    assert_eq!(start(0, 0, policy(false, false)), Step::Stop(Outcome::Success));
    assert_eq!(start(0, 0, policy(true, false)), Step::Stop(Outcome::Success));
}

#[test]
fn warnings_come_before_errors_and_each_is_asked_about() {
    let (trace, outcome) = run(2, 1, policy(false, false), &[Answer::Accept, Answer::Accept]);
    assert_eq!(
        trace,
        vec![
            Step::ShowWarning(0),
            Step::Ask(0),
            Step::ShowWarning(1),
            Step::Ask(1),
            Step::ShowError(0),
            Step::Stop(Outcome::Failed),
        ]
    );
    assert_eq!(outcome, Outcome::Failed);
}

#[test]
fn unclear_reply_asks_again() {
    let replies = [Answer::Unclear, Answer::Unclear, Answer::Accept];
    let (trace, outcome) = run(1, 0, policy(false, false), &replies);
    assert_eq!(
        trace,
        vec![
            Step::ShowWarning(0),
            Step::Ask(0),
            Step::Ask(0),
            Step::Ask(0),
            Step::Stop(Outcome::Success),
        ]
    );
    assert_eq!(outcome, Outcome::Success);
}

#[test]
fn declined_warning_stops_before_anything_else_is_shown() {
    let (trace, outcome) = run(3, 2, policy(false, false), &[Answer::Accept, Answer::Decline]);
    assert_eq!(
        trace,
        vec![
            Step::ShowWarning(0),
            Step::Ask(0),
            Step::ShowWarning(1),
            Step::Ask(1),
            Step::Stop(Outcome::Declined),
        ]
    );
    assert_eq!(outcome, Outcome::Declined);
    assert_eq!(exit_code(outcome), 1);
}

#[test]
fn without_confirmation_nothing_is_asked() {
    let (trace, outcome) = run(2, 0, policy(false, true), &[]);
    assert_eq!(
        trace,
        vec![Step::ShowWarning(0), Step::ShowWarning(1), Step::Stop(Outcome::Success)]
    );
    assert_eq!(outcome, Outcome::Success);
    let (_, escalated) = run(2, 0, policy(true, true), &[]);
    assert_eq!(escalated, Outcome::Failed);
}

#[test]
fn errors_are_never_asked_about() {
    let (trace, outcome) = run(0, 3, policy(false, false), &[]);
    assert_eq!(
        trace,
        vec![
            Step::ShowError(0),
            Step::ShowError(1),
            Step::ShowError(2),
            Step::Stop(Outcome::Failed),
        ]
    );
    assert_eq!(outcome, Outcome::Failed);
}

#[test]
fn a_stopped_run_stays_stopped() {
    let p = policy(false, false);
    assert_eq!(
        advance(2, 2, p, Step::Stop(Outcome::Declined), Answer::Accept),
        Step::Stop(Outcome::Declined)
    );
    assert_eq!(
        advance(2, 2, p, Step::Stop(Outcome::Success), Answer::Decline),
        Step::Stop(Outcome::Success)
    );
}

#[test]
fn accepted_warnings_fail_the_run_when_they_count_as_errors() {
    let (_, outcome) = run(1, 0, policy(true, false), &[Answer::Accept]);
    assert_eq!(outcome, Outcome::Failed);
}
