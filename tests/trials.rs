use patpo::communicator::{line_to_send, strip_line_end, CommReport, Entry, History};
use patpo::rule_data::{ContentType, RuleData, RuleType};
use patpo::run_manager::SharedRunnerState;
use patpo::worker_thread::{Action, Operation, RunControl, RunStep, TestReport, Trial};

fn rule(rule_type: RuleType, content_type: ContentType, text: &str) -> RuleData {
    RuleData {
        name: String::new(),
        rule_type,
        content_type,
        text: text.to_string(),
    }
}

fn entries(h: &History) -> Vec<(bool, Vec<u8>)> {
    h.entries()
        .iter()
        .map(|e| match e {
            Entry::Sent(b) => (true, b.clone()),
            Entry::Received(b) => (false, b.clone()),
        })
        .collect()
}

#[test]
fn failed_check_short_circuits() {
    let ops = Operation::process(&vec![
        rule(RuleType::Input, ContentType::PlainText, "ping"),
        rule(RuleType::Output, ContentType::PlainText, "pong"),
        rule(RuleType::Input, ContentType::PlainText, "never"),
        rule(RuleType::Output, ContentType::PlainText, "never"),
    ])
    .unwrap();
    let mut trial = Trial::new();
    match trial.next_action(&ops) {
        Action::WriteLine(line) => assert_eq!(line, b"ping".to_vec()),
        other => panic!("{other:?}"),
    }
    assert!(matches!(trial.next_action(&ops), Action::ReadLine));
    match trial.line_read(&ops, b"wrong".to_vec()) {
        Some(TestReport::Failure { history, error_message }) => {
            assert_eq!(
                entries(&history),
                vec![(true, b"ping".to_vec()), (false, b"wrong".to_vec())]
            );
            assert_eq!(error_message, "Expected output: \"pong\"");
        }
        other => panic!("{other:?}"),
    }
    assert!(matches!(trial.next_action(&ops), Action::Conclude(TestReport::Error(_))));
    assert!(matches!(trial.line_read(&ops, b"pong".to_vec()), Some(TestReport::Error(_))));
    match trial.exited(&ops, true, Vec::new(), Vec::new()) {
        TestReport::Error(_) => {}
        other => panic!("{other:?}"),
    }
}

#[test]
fn passing_trial_ends_with_exit() {
    let ops = Operation::process(&vec![
        rule(RuleType::Input, ContentType::IntRanges, "5"),
        rule(RuleType::Output, ContentType::Regex, "[0-9]+"),
    ])
    .unwrap();
    let mut trial = Trial::new();
    assert!(matches!(trial.next_action(&ops), Action::WriteLine(ref l) if l == b"5"));
    assert!(matches!(trial.next_action(&ops), Action::ReadLine));
    assert!(trial.line_read(&ops, b"25".to_vec()).is_none());
    assert!(matches!(trial.next_action(&ops), Action::AwaitExit));
    assert!(matches!(trial.exited(&ops, true, Vec::new(), Vec::new()), TestReport::Success));
}

#[test]
fn extra_output_and_bad_exit_fail() {
    let ops = Operation::process(&vec![rule(RuleType::Input, ContentType::PlainText, "x")]).unwrap();
    let mut trial = Trial::new();
    trial.next_action(&ops);
    assert!(matches!(trial.next_action(&ops), Action::AwaitExit));
    match trial.exited(&ops, true, b"more\n".to_vec(), Vec::new()) {
        TestReport::Failure { history, error_message } => {
            assert_eq!(error_message, "The program printed extra output");
            assert_eq!(entries(&history), vec![(true, b"x".to_vec()), (false, b"more\n".to_vec())]);
        }
        other => panic!("{other:?}"),
    }
    let mut trial = Trial::new();
    trial.next_action(&ops);
    match trial.exited(&ops, false, Vec::new(), b"boom".to_vec()) {
        TestReport::Failure { error_message, .. } => {
            assert_eq!(error_message, "The program did not finish successfully:\nboom");
        }
        other => panic!("{other:?}"),
    }
}

#[test]
fn out_of_order_events_are_errors() {
    let ops = Operation::process(&vec![rule(RuleType::Input, ContentType::PlainText, "x")]).unwrap();
    let mut trial = Trial::new();
    assert!(matches!(trial.line_read(&ops, b"y".to_vec()), Some(TestReport::Error(_))));
    let trial = Trial::new();
    assert!(matches!(trial.exited(&ops, true, Vec::new(), Vec::new()), TestReport::Error(_)));
}

#[test]
fn unsupported_regex_input_is_an_error() {
    let ops = Operation::process(&vec![rule(RuleType::Input, ContentType::Regex, r"\bx")]).unwrap();
    let mut trial = Trial::new();
    assert!(matches!(trial.next_action(&ops), Action::Conclude(TestReport::Error(_))));
}

#[test]
fn bad_rule_stops_processing() {
    let r = Operation::process(&vec![
        rule(RuleType::Input, ContentType::PlainText, "ok"),
        rule(RuleType::Output, ContentType::IntRanges, "x"),
    ]);
    assert!(r.is_err());
}

#[test]
fn quota_of_five_runs_five_trials() {
    let state = SharedRunnerState::new();
    let mut control = RunControl::new(5);
    let mut trials = 0;
    let mut last = None;
    loop {
        let step = control.next_step(last.take(), false);
        state.publish(&control);
        match step {
            RunStep::StartTrial => {
                trials += 1;
                assert!(trials <= 5);
                last = Some(TestReport::Success);
            }
            RunStep::Finish(report) => {
                assert!(matches!(report, TestReport::Success));
                break;
            }
        }
    }
    assert_eq!(trials, 5);
    assert_eq!(state.solved(), 5);
    assert_eq!(state.required(), 5);
    state.reset();
    assert_eq!(state.solved(), 0);
    assert_eq!(state.required(), 0);
}

#[test]
fn stop_between_trials() {
    let mut control = RunControl::new(10);
    assert!(matches!(control.next_step(None, false), RunStep::StartTrial));
    assert!(matches!(control.next_step(Some(TestReport::Success), false), RunStep::StartTrial));
    assert!(matches!(
        control.next_step(Some(TestReport::Success), true),
        RunStep::Finish(TestReport::Cancelled)
    ));
    assert_eq!(control.solved(), 2);

    let mut control = RunControl::new(10);
    control.next_step(None, false);
    match control.next_step(Some(TestReport::Error("pipe".to_string())), true) {
        RunStep::Finish(TestReport::Error(m)) => assert_eq!(m, "pipe"),
        other => panic!("{other:?}"),
    }
}

#[test]
fn zero_quota_finishes_at_once() {
    let mut control = RunControl::new(0);
    assert!(matches!(control.next_step(None, false), RunStep::Finish(TestReport::Success)));
}

#[test]
fn stop_flag() {
    let state = SharedRunnerState::new();
    assert!(!state.is_stop_requested());
    state.request_stop();
    assert!(state.is_stop_requested());
    state.reset();
    assert!(!state.is_stop_requested());
}

#[test]
fn history_text() {
    let mut h = History::new();
    h.record_sent(&b"ping".to_vec());
    h.record_received(&b"pong".to_vec());
    assert_eq!(h.len(), 2);
    assert_eq!(h.to_text(), b"> ping\n< pong\n".to_vec());
    assert_eq!(h.duplicate().to_text(), h.to_text());
}

#[test]
fn line_framing() {
    assert_eq!(line_to_send(&b"abc".to_vec()), b"abc\n".to_vec());
    assert_eq!(strip_line_end(&b"abc\n".to_vec()), b"abc".to_vec());
    assert_eq!(strip_line_end(&b"abc\r\n".to_vec()), b"abc".to_vec());
    assert_eq!(strip_line_end(&b"abc \r".to_vec()), b"abc \r".to_vec());
    assert_eq!(strip_line_end(&b"abc".to_vec()), b"abc".to_vec());
    assert_eq!(strip_line_end(&Vec::new()), Vec::<u8>::new());
}

#[test]
fn classify_exit() {
    assert!(matches!(
        CommReport::classify(History::new(), true, Vec::new(), Vec::new()),
        CommReport::Success(_)
    ));
    match CommReport::classify(History::new(), true, b"x".to_vec(), Vec::new()) {
        CommReport::NonEmptyStdout(h) => assert_eq!(h.len(), 1),
        other => panic!("{other:?}"),
    }
    match CommReport::classify(History::new(), false, Vec::new(), b"err".to_vec()) {
        CommReport::ProgramError(h, e) => {
            assert_eq!(h.len(), 0);
            assert_eq!(e, b"err".to_vec());
        }
        other => panic!("{other:?}"),
    }
}
