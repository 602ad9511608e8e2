use ocr_flow::workflow::{Action, Event, Observation, Workflow, WorkflowError};

fn sent(action: &Action) -> Vec<String> {
    match action {
        Action::Send(command) => command.clone(),
        other => panic!("expected a command to send, got {:?}", other),
    }
}

fn tokens(words: &[&str]) -> Vec<String> {
    words.iter().map(|w| w.to_string()).collect()
}

fn respond(flow: Workflow, text: &str) -> (Workflow, Action) {
    flow.step(Event::Response(text.to_string()))
}

fn slept(flow: Workflow) -> (Workflow, Action) {
    flow.step(Event::Slept)
}

fn observed(flow: Workflow, obs: Observation) -> (Workflow, Action) {
    flow.step(Event::Output(obs))
}

/// Drives a fresh workflow to the point where the first watch probe is
/// requested, with no stale entries and a verification that succeeds on the
/// first attempt.
fn drive_to_watch(path: &str) -> Workflow {
    let (flow, action) = Workflow::start(path).expect("path should be derivable");
    assert_eq!(sent(&action), tokens(&["--all_pages"]));
    let (flow, action) = respond(flow, "1\tGeneralOCR");
    assert_eq!(sent(&action), tokens(&["--add_page", "3"]));
    let (flow, action) = respond(flow, "");
    assert!(matches!(action, Action::Sleep));
    let (flow, action) = slept(flow);
    assert_eq!(sent(&action), tokens(&["--all_pages"]));
    let (flow, action) = respond(flow, "2\tBatchDOC_1700000000000");
    assert_eq!(
        sent(&action),
        tokens(&["--call_qml", "BatchDOC", "--func", "addDocs", "[\"doc/in.pdf\"]"])
    );
    let (flow, action) = respond(flow, "");
    assert!(matches!(action, Action::Sleep));
    let (flow, action) = slept(flow);
    assert_eq!(sent(&action), tokens(&["--call_qml", "BatchDOC", "--func", "docStart"]));
    let (flow, action) = respond(flow, "");
    assert!(matches!(action, Action::Probe));
    flow
}

#[test]
fn start_rejects_an_input_without_a_file_name() {
    assert!(Workflow::start("dir/").is_none());
    assert!(Workflow::start(".").is_none());
}

#[test]
fn driver_closes_stale_entries_descending_then_opens() {
    let (flow, action) = Workflow::start("docs\\scan.pdf").expect("derivable");
    assert_eq!(sent(&action), tokens(&["--all_pages"]));
    // two stale entries, listed at indices 2 and 5: close 5, then close 2
    let (flow, action) =
        respond(flow, "2\tBatchDOC_1700000000000\n5\tBatchDOC_1700000000001\n7\tGeneralOCR");
    assert_eq!(sent(&action), tokens(&["--del_page", "5"]));
    let (flow, action) = respond(flow, "");
    assert!(matches!(action, Action::Sleep));
    let (flow, action) = slept(flow);
    assert_eq!(sent(&action), tokens(&["--del_page", "2"]));
    let (flow, action) = respond(flow, "");
    assert!(matches!(action, Action::Sleep));
    let (_, action) = slept(flow);
    assert_eq!(sent(&action), tokens(&["--add_page", "3"]));
}

#[test]
fn driver_with_no_stale_entries_only_opens() {
    let (flow, action) = Workflow::start("docs/scan.pdf").expect("derivable");
    assert_eq!(sent(&action), tokens(&["--all_pages"]));
    let (_, action) = respond(flow, "1\tGeneralOCR\n2\tOtherTab");
    assert_eq!(sent(&action), tokens(&["--add_page", "3"]));
}

#[test]
fn add_docs_uses_the_normalized_path() {
    let (flow, action) = Workflow::start("docs\\in file.pdf").expect("derivable");
    assert_eq!(sent(&action), tokens(&["--all_pages"]));
    let (flow, action) = respond(flow, "");
    assert_eq!(sent(&action), tokens(&["--add_page", "3"]));
    let (flow, action) = respond(flow, "");
    assert!(matches!(action, Action::Sleep));
    let (flow, action) = slept(flow);
    assert_eq!(sent(&action), tokens(&["--all_pages"]));
    let (_, action) = respond(flow, "0\tBatchDOC_1");
    assert_eq!(
        sent(&action),
        tokens(&["--call_qml", "BatchDOC", "--func", "addDocs", "[\"docs/in file.pdf\"]"])
    );
}

#[test]
fn verification_succeeds_on_second_attempt_after_one_delay() {
    let (flow, action) = Workflow::start("in.pdf").expect("derivable");
    assert_eq!(sent(&action), tokens(&["--all_pages"]));
    let (flow, action) = respond(flow, "");
    assert_eq!(sent(&action), tokens(&["--add_page", "3"]));
    let (flow, action) = respond(flow, "");
    assert!(matches!(action, Action::Sleep));
    // attempt 1: not found yet -> exactly one inter-attempt delay
    let (flow, action) = slept(flow);
    assert_eq!(sent(&action), tokens(&["--all_pages"]));
    let (flow, action) = respond(flow, "1\tGeneralOCR");
    assert!(matches!(action, Action::Sleep));
    // attempt 2: found -> success, the next command follows immediately
    let (flow, action) = slept(flow);
    assert_eq!(sent(&action), tokens(&["--all_pages"]));
    let (_, action) = respond(flow, "1\tBatchDOC_9");
    assert_eq!(
        sent(&action),
        tokens(&["--call_qml", "BatchDOC", "--func", "addDocs", "[\"in.pdf\"]"])
    );
}

#[test]
fn verification_fails_after_exactly_three_attempts() {
    let (flow, action) = Workflow::start("in.pdf").expect("derivable");
    assert_eq!(sent(&action), tokens(&["--all_pages"]));
    let (flow, action) = respond(flow, "");
    assert_eq!(sent(&action), tokens(&["--add_page", "3"]));
    let (flow, action) = respond(flow, "");
    assert!(matches!(action, Action::Sleep));
    let (flow, action) = slept(flow);
    assert_eq!(sent(&action), tokens(&["--all_pages"]));
    // attempt 1
    let (flow, action) = respond(flow, "");
    assert!(matches!(action, Action::Sleep));
    let (flow, action) = slept(flow);
    assert_eq!(sent(&action), tokens(&["--all_pages"]));
    // attempt 2
    let (flow, action) = respond(flow, "");
    assert!(matches!(action, Action::Sleep));
    let (flow, action) = slept(flow);
    assert_eq!(sent(&action), tokens(&["--all_pages"]));
    // attempt 3: the budget is exhausted
    let (flow, action) = respond(flow, "");
    assert!(matches!(action, Action::Fail(WorkflowError::VerificationTimeout)));
    assert!(flow.is_terminal());
}

#[test]
fn watch_overwrite_branch_waits_for_a_different_stamp() {
    let flow = drive_to_watch("doc\\in.pdf");
    // the output already exists: record its stamp
    let (flow, action) = observed(flow, Observation::Present { modified: 100 });
    assert!(matches!(action, Action::Sleep));
    let (flow, action) = slept(flow);
    assert!(matches!(action, Action::Probe));
    // unchanged stamp: not done, never on the first poll
    let (flow, action) = observed(flow, Observation::Present { modified: 100 });
    assert!(matches!(action, Action::Sleep));
    let (flow, action) = slept(flow);
    assert!(matches!(action, Action::Probe));
    // a different stamp: the file was overwritten
    let (flow, action) = observed(flow, Observation::Present { modified: 101 });
    assert!(matches!(action, Action::Finish));
    assert!(flow.is_terminal());
}

#[test]
fn watch_existence_branch_finishes_on_first_appearance() {
    let flow = drive_to_watch("doc\\in.pdf");
    // the output does not exist yet
    let (flow, action) = observed(flow, Observation::Absent);
    assert!(matches!(action, Action::Sleep));
    let (flow, action) = slept(flow);
    assert!(matches!(action, Action::Probe));
    let (flow, action) = observed(flow, Observation::Absent);
    assert!(matches!(action, Action::Sleep));
    let (flow, action) = slept(flow);
    assert!(matches!(action, Action::Probe));
    let (flow, action) = observed(flow, Observation::Present { modified: 7 });
    assert!(matches!(action, Action::Finish));
    assert!(flow.is_terminal());
}

#[test]
fn watch_overwrite_branch_fails_if_the_output_vanishes() {
    let flow = drive_to_watch("doc\\in.pdf");
    let (flow, action) = observed(flow, Observation::Present { modified: 100 });
    assert!(matches!(action, Action::Sleep));
    let (flow, action) = slept(flow);
    assert!(matches!(action, Action::Probe));
    let (flow, action) = observed(flow, Observation::Absent);
    assert!(matches!(action, Action::Fail(WorkflowError::OutputVanished)));
    assert!(flow.is_terminal());
}

#[test]
fn terminal_workflow_accepts_no_event() {
    let flow = drive_to_watch("doc\\in.pdf");
    let (flow, _) = observed(flow, Observation::Absent);
    let (flow, _) = slept(flow);
    let (flow, _) = observed(flow, Observation::Present { modified: 1 });
    assert!(flow.is_terminal());
    assert!(!flow.accepts(&Event::Slept));
    assert!(!flow.accepts(&Event::Response(String::new())));
}

#[test]
fn full_run_from_start_to_finish() {
    let (flow, action) = Workflow::start("C:\\docs\\report.pdf").expect("derivable");
    assert_eq!(sent(&action), tokens(&["--all_pages"]));
    // stale entries listed highest first; still closed in descending order
    let (flow, action) = respond(flow, "5 BatchDOC_1\n1 GeneralOCR\n2 BatchDOC_2");
    assert_eq!(sent(&action), tokens(&["--del_page", "5"]));
    let (flow, action) = respond(flow, "");
    assert!(matches!(action, Action::Sleep));
    let (flow, action) = slept(flow);
    assert_eq!(sent(&action), tokens(&["--del_page", "2"]));
    let (flow, action) = respond(flow, "");
    assert!(matches!(action, Action::Sleep));
    let (flow, action) = slept(flow);
    assert_eq!(sent(&action), tokens(&["--add_page", "3"]));
    let (flow, action) = respond(flow, "");
    assert!(matches!(action, Action::Sleep));
    let (flow, action) = slept(flow);
    assert_eq!(sent(&action), tokens(&["--all_pages"]));
    let (flow, action) = respond(flow, "0 BatchDOC_1700000000002");
    assert_eq!(
        sent(&action),
        tokens(&["--call_qml", "BatchDOC", "--func", "addDocs", "[\"C:/docs/report.pdf\"]"])
    );
    let (flow, action) = respond(flow, "");
    assert!(matches!(action, Action::Sleep));
    let (flow, action) = slept(flow);
    assert_eq!(sent(&action), tokens(&["--call_qml", "BatchDOC", "--func", "docStart"]));
    let (flow, action) = respond(flow, "");
    assert!(matches!(action, Action::Probe));
    // the derived output C:/docs/report.layered.pdf does not exist yet
    let (flow, action) = observed(flow, Observation::Absent);
    assert!(matches!(action, Action::Sleep));
    let (flow, action) = slept(flow);
    assert!(matches!(action, Action::Probe));
    let (flow, action) = observed(flow, Observation::Present { modified: 42 });
    assert!(matches!(action, Action::Finish));
    assert!(flow.is_terminal());
}

#[test]
fn close_command_renders_large_indices_in_decimal() {
    let (flow, _) = Workflow::start("in.pdf").expect("derivable");
    let (_, action) = respond(flow, "65535 BatchDOC_1\n0 BatchDOC_2");
    assert_eq!(sent(&action), tokens(&["--del_page", "65535"]));
}
