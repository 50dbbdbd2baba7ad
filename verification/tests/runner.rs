use oi_checker::launch::runner::{RunnerAction, RunnerEvent, RunnerPhase, RunnerState};

/// Feeds `events` to the run and shows every action.
fn course(has_input: bool, events: Vec<RunnerEvent>) -> Vec<String> {
    let (mut state, first) = RunnerState::start(has_input);
    let mut shown = vec![format!("{:?}", first)];
    for event in events {
        let (next, action) = state.step(event);
        assert_eq!(next.has_input, has_input);
        state = next;
        shown.push(format!("{:?}", action));
    }
    shown
}

#[test]
fn run_with_an_input_file_goes_through_every_step() {
    assert_eq!(
        course(
            true,
            vec![
                RunnerEvent::InputRead(Ok(())),
                RunnerEvent::Spawned(Ok(())),
                RunnerEvent::Announced,
                RunnerEvent::Fed,
                RunnerEvent::Exited(Ok(Some(3))),
                RunnerEvent::OutputWritten(Ok(())),
            ]
        ),
        vec![
            "ReadInput",
            "Spawn",
            "Announce",
            "Feed",
            "Wait",
            "WriteOutput",
            "Report(Ok(Some(3)))"
        ]
    );
}

#[test]
fn run_without_an_input_file_reads_and_feeds_nothing() {
    assert_eq!(
        course(
            false,
            vec![
                RunnerEvent::Spawned(Ok(())),
                RunnerEvent::Announced,
                RunnerEvent::Exited(Ok(None)),
                RunnerEvent::OutputWritten(Ok(())),
            ]
        ),
        vec!["Spawn", "Announce", "Wait", "WriteOutput", "Report(Ok(None))"]
    );
}

#[test]
fn early_failures_are_announced_and_then_reported() {
    assert_eq!(
        course(
            true,
            vec![
                RunnerEvent::InputRead(Err("no input".into())),
                RunnerEvent::Announced
            ]
        ),
        vec!["ReadInput", "Announce", "Report(Err(\"no input\"))"]
    );
    assert_eq!(
        course(
            true,
            vec![
                RunnerEvent::InputRead(Ok(())),
                RunnerEvent::Spawned(Err("not found".into())),
                RunnerEvent::Announced
            ]
        ),
        vec!["ReadInput", "Spawn", "Announce", "Report(Err(\"not found\"))"]
    );
    assert_eq!(
        course(
            false,
            vec![
                RunnerEvent::Spawned(Err("denied".into())),
                RunnerEvent::Announced
            ]
        ),
        vec!["Spawn", "Announce", "Report(Err(\"denied\"))"]
    );
}

#[test]
fn late_failures_are_reported_at_once() {
    assert_eq!(
        course(
            false,
            vec![
                RunnerEvent::Spawned(Ok(())),
                RunnerEvent::Announced,
                RunnerEvent::Exited(Err("lost".into())),
            ]
        ),
        vec!["Spawn", "Announce", "Wait", "Report(Err(\"lost\"))"]
    );
    assert_eq!(
        course(
            false,
            vec![
                RunnerEvent::Spawned(Ok(())),
                RunnerEvent::Announced,
                RunnerEvent::Exited(Ok(Some(0))),
                RunnerEvent::OutputWritten(Err("disk full".into())),
            ]
        ),
        vec![
            "Spawn",
            "Announce",
            "Wait",
            "WriteOutput",
            "Report(Err(\"disk full\"))"
        ]
    );
}

#[test]
fn event_out_of_turn_fails_the_run() {
    assert_eq!(
        course(false, vec![RunnerEvent::Fed]),
        vec![
            "Spawn",
            "Report(Err(\"Unexpected event in the run of a program\"))"
        ]
    );
    let done = RunnerState {
        has_input: true,
        phase: RunnerPhase::Done,
    };
    let (state, action) = done.step(RunnerEvent::Announced);
    assert!(matches!(state.phase, RunnerPhase::Done));
    assert!(matches!(action, RunnerAction::Report(Err(_))));
}
