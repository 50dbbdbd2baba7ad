use oi_checker::checker_error::{CheckerError, Stage};
use oi_checker::config::ExtensionRules;
use oi_checker::launch::diff_tool::{DiffTool, DiffToolOk};
use oi_checker::launch::filter::OutputFilter;
use oi_checker::launch::{
    numbered_file, LaunchConfig, LaunchOk, LaunchSuiteEnum, ProcessOutcome, SuiteAction,
    SuiteEvent, SuiteLauncher, SuitePhase, SuiteState,
};
use oi_checker::path_lib::FilePath;
use oi_checker::util::TimeSpan;

fn strings(v: &[&str]) -> Vec<String> {
    v.iter().map(|s| s.to_string()).collect()
}

fn file(path: &str, extension: Option<&str>) -> FilePath {
    FilePath {
        path: path.to_string(),
        file_name: path.to_string(),
        file_stem: path.to_string(),
        extension: extension.map(|e| e.to_string()),
        is_current_dir: false,
    }
}

fn launcher(filters: Vec<OutputFilter>) -> SuiteLauncher {
    SuiteLauncher {
        rules: ExtensionRules::from(vec![
            (
                strings(&["py"]),
                LaunchConfig {
                    command: Some("python".into()),
                    args: strings(&["-u", "{file}"]),
                },
            ),
            (
                strings(&["bad"]),
                LaunchConfig {
                    command: Some("run".into()),
                    args: strings(&["{file}", "{nothing}"]),
                },
            ),
        ]),
        test_cases: 20,
        program_timeout: TimeSpan::from_millis(5000),
        accepted_timeout: TimeSpan::from_millis(1000),
        working_directory: file("work", None),
        data_generator: file("gen.py", Some("py")),
        accepted_program: file("ac", None),
        tested_program: file("tested.exe", Some("exe")),
        output_filters: filters,
        diff_tool: DiffTool::Diff,
    }
}

fn ms(millis: u64) -> TimeSpan {
    TimeSpan::from_millis(millis)
}

fn failure() -> Box<CheckerError> {
    Box::new(CheckerError::CreateWorkDirError {
        err: "e".into(),
        dir: "d".into(),
    })
}

fn verdict(action: SuiteAction) -> (u32, LaunchSuiteEnum) {
    match action {
        SuiteAction::Finish(result) => (result.index, result.inner),
        other => panic!("unexpected {:?}", other),
    }
}

/// Feeds `events` to the suite of the case `index` and returns every action.
fn drive(l: &SuiteLauncher, index: u32, events: Vec<SuiteEvent>) -> Vec<SuiteAction> {
    let (mut state, first) = l.start(index);
    let mut actions = vec![first];
    for event in events {
        let (next, action) = l.step(state, event);
        state = next;
        actions.push(action);
    }
    actions
}

#[test]
fn time_spans_are_nanoseconds() {
    assert_eq!(ms(0).nanos, 0);
    assert_eq!(ms(3).nanos, 3_000_000);
    assert_eq!(ms(u64::MAX).nanos, u64::MAX as u128 * 1_000_000);
    assert_eq!(TimeSpan::from_nanos(17).nanos, 17);
}

#[test]
fn files_of_a_case_are_numbered() {
    assert_eq!(numbered_file("data", 0, ".in"), "data0.in");
    assert_eq!(numbered_file("ac", 10, ".out"), "ac10.out");
    assert_eq!(numbered_file("tested", 4294967295, ".out"), "tested4294967295.out");
    assert_eq!(numbered_file("wa", 907, ".log"), "wa907.log");
}

#[test]
fn outcome_of_the_race() {
    assert!(matches!(
        ProcessOutcome::from_race(None, ms(5)),
        ProcessOutcome::TimedOut(d) if d == ms(5)
    ));
    assert!(matches!(
        ProcessOutcome::from_race(Some(Ok(Some(3))), ms(5)),
        ProcessOutcome::Completed(d, Some(3)) if d == ms(5)
    ));
    assert!(matches!(
        ProcessOutcome::from_race(Some(Ok(None)), ms(5)),
        ProcessOutcome::Completed(_, None)
    ));
    match ProcessOutcome::from_race(Some(Err("no such file".into())), ms(5)) {
        ProcessOutcome::LaunchFailed(reason) => assert_eq!(reason, "no such file"),
        other => panic!("unexpected {:?}", other),
    }
}

#[test]
fn result_of_a_launch() {
    let args = strings(&["1", "2"]);
    assert_eq!(
        LaunchConfig::launch_result(
            ProcessOutcome::Completed(ms(7), Some(1)),
            Stage::LaunchTP,
            "p".into(),
            args.clone()
        )
        .unwrap(),
        LaunchOk::Success(ms(7))
    );
    assert_eq!(
        LaunchConfig::launch_result(
            ProcessOutcome::TimedOut(ms(9)),
            Stage::LaunchTP,
            "p".into(),
            args.clone()
        )
        .unwrap(),
        LaunchOk::Timeout(ms(9))
    );
    match LaunchConfig::launch_result(
        ProcessOutcome::LaunchFailed("denied".into()),
        Stage::LaunchAC,
        "p".into(),
        args.clone(),
    ) {
        Err(e) => {
            assert_eq!(
                e.to_message(),
                "Error during launching accepted program (file: p): Error when launching: \
                 denied.\nCommand: \"p\" \"1\" \"2\""
            );
            match *e {
                CheckerError::CommandError {
                    stage,
                    command,
                    args: a,
                    file,
                    msg,
                } => {
                    assert_eq!(stage, Stage::LaunchAC);
                    assert_eq!(command, "p");
                    assert_eq!(a, args);
                    assert_eq!(file, "p");
                    assert_eq!(msg, "Error when launching: denied");
                }
                other => panic!("unexpected {:?}", other),
            }
        }
        other => panic!("unexpected {:?}", other),
    }
}

#[test]
fn launch_rule_of_the_configuration_file_is_taken_over() {
    let rule = LaunchConfig::from(oi_checker::config::cf_parsing::LaunchConfig {
        ext: strings(&["py"]),
        command: "python".into(),
        args: strings(&["{file}"]),
    });
    assert_eq!(rule.command.as_deref(), Some("python"));
    assert_eq!(rule.args, strings(&["{file}"]));
    let same: LaunchConfig = oi_checker::config::cf_parsing::LaunchConfig {
        ext: Vec::new(),
        command: "".into(),
        args: Vec::new(),
    }
    .into();
    assert_eq!(same.command.as_deref(), Some(""));
    assert!(same.args.is_empty());
}

#[test]
fn default_rule_runs_the_file_itself() {
    let rule = LaunchConfig::default();
    assert!(rule.command.is_none());
    assert!(rule.args.is_empty());
    let (program, args) = rule
        .command_line(&"./a.out".to_string(), Stage::LaunchTP, strings(&["3", "9"]))
        .unwrap();
    assert_eq!(program, "./a.out");
    assert_eq!(args, strings(&["3", "9"]));
}

#[test]
fn rule_formats_its_arguments_with_the_file() {
    let rule = LaunchConfig {
        command: Some("python".into()),
        args: strings(&["-u", "{file}", "{{x}}"]),
    };
    assert_eq!(
        rule.get_args(&"a.py".to_string(), Stage::LaunchDG).unwrap(),
        strings(&["-u", "a.py", "{x}"])
    );
    let (program, args) = rule
        .command_line(&"a.py".to_string(), Stage::LaunchDG, strings(&["1", "5"]))
        .unwrap();
    assert_eq!(program, "python");
    assert_eq!(args, strings(&["-u", "a.py", "{x}", "1", "5"]));
}

#[test]
fn first_argument_that_cannot_be_formatted_fails_the_command() {
    let rule = LaunchConfig {
        command: None,
        args: strings(&["{file}", "{target}", "{"]),
    };
    match rule.command_line(&"a".to_string(), Stage::LaunchAC, Vec::new()) {
        Err(e) => match *e {
            CheckerError::ArgFormattingKeyError {
                stage,
                pattern,
                key,
                entries,
                pos,
            } => {
                assert_eq!(stage, Stage::LaunchAC);
                assert_eq!(pattern, "{target}");
                assert_eq!(key, "target");
                assert_eq!(entries, vec![("file".to_string(), "a".to_string())]);
                assert_eq!(pos, 0);
            }
            other => panic!("unexpected {:?}", other),
        },
        other => panic!("unexpected {:?}", other),
    }
}

#[test]
fn launch_command_goes_by_the_extension() {
    let l = launcher(Vec::new());
    let (program, args) = l
        .launch_command(Stage::LaunchDG, strings(&["2", "20"]))
        .unwrap();
    assert_eq!(program, "python");
    assert_eq!(args, strings(&["-u", "gen.py", "2", "20"]));
    let (program, args) = l.launch_command(Stage::LaunchTP, Vec::new()).unwrap();
    assert_eq!(program, "tested.exe");
    assert!(args.is_empty());
    let (program, args) = l.launch_command(Stage::LaunchAC, strings(&["2", "20"])).unwrap();
    assert_eq!(program, "ac");
    assert_eq!(args, strings(&["2", "20"]));
    assert_eq!(l.program_of(Stage::CompileDG).path, "gen.py");
    assert_eq!(l.program_of(Stage::CompileAC).path, "ac");
    assert_eq!(l.program_of(Stage::CompileTP).path, "tested.exe");
    let mut broken = launcher(Vec::new());
    broken.tested_program = file("t.bad", Some("bad"));
    assert!(matches!(
        broken.launch_command(Stage::LaunchTP, Vec::new()).map_err(|e| *e),
        Err(CheckerError::ArgFormattingKeyError { .. })
    ));
}

#[test]
fn suite_starts_with_the_data_generator() {
    let l = launcher(Vec::new());
    let (state, action) = l.start(7);
    assert_eq!(
        state,
        SuiteState {
            index: 7,
            phase: SuitePhase::Generating
        }
    );
    match action {
        SuiteAction::Launch {
            stage,
            extra_args,
            input_file,
            output_file,
            timeout,
        } => {
            assert_eq!(stage, Stage::LaunchDG);
            assert_eq!(extra_args, strings(&["7", "20"]));
            assert_eq!(input_file, None);
            assert_eq!(output_file, "data7.in");
            assert_eq!(timeout, ms(5000));
        }
        other => panic!("unexpected {:?}", other),
    }
}

#[test]
fn echoing_program_is_accepted_in_every_case() {
    let l = launcher(vec![
        OutputFilter::StripTrailingWhitespace,
        OutputFilter::StripTrailingEmptyLines,
    ]);
    for index in 1..=20 {
        let actions = drive(
            &l,
            index,
            vec![
                SuiteEvent::Launched(Ok(LaunchOk::Success(ms(30)))),
                SuiteEvent::Launched(Ok(LaunchOk::Success(ms(1000)))),
                SuiteEvent::Launched(Ok(LaunchOk::Success(ms(40)))),
                SuiteEvent::Filtered(Ok(())),
                SuiteEvent::Filtered(Ok(())),
                SuiteEvent::Filtered(Ok(())),
                SuiteEvent::Filtered(Ok(())),
                SuiteEvent::Compared(Ok(DiffToolOk::Same)),
            ],
        );
        assert_eq!(actions.len(), 9);
        match verdict(actions.into_iter().last().unwrap()) {
            (i, LaunchSuiteEnum::AC(d)) => {
                assert_eq!(i, index);
                assert_eq!(d, ms(1000));
            }
            other => panic!("unexpected {:?}", other),
        }
    }
}

#[test]
fn suite_asks_for_each_stage_in_order() {
    let l = launcher(vec![
        OutputFilter::StripTrailingWhitespace,
        OutputFilter::StripAllWhitespace,
    ]);
    let actions = drive(
        &l,
        3,
        vec![
            SuiteEvent::Launched(Ok(LaunchOk::Success(ms(30)))),
            SuiteEvent::Launched(Ok(LaunchOk::Success(ms(50)))),
            SuiteEvent::Launched(Ok(LaunchOk::Success(ms(40)))),
            SuiteEvent::Filtered(Ok(())),
            SuiteEvent::Filtered(Ok(())),
            SuiteEvent::Filtered(Ok(())),
            SuiteEvent::Filtered(Ok(())),
        ],
    );
    let shown: Vec<String> = actions.iter().map(|a| format!("{:?}", a)).collect();
    assert_eq!(
        shown,
        vec![
            "Launch { stage: LaunchDG, extra_args: [\"3\", \"20\"], input_file: None, \
             output_file: \"data3.in\", timeout: TimeSpan { nanos: 5000000000 } }",
            "Launch { stage: LaunchTP, extra_args: [], input_file: Some(\"data3.in\"), \
             output_file: \"tested3.out\", timeout: TimeSpan { nanos: 5000000000 } }",
            "Launch { stage: LaunchAC, extra_args: [\"3\", \"20\"], input_file: \
             Some(\"data3.in\"), output_file: \"ac3.out\", timeout: TimeSpan { nanos: \
             5000000000 } }",
            "Filter { filter: StripTrailingWhitespace, file: \"ac3.out\" }",
            "Filter { filter: StripTrailingWhitespace, file: \"tested3.out\" }",
            "Filter { filter: StripAllWhitespace, file: \"ac3.out\" }",
            "Filter { filter: StripAllWhitespace, file: \"tested3.out\" }",
            "Compare { tested_file: \"tested3.out\", accepted_file: \"ac3.out\", log_file: \
             \"wa3.log\" }",
        ]
    );
}

#[test]
fn program_that_is_given_up_exceeds_the_time_limit() {
    let l = launcher(vec![OutputFilter::StripAllWhitespace]);
    let actions = drive(
        &l,
        4,
        vec![
            SuiteEvent::Launched(Ok(LaunchOk::Success(ms(30)))),
            SuiteEvent::Launched(Ok(LaunchOk::Timeout(ms(5001)))),
        ],
    );
    assert_eq!(actions.len(), 3);
    for action in actions.iter() {
        assert!(!matches!(
            action,
            SuiteAction::Launch {
                stage: Stage::LaunchAC,
                ..
            }
        ));
    }
    match verdict(actions.into_iter().last().unwrap()) {
        (4, LaunchSuiteEnum::TLE(d)) => assert_eq!(d, ms(5001)),
        other => panic!("unexpected {:?}", other),
    }
}

#[test]
fn given_up_is_judged_by_the_outcome_not_by_the_time() {
    let l = launcher(Vec::new());
    let (state, _) = l.start(1);
    let (state, _) = l.step(state, SuiteEvent::Launched(Ok(LaunchOk::Success(ms(1)))));
    let (state, action) = l.step(state, SuiteEvent::Launched(Ok(LaunchOk::Timeout(ms(10)))));
    assert_eq!(state.phase, SuitePhase::Finished);
    assert!(matches!(verdict(action), (1, LaunchSuiteEnum::TLE(_))));
    let (state, _) = l.start(1);
    let (state, _) = l.step(state, SuiteEvent::Launched(Ok(LaunchOk::Success(ms(1)))));
    let (state, action) = l.step(state, SuiteEvent::Launched(Ok(LaunchOk::Success(ms(9000)))));
    assert_eq!(state.phase, SuitePhase::Answering(ms(9000)));
    assert!(matches!(
        action,
        SuiteAction::Launch {
            stage: Stage::LaunchAC,
            ..
        }
    ));
}

#[test]
fn right_but_slow_program_exceeds_the_time_limit() {
    let l = launcher(Vec::new());
    let actions = drive(
        &l,
        2,
        vec![
            SuiteEvent::Launched(Ok(LaunchOk::Success(ms(30)))),
            SuiteEvent::Launched(Ok(LaunchOk::Success(TimeSpan::from_nanos(1_000_000_001)))),
            SuiteEvent::Launched(Ok(LaunchOk::Success(ms(40)))),
            SuiteEvent::Compared(Ok(DiffToolOk::Same)),
        ],
    );
    match verdict(actions.into_iter().last().unwrap()) {
        (2, LaunchSuiteEnum::TLE(d)) => assert_eq!(d.nanos, 1_000_000_001),
        other => panic!("unexpected {:?}", other),
    }
}

#[test]
fn different_output_is_a_wrong_answer_even_when_slow() {
    let l = launcher(Vec::new());
    for written in [true, false] {
        let actions = drive(
            &l,
            2,
            vec![
                SuiteEvent::Launched(Ok(LaunchOk::Success(ms(30)))),
                SuiteEvent::Launched(Ok(LaunchOk::Success(ms(4000)))),
                SuiteEvent::Launched(Ok(LaunchOk::Success(ms(40)))),
                SuiteEvent::Compared(Ok(DiffToolOk::Different {
                    log_path: "work/wa2.log".into(),
                    log_success: written,
                })),
            ],
        );
        match verdict(actions.into_iter().last().unwrap()) {
            (2, LaunchSuiteEnum::WA(d, log, w)) => {
                assert_eq!(d, ms(4000));
                assert_eq!(log, "work/wa2.log");
                assert_eq!(w, written);
            }
            other => panic!("unexpected {:?}", other),
        }
    }
}

fn unknown_after(l: &SuiteLauncher, events: Vec<SuiteEvent>) -> String {
    let actions = drive(l, 5, events);
    match verdict(actions.into_iter().last().unwrap()) {
        (5, LaunchSuiteEnum::UK(reason)) => reason,
        other => panic!("unexpected {:?}", other),
    }
}

#[test]
fn failures_of_the_harness_are_unknown() {
    let l = launcher(vec![OutputFilter::StripAllWhitespace]);
    let ok = || SuiteEvent::Launched(Ok(LaunchOk::Success(ms(1))));
    let said = "Error when creating working directory (d): e";
    assert_eq!(
        unknown_after(&l, vec![SuiteEvent::Launched(Ok(LaunchOk::Timeout(ms(1))))]),
        "Launch data generator failed: Timeout"
    );
    assert_eq!(
        unknown_after(&l, vec![SuiteEvent::Launched(Err(failure()))]),
        format!("Launch data generator failed: Inner Error: {}", said)
    );
    assert_eq!(
        unknown_after(&l, vec![ok(), SuiteEvent::Launched(Err(failure()))]),
        format!("Launch tested program failed: {}", said)
    );
    assert_eq!(
        unknown_after(
            &l,
            vec![ok(), ok(), SuiteEvent::Launched(Ok(LaunchOk::Timeout(ms(1))))]
        ),
        "Launch data generator failed: Timeout"
    );
    assert_eq!(
        unknown_after(&l, vec![ok(), ok(), SuiteEvent::Launched(Err(failure()))]),
        format!("Launch data generator failed: Inner Error: {}", said)
    );
    assert_eq!(
        unknown_after(&l, vec![ok(), ok(), ok(), SuiteEvent::Filtered(Err(failure()))]),
        format!("Filter accepted output file failed: {}", said)
    );
    assert_eq!(
        unknown_after(
            &l,
            vec![
                ok(),
                ok(),
                ok(),
                SuiteEvent::Filtered(Ok(())),
                SuiteEvent::Filtered(Err(failure()))
            ]
        ),
        format!("Filter tested output file failed: {}", said)
    );
    assert_eq!(
        unknown_after(
            &l,
            vec![
                ok(),
                ok(),
                ok(),
                SuiteEvent::Filtered(Ok(())),
                SuiteEvent::Filtered(Ok(())),
                SuiteEvent::Compared(Err(failure()))
            ]
        ),
        format!("Different tool failed: {}", said)
    );
}

#[test]
fn event_that_is_not_waited_for_ends_the_suite() {
    let l = launcher(Vec::new());
    assert_eq!(
        unknown_after(&l, vec![SuiteEvent::Filtered(Ok(()))]),
        "Unexpected event: the suite waits for another"
    );
    assert_eq!(
        unknown_after(
            &l,
            vec![
                SuiteEvent::Launched(Ok(LaunchOk::Success(ms(1)))),
                SuiteEvent::Compared(Ok(DiffToolOk::Same))
            ]
        ),
        "Unexpected event: the suite waits for another"
    );
    let finished = SuiteState {
        index: 5,
        phase: SuitePhase::Finished,
    };
    let (state, action) = l.step(finished, SuiteEvent::Launched(Ok(LaunchOk::Success(ms(1)))));
    assert_eq!(state, finished);
    assert!(matches!(verdict(action), (5, LaunchSuiteEnum::UK(_))));
    let beyond = SuiteState {
        index: 5,
        phase: SuitePhase::FilteringAccepted(ms(1), 3),
    };
    let (state, action) = l.step(beyond, SuiteEvent::Filtered(Ok(())));
    assert_eq!(state.phase, SuitePhase::Comparing(ms(1)));
    assert!(matches!(action, SuiteAction::Compare { .. }));
}
