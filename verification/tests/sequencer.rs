use updater::sequencer::{
    expects_event, run_trace, step, Action, Event, Phase, EXIT_BAD_ARGS, EXIT_COPY_FAILED,
    EXIT_OK, EXIT_RELAUNCH_FAILED, GRACE_WAIT_MS, MAX_RETRIES, REQUIRED_ARGS, RETRY_GAP_MS,
};

fn copy_attempts(acts: &[Action]) -> usize {
    acts.iter().filter(|a| matches!(a, Action::CopyFile)).count()
}

fn touches_fs(acts: &[Action]) -> bool {
    acts.iter()
        .any(|a| matches!(a, Action::CopyFile | Action::EnsureDestDir))
}

#[test]
fn constants_are_the_design_constants() {
    assert_eq!(GRACE_WAIT_MS, 700);
    assert_eq!(RETRY_GAP_MS, 300);
    assert_eq!(MAX_RETRIES, 3);
    assert_eq!(REQUIRED_ARGS, 3);
    assert_eq!(EXIT_OK, 0);
    assert_eq!(EXIT_BAD_ARGS, 1);
    assert_eq!(EXIT_COPY_FAILED, 2);
    assert_eq!(EXIT_RELAUNCH_FAILED, 3);
}

#[test]
fn scenario_successful_update() {
    // Source present, copy succeeds at once, relaunch succeeds: exit 0.
    let events = vec![
        Event::Start { arg_count: 3 },
        Event::Slept,
        Event::SourcePresent { present: true },
        Event::DirReady { ok: true },
        Event::CopyDone { ok: true },
        Event::SpawnDone { ok: true },
    ];
    let (phase, acts) = run_trace(&events);
    assert_eq!(phase, Phase::Finished { code: 0 });
    assert_eq!(
        acts,
        vec![
            Action::SleepMs { ms: 700 },
            Action::CheckSource,
            Action::EnsureDestDir,
            Action::CopyFile,
            Action::Spawn,
            Action::Exit { code: 0 },
        ]
    );
}

#[test]
fn scenario_wrong_argument_count() {
    // Two arguments instead of three: exit 1, nothing touches the filesystem.
    let events = vec![Event::Start { arg_count: 2 }];
    let (phase, acts) = run_trace(&events);
    assert_eq!(phase, Phase::Finished { code: 1 });
    assert_eq!(acts, vec![Action::Exit { code: 1 }]);
    assert!(!touches_fs(&acts));
    // The finished machine takes no further event.
    assert!(!expects_event(phase, Event::Slept));
    assert!(!expects_event(phase, Event::CopyDone { ok: true }));
}

#[test]
fn scenario_too_many_arguments() {
    let (phase, act) = step(Phase::New, Event::Start { arg_count: 4 });
    assert_eq!(phase, Phase::Finished { code: 1 });
    assert_eq!(act, Action::Exit { code: 1 });
    let (phase0, act0) = step(Phase::New, Event::Start { arg_count: 0 });
    assert_eq!(phase0, Phase::Finished { code: 1 });
    assert_eq!(act0, Action::Exit { code: 1 });
}

#[test]
fn scenario_missing_source() {
    // The source archive does not exist: exit 2 before any copy attempt.
    let events = vec![
        Event::Start { arg_count: 3 },
        Event::Slept,
        Event::SourcePresent { present: false },
    ];
    let (phase, acts) = run_trace(&events);
    assert_eq!(phase, Phase::Finished { code: 2 });
    assert_eq!(acts.last(), Some(&Action::Exit { code: 2 }));
    assert_eq!(copy_attempts(&acts), 0);
}

#[test]
fn scenario_relaunch_failure() {
    // Copy succeeds, process creation fails: exit 3, and the copy had
    // already been requested (it is not rolled back).
    let events = vec![
        Event::Start { arg_count: 3 },
        Event::Slept,
        Event::SourcePresent { present: true },
        Event::DirReady { ok: true },
        Event::CopyDone { ok: true },
        Event::SpawnDone { ok: false },
    ];
    let (phase, acts) = run_trace(&events);
    assert_eq!(phase, Phase::Finished { code: 3 });
    assert_eq!(acts.last(), Some(&Action::Exit { code: 3 }));
    assert_eq!(copy_attempts(&acts), 1);
    assert!(!expects_event(phase, Event::Slept));
}

#[test]
fn directory_creation_failure_is_a_copy_failure() {
    let events = vec![
        Event::Start { arg_count: 3 },
        Event::Slept,
        Event::SourcePresent { present: true },
        Event::DirReady { ok: false },
    ];
    let (phase, acts) = run_trace(&events);
    assert_eq!(phase, Phase::Finished { code: 2 });
    assert_eq!(acts.last(), Some(&Action::Exit { code: 2 }));
    assert_eq!(copy_attempts(&acts), 0);
}

#[test]
fn transient_lock_clears_within_the_retry_window() {
    // Two attempts fail, the third succeeds: the run reaches the relaunch
    // with three copy attempts, within the bound of four.
    let events = vec![
        Event::Start { arg_count: 3 },
        Event::Slept,
        Event::SourcePresent { present: true },
        Event::DirReady { ok: true },
        Event::CopyDone { ok: false },
        Event::Slept,
        Event::CopyDone { ok: false },
        Event::Slept,
        Event::CopyDone { ok: true },
        Event::SpawnDone { ok: true },
    ];
    let (phase, acts) = run_trace(&events);
    assert_eq!(phase, Phase::Finished { code: 0 });
    assert_eq!(copy_attempts(&acts), 3);
    assert!(copy_attempts(&acts) <= 4);
    // Each failed attempt but the last is followed by the retry-gap sleep.
    let gaps = acts
        .iter()
        .filter(|a| matches!(a, Action::SleepMs { ms: 300 }))
        .count();
    assert_eq!(gaps, 2);
}

#[test]
fn lock_held_for_the_whole_window_exhausts_the_retries() {
    // Four attempts fail: exit 2, exactly MAX_RETRIES + 1 attempts.
    let events = vec![
        Event::Start { arg_count: 3 },
        Event::Slept,
        Event::SourcePresent { present: true },
        Event::DirReady { ok: true },
        Event::CopyDone { ok: false },
        Event::Slept,
        Event::CopyDone { ok: false },
        Event::Slept,
        Event::CopyDone { ok: false },
        Event::Slept,
        Event::CopyDone { ok: false },
    ];
    let (phase, acts) = run_trace(&events);
    assert_eq!(phase, Phase::Finished { code: 2 });
    assert_eq!(acts.last(), Some(&Action::Exit { code: 2 }));
    assert_eq!(copy_attempts(&acts), 4);
    assert!(!expects_event(phase, Event::CopyDone { ok: true }));
}

#[test]
fn grace_wait_fires_exactly_once_and_first() {
    let events = vec![
        Event::Start { arg_count: 3 },
        Event::Slept,
        Event::SourcePresent { present: true },
        Event::DirReady { ok: true },
        Event::CopyDone { ok: true },
        Event::SpawnDone { ok: true },
    ];
    let (_, acts) = run_trace(&events);
    assert_eq!(acts[0], Action::SleepMs { ms: 700 });
    let grace_sleeps = acts
        .iter()
        .filter(|a| matches!(a, Action::SleepMs { ms: 700 }))
        .count();
    assert_eq!(grace_sleeps, 1);
}

#[test]
fn expected_events_follow_the_pipeline() {
    assert!(expects_event(Phase::New, Event::Start { arg_count: 3 }));
    assert!(!expects_event(Phase::New, Event::Slept));
    assert!(expects_event(Phase::Waiting, Event::Slept));
    assert!(expects_event(
        Phase::Checking,
        Event::SourcePresent { present: false }
    ));
    assert!(expects_event(Phase::Preparing, Event::DirReady { ok: true }));
    assert!(expects_event(
        Phase::Copying { failures: 0 },
        Event::CopyDone { ok: false }
    ));
    assert!(expects_event(Phase::RetryGap { failures: 1 }, Event::Slept));
    assert!(expects_event(
        Phase::Launching,
        Event::SpawnDone { ok: true }
    ));
    assert!(!expects_event(
        Phase::Finished { code: 0 },
        Event::Start { arg_count: 3 }
    ));
}
