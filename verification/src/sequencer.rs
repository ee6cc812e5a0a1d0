//! The copy-then-relaunch sequencing machine.
//!
//! One update run is a strictly sequential pipeline: validate the argument
//! count, wait a fixed grace period, check that the source archive exists,
//! make sure the destination directory exists, copy with a bounded number
//! of retries, and finally relaunch the host executable.  The machine
//! decides; the caller performs the requested [`Action`] (a sleep, a file
//! probe, a copy attempt, a process launch) and reports the outcome as the
//! next [`Event`].

use vstd::prelude::*;

verus! {

/// Milliseconds of unconditional grace wait before any file operation.
pub const GRACE_WAIT_MS: u64 = 700;

/// Milliseconds between two copy attempts.
pub const RETRY_GAP_MS: u64 = 300;

/// Retries after the first copy attempt, so at most `MAX_RETRIES + 1`
/// attempts in all.
pub const MAX_RETRIES: u8 = 3;

/// Positional arguments the helper expects: source archive, destination
/// archive, executable to relaunch.
pub const REQUIRED_ARGS: usize = 3;

/// Exit code: copy and relaunch both succeeded.
pub const EXIT_OK: u8 = 0;

/// Exit code: wrong argument count.
pub const EXIT_BAD_ARGS: u8 = 1;

/// Exit code: missing source archive, or copy failed after all retries.
pub const EXIT_COPY_FAILED: u8 = 2;

/// Exit code: process creation for the relaunch failed.
pub const EXIT_RELAUNCH_FAILED: u8 = 3;

/// Where the machine stands in the pipeline.
#[derive(Clone, Copy, Debug, PartialEq, Eq, Structural)]
pub enum Phase {
    /// Nothing has happened yet; the argument count is awaited.
    New,
    /// The grace-period sleep was requested.
    Waiting,
    /// The source-archive existence probe was requested.
    Checking,
    /// Creation of the destination's parent directory was requested.
    Preparing,
    /// A copy attempt was requested; `failures` attempts have failed so far.
    Copying { failures: u8 },
    /// A copy attempt failed and the inter-attempt sleep was requested;
    /// `failures` attempts have failed so far.
    RetryGap { failures: u8 },
    /// The copy succeeded and the relaunch was requested.
    Launching,
    /// The pipeline is over; the process exits with `code`.
    Finished { code: u8 },
}

/// An outcome the caller reports back to the machine.
#[derive(Clone, Copy, Debug, PartialEq, Eq, Structural)]
pub enum Event {
    /// The process started with this many arguments after the program name.
    Start { arg_count: usize },
    /// The requested sleep completed.
    Slept,
    /// Whether the source archive exists.
    SourcePresent { present: bool },
    /// Whether the destination's parent directory exists now.
    DirReady { ok: bool },
    /// Whether the copy attempt succeeded.
    CopyDone { ok: bool },
    /// Whether process creation for the relaunch succeeded.
    SpawnDone { ok: bool },
}

/// What the machine asks the caller to do next.
#[derive(Clone, Copy, Debug, PartialEq, Eq, Structural)]
pub enum Action {
    /// Block for `ms` milliseconds, then report [`Event::Slept`].
    SleepMs { ms: u64 },
    /// Probe the source archive, then report [`Event::SourcePresent`].
    CheckSource,
    /// Create the destination's parent directory if missing, then report
    /// [`Event::DirReady`].
    EnsureDestDir,
    /// Attempt one copy of source over destination, then report
    /// [`Event::CopyDone`].
    CopyFile,
    /// Start the executable detached, console suppressed, working directory
    /// set to its parent when resolvable, then report [`Event::SpawnDone`].
    Spawn,
    /// Terminate the process with exit code `code`.
    Exit { code: u8 },
}

/// Which event kind the machine can take in each phase.  A [`Phase::Finished`]
/// machine takes no event at all.
pub open spec fn expects(p: Phase, e: Event) -> bool {
    match p {
        Phase::New => e is Start,
        Phase::Waiting => e is Slept,
        Phase::Checking => e is SourcePresent,
        Phase::Preparing => e is DirReady,
        Phase::Copying { .. } => e is CopyDone,
        Phase::RetryGap { .. } => e is Slept,
        Phase::Launching => e is SpawnDone,
        Phase::Finished { .. } => false,
    }
}

/// Bounds that every reachable phase satisfies.
pub open spec fn phase_inv(p: Phase) -> bool {
    match p {
        Phase::Copying { failures } => failures <= MAX_RETRIES,
        Phase::RetryGap { failures } => 1 <= failures <= MAX_RETRIES,
        Phase::Finished { code } => code <= EXIT_RELAUNCH_FAILED,
        _ => true,
    }
}

/// The transition function: from the current phase and the reported event
/// to the next phase and the next action.
pub open spec fn step_spec(p: Phase, e: Event) -> (Phase, Action) {
    match (p, e) {
        (Phase::New, Event::Start { arg_count }) => {
            if arg_count == REQUIRED_ARGS {
                (Phase::Waiting, Action::SleepMs { ms: GRACE_WAIT_MS })
            } else {
                (Phase::Finished { code: EXIT_BAD_ARGS }, Action::Exit { code: EXIT_BAD_ARGS })
            }
        },
        (Phase::Waiting, Event::Slept) => (Phase::Checking, Action::CheckSource),
        (Phase::Checking, Event::SourcePresent { present }) => {
            if present {
                (Phase::Preparing, Action::EnsureDestDir)
            } else {
                (Phase::Finished { code: EXIT_COPY_FAILED }, Action::Exit { code: EXIT_COPY_FAILED })
            }
        },
        (Phase::Preparing, Event::DirReady { ok }) => {
            if ok {
                (Phase::Copying { failures: 0 }, Action::CopyFile)
            } else {
                (Phase::Finished { code: EXIT_COPY_FAILED }, Action::Exit { code: EXIT_COPY_FAILED })
            }
        },
        (Phase::Copying { failures }, Event::CopyDone { ok }) => {
            if ok {
                (Phase::Launching, Action::Spawn)
            } else if failures < MAX_RETRIES {
                (
                    Phase::RetryGap { failures: (failures + 1) as u8 },
                    Action::SleepMs { ms: RETRY_GAP_MS },
                )
            } else {
                (Phase::Finished { code: EXIT_COPY_FAILED }, Action::Exit { code: EXIT_COPY_FAILED })
            }
        },
        (Phase::RetryGap { failures }, Event::Slept) => (
            Phase::Copying { failures },
            Action::CopyFile,
        ),
        (Phase::Launching, Event::SpawnDone { ok }) => {
            if ok {
                (Phase::Finished { code: EXIT_OK }, Action::Exit { code: EXIT_OK })
            } else {
                (
                    Phase::Finished { code: EXIT_RELAUNCH_FAILED },
                    Action::Exit { code: EXIT_RELAUNCH_FAILED },
                )
            }
        },
        _ => (p, Action::Exit { code: EXIT_BAD_ARGS }),
    }
}

/// One transition of the machine.
pub fn step(p: Phase, e: Event) -> (r: (Phase, Action))
    requires
        expects(p, e),
    ensures
        r == step_spec(p, e),
{
    match (p, e) {
        (Phase::New, Event::Start { arg_count }) => {
            if arg_count == REQUIRED_ARGS {
                (Phase::Waiting, Action::SleepMs { ms: GRACE_WAIT_MS })
            } else {
                (Phase::Finished { code: EXIT_BAD_ARGS }, Action::Exit { code: EXIT_BAD_ARGS })
            }
        },
        (Phase::Waiting, Event::Slept) => (Phase::Checking, Action::CheckSource),
        (Phase::Checking, Event::SourcePresent { present }) => {
            if present {
                (Phase::Preparing, Action::EnsureDestDir)
            } else {
                (Phase::Finished { code: EXIT_COPY_FAILED }, Action::Exit { code: EXIT_COPY_FAILED })
            }
        },
        (Phase::Preparing, Event::DirReady { ok }) => {
            if ok {
                (Phase::Copying { failures: 0 }, Action::CopyFile)
            } else {
                (Phase::Finished { code: EXIT_COPY_FAILED }, Action::Exit { code: EXIT_COPY_FAILED })
            }
        },
        (Phase::Copying { failures }, Event::CopyDone { ok }) => {
            if ok {
                (Phase::Launching, Action::Spawn)
            } else if failures < MAX_RETRIES {
                (
                    Phase::RetryGap { failures: failures + 1 },
                    Action::SleepMs { ms: RETRY_GAP_MS },
                )
            } else {
                (Phase::Finished { code: EXIT_COPY_FAILED }, Action::Exit { code: EXIT_COPY_FAILED })
            }
        },
        (Phase::RetryGap { failures }, Event::Slept) => (
            Phase::Copying { failures },
            Action::CopyFile,
        ),
        (Phase::Launching, Event::SpawnDone { ok }) => {
            if ok {
                (Phase::Finished { code: EXIT_OK }, Action::Exit { code: EXIT_OK })
            } else {
                (
                    Phase::Finished { code: EXIT_RELAUNCH_FAILED },
                    Action::Exit { code: EXIT_RELAUNCH_FAILED },
                )
            }
        },
        _ => (p, Action::Exit { code: EXIT_BAD_ARGS }),
    }
}

/// Valid steps keep the phase bounds.
pub proof fn lemma_step_inv(p: Phase, e: Event)
    requires
        phase_inv(p),
        expects(p, e),
    ensures
        phase_inv(step_spec(p, e).0),
{
}

/// The phase after feeding the machine the events `evs` from `p`, in order.
pub open spec fn run_phase(p: Phase, evs: Seq<Event>) -> Phase
    decreases evs.len(),
{
    if evs.len() == 0 {
        p
    } else {
        run_phase(step_spec(p, evs.first()).0, evs.drop_first())
    }
}

/// The actions the machine requests while fed the events `evs` from `p`.
pub open spec fn run_actions(p: Phase, evs: Seq<Event>) -> Seq<Action>
    decreases evs.len(),
{
    if evs.len() == 0 {
        Seq::empty()
    } else {
        seq![step_spec(p, evs.first()).1] + run_actions(
            step_spec(p, evs.first()).0,
            evs.drop_first(),
        )
    }
}

/// Whether each event of `evs` arrives in a phase that takes it.
pub open spec fn trace_ok(p: Phase, evs: Seq<Event>) -> bool
    decreases evs.len(),
{
    evs.len() == 0 || (expects(p, evs.first()) && trace_ok(
        step_spec(p, evs.first()).0,
        evs.drop_first(),
    ))
}

/// Whether the action touches the filesystem.
pub open spec fn mutates_fs(a: Action) -> bool {
    a is CopyFile || a is EnsureDestDir
}

/// How many copy attempts `acts` requests.
pub open spec fn copy_attempts(acts: Seq<Action>) -> nat
    decreases acts.len(),
{
    if acts.len() == 0 {
        0
    } else {
        (if acts.first() is CopyFile {
            1nat
        } else {
            0nat
        }) + copy_attempts(acts.drop_first())
    }
}

/// One requested action per event taken.
pub proof fn lemma_run_actions_len(p: Phase, evs: Seq<Event>)
    ensures
        run_actions(p, evs).len() == evs.len(),
    decreases evs.len(),
{
    if evs.len() > 0 {
        lemma_run_actions_len(step_spec(p, evs.first()).0, evs.drop_first());
    }
}

/// Feeding `a + b` is feeding `a`, then feeding `b` from where `a` left off.
pub proof fn lemma_run_append(p: Phase, a: Seq<Event>, b: Seq<Event>)
    ensures
        run_phase(p, a + b) == run_phase(run_phase(p, a), b),
        run_actions(p, a + b) =~= run_actions(p, a) + run_actions(run_phase(p, a), b),
        trace_ok(p, a + b) == (trace_ok(p, a) && trace_ok(run_phase(p, a), b)),
    decreases a.len(),
{
    if a.len() == 0 {
        assert(a + b =~= b);
        assert(run_actions(p, a) =~= Seq::<Action>::empty());
    } else {
        let next = step_spec(p, a.first()).0;
        assert((a + b).first() == a.first());
        assert((a + b).drop_first() =~= a.drop_first() + b);
        lemma_run_append(next, a.drop_first(), b);
        assert(run_actions(p, a + b) =~= run_actions(p, a) + run_actions(run_phase(p, a), b));
    }
}

/// Copy attempts add up over concatenation.
pub proof fn lemma_copy_attempts_append(a: Seq<Action>, b: Seq<Action>)
    ensures
        copy_attempts(a + b) == copy_attempts(a) + copy_attempts(b),
    decreases a.len(),
{
    if a.len() == 0 {
        assert(a + b =~= b);
    } else {
        assert((a + b).first() == a.first());
        assert((a + b).drop_first() =~= a.drop_first() + b);
        lemma_copy_attempts_append(a.drop_first(), b);
    }
}

/// One event: one step.
proof fn lemma_run_one(p: Phase, e: Event)
    ensures
        run_phase(p, seq![e]) == step_spec(p, e).0,
        run_actions(p, seq![e]) =~= seq![step_spec(p, e).1],
        trace_ok(p, seq![e]) == expects(p, e),
{
    reveal_with_fuel(run_phase, 2);
    reveal_with_fuel(run_actions, 2);
    reveal_with_fuel(trace_ok, 2);
    assert(seq![e].first() == e);
    assert(seq![e].drop_first() =~= Seq::<Event>::empty());
}

/// The bounds of [`phase_inv`] hold in every phase a valid trace reaches
/// from a phase where they hold.
pub proof fn lemma_phase_inv_preserved(p: Phase, evs: Seq<Event>)
    requires
        phase_inv(p),
        trace_ok(p, evs),
    ensures
        phase_inv(run_phase(p, evs)),
    decreases evs.len(),
{
    if evs.len() > 0 {
        lemma_step_inv(p, evs.first());
        lemma_phase_inv_preserved(step_spec(p, evs.first()).0, evs.drop_first());
    }
}

/// Splits a valid trace at position `i`: the machine is then in the phase
/// the first `i` events produce, takes event `i` there, and the next prefix
/// extends the phase and action histories by that one step.
pub proof fn lemma_trace_ok_index(p: Phase, evs: Seq<Event>, i: int)
    requires
        trace_ok(p, evs),
        0 <= i < evs.len(),
    ensures
        expects(run_phase(p, evs.subrange(0, i)), evs[i]),
        run_phase(p, evs.subrange(0, i + 1)) == step_spec(
            run_phase(p, evs.subrange(0, i)),
            evs[i],
        ).0,
        run_actions(p, evs.subrange(0, i + 1)) =~= run_actions(p, evs.subrange(0, i)).push(
            step_spec(run_phase(p, evs.subrange(0, i)), evs[i]).1,
        ),
{
    let pre = evs.subrange(0, i);
    let mid = run_phase(p, pre);
    assert(evs =~= evs.subrange(0, i + 1) + evs.subrange(i + 1, evs.len() as int));
    assert(evs.subrange(0, i + 1) =~= pre + seq![evs[i]]);
    lemma_run_append(p, evs.subrange(0, i + 1), evs.subrange(i + 1, evs.len() as int));
    lemma_run_append(p, pre, seq![evs[i]]);
    lemma_run_one(mid, evs[i]);
    assert(run_actions(p, evs.subrange(0, i + 1)) =~= run_actions(p, pre).push(
        step_spec(mid, evs[i]).1,
    ));
}

/// A transition requests an exit exactly when it finishes the run, and
/// with the code the finished phase carries.
pub proof fn lemma_exit_matches_finish(p: Phase, e: Event)
    requires
        expects(p, e),
    ensures
        (step_spec(p, e).0 is Finished) == (step_spec(p, e).1 is Exit),
        step_spec(p, e).0 matches Phase::Finished { code } ==> step_spec(p, e).1 == (Action::Exit {
            code,
        }),
{
}

/// Failure reporting: a valid run that finishes with code `c` requests
/// exactly one exit — as its very last action, and with that code `c`.
/// With the phase bounds, `c` is one of the four codes the design names.
pub proof fn lemma_single_exit(p: Phase, evs: Seq<Event>, c: u8)
    requires
        trace_ok(p, evs),
        run_phase(p, evs) == (Phase::Finished { code: c }),
        !(p is Finished),
        phase_inv(p),
    ensures
        evs.len() >= 1,
        run_actions(p, evs).last() == (Action::Exit { code: c }),
        forall|j: int|
            0 <= j < run_actions(p, evs).len() - 1 ==> !(#[trigger] run_actions(p, evs)[j]
                is Exit),
        c <= EXIT_RELAUNCH_FAILED,
    decreases evs.len(),
{
    reveal_with_fuel(trace_ok, 3);
    lemma_run_actions_len(p, evs);
    lemma_phase_inv_preserved(p, evs);
    if evs.len() == 0 {
        assert(run_phase(p, evs) == p);
        assert(false);
    }
    let p1 = step_spec(p, evs.first()).0;
    let a0 = step_spec(p, evs.first()).1;
    let rest = evs.drop_first();
    lemma_exit_matches_finish(p, evs.first());
    assert(run_actions(p, evs) =~= seq![a0] + run_actions(p1, rest));
    if rest.len() == 0 {
        assert(run_phase(p1, rest) == p1);
        assert(run_actions(p1, rest) =~= Seq::<Action>::empty());
        assert(run_actions(p, evs) =~= seq![a0]);
    } else {
        assert(expects(p1, rest.first()));
        assert(!(p1 is Finished));
        lemma_step_inv(p, evs.first());
        lemma_single_exit(p1, rest, c);
        lemma_run_actions_len(p1, rest);
        assert(run_actions(p, evs).last() == run_actions(p1, rest).last());
        assert forall|j: int| 0 <= j < run_actions(p, evs).len() - 1 implies !(
        #[trigger] run_actions(p, evs)[j] is Exit) by {
            if j == 0 {
                assert(run_actions(p, evs)[0] == a0);
            } else {
                assert(run_actions(p, evs)[j] == run_actions(p1, rest)[j - 1]);
            }
        }
    }
}

/// Whether the machine in phase `p` can take the event `e`; callers use it
/// to guard [`step`].
pub fn expects_event(p: Phase, e: Event) -> (r: bool)
    ensures
        r == expects(p, e),
{
    match p {
        Phase::New => matches!(e, Event::Start { .. }),
        Phase::Waiting => matches!(e, Event::Slept),
        Phase::Checking => matches!(e, Event::SourcePresent { .. }),
        Phase::Preparing => matches!(e, Event::DirReady { .. }),
        Phase::Copying { .. } => matches!(e, Event::CopyDone { .. }),
        Phase::RetryGap { .. } => matches!(e, Event::Slept),
        Phase::Launching => matches!(e, Event::SpawnDone { .. }),
        Phase::Finished { .. } => false,
    }
}

/// Feeds the machine every event of `evs` in order, from [`Phase::New`],
/// and returns the final phase together with every action requested along
/// the way.
pub fn run_trace(evs: &Vec<Event>) -> (r: (Phase, Vec<Action>))
    requires
        trace_ok(Phase::New, evs@),
    ensures
        r.0 == run_phase(Phase::New, evs@),
        r.1@ == run_actions(Phase::New, evs@),
{
    let mut p = Phase::New;
    let mut acts: Vec<Action> = Vec::new();
    let mut i: usize = 0;
    proof {
        assert(evs@.subrange(0, 0) =~= Seq::<Event>::empty());
        assert(acts@ =~= run_actions(Phase::New, evs@.subrange(0, 0)));
    }
    while i < evs.len()
        invariant
            i <= evs@.len(),
            trace_ok(Phase::New, evs@),
            p == run_phase(Phase::New, evs@.subrange(0, i as int)),
            acts@ == run_actions(Phase::New, evs@.subrange(0, i as int)),
        decreases evs@.len() - i,
    {
        proof {
            lemma_trace_ok_index(Phase::New, evs@, i as int);
        }
        let e = evs[i];
        let (np, a) = step(p, e);
        p = np;
        acts.push(a);
        i = i + 1;
    }
    proof {
        assert(evs@.subrange(0, evs@.len() as int) =~= evs@);
    }
    (p, acts)
}

/// The events of a run that passes validation, takes the grace wait, and
/// finds the source archive and the destination directory in place.
pub open spec fn prelude_events() -> Seq<Event> {
    seq![
        Event::Start { arg_count: REQUIRED_ARGS },
        Event::Slept,
        Event::SourcePresent { present: true },
        Event::DirReady { ok: true },
    ]
}

/// `f` failed copy attempts, each followed by the retry-gap sleep, then one
/// successful attempt.
pub open spec fn retry_then_success(f: nat) -> Seq<Event>
    decreases f,
{
    if f == 0 {
        seq![Event::CopyDone { ok: true }]
    } else {
        seq![Event::CopyDone { ok: false }, Event::Slept] + retry_then_success((f - 1) as nat)
    }
}

/// `f + 1` failed copy attempts, with the retry-gap sleep after each but
/// the last.
pub open spec fn retry_then_exhausted(f: nat) -> Seq<Event>
    decreases f,
{
    if f == 0 {
        seq![Event::CopyDone { ok: false }]
    } else {
        seq![Event::CopyDone { ok: false }, Event::Slept] + retry_then_exhausted((f - 1) as nat)
    }
}

/// A wrong argument count ends the run at once: the one and only step of
/// any valid trace requests `Exit` with [`EXIT_BAD_ARGS`], and in
/// particular nothing ever touches the filesystem.
pub proof fn lemma_bad_arity(n: usize, evs: Seq<Event>)
    requires
        n != REQUIRED_ARGS,
        evs.len() > 0,
        evs.first() == (Event::Start { arg_count: n }),
        trace_ok(Phase::New, evs),
    ensures
        evs.len() == 1,
        run_phase(Phase::New, evs) == (Phase::Finished { code: EXIT_BAD_ARGS }),
        run_actions(Phase::New, evs) =~= seq![Action::Exit { code: EXIT_BAD_ARGS }],
        forall|j: int| 0 <= j < run_actions(Phase::New, evs).len() ==> !mutates_fs(
            #[trigger] run_actions(Phase::New, evs)[j],
        ),
{
    reveal_with_fuel(run_phase, 2);
    reveal_with_fuel(run_actions, 2);
    reveal_with_fuel(trace_ok, 2);
    assert(step_spec(Phase::New, evs.first()).0 == (Phase::Finished { code: EXIT_BAD_ARGS }));
    if evs.len() > 1 {
        assert(expects(Phase::Finished { code: EXIT_BAD_ARGS }, evs.drop_first().first()));
        assert(false);
    }
    assert(evs.drop_first() =~= Seq::<Event>::empty());
}

/// Through the prelude the machine reaches the first copy attempt, having
/// requested exactly one copy so far.
pub proof fn lemma_prelude()
    ensures
        trace_ok(Phase::New, prelude_events()),
        run_phase(Phase::New, prelude_events()) == (Phase::Copying { failures: 0 }),
        copy_attempts(run_actions(Phase::New, prelude_events())) == 1,
{
    reveal_with_fuel(run_phase, 5);
    reveal_with_fuel(run_actions, 5);
    reveal_with_fuel(trace_ok, 5);
    reveal_with_fuel(copy_attempts, 5);
    let evs = prelude_events();
    let s1 = evs.drop_first();
    let s2 = s1.drop_first();
    let s3 = s2.drop_first();
    let s4 = s3.drop_first();
    assert(s1 =~= seq![
        Event::Slept,
        Event::SourcePresent { present: true },
        Event::DirReady { ok: true },
    ]);
    assert(s2 =~= seq![Event::SourcePresent { present: true }, Event::DirReady { ok: true }]);
    assert(s3 =~= seq![Event::DirReady { ok: true }]);
    assert(s4 =~= Seq::<Event>::empty());
    assert(run_actions(Phase::New, evs) =~= seq![
        Action::SleepMs { ms: GRACE_WAIT_MS },
        Action::CheckSource,
        Action::EnsureDestDir,
        Action::CopyFile,
    ]);
}

/// From `k` failures already on the books and `k + f` within the retry
/// budget, `f` more failures and then a success lead to the relaunch, with
/// exactly `f` further copy attempts requested.
pub proof fn lemma_retries_then_success(k: nat, f: nat)
    requires
        k + f <= MAX_RETRIES,
    ensures
        trace_ok(Phase::Copying { failures: k as u8 }, retry_then_success(f)),
        run_phase(Phase::Copying { failures: k as u8 }, retry_then_success(f)) == Phase::Launching,
        copy_attempts(run_actions(Phase::Copying { failures: k as u8 }, retry_then_success(f)))
            == f,
    decreases f,
{
    let p = Phase::Copying { failures: k as u8 };
    if f == 0 {
        lemma_run_one(p, Event::CopyDone { ok: true });
        assert(retry_then_success(0) =~= seq![Event::CopyDone { ok: true }]);
        reveal_with_fuel(trace_ok, 2);
        reveal_with_fuel(copy_attempts, 2);
    } else {
        let two = seq![Event::CopyDone { ok: false }, Event::Slept];
        let rest = retry_then_success((f - 1) as nat);
        let gap = Phase::RetryGap { failures: (k + 1) as u8 };
        let next = Phase::Copying { failures: (k + 1) as u8 };
        reveal_with_fuel(run_phase, 3);
        reveal_with_fuel(run_actions, 3);
        reveal_with_fuel(trace_ok, 3);
        reveal_with_fuel(copy_attempts, 3);
        assert(two.drop_first() =~= seq![Event::Slept]);
        assert(seq![Event::Slept].drop_first() =~= Seq::<Event>::empty());
        assert(step_spec(p, Event::CopyDone { ok: false }).0 == gap);
        assert(run_phase(Phase::New, Seq::<Event>::empty()) == Phase::New);
        assert(run_phase(p, two) == next);
        assert(run_actions(p, two) =~= seq![Action::SleepMs { ms: RETRY_GAP_MS }, Action::CopyFile]);
        assert(trace_ok(p, two));
        lemma_retries_then_success(k + 1, (f - 1) as nat);
        lemma_run_append(p, two, rest);
        lemma_copy_attempts_append(run_actions(p, two), run_actions(next, rest));
        assert(copy_attempts(run_actions(p, two)) == 1);
    }
}

/// From `k` failures already on the books and `k + f` exactly exhausting
/// the retry budget, `f + 1` more failures end the run with exit code
/// [`EXIT_COPY_FAILED`], with exactly `f` further copy attempts requested
/// and the exit as the last action.
pub proof fn lemma_retries_then_exhausted(k: nat, f: nat)
    requires
        k + f == MAX_RETRIES,
    ensures
        trace_ok(Phase::Copying { failures: k as u8 }, retry_then_exhausted(f)),
        run_phase(Phase::Copying { failures: k as u8 }, retry_then_exhausted(f)) == (
        Phase::Finished { code: EXIT_COPY_FAILED }),
        copy_attempts(run_actions(Phase::Copying { failures: k as u8 }, retry_then_exhausted(f)))
            == f,
        run_actions(Phase::Copying { failures: k as u8 }, retry_then_exhausted(f)).last()
            == (Action::Exit { code: EXIT_COPY_FAILED }),
    decreases f,
{
    let p = Phase::Copying { failures: k as u8 };
    if f == 0 {
        lemma_run_one(p, Event::CopyDone { ok: false });
        assert(retry_then_exhausted(0) =~= seq![Event::CopyDone { ok: false }]);
        reveal_with_fuel(trace_ok, 2);
        reveal_with_fuel(copy_attempts, 2);
        assert(run_actions(p, retry_then_exhausted(0)) =~= seq![
            Action::Exit { code: EXIT_COPY_FAILED },
        ]);
    } else {
        let two = seq![Event::CopyDone { ok: false }, Event::Slept];
        let rest = retry_then_exhausted((f - 1) as nat);
        let next = Phase::Copying { failures: (k + 1) as u8 };
        reveal_with_fuel(run_phase, 3);
        reveal_with_fuel(run_actions, 3);
        reveal_with_fuel(trace_ok, 3);
        reveal_with_fuel(copy_attempts, 3);
        assert(two.drop_first() =~= seq![Event::Slept]);
        assert(seq![Event::Slept].drop_first() =~= Seq::<Event>::empty());
        assert(run_phase(p, two) == next);
        assert(run_actions(p, two) =~= seq![Action::SleepMs { ms: RETRY_GAP_MS }, Action::CopyFile]);
        assert(trace_ok(p, two));
        lemma_retries_then_exhausted(k + 1, (f - 1) as nat);
        lemma_run_append(p, two, rest);
        lemma_copy_attempts_append(run_actions(p, two), run_actions(next, rest));
        assert(copy_attempts(run_actions(p, two)) == 1);
        lemma_run_actions_len(next, rest);
        assert(run_actions(p, retry_then_exhausted(f)).last() == run_actions(next, rest).last());
    }
}

/// Retry bound: a destination locked for only the first `f` attempts, with
/// `f` within the retry budget, still lets the run reach the relaunch, and
/// the whole run requests exactly `f + 1` copy attempts — never more than
/// `MAX_RETRIES + 1`.
pub proof fn lemma_retry_bound(f: nat)
    requires
        f <= MAX_RETRIES,
    ensures
        ({
            let evs = prelude_events() + retry_then_success(f);
            &&& trace_ok(Phase::New, evs)
            &&& run_phase(Phase::New, evs) == Phase::Launching
            &&& copy_attempts(run_actions(Phase::New, evs)) == f + 1
            &&& f + 1 <= MAX_RETRIES + 1
        }),
{
    lemma_prelude();
    lemma_retries_then_success(0, f);
    lemma_run_append(Phase::New, prelude_events(), retry_then_success(f));
    lemma_copy_attempts_append(
        run_actions(Phase::New, prelude_events()),
        run_actions(Phase::Copying { failures: 0 }, retry_then_success(f)),
    );
}

/// Retry exhaustion: a destination locked for the whole retry window makes
/// the run request exactly `MAX_RETRIES + 1` copy attempts and end with
/// exit code [`EXIT_COPY_FAILED`]; the finished machine takes no further
/// event, so nothing is rolled back afterwards.
pub proof fn lemma_retry_exhaustion()
    ensures
        ({
            let evs = prelude_events() + retry_then_exhausted(MAX_RETRIES as nat);
            &&& trace_ok(Phase::New, evs)
            &&& run_phase(Phase::New, evs) == (Phase::Finished { code: EXIT_COPY_FAILED })
            &&& copy_attempts(run_actions(Phase::New, evs)) == MAX_RETRIES + 1
            &&& run_actions(Phase::New, evs).last() == (Action::Exit { code: EXIT_COPY_FAILED })
            &&& forall|e: Event| !expects(Phase::Finished { code: EXIT_COPY_FAILED }, e)
        }),
{
    let pre = prelude_events();
    let rest = retry_then_exhausted(MAX_RETRIES as nat);
    lemma_prelude();
    lemma_retries_then_exhausted(0, MAX_RETRIES as nat);
    lemma_run_append(Phase::New, pre, rest);
    lemma_copy_attempts_append(
        run_actions(Phase::New, pre),
        run_actions(Phase::Copying { failures: 0 }, rest),
    );
    lemma_run_actions_len(Phase::Copying { failures: 0 }, rest);
    assert(run_actions(Phase::New, pre + rest).last() == run_actions(
        Phase::Copying { failures: 0 },
        rest,
    ).last());
}

} // verus!
