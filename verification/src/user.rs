//! One virtual user: ten warm-up calls, then one measured call for each
//! iteration from 1 up to the run length, with an interval report after every
//! `REPORT` iterations.
//!
//! The user is a state machine. Whoever owns the connection performs the calls
//! and feeds each outcome to [`VirtualUser::step`], which answers with what to
//! do next.

use vstd::prelude::*;
use crate::stats::{window, window_stats, WindowStats};

verus! {

/// Number of calls made before measurement starts. Their results are dropped.
pub const WARMUP_CALLS: usize = 10;

/// Number of iterations between two interval reports.
pub const REPORT: usize = 100000;

/// What came back from one call.
#[derive(Clone, Copy, Debug, PartialEq, Eq)]
pub struct Reply {
    /// Time the call took as seen by the caller, in nanoseconds.
    pub round_trip: u64,
    /// Time the service says it spent, in nanoseconds.
    pub reported: u64,
    /// Time since the interval timer was last reset, in nanoseconds.
    pub interval: u64,
}

/// What the transport tells the user.
#[derive(Clone, Copy, Debug, PartialEq, Eq)]
pub enum Event {
    /// The connection is open.
    Connected,
    /// The call in flight was answered.
    Reply(Reply),
    /// The connection could not be opened, or the call in flight did not
    /// complete.
    Failed,
}

/// Where in its run a user was when the transport failed.
#[derive(Clone, Copy, Debug, PartialEq, Eq)]
pub enum Stage {
    /// While opening the connection.
    Connect,
    /// During the warm-up call with this number, counted from 0.
    Warmup(usize),
    /// During the measured call of this iteration.
    Measure(usize),
}

/// The connection could not be opened or a call did not complete. The run of
/// the user ends with it.
#[derive(Clone, Copy, Debug, PartialEq, Eq)]
pub struct TransportError {
    pub stage: Stage,
}

/// What one user measured.
#[derive(Clone, Debug, PartialEq, Eq)]
pub struct Metrics {
    /// Round-trip time of each iteration, in nanoseconds.
    pub lat: Vec<u64>,
    /// Time reported by the service for each iteration, in nanoseconds.
    pub model_lat: Vec<u64>,
    /// Sum of the intervals that were reported, in nanoseconds.
    pub total_nanos: u128,
}

/// A [`Metrics`] value as seen by contracts.
pub struct MetricsView {
    pub lat: Seq<u64>,
    pub model_lat: Seq<u64>,
    pub total_nanos: nat,
}

impl View for Metrics {
    type V = MetricsView;

    open spec fn view(&self) -> MetricsView {
        MetricsView {
            lat: self.lat@,
            model_lat: self.model_lat@,
            total_nanos: self.total_nanos as nat,
        }
    }
}

/// The statistics of the last `REPORT` iterations.
#[derive(Clone, Copy, Debug, PartialEq, Eq)]
pub struct IntervalReport {
    /// The iteration at which the report was made.
    pub at: usize,
    /// Length of the interval, in nanoseconds.
    pub elapsed: u64,
    /// Statistics of the times reported by the service.
    pub model: WindowStats,
    /// Statistics of the round-trip times.
    pub round_trip: WindowStats,
}

impl IntervalReport {
    /// The report is the one made at iteration `at` of a run of `n`
    /// iterations over the buffers `lat` and `model_lat`: it covers the
    /// `REPORT` samples before `at`, and counts timeouts against `n`.
    pub open spec fn covers(
        self,
        lat: Seq<u64>,
        model_lat: Seq<u64>,
        at: nat,
        n: nat,
        timeout: nat,
        elapsed: u64,
    ) -> bool {
        &&& self.at == at
        &&& self.elapsed == elapsed
        &&& self.model.describes(
            window(model_lat, (at - REPORT) as nat, REPORT as nat),
            REPORT as nat,
            n,
            timeout,
        )
        &&& self.round_trip.describes(
            window(lat, (at - REPORT) as nat, REPORT as nat),
            REPORT as nat,
            n,
            timeout,
        )
    }
}

/// What the owner of the connection does next.
#[derive(Clone, Debug, PartialEq, Eq)]
pub enum Next {
    /// Make one more call and come back with its outcome.
    Call,
    /// The run is complete.
    Finish(Metrics),
    /// The run has failed.
    Abort(TransportError),
    /// The event did not fit the state and was ignored.
    Idle,
}

/// A [`Next`] value as seen by contracts.
pub enum NextView {
    Call,
    Finish(MetricsView),
    Abort(TransportError),
    Idle,
}

impl View for Next {
    type V = NextView;

    open spec fn view(&self) -> NextView {
        match self {
            Next::Call => NextView::Call,
            Next::Finish(m) => NextView::Finish(m@),
            Next::Abort(e) => NextView::Abort(*e),
            Next::Idle => NextView::Idle,
        }
    }
}

/// The answer of a user to an event.
#[derive(Clone, Debug, PartialEq, Eq)]
pub struct Action {
    /// An interval report to print before anything else.
    pub report: Option<IntervalReport>,
    /// Whether the interval timer starts anew: when the warm-up is over, and
    /// after every interval report.
    pub restart_timer: bool,
    pub next: Next,
}

/// The part of its run that a user is in.
#[derive(Clone, Copy, Debug, PartialEq, Eq)]
pub enum Phase {
    /// Waiting for the connection.
    Start,
    /// A warm-up call is in flight.
    Warmup,
    /// A measured call is in flight.
    Measuring,
    /// The run is over.
    Done,
}

/// A virtual user as seen by contracts.
pub struct UserView {
    /// Length of the run.
    pub n: nat,
    /// Timeout in milliseconds.
    pub timeout: nat,
    pub phase: Phase,
    /// During warm-up the number of calls answered; during measurement the
    /// iteration whose call is in flight; else 0.
    pub at: nat,
    pub lat: Seq<u64>,
    pub model_lat: Seq<u64>,
    pub total_nanos: nat,
}

/// `n` samples of zero.
pub open spec fn zeros(n: nat) -> Seq<u64> {
    Seq::new(n, |j: int| 0u64)
}

/// A user that has not started.
pub open spec fn fresh(n: nat, timeout: nat) -> UserView {
    UserView {
        n,
        timeout,
        phase: Phase::Start,
        at: 0,
        lat: Seq::empty(),
        model_lat: Seq::empty(),
        total_nanos: 0,
    }
}

/// A user whose run is over.
pub open spec fn over_and_done(u: UserView) -> UserView {
    UserView { phase: Phase::Done, ..fresh(u.n, u.timeout) }
}

/// Whether an interval report is made when `event` reaches the user `u`.
pub open spec fn report_due(u: UserView, event: Event) -> bool {
    u.phase == Phase::Measuring && event is Reply && u.at % (REPORT as nat) == 0
}

/// Whether the interval timer starts anew when `event` reaches the user `u`.
pub open spec fn timer_restarts(u: UserView, event: Event) -> bool {
    report_due(u, event) || (u.phase == Phase::Warmup && event is Reply && u.at + 1
        == WARMUP_CALLS)
}

/// The user after `event`.
pub open spec fn advance(u: UserView, event: Event) -> UserView {
    match (u.phase, event) {
        (Phase::Start, Event::Connected) => UserView { phase: Phase::Warmup, ..u },
        (Phase::Start, Event::Failed) => over_and_done(u),
        (Phase::Warmup, Event::Reply(_)) => if u.at + 1 < WARMUP_CALLS {
            UserView { at: (u.at + 1) as nat, ..u }
        } else if u.n >= 2 {
            UserView {
                phase: Phase::Measuring,
                at: 1,
                lat: zeros(u.n),
                model_lat: zeros(u.n),
                total_nanos: 0,
                ..u
            }
        } else {
            over_and_done(u)
        },
        (Phase::Warmup, Event::Failed) => over_and_done(u),
        (Phase::Measuring, Event::Reply(r)) => if u.at + 1 < u.n {
            UserView {
                at: (u.at + 1) as nat,
                lat: u.lat.update(u.at as int, r.round_trip),
                model_lat: u.model_lat.update(u.at as int, r.reported),
                total_nanos: if report_due(u, event) {
                    (u.total_nanos + r.interval) as nat
                } else {
                    u.total_nanos
                },
                ..u
            }
        } else {
            over_and_done(u)
        },
        (Phase::Measuring, Event::Failed) => over_and_done(u),
        _ => u,
    }
}

/// What the user `u` answers to `event`.
pub open spec fn next_of(u: UserView, event: Event) -> NextView {
    match (u.phase, event) {
        (Phase::Start, Event::Connected) => NextView::Call,
        (Phase::Start, Event::Failed) => NextView::Abort(TransportError { stage: Stage::Connect }),
        (Phase::Warmup, Event::Reply(_)) => if u.at + 1 < WARMUP_CALLS || u.n >= 2 {
            NextView::Call
        } else {
            NextView::Finish(
                MetricsView { lat: zeros(u.n), model_lat: zeros(u.n), total_nanos: 0 },
            )
        },
        (Phase::Warmup, Event::Failed) => NextView::Abort(
            TransportError { stage: Stage::Warmup(u.at as usize) },
        ),
        (Phase::Measuring, Event::Reply(r)) => if u.at + 1 < u.n {
            NextView::Call
        } else {
            NextView::Finish(
                MetricsView {
                    lat: u.lat.update(u.at as int, r.round_trip),
                    model_lat: u.model_lat.update(u.at as int, r.reported),
                    total_nanos: if report_due(u, event) {
                        (u.total_nanos + r.interval) as nat
                    } else {
                        u.total_nanos
                    },
                },
            )
        },
        (Phase::Measuring, Event::Failed) => NextView::Abort(
            TransportError { stage: Stage::Measure(u.at as usize) },
        ),
        _ => NextView::Idle,
    }
}

/// One virtual user.
pub struct VirtualUser {
    n: usize,
    timeout: u64,
    phase: Phase,
    at: usize,
    lat: Vec<u64>,
    model_lat: Vec<u64>,
    total_nanos: u128,
}

impl View for VirtualUser {
    type V = UserView;

    closed spec fn view(&self) -> UserView {
        UserView {
            n: self.n as nat,
            timeout: self.timeout as nat,
            phase: self.phase,
            at: self.at as nat,
            lat: self.lat@,
            model_lat: self.model_lat@,
            total_nanos: self.total_nanos as nat,
        }
    }
}

impl VirtualUser {
    #[verifier::type_invariant]
    spec fn well_formed(self) -> bool {
        match self.phase {
            Phase::Warmup => {
                &&& self.at < WARMUP_CALLS
                &&& self.lat@.len() == 0
                &&& self.model_lat@.len() == 0
                &&& self.total_nanos == 0
            },
            Phase::Measuring => {
                &&& 1 <= self.at < self.n
                &&& self.lat@.len() == self.n
                &&& self.model_lat@.len() == self.n
                &&& self.total_nanos <= self.at * 0xffff_ffff_ffff_ffff
            },
            _ => {
                &&& self.at == 0
                &&& self.lat@.len() == 0
                &&& self.model_lat@.len() == 0
                &&& self.total_nanos == 0
            },
        }
    }

    /// A user for a run of `n` iterations, with a timeout of `timeout`
    /// milliseconds, that has not started.
    pub fn new(n: usize, timeout: u64) -> (user: VirtualUser)
        ensures
            user@ == fresh(n as nat, timeout as nat),
    {
        VirtualUser {
            n,
            timeout,
            phase: Phase::Start,
            at: 0,
            lat: Vec::new(),
            model_lat: Vec::new(),
            total_nanos: 0,
        }
    }

    /// Takes one event and answers with the user after it and with what to do
    /// next. A report is part of the answer exactly when the event is the
    /// reply of an iteration that is a multiple of `REPORT`.
    pub fn step(self, event: Event) -> (out: (VirtualUser, Action))
        ensures
            out.0@ == advance(self@, event),
            out.1.next@ == next_of(self@, event),
            out.1.report is Some <==> report_due(self@, event),
            out.1.restart_timer == timer_restarts(self@, event),
            match (out.1.report, event) {
                (Some(report), Event::Reply(r)) => report.covers(
                    self@.lat.update(self@.at as int, r.round_trip),
                    self@.model_lat.update(self@.at as int, r.reported),
                    self@.at,
                    self@.n,
                    self@.timeout,
                    r.interval,
                ),
                _ => true,
            },
    {
        proof {
            use_type_invariant(&self);
        }
        let VirtualUser { n, timeout, phase, at, lat, model_lat, total_nanos } = self;
        match (phase, event) {
            (Phase::Start, Event::Connected) => (
                VirtualUser { n, timeout, phase: Phase::Warmup, at, lat, model_lat, total_nanos },
                Action { report: None, restart_timer: false, next: Next::Call },
            ),
            (Phase::Start, Event::Failed) => (
                VirtualUser::ended(n, timeout),
                Action {
                    report: None,
                    restart_timer: false,
                    next: Next::Abort(TransportError { stage: Stage::Connect }),
                },
            ),
            (Phase::Warmup, Event::Reply(_)) => {
                if at + 1 < WARMUP_CALLS {
                    (
                        VirtualUser {
                            n,
                            timeout,
                            phase: Phase::Warmup,
                            at: at + 1,
                            lat,
                            model_lat,
                            total_nanos,
                        },
                        Action { report: None, restart_timer: false, next: Next::Call },
                    )
                } else if n >= 2 {
                    let lat = zero_buffer(n);
                    let model_lat = zero_buffer(n);
                    (
                        VirtualUser {
                            n,
                            timeout,
                            phase: Phase::Measuring,
                            at: 1,
                            lat,
                            model_lat,
                            total_nanos: 0,
                        },
                        Action { report: None, restart_timer: true, next: Next::Call },
                    )
                } else {
                    let metrics = Metrics {
                        lat: zero_buffer(n),
                        model_lat: zero_buffer(n),
                        total_nanos: 0,
                    };
                    (
                        VirtualUser::ended(n, timeout),
                        Action { report: None, restart_timer: true, next: Next::Finish(metrics) },
                    )
                }
            },
            (Phase::Warmup, Event::Failed) => (
                VirtualUser::ended(n, timeout),
                Action {
                    report: None,
                    restart_timer: false,
                    next: Next::Abort(TransportError { stage: Stage::Warmup(at) }),
                },
            ),
            (Phase::Measuring, Event::Reply(r)) => {
                let mut lat = lat;
                let mut model_lat = model_lat;
                let mut total_nanos = total_nanos;
                lat.set(at, r.round_trip);
                model_lat.set(at, r.reported);
                let mut report: Option<IntervalReport> = None;
                if at % REPORT == 0 {
                    let model = window_stats(at, n, timeout, &model_lat, at - REPORT, REPORT);
                    let round_trip = window_stats(at, n, timeout, &lat, at - REPORT, REPORT);
                    report = Some(IntervalReport { at, elapsed: r.interval, model, round_trip });
                    assert((at + 1) * 0xffff_ffff_ffff_ffff == at * 0xffff_ffff_ffff_ffff
                        + 0xffff_ffff_ffff_ffff) by (nonlinear_arith);
                    assert(at * 0xffff_ffff_ffff_ffff <= 0xffff_ffff_ffff_ffff
                        * 0xffff_ffff_ffff_ffff) by (nonlinear_arith)
                        requires
                            0 <= at <= 0xffff_ffff_ffff_ffff,
                    ;
                    total_nanos = total_nanos + r.interval as u128;
                }
                if at + 1 < n {
                    assert(at * 0xffff_ffff_ffff_ffff <= (at + 1) * 0xffff_ffff_ffff_ffff)
                        by (nonlinear_arith);
                    (
                        VirtualUser {
                            n,
                            timeout,
                            phase: Phase::Measuring,
                            at: at + 1,
                            lat,
                            model_lat,
                            total_nanos,
                        },
                        Action { report, restart_timer: at % REPORT == 0, next: Next::Call },
                    )
                } else {
                    (
                        VirtualUser::ended(n, timeout),
                        Action {
                            report,
                            restart_timer: at % REPORT == 0,
                            next: Next::Finish(Metrics { lat, model_lat, total_nanos }),
                        },
                    )
                }
            },
            (Phase::Measuring, Event::Failed) => (
                VirtualUser::ended(n, timeout),
                Action {
                    report: None,
                    restart_timer: false,
                    next: Next::Abort(TransportError { stage: Stage::Measure(at) }),
                },
            ),
            _ => (
                VirtualUser { n, timeout, phase, at, lat, model_lat, total_nanos },
                Action { report: None, restart_timer: false, next: Next::Idle },
            ),
        }
    }

    /// A user whose run is over.
    fn ended(n: usize, timeout: u64) -> (user: VirtualUser)
        ensures
            user@ == over_and_done(fresh(n as nat, timeout as nat)),
    {
        VirtualUser {
            n,
            timeout,
            phase: Phase::Done,
            at: 0,
            lat: Vec::new(),
            model_lat: Vec::new(),
            total_nanos: 0,
        }
    }
}

/// A buffer of `n` samples, all zero.
fn zero_buffer(n: usize) -> (buffer: Vec<u64>)
    ensures
        buffer@ == zeros(n as nat),
{
    let buffer = vec![0u64; n];
    assert(buffer@ =~= zeros(n as nat));
    buffer
}

/// Number of calls that a complete run of `n` iterations makes: the warm-up
/// calls and one for each iteration from 1 on.
pub open spec fn calls_needed(n: nat) -> nat {
    if n >= 1 {
        (WARMUP_CALLS + n - 1) as nat
    } else {
        WARMUP_CALLS as nat
    }
}

/// The call with number `k`, counted from 0, was answered.
pub open spec fn answered(calls: Seq<Option<Reply>>, k: int) -> bool {
    0 <= k < calls.len() && calls[k] is Some
}

/// Every call before number `upto` was answered.
pub open spec fn answered_upto(calls: Seq<Option<Reply>>, upto: nat) -> bool {
    forall|k: int| 0 <= k < upto ==> answered(calls, k)
}

/// The reply to the measured call of iteration `j`.
pub open spec fn reply_of(calls: Seq<Option<Reply>>, j: int) -> Reply {
    calls[WARMUP_CALLS - 1 + j]->0
}

/// The iteration during which call number `k` is made; 1 during warm-up.
pub open spec fn iteration_of(k: nat) -> nat {
    if k >= WARMUP_CALLS {
        (k - (WARMUP_CALLS - 1)) as nat
    } else {
        1
    }
}

/// Where a run is when call number `k` fails.
pub open spec fn stage_of(k: nat) -> Stage {
    if k < WARMUP_CALLS {
        Stage::Warmup(k as usize)
    } else {
        Stage::Measure(iteration_of(k) as usize)
    }
}

/// The round-trip buffer of a run of `n` iterations once the iterations
/// before `upto` are recorded: slot 0 and the slots from `upto` on hold zero.
pub open spec fn recorded_lat(n: nat, calls: Seq<Option<Reply>>, upto: nat) -> Seq<u64> {
    Seq::new(
        n,
        |j: int|
            if 1 <= j < upto {
                reply_of(calls, j).round_trip
            } else {
                0u64
            },
    )
}

/// The buffer of reported times of a run of `n` iterations once the
/// iterations before `upto` are recorded.
pub open spec fn recorded_model(n: nat, calls: Seq<Option<Reply>>, upto: nat) -> Seq<u64> {
    Seq::new(
        n,
        |j: int|
            if 1 <= j < upto {
                reply_of(calls, j).reported
            } else {
                0u64
            },
    )
}

/// Sum of the intervals reported at the iterations before `upto`.
pub open spec fn reported_nanos(calls: Seq<Option<Reply>>, upto: nat) -> nat
    decreases upto,
{
    if upto <= 1 {
        0
    } else if (upto - 1) % (REPORT as int) == 0 {
        reported_nanos(calls, (upto - 1) as nat) + reply_of(calls, upto - 1).interval as nat
    } else {
        reported_nanos(calls, (upto - 1) as nat)
    }
}

/// The user of a run of `n` iterations while call number `k` is in flight,
/// all calls before it having been answered.
pub open spec fn in_flight(n: nat, timeout: nat, calls: Seq<Option<Reply>>, k: nat) -> UserView {
    if k < WARMUP_CALLS {
        UserView { phase: Phase::Warmup, at: k, ..fresh(n, timeout) }
    } else {
        UserView {
            n,
            timeout,
            phase: Phase::Measuring,
            at: iteration_of(k),
            lat: recorded_lat(n, calls, iteration_of(k)),
            model_lat: recorded_model(n, calls, iteration_of(k)),
            total_nanos: reported_nanos(calls, iteration_of(k)),
        }
    }
}

/// A run of one user against a transport whose answers are known beforehand.
#[derive(Debug, PartialEq, Eq)]
pub struct Run {
    /// What the user measured, or where its transport failed.
    pub outcome: Result<Metrics, TransportError>,
    /// The interval reports, in the order in which they were made.
    pub reports: Vec<IntervalReport>,
    /// Number of calls that were answered.
    pub calls: usize,
}

/// Two buffers of one length that agree on the positions of a window have the
/// same window.
pub proof fn lemma_window_agrees(a: Seq<u64>, b: Seq<u64>, skip: nat, take: nat)
    requires
        a.len() == b.len(),
        forall|j: int| skip <= j < skip + take && j < a.len() ==> a[j] == b[j],
    ensures
        window(a, skip, take) == window(b, skip, take),
{
    assert(window(a, skip, take) =~= window(b, skip, take));
}

/// A report that covers the buffers with the iterations before `upto`
/// recorded covers them with more iterations recorded, as long as the report
/// was made before `upto`.
proof fn lemma_report_stays(
    report: IntervalReport,
    n: nat,
    timeout: nat,
    calls: Seq<Option<Reply>>,
    at: nat,
    upto: nat,
    later: nat,
    elapsed: u64,
)
    requires
        REPORT <= at < upto <= later,
        report.covers(
            recorded_lat(n, calls, upto),
            recorded_model(n, calls, upto),
            at,
            n,
            timeout,
            elapsed,
        ),
    ensures
        report.covers(
            recorded_lat(n, calls, later),
            recorded_model(n, calls, later),
            at,
            n,
            timeout,
            elapsed,
        ),
{
    let skip = (at - REPORT) as nat;
    lemma_window_agrees(
        recorded_lat(n, calls, upto),
        recorded_lat(n, calls, later),
        skip,
        REPORT as nat,
    );
    lemma_window_agrees(
        recorded_model(n, calls, upto),
        recorded_model(n, calls, later),
        skip,
        REPORT as nat,
    );
}

/// In the buffers of a complete run of `n` iterations slot 0 holds zero and
/// every other slot holds what the reply of its iteration brought; where all
/// those times are positive, so is every slot but the first.
pub proof fn lemma_completed_run_buffers(n: nat, calls: Seq<Option<Reply>>)
    requires
        n >= 2,
    ensures
        recorded_lat(n, calls, n).len() == n,
        recorded_model(n, calls, n).len() == n,
        recorded_lat(n, calls, n)[0] == 0,
        recorded_model(n, calls, n)[0] == 0,
        forall|j: int|
            1 <= j < n ==> #[trigger] recorded_lat(n, calls, n)[j] == reply_of(
                calls,
                j,
            ).round_trip,
        forall|j: int|
            1 <= j < n ==> #[trigger] recorded_model(n, calls, n)[j] == reply_of(
                calls,
                j,
            ).reported,
        (forall|j: int| 1 <= j < n ==> (#[trigger] reply_of(calls, j)).round_trip > 0) ==> (
        forall|j: int| 1 <= j < n ==> #[trigger] recorded_lat(n, calls, n)[j] > 0),
        (forall|j: int| 1 <= j < n ==> (#[trigger] reply_of(calls, j)).reported > 0) ==> (
        forall|j: int| 1 <= j < n ==> #[trigger] recorded_model(n, calls, n)[j] > 0),
{
}

/// Runs one user of `n` iterations, with a timeout of `timeout` milliseconds,
/// over a connection that is open and whose calls end as `calls` says, in
/// order: `Some` is a reply, `None` a failure, and every call behind the last
/// entry fails.
///
/// The run succeeds exactly when every call it needs is answered. It then
/// returns the buffers with every iteration recorded. Otherwise it fails at
/// the first call that is not answered. Either way it returns one report for
/// every full interval that was measured.
pub fn execute(n: usize, timeout: u64, calls: &Vec<Option<Reply>>) -> (run: Run)
    ensures
        run.calls <= calls_needed(n as nat),
        run.calls <= calls@.len(),
        answered_upto(calls@, run.calls as nat),
        run.calls < calls_needed(n as nat) ==> !answered(calls@, run.calls as int) && run.outcome
            == Err::<Metrics, TransportError>(TransportError { stage: stage_of(run.calls as nat) }),
        run.calls == calls_needed(n as nat) ==> run.outcome is Ok && run.outcome->Ok_0@
            == (MetricsView {
            lat: recorded_lat(n as nat, calls@, iteration_of(run.calls as nat)),
            model_lat: recorded_model(n as nat, calls@, iteration_of(run.calls as nat)),
            total_nanos: reported_nanos(calls@, iteration_of(run.calls as nat)),
        }),
        run.reports@.len() == (iteration_of(run.calls as nat) - 1) / (REPORT as int),
        forall|j: int|
            0 <= j < run.reports@.len() ==> (#[trigger] run.reports@[j]).covers(
                recorded_lat(n as nat, calls@, iteration_of(run.calls as nat)),
                recorded_model(n as nat, calls@, iteration_of(run.calls as nat)),
                ((j + 1) * REPORT) as nat,
                n as nat,
                timeout as nat,
                reply_of(calls@, (j + 1) * REPORT).interval,
            ),
{
    let mut reports: Vec<IntervalReport> = Vec::new();
    let (opened, _) = VirtualUser::new(n, timeout).step(Event::Connected);
    let mut user = opened;
    let mut k: usize = 0;
    loop
        invariant
            k <= calls@.len(),
            k < calls_needed(n as nat),
            answered_upto(calls@, k as nat),
            user@ == in_flight(n as nat, timeout as nat, calls@, k as nat),
            reports@.len() == (iteration_of(k as nat) - 1) / (REPORT as int),
            forall|j: int|
                0 <= j < reports@.len() ==> (#[trigger] reports@[j]).covers(
                    recorded_lat(n as nat, calls@, iteration_of(k as nat)),
                    recorded_model(n as nat, calls@, iteration_of(k as nat)),
                    ((j + 1) * REPORT) as nat,
                    n as nat,
                    timeout as nat,
                    reply_of(calls@, (j + 1) * REPORT).interval,
                ),
        decreases calls@.len() - k,
    {
        let event = if k < calls.len() {
            match calls[k] {
                Some(r) => Event::Reply(r),
                None => Event::Failed,
            }
        } else {
            Event::Failed
        };
        let ghost before = user@;
        let ghost old_reports = reports@;
        let ghost at = iteration_of(k as nat);
        let ghost later = iteration_of((k + 1) as nat);
        let (after, action) = user.step(event);
        user = after;
        proof {
            if event is Reply {
                assert(answered(calls@, k as int));
                assert(answered_upto(calls@, (k + 1) as nat));
                assert(zeros(n as nat) =~= recorded_lat(n as nat, calls@, 1));
                assert(zeros(n as nat) =~= recorded_model(n as nat, calls@, 1));
                if k >= WARMUP_CALLS {
                    let r = event->Reply_0;
                    assert(r == reply_of(calls@, at as int));
                    assert(before.lat.update(at as int, r.round_trip) =~= recorded_lat(
                        n as nat,
                        calls@,
                        later,
                    ));
                    assert(before.model_lat.update(at as int, r.reported) =~= recorded_model(
                        n as nat,
                        calls@,
                        later,
                    ));
                    assert(reported_nanos(calls@, later) == before.total_nanos + if report_due(
                        before,
                        event,
                    ) {
                        r.interval as nat
                    } else {
                        0nat
                    });
                }
                assert forall|j: int| 0 <= j < old_reports.len() implies (
                #[trigger] old_reports[j]).covers(
                    recorded_lat(n as nat, calls@, later),
                    recorded_model(n as nat, calls@, later),
                    ((j + 1) * REPORT) as nat,
                    n as nat,
                    timeout as nat,
                    reply_of(calls@, (j + 1) * REPORT).interval,
                ) by {
                    lemma_report_index(at, j);
                    lemma_report_stays(
                        old_reports[j],
                        n as nat,
                        timeout as nat,
                        calls@,
                        ((j + 1) * REPORT) as nat,
                        at,
                        later,
                        reply_of(calls@, (j + 1) * REPORT).interval,
                    );
                }
                lemma_report_count(at, later);
            }
        }
        if let Some(report) = action.report {
            reports.push(report);
        }
        match action.next {
            Next::Call => {
                k += 1;
            },
            Next::Finish(metrics) => {
                return Run { outcome: Ok(metrics), reports, calls: k + 1 };
            },
            Next::Abort(error) => {
                return Run { outcome: Err(error), reports, calls: k };
            },
            Next::Idle => {
                // a user never ignores the outcome of a call that it asked for
                return vstd::pervasive::unreached();
            },
        }
    }
}

/// The report with number `j`, counted from 0, of those made before iteration
/// `at` was made at iteration `(j + 1) * REPORT`, which lies before `at`.
proof fn lemma_report_index(at: nat, j: int)
    requires
        at >= 1,
        0 <= j < (at - 1) / (REPORT as int),
    ensures
        REPORT <= (j + 1) * REPORT < at,
{
    let q = (at - 1) / (REPORT as int);
    vstd::arithmetic::div_mod::lemma_fundamental_div_mod(at - 1, REPORT as int);
    vstd::arithmetic::div_mod::lemma_mod_bound(at - 1, REPORT as int);
    assert((j + 1) * REPORT <= q * REPORT) by (nonlinear_arith)
        requires
            j + 1 <= q,
    ;
    assert((j + 1) * REPORT >= REPORT) by (nonlinear_arith)
        requires
            j >= 0,
    ;
    assert(REPORT * q == q * REPORT) by (nonlinear_arith);
}

/// From one iteration to the next the number of reports grows by one when the
/// iteration is a multiple of `REPORT`, and stays as it is otherwise.
proof fn lemma_report_count(at: nat, later: nat)
    requires
        at >= 1,
        later == at + 1 || later == at,
    ensures
        later == at + 1 ==> (later - 1) / (REPORT as int) == (at - 1) / (REPORT as int) + if at % (
        REPORT as nat) == 0 {
            1int
        } else {
            0int
        },
        later == at + 1 && at % (REPORT as nat) == 0 ==> at == ((at - 1) / (REPORT as int) + 1)
            * REPORT,
{
    let r = REPORT as int;
    let a = at as int;
    vstd::arithmetic::div_mod::lemma_fundamental_div_mod(a - 1, r);
    vstd::arithmetic::div_mod::lemma_mod_bound(a - 1, r);
    vstd::arithmetic::div_mod::lemma_fundamental_div_mod(a, r);
    vstd::arithmetic::div_mod::lemma_mod_bound(a, r);
    let q0 = (a - 1) / r;
    let q1 = a / r;
    let m0 = (a - 1) % r;
    let m1 = a % r;
    assert(r * q0 + m0 + 1 == r * q1 + m1);
    assert(q1 == q0 + if m1 == 0 { 1int } else { 0int }) by (nonlinear_arith)
        requires
            r * q0 + m0 + 1 == r * q1 + m1,
            0 <= m0 < r,
            0 <= m1 < r,
            r > 0,
    ;
    if m1 == 0 {
        assert(a == (q0 + 1) * r) by (nonlinear_arith)
            requires
                a == r * q1,
                q1 == q0 + 1,
        ;
    }
}

} // verus!
