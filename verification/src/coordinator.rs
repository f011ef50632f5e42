//! The coordinator: it waits for the metrics of every user and joins them
//! into the metrics of the whole test.

use vstd::prelude::*;
use crate::stats::{lemma_full_window, window, WindowStats};
use crate::user::{Metrics, MetricsView, TransportError};

verus! {

/// The round-trip buffers of the parts, one behind the other.
pub open spec fn joined_lat(parts: Seq<Metrics>) -> Seq<u64>
    decreases parts.len(),
{
    if parts.len() == 0 {
        Seq::empty()
    } else {
        joined_lat(parts.drop_last()) + parts.last().lat@
    }
}

/// The buffers of reported times of the parts, one behind the other.
pub open spec fn joined_model(parts: Seq<Metrics>) -> Seq<u64>
    decreases parts.len(),
{
    if parts.len() == 0 {
        Seq::empty()
    } else {
        joined_model(parts.drop_last()) + parts.last().model_lat@
    }
}

/// Joining the metrics of users that each made `n` iterations gives buffers
/// of as many samples as there are users times `n`.
pub proof fn lemma_joined_len(parts: Seq<Metrics>, n: nat)
    requires
        forall|k: int|
            0 <= k < parts.len() ==> (#[trigger] parts[k]).lat@.len() == n
                && parts[k].model_lat@.len() == n,
    ensures
        joined_lat(parts).len() == parts.len() * n,
        joined_model(parts).len() == parts.len() * n,
    decreases parts.len(),
{
    if parts.len() > 0 {
        let rest = parts.drop_last();
        assert forall|k: int| 0 <= k < rest.len() implies (#[trigger] rest[k]).lat@.len() == n
            && rest[k].model_lat@.len() == n by {
            assert(rest[k] == parts[k]);
        }
        lemma_joined_len(rest, n);
        assert(parts.last() == parts[parts.len() - 1]);
        assert((rest.len() + 1) * n == rest.len() * n + n) by (nonlinear_arith);
    } else {
        assert(0 * n == 0) by (nonlinear_arith);
    }
}

/// Statistics over all the samples of the joined metrics of users that each
/// made `n` iterations count as many samples as there are users times `n`.
pub proof fn lemma_joined_count(
    stats: WindowStats,
    parts: Seq<Metrics>,
    n: nat,
    span: nat,
    n_total: nat,
    timeout: nat,
)
    requires
        forall|k: int|
            0 <= k < parts.len() ==> (#[trigger] parts[k]).lat@.len() == n
                && parts[k].model_lat@.len() == n,
        stats.describes(
            window(joined_lat(parts), 0, joined_lat(parts).len()),
            span,
            n_total,
            timeout,
        ),
    ensures
        stats.count == parts.len() * n,
{
    lemma_joined_len(parts, n);
    lemma_full_window(joined_lat(parts), 0, joined_lat(parts).len());
}

/// Joins the metrics of several users, in the order given, into the metrics
/// of the whole test, which took `total_nanos` nanoseconds.
pub fn merge(parts: &Vec<Metrics>, total_nanos: u128) -> (all: Metrics)
    ensures
        all@ == (MetricsView {
            lat: joined_lat(parts@),
            model_lat: joined_model(parts@),
            total_nanos: total_nanos as nat,
        }),
{
    let mut lat: Vec<u64> = Vec::new();
    let mut model_lat: Vec<u64> = Vec::new();
    let mut k: usize = 0;
    while k < parts.len()
        invariant
            k <= parts@.len(),
            lat@ == joined_lat(parts@.subrange(0, k as int)),
            model_lat@ == joined_model(parts@.subrange(0, k as int)),
        decreases parts@.len() - k,
    {
        let part = &parts[k];
        let ghost lat0 = lat@;
        let ghost model0 = model_lat@;
        let mut j: usize = 0;
        while j < part.lat.len()
            invariant
                j <= part.lat@.len(),
                lat@ == lat0 + part.lat@.subrange(0, j as int),
            decreases part.lat@.len() - j,
        {
            lat.push(part.lat[j]);
            j += 1;
            assert(lat@ =~= lat0 + part.lat@.subrange(0, j as int));
        }
        let mut j: usize = 0;
        while j < part.model_lat.len()
            invariant
                j <= part.model_lat@.len(),
                model_lat@ == model0 + part.model_lat@.subrange(0, j as int),
            decreases part.model_lat@.len() - j,
        {
            model_lat.push(part.model_lat[j]);
            j += 1;
            assert(model_lat@ =~= model0 + part.model_lat@.subrange(0, j as int));
        }
        proof {
            let upto = parts@.subrange(0, k + 1);
            assert(upto.drop_last() == parts@.subrange(0, k as int));
            assert(upto.last() == parts@[k as int]);
            assert(part.lat@.subrange(0, part.lat@.len() as int) == part.lat@);
            assert(part.model_lat@.subrange(0, part.model_lat@.len() as int) == part.model_lat@);
        }
        k += 1;
    }
    assert(parts@.subrange(0, k as int) == parts@);
    Metrics { lat, model_lat, total_nanos }
}

/// What the coordinator makes of one more result.
#[derive(Clone, Copy, Debug, PartialEq, Eq)]
pub enum Verdict {
    /// More users are still running.
    Wait,
    /// Every user has handed in its metrics.
    Complete,
    /// A user has failed, and the test with it.
    Failed(TransportError),
}

/// A coordinator as seen by contracts.
pub struct CoordinatorView {
    /// Number of users that the test runs.
    pub users: nat,
    /// The metrics handed in so far, in the order in which they came.
    pub parts: Seq<Metrics>,
}

/// The coordinator of a test.
pub struct Coordinator {
    users: usize,
    parts: Vec<Metrics>,
}

impl View for Coordinator {
    type V = CoordinatorView;

    closed spec fn view(&self) -> CoordinatorView {
        CoordinatorView { users: self.users as nat, parts: self.parts@ }
    }
}

/// The coordinator after one more result.
pub open spec fn collected(
    c: CoordinatorView,
    outcome: Result<Metrics, TransportError>,
) -> CoordinatorView {
    match outcome {
        Ok(metrics) => if c.parts.len() < c.users {
            CoordinatorView { parts: c.parts.push(metrics), ..c }
        } else {
            c
        },
        Err(_) => c,
    }
}

/// What the coordinator says to one more result.
pub open spec fn verdict_of(
    c: CoordinatorView,
    outcome: Result<Metrics, TransportError>,
) -> Verdict {
    match outcome {
        Ok(_) => if c.parts.len() + 1 < c.users {
            Verdict::Wait
        } else {
            Verdict::Complete
        },
        Err(error) => Verdict::Failed(error),
    }
}

impl Coordinator {
    #[verifier::type_invariant]
    spec fn well_formed(self) -> bool {
        self.parts@.len() <= self.users
    }

    /// The coordinator of a test with `users` users, before any of them has
    /// finished.
    pub fn new(users: usize) -> (coordinator: Coordinator)
        ensures
            coordinator@ == (CoordinatorView { users: users as nat, parts: Seq::empty() }),
    {
        Coordinator { users, parts: Vec::new() }
    }

    /// Whether every user has handed in its metrics.
    pub fn is_complete(&self) -> (complete: bool)
        ensures
            complete == (self@.parts.len() >= self@.users),
    {
        self.parts.len() >= self.users
    }

    /// Takes the result of one user. Metrics are kept, unless every user has
    /// handed in its metrics already; a failure is passed on.
    pub fn collect(self, outcome: Result<Metrics, TransportError>) -> (out: (Coordinator, Verdict))
        ensures
            out.0@ == collected(self@, outcome),
            out.1 == verdict_of(self@, outcome),
    {
        proof {
            use_type_invariant(&self);
        }
        let Coordinator { users, parts } = self;
        match outcome {
            Ok(metrics) => {
                let mut parts = parts;
                if parts.len() < users {
                    parts.push(metrics);
                }
                let verdict = if parts.len() < users {
                    Verdict::Wait
                } else {
                    Verdict::Complete
                };
                (Coordinator { users, parts }, verdict)
            },
            Err(error) => (Coordinator { users, parts }, Verdict::Failed(error)),
        }
    }

    /// The metrics of the whole test, which took `total_nanos` nanoseconds:
    /// those handed in so far, joined in the order in which they came.
    pub fn merged(&self, total_nanos: u128) -> (all: Metrics)
        ensures
            all@ == (MetricsView {
                lat: joined_lat(self@.parts),
                model_lat: joined_model(self@.parts),
                total_nanos: total_nanos as nat,
            }),
    {
        merge(&self.parts, total_nanos)
    }
}

} // verus!
