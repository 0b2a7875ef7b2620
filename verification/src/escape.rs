//! The escape-time classification of an orbit.
//!
//! The orbit itself is computed by the caller; this module decides, from what
//! the caller observes after each step of the recurrence, when the iteration
//! stops and which brightness the point gets. The caller repeats three moves:
//! ask the tracker what to do ([`Orbit::request`]), do it, and report what was
//! seen ([`Orbit::observe`]).

use vstd::prelude::*;
use crate::brightness::{clamp_level, smooth, smoothed};

verus! {

/// Number of recurrence steps after which a point counts as inside the set.
pub const MAX_ITERATIONS: u8 = 200;

/// The fixed smoothing offset of Julia sets.
pub const JULIA_OFFSET: i64 = 8;

/// Brightness of a point that never leaves a Mandelbrot orbit.
pub const MANDELBROT_INTERIOR: u8 = 255;

/// Brightness of a point that never leaves a Julia orbit.
pub const JULIA_INTERIOR: u8 = 0;

/// The two fractal families.
#[derive(Clone, Copy, PartialEq, Eq, Structural, Debug)]
pub enum FractalType {
    Julia,
    Mandelbrot,
}

/// How the magnitude of an orbit value compares with the escape radius 2.
/// `Undefined` stands for a magnitude that cannot be compared.
#[derive(Clone, Copy, PartialEq, Eq, Structural, Debug)]
pub enum Magnitude {
    Below,
    Equal,
    Above,
    Undefined,
}

/// What the caller reports to the tracker.
#[derive(Clone, Copy, PartialEq, Eq, Structural, Debug)]
pub enum Event {
    /// One step of the recurrence was applied; this is the magnitude of the
    /// new orbit value.
    Magnitude(Magnitude),
    /// The smoothing terms: the floor of `log2(ln(m))`, the greatest integer
    /// not above it, for the magnitude `m` of the starting point and of the
    /// orbit value that escaped. For a magnitude of exactly 2 the term is
    /// -1, not 0.
    Smoothing { start_term: i64, escape_term: i64 },
}

/// What the tracker asks of the caller.
#[derive(Clone, Copy, PartialEq, Eq, Structural, Debug)]
pub enum Request {
    /// Apply the recurrence once and report the magnitude.
    Iterate,
    /// Report the smoothing terms of the value that just escaped.
    Measure,
    /// Nothing more: the point has this brightness.
    Finished { brightness: u8 },
}

/// Where the classification of one point stands.
#[derive(Clone, Copy, PartialEq, Eq, Structural, Debug)]
pub enum Phase {
    /// `count` steps were applied and none escaped.
    Iterating { count: u8 },
    /// The step with index `count` escaped; its smoothing terms are awaited.
    Measuring { count: u8 },
    /// The point is classified.
    Settled { brightness: u8 },
}

impl FractalType {
    /// Whether a magnitude counts as escaped: strictly beyond the radius for
    /// Mandelbrot, on or beyond it for Julia.
    pub open spec fn spec_escapes(self, m: Magnitude) -> bool {
        match self {
            FractalType::Mandelbrot => m == Magnitude::Above,
            FractalType::Julia => m == Magnitude::Above || m == Magnitude::Equal,
        }
    }

    /// Brightness of a point whose orbit stays bounded: bright for
    /// Mandelbrot, dark for Julia.
    pub open spec fn spec_interior(self) -> u8 {
        match self {
            FractalType::Mandelbrot => MANDELBROT_INTERIOR,
            FractalType::Julia => JULIA_INTERIOR,
        }
    }

    /// The smoothing offset: fixed for Julia, the starting point's term for
    /// Mandelbrot.
    pub open spec fn spec_offset(self, start_term: int) -> int {
        match self {
            FractalType::Mandelbrot => start_term,
            FractalType::Julia => JULIA_OFFSET as int,
        }
    }

    /// Brightness of a point that escaped at step `count`.
    pub open spec fn spec_escaped_brightness(self, count: int, start_term: int, escape_term: int) -> int {
        smoothed(count, self.spec_offset(start_term), escape_term)
    }

    /// Decides whether the orbit has escaped.
    pub fn escapes(self, m: Magnitude) -> (out: bool)
        ensures
            out == self.spec_escapes(m),
    {
        match self {
            FractalType::Mandelbrot => m == Magnitude::Above,
            FractalType::Julia => m == Magnitude::Above || m == Magnitude::Equal,
        }
    }

    /// The brightness of a point inside the set.
    pub fn interior(self) -> (out: u8)
        ensures
            out == self.spec_interior(),
    {
        match self {
            FractalType::Mandelbrot => MANDELBROT_INTERIOR,
            FractalType::Julia => JULIA_INTERIOR,
        }
    }

    /// The smoothed, clamped brightness of a point that escaped at step
    /// `count`.
    pub fn escaped_brightness(self, count: u8, start_term: i64, escape_term: i64) -> (out: u8)
        ensures
            out == self.spec_escaped_brightness(count as int, start_term as int, escape_term as int),
    {
        match self {
            FractalType::Mandelbrot => smooth(count, start_term, escape_term),
            FractalType::Julia => smooth(count, JULIA_OFFSET, escape_term),
        }
    }
}

impl Phase {
    /// The phase every classification starts in.
    pub open spec fn initial() -> Phase {
        Phase::Iterating { count: 0 }
    }

    /// A phase never counts beyond the iteration cap.
    pub open spec fn wf(self) -> bool {
        match self {
            Phase::Iterating { count } => count < MAX_ITERATIONS,
            Phase::Measuring { count } => count < MAX_ITERATIONS,
            Phase::Settled { .. } => true,
        }
    }

    /// What the caller has to do in this phase.
    pub open spec fn request(self) -> Request {
        match self {
            Phase::Iterating { .. } => Request::Iterate,
            Phase::Measuring { .. } => Request::Measure,
            Phase::Settled { brightness } => Request::Finished { brightness },
        }
    }

    /// The phase that follows when `event` is reported. An event that does
    /// not answer the phase's request changes nothing.
    pub open spec fn advance(self, kind: FractalType, event: Event) -> Phase {
        match (self, event) {
            (Phase::Iterating { count }, Event::Magnitude(m)) => {
                if kind.spec_escapes(m) {
                    Phase::Measuring { count }
                } else if count + 1 < MAX_ITERATIONS {
                    Phase::Iterating { count: (count + 1) as u8 }
                } else {
                    Phase::Settled { brightness: kind.spec_interior() }
                }
            },
            (Phase::Measuring { count }, Event::Smoothing { start_term, escape_term }) => {
                Phase::Settled {
                    brightness: kind.spec_escaped_brightness(
                        count as int,
                        start_term as int,
                        escape_term as int,
                    ) as u8,
                }
            },
            _ => self,
        }
    }

    /// The phase reached from `self` after all of `events`, in order.
    pub open spec fn run(self, kind: FractalType, events: Seq<Event>) -> Phase
        decreases events.len(),
    {
        if events.len() == 0 {
            self
        } else {
            self.run(kind, events.drop_last()).advance(kind, events.last())
        }
    }
}

impl Request {
    /// Whether `event` is the report this request asks for.
    pub open spec fn answered_by(self, event: Event) -> bool {
        match (self, event) {
            (Request::Iterate, Event::Magnitude(_)) => true,
            (Request::Measure, Event::Smoothing { .. }) => true,
            _ => false,
        }
    }
}

/// The tracker of one point's classification.
pub struct Orbit {
    kind: FractalType,
    phase: Phase,
}

impl Orbit {
    #[verifier::type_invariant]
    spec fn counted_within_cap(self) -> bool {
        self.phase.wf()
    }

    /// The fractal family this orbit belongs to.
    pub closed spec fn kind(self) -> FractalType {
        self.kind
    }

    /// The phase the classification is in.
    pub closed spec fn phase(self) -> Phase {
        self.phase
    }

    /// Starts the classification of a point: no step applied yet.
    pub fn start(kind: FractalType) -> (out: Orbit)
        ensures
            out.kind() == kind,
            out.phase() == Phase::initial(),
    {
        Orbit { kind, phase: Phase::Iterating { count: 0 } }
    }

    /// What the caller has to do next.
    pub fn request(&self) -> (out: Request)
        ensures
            out == self.phase().request(),
            self.phase().wf(),
    {
        proof {
            use_type_invariant(self);
        }
        match self.phase {
            Phase::Iterating { .. } => Request::Iterate,
            Phase::Measuring { .. } => Request::Measure,
            Phase::Settled { brightness } => Request::Finished { brightness },
        }
    }

    /// Takes the caller's report and moves to the next phase.
    pub fn observe(self, event: Event) -> (out: Orbit)
        ensures
            out.kind() == self.kind(),
            out.phase() == self.phase().advance(self.kind(), event),
    {
        proof {
            use_type_invariant(&self);
            lemma_advance_keeps_wf(self.phase, self.kind, event);
        }
        let kind = self.kind;
        let next = match (self.phase, event) {
            (Phase::Iterating { count }, Event::Magnitude(m)) => {
                if kind.escapes(m) {
                    Phase::Measuring { count }
                } else if count + 1 < MAX_ITERATIONS {
                    Phase::Iterating { count: count + 1 }
                } else {
                    Phase::Settled { brightness: kind.interior() }
                }
            },
            (Phase::Measuring { count }, Event::Smoothing { start_term, escape_term }) => {
                Phase::Settled { brightness: kind.escaped_brightness(count, start_term, escape_term) }
            },
            (phase, _) => phase,
        };
        Orbit { kind, phase: next }
    }
}

/// The magnitude reports of the first `n` steps of an orbit.
pub open spec fn magnitude_events(mags: Seq<Magnitude>, n: int) -> Seq<Event> {
    Seq::new(n as nat, |i: int| Event::Magnitude(mags[i]))
}

/// No step before `n` escapes.
pub open spec fn bounded_before(kind: FractalType, mags: Seq<Magnitude>, n: int) -> bool {
    forall|i: int| 0 <= i < n ==> !kind.spec_escapes(#[trigger] mags[i])
}

/// Step `n` is the first that escapes, and it lies within the iteration cap.
pub open spec fn first_escape(kind: FractalType, mags: Seq<Magnitude>, n: int) -> bool {
    &&& 0 <= n < mags.len()
    &&& n < MAX_ITERATIONS
    &&& bounded_before(kind, mags, n)
    &&& kind.spec_escapes(mags[n])
}

/// Whether every event answers the request that was pending when it came.
pub open spec fn responsive(start: Phase, kind: FractalType, events: Seq<Event>) -> bool
    decreases events.len(),
{
    events.len() == 0 || (responsive(start, kind, events.drop_last()) && start.run(
        kind,
        events.drop_last(),
    ).request().answered_by(events.last()))
}

/// Every event leaves a phase within the iteration cap.
pub proof fn lemma_advance_keeps_wf(phase: Phase, kind: FractalType, event: Event)
    requires
        phase.wf(),
    ensures
        phase.advance(kind, event).wf(),
{
}

/// While no step escapes, the tracker counts the steps: after `n` of them,
/// below the cap, it still iterates and has counted `n`.
pub proof fn lemma_counts_bounded_steps(kind: FractalType, mags: Seq<Magnitude>, n: int)
    requires
        0 <= n < MAX_ITERATIONS,
        n <= mags.len(),
        bounded_before(kind, mags, n),
    ensures
        Phase::initial().run(kind, magnitude_events(mags, n)) == (Phase::Iterating { count: n as u8 }),
    decreases n,
{
    let events = magnitude_events(mags, n);
    if n > 0 {
        lemma_counts_bounded_steps(kind, mags, n - 1);
        assert(events.drop_last() =~= magnitude_events(mags, n - 1));
        assert(events.last() == Event::Magnitude(mags[n - 1]));
    }
}

/// A point whose orbit does not escape within the iteration cap is inside
/// the set: after the 200th report the tracker has settled on the interior
/// brightness, 255 for Mandelbrot and 0 for Julia.
pub proof fn lemma_bounded_orbit_is_interior(kind: FractalType, mags: Seq<Magnitude>)
    requires
        mags.len() >= MAX_ITERATIONS,
        bounded_before(kind, mags, MAX_ITERATIONS as int),
    ensures
        Phase::initial().run(kind, magnitude_events(mags, MAX_ITERATIONS as int)) == (Phase::Settled {
            brightness: kind.spec_interior(),
        }),
        kind == FractalType::Mandelbrot ==> kind.spec_interior() == 255,
        kind == FractalType::Julia ==> kind.spec_interior() == 0,
{
    let cap = MAX_ITERATIONS as int;
    let events = magnitude_events(mags, cap);
    lemma_counts_bounded_steps(kind, mags, cap - 1);
    assert(events.drop_last() =~= magnitude_events(mags, cap - 1));
    assert(events.last() == Event::Magnitude(mags[cap - 1]));
}

/// A point whose orbit first escapes at step `n` is asked for its smoothing
/// terms right after the report of that step, and settles on
/// `n + offset - correction` clamped to `0..=255`: the escape count is the
/// index of the first escaping step.
pub proof fn lemma_escape_count_is_first_escape(
    kind: FractalType,
    mags: Seq<Magnitude>,
    n: int,
    start_term: i64,
    escape_term: i64,
)
    requires
        first_escape(kind, mags, n),
    ensures
        Phase::initial().run(kind, magnitude_events(mags, n + 1)) == (Phase::Measuring { count: n as u8 }),
        Phase::initial().run(
            kind,
            magnitude_events(mags, n + 1).push(Event::Smoothing { start_term, escape_term }),
        ) == (Phase::Settled {
            brightness: clamp_level(n + kind.spec_offset(start_term as int) - escape_term) as u8,
        }),
{
    let seen = magnitude_events(mags, n + 1);
    lemma_counts_bounded_steps(kind, mags, n);
    assert(seen.drop_last() =~= magnitude_events(mags, n));
    assert(seen.last() == Event::Magnitude(mags[n]));
    let all = seen.push(Event::Smoothing { start_term, escape_term });
    assert(all.drop_last() =~= seen);
    assert(all.last() == Event::Smoothing { start_term, escape_term });
}

/// A Mandelbrot point that lies beyond the escape radius escapes at step 0.
/// The orbit value of that step is the starting point itself, so both
/// smoothing terms are taken of one magnitude, and whatever that term is the
/// brightness is 0: at most 1, not 255, and not a wrapped value.
pub proof fn lemma_mandelbrot_outside_point_is_dark(mags: Seq<Magnitude>, term: i64)
    requires
        mags.len() > 0,
        mags[0] == Magnitude::Above,
    ensures
        first_escape(FractalType::Mandelbrot, mags, 0),
        Phase::initial().run(
            FractalType::Mandelbrot,
            magnitude_events(mags, 1).push(Event::Smoothing { start_term: term, escape_term: term }),
        ) == (Phase::Settled { brightness: 0 }),
{
    lemma_escape_count_is_first_escape(FractalType::Mandelbrot, mags, 0, term, term);
}

/// The classification always ends: a caller that answers each request with
/// the report asked for gets at most 200 requests to iterate and one to
/// measure, so it has reported at most 201 events, and after 201 the point
/// is settled.
pub proof fn lemma_classification_terminates(kind: FractalType, events: Seq<Event>)
    requires
        responsive(Phase::initial(), kind, events),
    ensures
        events.len() <= MAX_ITERATIONS + 1,
        Phase::initial().run(kind, events).wf(),
        Phase::initial().run(kind, events) matches Phase::Iterating { count } ==> events.len() == count,
        Phase::initial().run(kind, events) matches Phase::Measuring { count } ==> events.len() == count + 1,
        events.len() == MAX_ITERATIONS + 1 ==> Phase::initial().run(kind, events) is Settled,
    decreases events.len(),
{
    if events.len() > 0 {
        lemma_classification_terminates(kind, events.drop_last());
    }
}

} // verus!
