//! The simulation engine: a cursor over a scenario's timeline and the state derived by
//! replaying it.

use crate::event::{
    commit_spec, lemma_commit_len, process_insertions, staging_fits, Event, Queue, Scenario,
    TransitionError,
};
use crate::persistence::{prefixed, ReadScenarioError, WriteScenarioError};
use vstd::prelude::*;

verus! {

/// Errors produced in the course of a simulation, including loading and saving scenarios.
#[derive(Debug)]
pub enum SimulationError<E> {
    /// The cursor is parked at the end of the timeline.
    TimelineExhausted,
    /// An event could not be evaluated.
    Transition(TransitionError),
    /// An event could not be pushed because events occupy the cursor location; carries the
    /// rejected event back to the caller.
    TruncationRequired(E),
    /// A scenario could not be read.
    ReadScenario(ReadScenarioError),
    /// A scenario could not be written.
    WriteScenario(WriteScenarioError),
}

impl<E> SimulationError<E> {
    /// The error's message: the kind of failure, then the underlying message where there is one.
    pub fn to_string(&self) -> (r: String)
        ensures
            self is TimelineExhausted ==> r@ == "timeline exhausted"@,
            self is Transition ==> r@ == "transition: "@ + self->Transition_0.0@,
            self is TruncationRequired ==> r@ == "truncation required"@,
            self is ReadScenario ==> exists|text: Seq<char>| r@ == "read scenario: "@ + text,
            self is WriteScenario ==> exists|text: Seq<char>| r@ == "write scenario: "@ + text,
    {
        match self {
            SimulationError::TimelineExhausted => "timeline exhausted".to_owned(),
            SimulationError::Transition(err) => prefixed("transition: ", err.0.as_str()),
            SimulationError::TruncationRequired(_) => "truncation required".to_owned(),
            SimulationError::ReadScenario(err) => {
                let text = err.to_string();
                let r = prefixed("read scenario: ", text.as_str());
                assert(r@ == "read scenario: "@ + text@);
                r
            },
            SimulationError::WriteScenario(err) => {
                let text = err.to_string();
                let r = prefixed("write scenario: ", text.as_str());
                assert(r@ == "write scenario: "@ + text@);
                r
            },
        }
    }

    /// Whether this is [`SimulationError::TimelineExhausted`].
    pub fn is_timeline_exhausted(&self) -> (r: bool)
        ensures
            r == (self is TimelineExhausted),
    {
        match self {
            SimulationError::TimelineExhausted => true,
            _ => false,
        }
    }

    /// The transition error, if this is one.
    pub fn transition(self) -> (r: Option<TransitionError>)
        ensures
            r == (match self {
                SimulationError::Transition(e) => Some(e),
                _ => None,
            }),
    {
        match self {
            SimulationError::Transition(err) => Some(err),
            _ => None,
        }
    }

    /// The rejected event, if this is a truncation request.
    pub fn truncation_required(self) -> (r: Option<E>)
        ensures
            r == (match self {
                SimulationError::TruncationRequired(e) => Some(e),
                _ => None,
            }),
    {
        match self {
            SimulationError::TruncationRequired(event) => Some(event),
            _ => None,
        }
    }

    /// The read error, if this is one.
    pub fn read_scenario(self) -> (r: Option<ReadScenarioError>)
        ensures
            r == (match self {
                SimulationError::ReadScenario(e) => Some(e),
                _ => None,
            }),
    {
        match self {
            SimulationError::ReadScenario(err) => Some(err),
            _ => None,
        }
    }

    /// The write error, if this is one.
    pub fn write_scenario(self) -> (r: Option<WriteScenarioError>)
        ensures
            r == (match self {
                SimulationError::WriteScenario(e) => Some(e),
                _ => None,
            }),
    {
        match self {
            SimulationError::WriteScenario(err) => Some(err),
            _ => None,
        }
    }
}

/// The mathematical content of a [`Simulation`].
pub struct SimulationView<S, E> {
    pub initial: S,
    pub timeline: Seq<E>,
    pub current: S,
    pub cursor: nat,
}

impl<S, E> SimulationView<S, E> {
    /// The same simulation, rewound to the start with `state` as its current state.
    pub open spec fn restart(self, state: S) -> Self {
        SimulationView { initial: self.initial, timeline: self.timeline, current: state, cursor: 0 }
    }
}

/// The timeline after splicing in `staged` behind `offset`. Staged insertions always fit (an
/// event's `apply` leaves its queue well formed); were they not to, the timeline would stay.
pub open spec fn committed<E>(timeline: Seq<E>, offset: nat, staged: Seq<(usize, E)>) -> Seq<E> {
    if staging_fits(timeline.len(), offset, staged) {
        commit_spec(timeline, offset, staged)
    } else {
        timeline
    }
}

/// One step: the event at the cursor is applied to the current state, seeing the events before
/// it as the past and those after it as the future. On success its staged insertions are spliced
/// in after it and the cursor advances; on failure the state it left stays and nothing else
/// changes. At the end of the timeline nothing changes and the step fails.
pub open spec fn step_spec<S, E: Event<S>>(m: SimulationView<S, E>) -> (
    SimulationView<S, E>,
    Result<(), SimulationError<E>>,
) {
    if m.cursor >= m.timeline.len() {
        (m, Err(SimulationError::TimelineExhausted))
    } else {
        let event = m.timeline[m.cursor as int];
        let past = m.timeline.take(m.cursor as int);
        let future = m.timeline.skip(m.cursor + 1 as int);
        let state = event.next_state(m.current, past, future);
        match event.outcome(m.current, past, future) {
            Ok(_) => (
                SimulationView {
                    initial: m.initial,
                    timeline: committed(m.timeline, m.cursor + 1, event.staged(m.current, past, future)),
                    current: state,
                    cursor: m.cursor + 1,
                },
                Ok(()),
            ),
            Err(e) => (
                SimulationView {
                    initial: m.initial,
                    timeline: m.timeline,
                    current: state,
                    cursor: m.cursor,
                },
                Err(SimulationError::Transition(e)),
            ),
        }
    }
}

/// `n` steps in a row, stopping at the first that fails.
pub open spec fn steps<S, E: Event<S>>(m: SimulationView<S, E>, n: nat) -> (
    SimulationView<S, E>,
    Result<(), SimulationError<E>>,
)
    decreases n,
{
    if n == 0 {
        (m, Ok(()))
    } else {
        let (next, r) = step_spec(m);
        if r is Err {
            (next, r)
        } else {
            steps(next, (n - 1) as nat)
        }
    }
}

/// Stepping until the timeline is exhausted or a step fails, if that happens within `fuel`
/// steps.
pub open spec fn run_within<S, E: Event<S>>(m: SimulationView<S, E>, fuel: nat) -> Option<
    (SimulationView<S, E>, Result<(), SimulationError<E>>),
>
    decreases fuel,
{
    if m.cursor >= m.timeline.len() {
        Some((m, Ok(())))
    } else if fuel == 0 {
        None
    } else {
        let (next, r) = step_spec(m);
        if r is Err {
            Some((next, r))
        } else {
            run_within(next, (fuel - 1) as nat)
        }
    }
}

/// A jump to `location`, where `fresh` is the state that a reset would start from: beyond the
/// end it fails and changes nothing; behind the cursor it resets first; then it steps until the
/// cursor reaches `location` or a step fails.
pub open spec fn jump_spec<S, E: Event<S>>(m: SimulationView<S, E>, location: nat, fresh: S) -> (
    SimulationView<S, E>,
    Result<(), SimulationError<E>>,
) {
    if location > m.timeline.len() {
        (m, Err(SimulationError::TimelineExhausted))
    } else if location < m.cursor {
        steps(m.restart(fresh), location)
    } else {
        steps(m, (location - m.cursor) as nat)
    }
}

/// The simulation with every event at and beyond the cursor dropped.
pub open spec fn truncate_spec<S, E>(m: SimulationView<S, E>) -> SimulationView<S, E> {
    SimulationView {
        initial: m.initial,
        timeline: m.timeline.take(m.cursor as int),
        current: m.current,
        cursor: m.cursor,
    }
}

/// At the end of the timeline a step fails with `TimelineExhausted` and changes nothing.
pub proof fn lemma_step_at_end<S, E: Event<S>>(m: SimulationView<S, E>)
    requires
        m.cursor == m.timeline.len(),
    ensures
        step_spec(m) == (m, Err::<(), SimulationError<E>>(SimulationError::TimelineExhausted)),
{
}

/// A successful step advances the cursor by one and keeps it within the timeline.
pub proof fn lemma_step_advances<S, E: Event<S>>(m: SimulationView<S, E>)
    requires
        m.cursor <= m.timeline.len(),
        step_spec(m).1 is Ok,
    ensures
        step_spec(m).0.cursor == m.cursor + 1,
        step_spec(m).0.cursor <= step_spec(m).0.timeline.len(),
        step_spec(m).0.initial == m.initial,
{
    let event = m.timeline[m.cursor as int];
    let past = m.timeline.take(m.cursor as int);
    let future = m.timeline.skip(m.cursor + 1 as int);
    let staged = event.staged(m.current, past, future);
    if staging_fits(m.timeline.len(), m.cursor + 1, staged) {
        lemma_commit_len(m.timeline, m.cursor + 1, staged);
    }
}

/// `n` successful steps advance the cursor by `n` and keep it within the timeline.
pub proof fn lemma_steps_advance<S, E: Event<S>>(m: SimulationView<S, E>, n: nat)
    requires
        m.cursor <= m.timeline.len(),
        steps(m, n).1 is Ok,
    ensures
        steps(m, n).0.cursor == m.cursor + n,
        steps(m, n).0.cursor <= steps(m, n).0.timeline.len(),
        steps(m, n).0.initial == m.initial,
    decreases n,
{
    if n > 0 {
        lemma_step_advances(m);
        lemma_steps_advance(step_spec(m).0, (n - 1) as nat);
    }
}

/// Taking `a` steps and then `b` more is taking `a + b` steps, unless the first `a` already
/// failed.
pub proof fn lemma_steps_split<S, E: Event<S>>(m: SimulationView<S, E>, a: nat, b: nat)
    ensures
        steps(m, a + b) == (if steps(m, a).1 is Ok {
            steps(steps(m, a).0, b)
        } else {
            steps(m, a)
        }),
    decreases a,
{
    if a > 0 {
        let next = step_spec(m).0;
        if step_spec(m).1 is Ok {
            lemma_steps_split(next, (a - 1) as nat, b);
            assert((a + b - 1) as nat == (a - 1) as nat + b);
        }
    }
}

/// Once a run finishes within some number of steps, it finishes the same way with any larger
/// allowance: a run has one result.
pub proof fn lemma_run_within_stable<S, E: Event<S>>(
    m: SimulationView<S, E>,
    fuel: nat,
    more: nat,
)
    requires
        run_within(m, fuel) is Some,
        fuel <= more,
    ensures
        run_within(m, more) == run_within(m, fuel),
    decreases fuel,
{
    if m.cursor < m.timeline.len() && step_spec(m).1 is Ok {
        lemma_run_within_stable(step_spec(m).0, (fuel - 1) as nat, (more - 1) as nat);
    }
}

/// A run that succeeds ends with the cursor at the end of the timeline, in the same place as
/// stepping one event at a time as many times as the cursor moved.
pub proof fn lemma_run_is_repeated_step<S, E: Event<S>>(m: SimulationView<S, E>, fuel: nat)
    requires
        m.cursor <= m.timeline.len(),
        run_within(m, fuel) is Some,
        run_within(m, fuel).unwrap().1 is Ok,
    ensures
        ({
            let (end, r) = run_within(m, fuel).unwrap();
            &&& end.cursor == end.timeline.len()
            &&& m.cursor <= end.cursor
            &&& steps(m, (end.cursor - m.cursor) as nat) == (end, r)
        }),
    decreases fuel,
{
    if m.cursor < m.timeline.len() {
        let next = step_spec(m).0;
        lemma_step_advances(m);
        lemma_run_is_repeated_step(next, (fuel - 1) as nat);
        let end = run_within(m, fuel).unwrap().0;
        assert((end.cursor - m.cursor) as nat == ((end.cursor - next.cursor) as nat + 1) as nat);
    }
}

/// Jumping to the location a jump just reached changes nothing and succeeds.
pub proof fn lemma_jump_idempotent<S, E: Event<S>>(
    m: SimulationView<S, E>,
    location: nat,
    fresh: S,
    fresh_again: S,
)
    requires
        m.cursor <= m.timeline.len(),
        jump_spec(m, location, fresh).1 is Ok,
    ensures
        jump_spec(jump_spec(m, location, fresh).0, location, fresh_again) == (
            jump_spec(m, location, fresh).0,
            Ok::<(), SimulationError<E>>(()),
        ),
{
    if location < m.cursor {
        lemma_steps_advance(m.restart(fresh), location);
    } else {
        lemma_steps_advance(m, (location - m.cursor) as nat);
    }
}

/// Wherever the cursor stands, a jump to `location` ends where a reset followed by `location`
/// steps ends, provided the present position is what replaying from the reset state gives.
pub proof fn lemma_jump_replays<S, E: Event<S>>(m: SimulationView<S, E>, location: nat, fresh: S)
    requires
        location <= m.timeline.len(),
        steps(m.restart(fresh), m.cursor) == (m, Ok::<(), SimulationError<E>>(())),
    ensures
        jump_spec(m, location, fresh) == steps(m.restart(fresh), location),
{
    if location >= m.cursor {
        lemma_steps_split(m.restart(fresh), m.cursor, (location - m.cursor) as nat);
        assert(m.cursor + (location - m.cursor) as nat == location);
    }
}

/// A jump beyond the end of the timeline fails with `TimelineExhausted` and changes nothing.
pub proof fn lemma_jump_past_end<S, E: Event<S>>(m: SimulationView<S, E>, location: nat, fresh: S)
    requires
        location > m.timeline.len(),
    ensures
        jump_spec(m, location, fresh) == (m, Err::<(), SimulationError<E>>(SimulationError::TimelineExhausted)),
{
}

/// Truncation drops exactly the events from the cursor on, and a second truncation changes
/// nothing.
pub proof fn lemma_truncate_idempotent<S, E>(m: SimulationView<S, E>)
    requires
        m.cursor <= m.timeline.len(),
    ensures
        truncate_spec(m).timeline == m.timeline.subrange(0, m.cursor as int),
        truncate_spec(m).cursor == truncate_spec(m).timeline.len(),
        truncate_spec(truncate_spec(m)) == truncate_spec(m),
{
    assert(truncate_spec(m).timeline.take(m.cursor as int) =~= truncate_spec(m).timeline);
}

/// The simulation state: a scenario, the state derived so far, and a cursor pointing at the next
/// event to apply.
#[derive(Debug)]
pub struct Simulation<S, E> {
    scenario: Scenario<S, E>,
    current_state: S,
    cursor: usize,
}

impl<S, E> View for Simulation<S, E> {
    type V = SimulationView<S, E>;

    closed spec fn view(&self) -> SimulationView<S, E> {
        SimulationView {
            initial: self.scenario.initial,
            timeline: self.scenario.timeline@,
            current: self.current_state,
            cursor: self.cursor as nat,
        }
    }
}

impl<S: Default + Clone, E> Default for Simulation<S, E> {
    /// A simulation of the default scenario: the default state and an empty timeline.
    fn default() -> (r: Self)
        ensures
            r.wf(),
            r@.timeline.len() == 0,
            r@.cursor == 0,
            cloned(r@.initial, r@.current),
    {
        Simulation::from(Scenario::default())
    }
}

impl<S, E> Simulation<S, E> {
    /// The cursor never passes the end of the timeline.
    pub open spec fn wf(&self) -> bool {
        self@.cursor <= self@.timeline.len()
    }

    /// Builds a simulation over `scenario`, its current state a clone of the initial state and its
    /// cursor at the start.
    pub fn from(scenario: Scenario<S, E>) -> (r: Self)
        where
            S: Clone,
        ensures
            r@.initial == scenario.initial,
            r@.timeline == scenario.timeline@,
            r@.cursor == 0,
            cloned(scenario.initial, r@.current),
            r.wf(),
    {
        let current_state = scenario.initial.clone();
        Simulation { scenario, current_state, cursor: 0 }
    }

    /// Applies the event at the cursor; see [`step_spec`].
    pub fn step(&mut self) -> (r: Result<(), SimulationError<E>>)
        where
            E: Event<S>,
        requires
            old(self).wf(),
        ensures
            final(self).wf(),
            (final(self)@, r) == step_spec(old(self)@),
            final(self)@.timeline.len() >= old(self)@.timeline.len(),
    {
        if self.cursor == self.scenario.timeline.len() {
            return Err(SimulationError::TimelineExhausted);
        }
        let offset = self.cursor + 1;
        let mut queue = Queue::new(offset, &self.scenario.timeline);
        let event = &self.scenario.timeline[self.cursor];
        let result = event.apply(&mut self.current_state, &mut queue);
        match result {
            Err(err) => Err(SimulationError::Transition(err)),
            Ok(()) => {
                let (offset, _, insertions) = queue.into_inner();
                proof {
                    lemma_commit_len(self.scenario.timeline@, offset as nat, insertions@);
                }
                process_insertions(offset, insertions, &mut self.scenario.timeline);
                self.cursor = self.cursor + 1;
                Ok(())
            },
        }
    }

    /// Rewinds to the start: the current state becomes a clone of the initial state and the
    /// cursor returns to 0.
    pub fn reset(&mut self)
        where
            S: Clone,
        requires
            old(self).wf(),
        ensures
            final(self).wf(),
            final(self)@ == old(self)@.restart(final(self)@.current),
            cloned(old(self)@.initial, final(self)@.current),
    {
        self.current_state = self.scenario.initial.clone();
        self.cursor = 0;
    }

    /// Moves the cursor to `location`; see [`jump_spec`]. The state a reset would start from is
    /// a clone of the initial state.
    pub fn jump(&mut self, location: usize) -> (r: Result<(), SimulationError<E>>)
        where
            S: Clone,
            E: Event<S>,
        requires
            old(self).wf(),
        ensures
            final(self).wf(),
            exists|fresh: S|
                cloned(old(self)@.initial, fresh) && (final(self)@, r) == jump_spec(
                    old(self)@,
                    location as nat,
                    fresh,
                ),
    {
        let ghost start = self@;
        if location > self.scenario.timeline.len() {
            proof {
                assert(cloned(start.initial, start.initial));
            }
            return Err(SimulationError::TimelineExhausted);
        }
        let ghost mut fresh = start.initial;
        if location < self.cursor {
            self.reset();
            proof {
                fresh = self@.current;
            }
        }
        let ghost origin = self@;
        while self.cursor < location
            invariant
                self.wf(),
                start == old(self)@,
                cloned(start.initial, fresh),
                jump_spec(start, location as nat, fresh) == steps(origin, (location - origin.cursor) as nat),
                self@.cursor <= location,
                origin.cursor <= location,
                steps(self@, (location - self@.cursor) as nat) == steps(origin, (location - origin.cursor) as nat),
            decreases location - self@.cursor,
        {
            let r = self.step();
            match r {
                Err(err) => {
                    return Err(err);
                },
                Ok(()) => {},
            }
        }
        Ok(())
    }

    /// Steps until the timeline is exhausted or a step fails; see [`run_within`].
    pub fn run(&mut self) -> (r: Result<(), SimulationError<E>>)
        where
            E: Event<S>,
        requires
            old(self).wf(),
        ensures
            final(self).wf(),
            exists|fuel: nat| run_within(old(self)@, fuel) == Some((final(self)@, r)),
    {
        let ghost start = self@;
        let ghost mut done: nat = 0;
        while self.cursor < self.scenario.timeline.len()
            invariant
                self.wf(),
                start == old(self)@,
                forall|fuel: nat| run_within(start, done + fuel) == #[trigger] run_within(self@, fuel),
            decreases usize::MAX - self@.cursor,
        {
            let ghost before = self@;
            let r = self.step();
            match r {
                Err(err) => {
                    proof {
                        assert(run_within(start, done + 1) == run_within(before, 1));
                    }
                    return Err(err);
                },
                Ok(()) => {},
            }
            proof {
                assert forall|fuel: nat| run_within(start, (done + 1) + fuel) == #[trigger] run_within(self@, fuel) by {
                    assert(run_within(start, done + (fuel + 1)) == run_within(before, fuel + 1));
                    assert((done + 1) + fuel == done + (fuel + 1));
                }
                done = done + 1;
            }
        }
        proof {
            assert(run_within(start, done + 0) == run_within(self@, 0));
        }
        Ok(())
    }

    /// Appends `event` to the timeline, which is allowed only when the cursor is at its end.
    /// Otherwise the event comes back in [`SimulationError::TruncationRequired`].
    pub fn push_event(&mut self, event: E) -> (r: Result<(), SimulationError<E>>)
        requires
            old(self).wf(),
        ensures
            final(self).wf(),
            old(self)@.cursor == old(self)@.timeline.len() ==> r is Ok && final(self)@ == (
            SimulationView { timeline: old(self)@.timeline.push(event), ..old(self)@ }),
            old(self)@.cursor != old(self)@.timeline.len() ==> r == Err::<(), SimulationError<E>>(
                SimulationError::TruncationRequired(event),
            ) && final(self)@ == old(self)@,
    {
        if self.cursor != self.scenario.timeline.len() {
            return Err(SimulationError::TruncationRequired(event));
        }
        self.scenario.timeline.push(event);
        Ok(())
    }

    /// Drops every event at and beyond the cursor; see [`truncate_spec`].
    pub fn truncate(&mut self)
        requires
            old(self).wf(),
        ensures
            final(self).wf(),
            final(self)@ == truncate_spec(old(self)@),
    {
        self.scenario.timeline.truncate(self.cursor);
    }

    /// The scenario being simulated.
    pub fn scenario(&self) -> (r: &Scenario<S, E>)
        ensures
            r.initial == self@.initial,
            r.timeline@ == self@.timeline,
    {
        &self.scenario
    }

    /// Replaces the scenario wholesale, then resets.
    pub fn set_scenario(&mut self, scenario: Scenario<S, E>)
        where
            S: Clone,
        requires
            old(self).wf(),
        ensures
            final(self).wf(),
            final(self)@.initial == scenario.initial,
            final(self)@.timeline == scenario.timeline@,
            final(self)@.cursor == 0,
            cloned(scenario.initial, final(self)@.current),
    {
        self.scenario = scenario;
        self.cursor = 0;
        self.reset();
    }

    /// The current simulation state.
    pub fn current_state(&self) -> (r: &S)
        ensures
            *r == self@.current,
    {
        &self.current_state
    }

    /// The cursor location: the number of events applied so far.
    pub fn cursor(&self) -> (r: usize)
        ensures
            r == self@.cursor,
    {
        self.cursor
    }
}

} // verus!
