use vstd::prelude::*;
use vstd::arithmetic::div_mod::{lemma_mod_self_0, lemma_small_mod};
use crate::board::Stop;
use crate::cycle::CycleError;

verus! {

/// The stops to poll and the tick period, as loaded at startup.
#[derive(Debug)]
pub struct Config {
    pub stops: Vec<Stop>,
    pub interval: u64,
}

/// A condition that stops the process before polling starts.
#[derive(Debug)]
pub enum ConfigError {
    /// No API key was supplied.
    MissingApiKey,
    /// The stop list is empty.
    EmptyStops,
    /// The tick period is zero seconds.
    ZeroInterval,
    /// The configuration source could not be read or parsed.
    Unreadable(String),
}

impl Config {
    /// At least one stop, and a positive period.
    pub open spec fn wf(&self) -> bool {
        self.stops@.len() > 0 && self.interval > 0
    }

    /// Accepts a stop list and a period in seconds, refusing an empty list
    /// first and a zero period second.
    pub fn new(stops: Vec<Stop>, interval: u64) -> (r: Result<Config, ConfigError>)
        ensures
            (r is Ok) == (stops@.len() > 0 && interval > 0),
            r is Ok ==> r->Ok_0.wf() && r->Ok_0.stops@ == stops@ && r->Ok_0.interval == interval,
            stops@.len() == 0 ==> r is Err && r->Err_0 is EmptyStops,
            stops@.len() > 0 && interval == 0 ==> r is Err && r->Err_0 is ZeroInterval,
    {
        if stops.len() == 0 {
            Err(ConfigError::EmptyStops)
        } else if interval == 0 {
            Err(ConfigError::ZeroInterval)
        } else {
            Ok(Config { stops, interval })
        }
    }
}

/// The rotation cursor after one step over `len` stops.
pub open spec fn advance(cursor: nat, len: nat) -> nat {
    (cursor + 1) % len
}

/// The rotation cursor after `steps` steps from cursor 0.
pub open spec fn cursor_after(steps: nat, len: nat) -> nat
    decreases steps,
{
    if steps == 0 {
        0
    } else {
        advance(cursor_after((steps - 1) as nat, len), len)
    }
}

/// Returns the stop under the cursor and the cursor moved on by one,
/// wrapping at the end of the list.
pub fn next_stop(cursor: usize, stops: &Vec<Stop>) -> (r: (&Stop, usize))
    requires
        cursor < stops@.len(),
    ensures
        *r.0 == stops@[cursor as int],
        r.1 as nat == advance(cursor as nat, stops@.len()),
        r.1 < stops@.len(),
{
    let next = if cursor == stops.len() - 1 { 0 } else { cursor + 1 };
    proof {
        let len = stops@.len();
        if cursor + 1 == len {
            lemma_mod_self_0(len as int);
        } else {
            lemma_small_mod((cursor + 1) as nat, len);
        }
    }
    (&stops[cursor], next)
}

/// Over `len` stops, the first `len` steps from cursor 0 visit every index
/// exactly once (step `k` is at index `k`), and the next step finds the
/// cursor back at 0.
pub proof fn lemma_rotation_visits_all(len: nat)
    requires
        len > 0,
    ensures
        forall|k: nat| k < len ==> #[trigger] cursor_after(k, len) == k,
        forall|j: nat, k: nat|
            j < k < len ==> #[trigger] cursor_after(j, len) != #[trigger] cursor_after(k, len),
        cursor_after(len, len) == 0,
{
    assert forall|k: nat| k < len implies #[trigger] cursor_after(k, len) == k by {
        lemma_cursor_counts(k, len);
    }
    lemma_cursor_counts((len - 1) as nat, len);
    lemma_mod_self_0(len as int);
}

proof fn lemma_cursor_counts(k: nat, len: nat)
    requires
        k < len,
    ensures
        cursor_after(k, len) == k,
    decreases k,
{
    if k > 0 {
        lemma_cursor_counts((k - 1) as nat, len);
        lemma_small_mod(k, len);
    }
}

/// What the scheduler is told.
#[derive(Debug)]
pub enum SchedulerEvent {
    /// The timer fired.
    Tick,
    /// A dispatched cycle ended, with its outcome.
    CycleFinished(Result<(), CycleError>),
}

/// What the scheduler asks its runner to do.
#[derive(Debug, PartialEq, Eq)]
pub enum SchedulerAction {
    /// Launch a cycle for the stop at this index, without waiting for it.
    Dispatch(usize),
    /// Nothing to do until the next event.
    Wait,
}

/// The scheduler's state between ticks: the rotation cursor over a fixed
/// number of stops.
#[derive(Debug)]
pub struct Scheduler {
    pub cursor: usize,
    pub stop_count: usize,
}

/// The scheduler's transition: a tick dispatches the stop under the cursor
/// and moves the cursor on; a finished cycle, whatever its outcome, changes
/// nothing.
pub open spec fn scheduler_step(cursor: nat, stop_count: nat, event: SchedulerEvent) -> (
    nat,
    SchedulerAction,
) {
    match event {
        SchedulerEvent::Tick => (advance(cursor, stop_count), SchedulerAction::Dispatch(
            cursor as usize,
        )),
        SchedulerEvent::CycleFinished(_) => (cursor, SchedulerAction::Wait),
    }
}

impl Scheduler {
    pub open spec fn wf(&self) -> bool {
        self.cursor < self.stop_count
    }

    /// A scheduler that starts at the first of `stop_count` stops.
    pub fn new(stop_count: usize) -> (r: Scheduler)
        requires
            stop_count > 0,
        ensures
            r.wf(),
            r.cursor == 0,
            r.stop_count == stop_count,
    {
        Scheduler { cursor: 0, stop_count }
    }

    /// Takes one event and returns the action to perform.
    pub fn step(&mut self, event: SchedulerEvent) -> (r: SchedulerAction)
        requires
            old(self).wf(),
        ensures
            final(self).wf(),
            final(self).stop_count == old(self).stop_count,
            (final(self).cursor as nat, r) == scheduler_step(
                old(self).cursor as nat,
                old(self).stop_count as nat,
                event,
            ),
    {
        match event {
            SchedulerEvent::Tick => {
                let at = self.cursor;
                let next = if at + 1 == self.stop_count { 0 } else { at + 1 };
                proof {
                    if at + 1 == self.stop_count {
                        lemma_mod_self_0(self.stop_count as int);
                    } else {
                        lemma_small_mod((at + 1) as nat, self.stop_count as nat);
                    }
                }
                self.cursor = next;
                SchedulerAction::Dispatch(at)
            },
            SchedulerEvent::CycleFinished(_) => SchedulerAction::Wait,
        }
    }
}

/// A failed cycle does not hold up the next one: after a failure is
/// reported, the next tick dispatches exactly the stop it would have
/// dispatched had the failure never been reported.
pub proof fn lemma_cycle_failure_isolated(
    cursor: nat,
    stop_count: nat,
    failure: CycleError,
)
    requires
        cursor < stop_count,
    ensures
        ({
            let after = scheduler_step(
                cursor,
                stop_count,
                SchedulerEvent::CycleFinished(Err(failure)),
            );
            &&& after.1 == SchedulerAction::Wait
            &&& scheduler_step(after.0, stop_count, SchedulerEvent::Tick) == scheduler_step(
                cursor,
                stop_count,
                SchedulerEvent::Tick,
            )
            &&& scheduler_step(after.0, stop_count, SchedulerEvent::Tick).1
                == SchedulerAction::Dispatch(cursor as usize)
        }),
{
}

} // verus!
