//! Scheduling of recurring tasks on manual ticks.
//!
//! The scheduler decides which tasks are due; it neither reads a clock nor
//! runs a task. The host passes the current time, in a unit of its choice
//! counted from an origin of its choice, and runs what `tick` returns.

use vstd::prelude::*;

verus! {

/// A recurring task: when it runs next, and how long it then waits.
#[derive(Debug, Clone, Copy, PartialEq, Eq, Structural)]
pub struct Task {
    /// Time of the next run.
    pub next_run: u64,
    /// Time between two runs.
    pub interval: u64,
}

/// Whether `task` is due at the time `now`.
pub open spec fn is_due(task: Task, now: u64) -> bool {
    now >= task.next_run
}

/// The time `interval` after `now`, held to the range of the clock.
pub open spec fn later(now: u64, interval: u64) -> u64 {
    if now + interval > u64::MAX {
        u64::MAX
    } else {
        (now + interval) as u64
    }
}

/// `task` after a tick at the time `now`: rescheduled if it was due.
pub open spec fn after_tick(task: Task, now: u64) -> Task {
    if is_due(task, now) {
        Task { next_run: later(now, task.interval), ..task }
    } else {
        task
    }
}

/// The handles of the tasks of `tasks` that are due at `now`, ascending.
pub open spec fn due_handles(tasks: Seq<Task>, now: u64) -> Seq<int> {
    Seq::new(tasks.len(), |h: int| h).filter(|h: int| 0 <= h < tasks.len() && is_due(tasks[h], now))
}

/// Schedules recurring tasks.
///
/// An implementation may state its tasks as `tasks` and is then held to the
/// contracts below; one that states none promises nothing here.
pub trait Scheduler {
    /// The scheduled tasks, by handle, if the scheduler states them.
    open spec fn tasks(&self) -> Option<Seq<Task>> {
        None
    }

    /// Schedules a task to run every `interval`, first at `now + interval`,
    /// and returns its handle.
    fn schedule(&mut self, now: u64, interval: u64) -> (handle: usize)
        ensures
            match old(self).tasks() {
                Some(tasks) => handle == tasks.len() && final(self).tasks() == Some(
                    tasks.push(Task { next_run: later(now, interval), interval }),
                ),
                None => final(self).tasks() is None,
            },
    ;

    /// Returns the handles of the tasks that are due at `now`, in ascending
    /// order, and reschedules each of them to `now` plus its interval.
    fn tick(&mut self, now: u64) -> (due: Vec<usize>)
        ensures
            match old(self).tasks() {
                Some(tasks) => {
                    &&& final(self).tasks() == Some(tasks.map_values(|t: Task| after_tick(t, now)))
                    &&& due@.map_values(|h: usize| h as int) == due_handles(tasks, now)
                },
                None => final(self).tasks() is None,
            },
    ;
}

/// In-memory scheduler deciding on manual ticks. It states its tasks.
#[derive(Debug)]
pub struct InMemoryScheduler {
    tasks: Vec<Task>,
}

impl InMemoryScheduler {
    /// The scheduled tasks, by handle.
    pub closed spec fn scheduled(&self) -> Seq<Task> {
        self.tasks@
    }

    /// Creates an empty scheduler.
    pub fn new() -> (scheduler: Self)
        ensures
            scheduler.scheduled() == Seq::<Task>::empty(),
    {
        InMemoryScheduler { tasks: Vec::new() }
    }
}

impl Default for InMemoryScheduler {
    fn default() -> (scheduler: Self)
        ensures
            scheduler.scheduled() == Seq::<Task>::empty(),
    {
        InMemoryScheduler::new()
    }
}

/// Adds `interval` to `now`, saturating at the end of the range.
fn add_interval(now: u64, interval: u64) -> (at: u64)
    ensures
        at == later(now, interval),
{
    if interval > u64::MAX - now {
        u64::MAX
    } else {
        now + interval
    }
}

impl Scheduler for InMemoryScheduler {
    open spec fn tasks(&self) -> Option<Seq<Task>> {
        Some(self.scheduled())
    }

    fn schedule(&mut self, now: u64, interval: u64) -> (handle: usize) {
        let handle = self.tasks.len();
        self.tasks.push(Task { next_run: add_interval(now, interval), interval });
        handle
    }

    fn tick(&mut self, now: u64) -> (due: Vec<usize>) {
        let ghost before = self.tasks@;
        let ghost handles = Seq::new(before.len(), |h: int| h);
        let ghost pred = |h: int| 0 <= h < before.len() && is_due(before[h], now);
        let mut due: Vec<usize> = Vec::new();
        let mut i: usize = 0;
        proof {
            assert(handles.take(0).filter(pred) =~= Seq::<int>::empty()) by {
                reveal(Seq::filter);
            }
            assert(due@.map_values(|h: usize| h as int) =~= Seq::<int>::empty());
        }
        while i < self.tasks.len()
            invariant
                i <= self.tasks.len(),
                self.tasks@.len() == before.len(),
                before == old(self).tasks@,
                handles == Seq::new(before.len(), |h: int| h),
                pred == (|h: int| 0 <= h < before.len() && is_due(before[h], now)),
                forall|j: int| 0 <= j < i ==> self.tasks@[j] == after_tick(before[j], now),
                forall|j: int| i <= j < before.len() ==> self.tasks@[j] == before[j],
                due@.map_values(|h: usize| h as int) == handles.take(i as int).filter(pred),
            decreases self.tasks.len() - i,
        {
            let task = self.tasks[i];
            proof {
                crate::domain::lemma_filter_push(handles.take(i as int), i as int, pred);
                assert(handles.take(i + 1) == handles.take(i as int).push(i as int));
            }
            if now >= task.next_run {
                let ghost prev = due@;
                self.tasks[i].next_run = add_interval(now, task.interval);
                due.push(i);
                assert(due@.map_values(|h: usize| h as int) =~= prev.map_values(
                    |h: usize| h as int,
                ).push(i as int));
            }
            i = i + 1;
        }
        proof {
            assert(handles.take(before.len() as int) == handles);
            assert(self.tasks@ =~= before.map_values(|t: Task| after_tick(t, now)));
        }
        due
    }
}

} // verus!
