//! The interval scheduler: which blocks are due for a refresh at a given time.
//!
//! Time is a count of nanoseconds on a clock that never runs backwards; where
//! the clock starts is the caller's choice. The scheduler is asked at every
//! tick of a coarse timer, so a task fires at the first tick at or after the
//! time it is due, never before it.

use vstd::prelude::*;
use crate::config::Block;

verus! {

/// The time between two ticks, in milliseconds.
pub const TICK_MILLIS: u64 = 100;

/// How many nanoseconds a second has.
pub const NANOS_PER_SECOND: u64 = 1_000_000_000;

/// The nanoseconds in a span of `seconds` whole seconds and `nanos` nanoseconds.
pub open spec fn span(seconds: u64, nanos: u32) -> int {
    seconds * NANOS_PER_SECOND + nanos
}

/// A span of `seconds` whole seconds and `nanos` nanoseconds, in nanoseconds.
/// A span too long to be counted is cut to the longest one that can be.
pub fn nanos_of(seconds: u64, nanos: u32) -> (total: u64)
    ensures
        total == if span(seconds, nanos) <= u64::MAX {
            span(seconds, nanos)
        } else {
            u64::MAX as int
        },
{
    match seconds.checked_mul(NANOS_PER_SECOND) {
        Some(whole) => match whole.checked_add(nanos as u64) {
            Some(total) => total,
            None => u64::MAX,
        },
        None => u64::MAX,
    }
}

/// The scheduling state of one block.
#[derive(Debug, Clone, PartialEq, Eq)]
pub struct Task {
    /// Position of the block among the configured blocks.
    pub index: usize,
    /// Refresh interval in nanoseconds; `None` or zero for a block that no timer refreshes.
    pub interval: Option<u64>,
    /// When the task last fired; `None` until it fires for the first time.
    pub last_run: Option<u64>,
    /// The scheduler's own copy of the block's command text.
    pub execute: String,
}

impl Task {
    /// Whether a timer refreshes the task at all.
    pub open spec fn periodic(&self) -> bool {
        self.interval matches Some(t) && t > 0
    }

    /// Whether the task is to fire at time `now`: its interval has passed since
    /// it last fired, or it has never fired.
    pub open spec fn due(&self, now: u64) -> bool {
        self.periodic() && match self.last_run {
            Some(last) => now >= last + self.interval->0,
            None => true,
        }
    }

    /// The task after it fired at time `now`.
    pub open spec fn fired(self, now: u64) -> Task {
        Task { last_run: Some(now), ..self }
    }

    /// The task after a tick at time `now`.
    pub open spec fn ticked(self, now: u64) -> Task {
        if self.due(now) {
            self.fired(now)
        } else {
            self
        }
    }

    /// The task of a block that has not fired yet.
    pub open spec fn fresh(index: usize, block: Block) -> Task {
        Task { index, interval: block.interval, last_run: None, execute: block.execute }
    }

    /// The task for the block at `index`, due at once if the block has an interval.
    pub fn new(index: usize, block: &Block) -> (task: Task)
        ensures
            task == Task::fresh(index, *block),
    {
        Task { index, interval: block.interval, last_run: None, execute: block.execute.clone() }
    }

    /// Whether the task is to fire at time `now`.
    pub fn is_due(&self, now: u64) -> (due: bool)
        ensures
            due == self.due(now),
    {
        match self.interval {
            Some(interval) => {
                if interval == 0 {
                    false
                } else {
                    match self.last_run {
                        Some(last) => now >= last && now - last >= interval,
                        None => true,
                    }
                }
            },
            None => false,
        }
    }
}

/// The tasks of `blocks` before any of them has fired.
pub open spec fn fresh_tasks(blocks: Seq<Block>) -> Seq<Task> {
    Seq::new(blocks.len(), |i: int| Task::fresh(i as usize, blocks[i]))
}

/// The tasks after a tick at time `now`: those that were due have fired at `now`.
pub open spec fn ticked(tasks: Seq<Task>, now: u64) -> Seq<Task> {
    tasks.map_values(|task: Task| task.ticked(now))
}

/// The indices of the tasks that are due at time `now`, in the order of the tasks.
pub open spec fn due_indices(tasks: Seq<Task>, now: u64) -> Seq<usize> {
    tasks.filter(|task: Task| task.due(now)).map_values(|task: Task| task.index)
}

/// The tasks after one tick at each of `times`, in order.
pub open spec fn after_ticks(tasks: Seq<Task>, times: Seq<u64>) -> Seq<Task>
    decreases times.len(),
{
    if times.len() == 0 {
        tasks
    } else {
        ticked(after_ticks(tasks, times.drop_last()), times.last())
    }
}

/// Every task stands at the position that its index names.
pub open spec fn in_place(tasks: Seq<Task>) -> bool {
    forall|i: int| 0 <= i < tasks.len() ==> (#[trigger] tasks[i]).index == i
}

/// The tasks of all blocks, in the order of the blocks.
pub struct IntervalScheduler {
    tasks: Vec<Task>,
}

impl View for IntervalScheduler {
    type V = Seq<Task>;

    closed spec fn view(&self) -> Seq<Task> {
        self.tasks@
    }
}

impl IntervalScheduler {
    /// Every task stands at the position that its index names.
    #[verifier::type_invariant]
    spec fn in_order(&self) -> bool {
        in_place(self.tasks@)
    }

    /// A scheduler for `blocks` in which no task has fired yet.
    pub fn new(blocks: &Vec<Block>) -> (scheduler: Self)
        ensures
            scheduler@ == fresh_tasks(blocks@),
    {
        let mut tasks: Vec<Task> = Vec::new();
        let mut i: usize = 0;
        while i < blocks.len()
            invariant
                i <= blocks.len(),
                tasks.len() == i,
                forall|k: int| 0 <= k < i ==> (#[trigger] tasks[k]) == Task::fresh(k as usize, blocks[k]),
            decreases blocks.len() - i,
        {
            tasks.push(Task::new(i, &blocks[i]));
            i += 1;
        }
        assert(tasks@ =~= fresh_tasks(blocks@));
        IntervalScheduler { tasks }
    }

    /// The tasks, one for each block, each at the position that its index names.
    pub fn tasks(&self) -> (tasks: &Vec<Task>)
        ensures
            tasks@ == self@,
            in_place(self@),
    {
        proof {
            use_type_invariant(self);
        }
        &self.tasks
    }

    /// One tick at time `now`. Every task that is due fires: its index goes
    /// into the batch and `now` becomes the time it last fired. The batch
    /// lists the indices in rising order. There is no batch when no task is due.
    pub fn tick(&mut self, now: u64) -> (batch: Option<Vec<usize>>)
        ensures
            final(self)@ == ticked(old(self)@, now),
            in_place(final(self)@),
            batch is Some <==> due_indices(old(self)@, now).len() > 0,
            batch matches Some(indices) ==> indices@ == due_indices(old(self)@, now),
    {
        proof {
            use_type_invariant(&*self);
        }
        let ghost before = self@;
        let ghost is_due = |task: Task| task.due(now);
        let mut tasks: Vec<Task> = Vec::new();
        std::mem::swap(&mut self.tasks, &mut tasks);
        let mut batch: Vec<usize> = Vec::new();
        let mut i: usize = 0;
        proof {
            reveal(Seq::filter);
            assert(before.take(0) == Seq::<Task>::empty());
        }
        while i < tasks.len()
            invariant
                i <= tasks.len(),
                tasks.len() == before.len(),
                in_place(before),
                is_due == |task: Task| task.due(now),
                forall|k: int| 0 <= k < i ==> (#[trigger] tasks[k]) == before[k].ticked(now),
                forall|k: int| i <= k < before.len() ==> (#[trigger] tasks[k]) == before[k],
                batch@ == before.take(i as int).filter(is_due).map_values(|task: Task| task.index),
            decreases tasks.len() - i,
        {
            proof {
                reveal(Seq::filter);
                let done = before.take(i as int);
                assert(before.take(i + 1) == done.push(before[i as int]));
                assert(done.push(before[i as int]).drop_last() == done);
            }
            if tasks[i].is_due(now) {
                tasks[i].last_run = Some(now);
                batch.push(i);
                assert(batch@ =~= before.take(i + 1).filter(is_due).map_values(
                    |task: Task| task.index,
                ));
            }
            i += 1;
        }
        assert(before.take(before.len() as int) == before);
        assert(tasks@ =~= ticked(before, now));
        self.tasks = tasks;
        if batch.len() == 0 {
            None
        } else {
            Some(batch)
        }
    }
}

/// The indices that are due, task by task from the last one back.
pub proof fn lemma_due_indices_step(tasks: Seq<Task>, now: u64)
    requires
        tasks.len() > 0,
    ensures
        due_indices(tasks, now) == if tasks.last().due(now) {
            due_indices(tasks.drop_last(), now).push(tasks.last().index)
        } else {
            due_indices(tasks.drop_last(), now)
        },
{
    reveal(Seq::filter);
    let is_due = |task: Task| task.due(now);
    let front = tasks.drop_last().filter(is_due);
    if tasks.last().due(now) {
        assert(tasks.filter(is_due) == front.push(tasks.last()));
        assert(front.push(tasks.last()).map_values(|task: Task| task.index) =~= front.map_values(
            |task: Task| task.index,
        ).push(tasks.last().index));
    }
}

/// Which indices a tick emits: those of the tasks that are due, each once, in rising order.
pub proof fn lemma_due_indices(tasks: Seq<Task>, now: u64)
    requires
        in_place(tasks),
        tasks.len() <= usize::MAX,
    ensures
        forall|index: usize|
            #![trigger due_indices(tasks, now).contains(index)]
            due_indices(tasks, now).contains(index) <==> index < tasks.len() && tasks[index as int].due(
                now,
            ),
        forall|i: int, j: int|
            0 <= i < j < due_indices(tasks, now).len() ==> due_indices(tasks, now)[i]
                < due_indices(tasks, now)[j],
    decreases tasks.len(),
{
    let all = due_indices(tasks, now);
    if tasks.len() == 0 {
        reveal(Seq::filter);
        assert(all.len() == 0);
    } else {
        let front = tasks.drop_last();
        let last = tasks.last();
        let kept = due_indices(front, now);
        lemma_due_indices(front, now);
        lemma_due_indices_step(tasks, now);
        assert forall|index: usize| #![trigger all.contains(index)] all.contains(index) <==> index
            < tasks.len() && tasks[index as int].due(now) by {
            if all.contains(index) {
                let k = choose|k: int| 0 <= k < all.len() && all[k] == index;
                if k < kept.len() {
                    assert(kept[k] == index);
                    assert(kept.contains(index));
                    assert(front[index as int] == tasks[index as int]);
                }
            }
            if index < tasks.len() && tasks[index as int].due(now) {
                if index < front.len() {
                    assert(front[index as int] == tasks[index as int]);
                    assert(kept.contains(index));
                    let k = choose|k: int| 0 <= k < kept.len() && kept[k] == index;
                    assert(all[k] == index);
                } else {
                    assert(all[kept.len() as int] == index);
                }
            }
        }
        assert forall|i: int, j: int| 0 <= i < j < all.len() implies all[i] < all[j] by {
            if j >= kept.len() {
                assert(kept[i] == all[i]);
                assert(kept.contains(kept[i]));
            } else {
                assert(kept[i] < kept[j]);
            }
        }
    }
}

/// Ticks change neither how many tasks there are nor, of any task, its index or its interval.
pub proof fn lemma_after_ticks_keeps(tasks: Seq<Task>, times: Seq<u64>)
    ensures
        after_ticks(tasks, times).len() == tasks.len(),
        forall|i: int|
            0 <= i < tasks.len() ==> {
                &&& (#[trigger] after_ticks(tasks, times)[i]).index == tasks[i].index
                &&& after_ticks(tasks, times)[i].interval == tasks[i].interval
                &&& after_ticks(tasks, times)[i].execute == tasks[i].execute
            },
    decreases times.len(),
{
    if times.len() > 0 {
        lemma_after_ticks_keeps(tasks, times.drop_last());
    }
}

/// A block without an interval, or with an interval of zero, is refreshed by
/// hits only: whatever the times of the ticks so far, and whatever time it is
/// now, a tick does not emit its index.
pub proof fn law_hit_only_never_emitted(
    blocks: Seq<Block>,
    times: Seq<u64>,
    now: u64,
    index: usize,
)
    requires
        index < blocks.len() <= usize::MAX,
        !blocks[index as int].periodic(),
    ensures
        !due_indices(after_ticks(fresh_tasks(blocks), times), now).contains(index),
{
    let tasks = after_ticks(fresh_tasks(blocks), times);
    lemma_after_ticks_keeps(fresh_tasks(blocks), times);
    assert(in_place(tasks));
    lemma_due_indices(tasks, now);
    assert(tasks[index as int].interval == fresh_tasks(blocks)[index as int].interval);
}

/// No catch-up: a task that fires at `now`, however long after it was due, is
/// next due one full interval after `now`, not one interval after the time
/// at which it should have fired.
pub proof fn law_no_catch_up(task: Task, now: u64, later: u64)
    requires
        task.due(now),
    ensures
        task.ticked(now).last_run == Some(now),
        task.ticked(now).due(later) <==> later >= now + task.interval->0,
{
}

/// A task never fires early: when it is due, a full interval has passed since
/// it last fired.
pub proof fn law_never_early(task: Task, now: u64)
    requires
        task.due(now),
        task.last_run is Some,
    ensures
        now - task.last_run->0 >= task.interval->0 > 0,
{
}

} // verus!
