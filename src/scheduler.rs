//! The scheduling policies: which ready process runs next, and whether the
//! running one is preempted.
use vstd::prelude::*;
use crate::simulation::{Process, AlgorithmType, find_proc, find_process};

verus! {

/// A scheduling policy.
pub trait Scheduler {
    /// The process id the policy picks from `queue`.
    spec fn pick(&self, queue: Seq<i32>, processes: Seq<Process>) -> Option<i32>;

    /// Whether the policy takes the CPU away from `current`.
    spec fn preempts(
        &self,
        current: Process,
        queue: Seq<i32>,
        processes: Seq<Process>,
        quantum_remaining: i32,
    ) -> bool;

    fn schedule(&self, queue: &[i32], processes: &[Process]) -> (r: Option<i32>)
        ensures
            r == self.pick(queue@, processes@),
    ;

    fn should_preempt(
        &self,
        current: &Process,
        queue: &[i32],
        processes: &[Process],
        quantum_remaining: i32,
    ) -> (r: bool)
        ensures
            r == self.preempts(*current, queue@, processes@, quantum_remaining),
    ;
}

/// First come, first served.
pub struct FCFSScheduler;

/// Round robin: first in the queue, preempted when its quantum runs out.
pub struct RRScheduler;

/// Shortest job first, non-preemptive.
pub struct SJFScheduler;

/// Shortest remaining time first, preemptive.
pub struct SRTFScheduler;

/// Lowest priority value first, preemptive.
pub struct PriorityScheduler;

/// The value a policy minimises: the remaining time, or the priority.
pub open spec fn key_of(p: Process, by_priority: bool) -> i32 {
    if by_priority {
        p.priority
    } else {
        p.remaining_time
    }
}

/// The queue entry at `i` names a process.
pub open spec fn listed(queue: Seq<i32>, ps: Seq<Process>, i: int) -> bool {
    find_proc(ps, queue[i]) is Some
}

/// The (key, arrival time) pair of the process queued at `i`.
pub open spec fn rank_at(queue: Seq<i32>, ps: Seq<Process>, by_priority: bool, i: int) -> (i32, i32) {
    let p = ps[find_proc(ps, queue[i])->0];
    (key_of(p, by_priority), p.arrival_time)
}

/// `a` comes before `b`: a smaller key, or an equal key and an earlier
/// arrival.
pub open spec fn rank_lt(a: (i32, i32), b: (i32, i32)) -> bool {
    a.0 < b.0 || (a.0 == b.0 && a.1 < b.1)
}

/// The entry at `i` is the policy's choice: it names a process ranked below
/// `(i32::MAX, i32::MAX)`, no queued process ranks before it, and every
/// earlier queued process ranks after it (ties go to the first in the queue).
pub open spec fn is_choice(queue: Seq<i32>, ps: Seq<Process>, by_priority: bool, i: int) -> bool {
    &&& 0 <= i < queue.len()
    &&& listed(queue, ps, i)
    &&& rank_lt(rank_at(queue, ps, by_priority, i), (i32::MAX, i32::MAX))
    &&& forall|j: int|
        0 <= j < queue.len() && #[trigger] listed(queue, ps, j) ==> !rank_lt(
            rank_at(queue, ps, by_priority, j),
            rank_at(queue, ps, by_priority, i),
        )
    &&& forall|j: int|
        0 <= j < i && #[trigger] listed(queue, ps, j) ==> rank_lt(
            rank_at(queue, ps, by_priority, i),
            rank_at(queue, ps, by_priority, j),
        )
}

/// The id of the policy's choice; the head of the queue where no queued
/// process qualifies; none for an empty queue.
pub open spec fn pick_min(queue: Seq<i32>, ps: Seq<Process>, by_priority: bool) -> Option<i32> {
    if queue.len() == 0 {
        None
    } else if exists|i: int| is_choice(queue, ps, by_priority, i) {
        Some(queue[choose|i: int| is_choice(queue, ps, by_priority, i)])
    } else {
        Some(queue[0])
    }
}

/// At most one entry is the choice.
pub proof fn lemma_choice_unique(queue: Seq<i32>, ps: Seq<Process>, by_priority: bool, a: int, b: int)
    requires
        is_choice(queue, ps, by_priority, a),
        is_choice(queue, ps, by_priority, b),
    ensures
        a == b,
{
    if a < b {
        assert(listed(queue, ps, a));
    } else if b < a {
        assert(listed(queue, ps, b));
    }
}

/// Some queued process has a smaller key than `current`.
pub open spec fn any_smaller(current: Process, queue: Seq<i32>, ps: Seq<Process>, by_priority: bool) -> bool {
    exists|i: int|
        0 <= i < queue.len() && #[trigger] find_proc(ps, queue[i]) is Some && key_of(
            ps[find_proc(ps, queue[i])->0],
            by_priority,
        ) < key_of(current, by_priority)
}

/// The id with the smallest key, as `pick_min` describes.
fn schedule_min(queue: &[i32], processes: &[Process], by_priority: bool) -> (r: Option<i32>)
    ensures
        r == pick_min(queue@, processes@, by_priority),
{
    if queue.len() == 0 {
        return None;
    }
    let ghost q = queue@;
    let ghost ps = processes@;
    let mut best_id = queue[0];
    let mut min_key = i32::MAX;
    let mut min_arrival = i32::MAX;
    let ghost mut best: Option<int> = None;
    let mut i: usize = 0;
    while i < queue.len()
        invariant
            q == queue@,
            ps == processes@,
            q.len() > 0,
            i <= q.len(),
            match best {
                None => {
                    &&& min_key == i32::MAX && min_arrival == i32::MAX && best_id == q[0]
                    &&& forall|j: int|
                        0 <= j < i && #[trigger] listed(q, ps, j) ==> !rank_lt(
                            rank_at(q, ps, by_priority, j),
                            (i32::MAX, i32::MAX),
                        )
                },
                Some(b) => {
                    &&& 0 <= b < i
                    &&& listed(q, ps, b)
                    &&& (min_key, min_arrival) == rank_at(q, ps, by_priority, b)
                    &&& best_id == q[b]
                    &&& rank_lt(rank_at(q, ps, by_priority, b), (i32::MAX, i32::MAX))
                    &&& forall|j: int|
                        0 <= j < i && #[trigger] listed(q, ps, j) ==> !rank_lt(
                            rank_at(q, ps, by_priority, j),
                            rank_at(q, ps, by_priority, b),
                        )
                    &&& forall|j: int|
                        0 <= j < b && #[trigger] listed(q, ps, j) ==> rank_lt(
                            rank_at(q, ps, by_priority, b),
                            rank_at(q, ps, by_priority, j),
                        )
                },
            },
        decreases q.len() - i,
    {
        let id = queue[i];
        match find_process(processes, id) {
            Some(j) => {
                let p = &processes[j];
                let key = if by_priority {
                    p.priority
                } else {
                    p.remaining_time
                };
                assert(listed(q, ps, i as int));
                assert(rank_at(q, ps, by_priority, i as int) == (key, p.arrival_time));
                if key < min_key || (key == min_key && p.arrival_time < min_arrival) {
                    min_key = key;
                    min_arrival = p.arrival_time;
                    best_id = id;
                    proof {
                        best = Some(i as int);
                    }
                }
            },
            None => {
                assert(!listed(q, ps, i as int));
            },
        }
        i = i + 1;
    }
    proof {
        match best {
            Some(b) => {
                assert(is_choice(q, ps, by_priority, b));
                let c = choose|c: int| is_choice(q, ps, by_priority, c);
                lemma_choice_unique(q, ps, by_priority, b, c);
            },
            None => {
                if exists|c: int| is_choice(q, ps, by_priority, c) {
                    let c = choose|c: int| is_choice(q, ps, by_priority, c);
                    assert(listed(q, ps, c));
                }
            },
        }
    }
    Some(best_id)
}

/// Whether a queued process has a smaller key than `current`.
fn has_smaller(current: &Process, queue: &[i32], processes: &[Process], by_priority: bool) -> (r:
    bool)
    ensures
        r == any_smaller(*current, queue@, processes@, by_priority),
{
    let mine = if by_priority {
        current.priority
    } else {
        current.remaining_time
    };
    let mut i: usize = 0;
    while i < queue.len()
        invariant
            i <= queue@.len(),
            mine == key_of(*current, by_priority),
            forall|t: int|
                0 <= t < i ==> !(#[trigger] find_proc(processes@, queue@[t]) is Some && key_of(
                    processes@[find_proc(processes@, queue@[t])->0],
                    by_priority,
                ) < mine),
        decreases queue@.len() - i,
    {
        match find_process(processes, queue[i]) {
            Some(j) => {
                let p = &processes[j];
                let key = if by_priority {
                    p.priority
                } else {
                    p.remaining_time
                };
                if key < mine {
                    return true;
                }
            },
            None => {},
        }
        i = i + 1;
    }
    false
}

impl Scheduler for FCFSScheduler {
    open spec fn pick(&self, queue: Seq<i32>, processes: Seq<Process>) -> Option<i32> {
        if queue.len() == 0 {
            None
        } else {
            Some(queue[0])
        }
    }

    open spec fn preempts(
        &self,
        current: Process,
        queue: Seq<i32>,
        processes: Seq<Process>,
        quantum_remaining: i32,
    ) -> bool {
        false
    }

    fn schedule(&self, queue: &[i32], processes: &[Process]) -> (r: Option<i32>) {
        if queue.len() == 0 {
            None
        } else {
            Some(queue[0])
        }
    }

    fn should_preempt(
        &self,
        current: &Process,
        queue: &[i32],
        processes: &[Process],
        quantum_remaining: i32,
    ) -> (r: bool) {
        false
    }
}

impl Scheduler for RRScheduler {
    open spec fn pick(&self, queue: Seq<i32>, processes: Seq<Process>) -> Option<i32> {
        if queue.len() == 0 {
            None
        } else {
            Some(queue[0])
        }
    }

    open spec fn preempts(
        &self,
        current: Process,
        queue: Seq<i32>,
        processes: Seq<Process>,
        quantum_remaining: i32,
    ) -> bool {
        quantum_remaining < 0
    }

    fn schedule(&self, queue: &[i32], processes: &[Process]) -> (r: Option<i32>) {
        if queue.len() == 0 {
            None
        } else {
            Some(queue[0])
        }
    }

    fn should_preempt(
        &self,
        current: &Process,
        queue: &[i32],
        processes: &[Process],
        quantum_remaining: i32,
    ) -> (r: bool) {
        quantum_remaining < 0
    }
}

impl Scheduler for SJFScheduler {
    open spec fn pick(&self, queue: Seq<i32>, processes: Seq<Process>) -> Option<i32> {
        pick_min(queue, processes, false)
    }

    open spec fn preempts(
        &self,
        current: Process,
        queue: Seq<i32>,
        processes: Seq<Process>,
        quantum_remaining: i32,
    ) -> bool {
        false
    }

    fn schedule(&self, queue: &[i32], processes: &[Process]) -> (r: Option<i32>) {
        schedule_min(queue, processes, false)
    }

    fn should_preempt(
        &self,
        current: &Process,
        queue: &[i32],
        processes: &[Process],
        quantum_remaining: i32,
    ) -> (r: bool) {
        false
    }
}

impl Scheduler for SRTFScheduler {
    open spec fn pick(&self, queue: Seq<i32>, processes: Seq<Process>) -> Option<i32> {
        pick_min(queue, processes, false)
    }

    open spec fn preempts(
        &self,
        current: Process,
        queue: Seq<i32>,
        processes: Seq<Process>,
        quantum_remaining: i32,
    ) -> bool {
        any_smaller(current, queue, processes, false)
    }

    fn schedule(&self, queue: &[i32], processes: &[Process]) -> (r: Option<i32>) {
        schedule_min(queue, processes, false)
    }

    fn should_preempt(
        &self,
        current: &Process,
        queue: &[i32],
        processes: &[Process],
        quantum_remaining: i32,
    ) -> (r: bool) {
        has_smaller(current, queue, processes, false)
    }
}

impl Scheduler for PriorityScheduler {
    open spec fn pick(&self, queue: Seq<i32>, processes: Seq<Process>) -> Option<i32> {
        pick_min(queue, processes, true)
    }

    open spec fn preempts(
        &self,
        current: Process,
        queue: Seq<i32>,
        processes: Seq<Process>,
        quantum_remaining: i32,
    ) -> bool {
        any_smaller(current, queue, processes, true)
    }

    fn schedule(&self, queue: &[i32], processes: &[Process]) -> (r: Option<i32>) {
        schedule_min(queue, processes, true)
    }

    fn should_preempt(
        &self,
        current: &Process,
        queue: &[i32],
        processes: &[Process],
        quantum_remaining: i32,
    ) -> (r: bool) {
        has_smaller(current, queue, processes, true)
    }
}

/// The policy for an algorithm.
#[derive(Clone, Copy, Debug, PartialEq, Eq, Structural)]
pub enum AnyScheduler {
    Fcfs,
    Rr,
    Sjf,
    Srtf,
    Priority,
}

impl Scheduler for AnyScheduler {
    open spec fn pick(&self, queue: Seq<i32>, processes: Seq<Process>) -> Option<i32> {
        match self {
            AnyScheduler::Fcfs => FCFSScheduler.pick(queue, processes),
            AnyScheduler::Rr => RRScheduler.pick(queue, processes),
            AnyScheduler::Sjf => SJFScheduler.pick(queue, processes),
            AnyScheduler::Srtf => SRTFScheduler.pick(queue, processes),
            AnyScheduler::Priority => PriorityScheduler.pick(queue, processes),
        }
    }

    open spec fn preempts(
        &self,
        current: Process,
        queue: Seq<i32>,
        processes: Seq<Process>,
        quantum_remaining: i32,
    ) -> bool {
        match self {
            AnyScheduler::Fcfs => FCFSScheduler.preempts(current, queue, processes, quantum_remaining),
            AnyScheduler::Rr => RRScheduler.preempts(current, queue, processes, quantum_remaining),
            AnyScheduler::Sjf => SJFScheduler.preempts(current, queue, processes, quantum_remaining),
            AnyScheduler::Srtf => SRTFScheduler.preempts(current, queue, processes, quantum_remaining),
            AnyScheduler::Priority => PriorityScheduler.preempts(
                current,
                queue,
                processes,
                quantum_remaining,
            ),
        }
    }

    fn schedule(&self, queue: &[i32], processes: &[Process]) -> (r: Option<i32>) {
        match self {
            AnyScheduler::Fcfs => FCFSScheduler.schedule(queue, processes),
            AnyScheduler::Rr => RRScheduler.schedule(queue, processes),
            AnyScheduler::Sjf => SJFScheduler.schedule(queue, processes),
            AnyScheduler::Srtf => SRTFScheduler.schedule(queue, processes),
            AnyScheduler::Priority => PriorityScheduler.schedule(queue, processes),
        }
    }

    fn should_preempt(
        &self,
        current: &Process,
        queue: &[i32],
        processes: &[Process],
        quantum_remaining: i32,
    ) -> (r: bool) {
        match self {
            AnyScheduler::Fcfs => FCFSScheduler.should_preempt(current, queue, processes, quantum_remaining),
            AnyScheduler::Rr => RRScheduler.should_preempt(current, queue, processes, quantum_remaining),
            AnyScheduler::Sjf => SJFScheduler.should_preempt(current, queue, processes, quantum_remaining),
            AnyScheduler::Srtf => SRTFScheduler.should_preempt(current, queue, processes, quantum_remaining),
            AnyScheduler::Priority => PriorityScheduler.should_preempt(
                current,
                queue,
                processes,
                quantum_remaining,
            ),
        }
    }
}

pub open spec fn scheduler_for(algo: AlgorithmType) -> AnyScheduler {
    match algo {
        AlgorithmType::FCFS => AnyScheduler::Fcfs,
        AlgorithmType::RR => AnyScheduler::Rr,
        AlgorithmType::SJF => AnyScheduler::Sjf,
        AlgorithmType::SRTF => AnyScheduler::Srtf,
        AlgorithmType::PRIORITY => AnyScheduler::Priority,
    }
}

/// The policy that implements `algo`.
pub fn get_scheduler(algo: AlgorithmType) -> (r: AnyScheduler)
    ensures
        r == scheduler_for(algo),
{
    match algo {
        AlgorithmType::FCFS => AnyScheduler::Fcfs,
        AlgorithmType::RR => AnyScheduler::Rr,
        AlgorithmType::SJF => AnyScheduler::Sjf,
        AlgorithmType::SRTF => AnyScheduler::Srtf,
        AlgorithmType::PRIORITY => AnyScheduler::Priority,
    }
}

} // verus!
