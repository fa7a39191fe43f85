//! The CPU-scheduling teaching simulator's data: processes, the ready
//! queue, the Gantt chart and the simulation state advanced tick by tick.
use vstd::prelude::*;

verus! {

/// Where a process stands.
#[derive(Clone, Copy, Debug, PartialEq, Eq, Structural)]
pub enum ProcessState {
    Ready,
    Running,
    Completed,
    Waiting,
}

/// A simulated process and its statistics.
#[derive(Debug)]
pub struct Process {
    pub id: i32,
    pub name: String,
    pub burst_time: i32,
    pub arrival_time: i32,
    pub priority: i32,
    pub remaining_time: i32,
    pub color: String,
    pub state: ProcessState,
    pub start_time: Option<i32>,
    pub completion_time: Option<i32>,
    pub waiting_time: i32,
    pub turnaround_time: i32,
}

/// The scheduling policies.
#[derive(Clone, Copy, Debug, PartialEq, Eq, Structural)]
pub enum AlgorithmType {
    FCFS,
    SJF,
    SRTF,
    RR,
    PRIORITY,
}

/// A stretch of time on the CPU: a process, or idle (`None`).
#[derive(Clone, Copy, Debug, PartialEq, Eq, Structural)]
pub struct GanttBlock {
    pub process_id: Option<i32>,
    pub start_time: i32,
    pub end_time: i32,
}

/// A snapshot of the simulation.
#[derive(Debug)]
pub struct SimulationState {
    pub current_time: i32,
    pub processes: Vec<Process>,
    pub ready_queue: Vec<i32>,
    pub running_process_id: Option<i32>,
    pub completed_process_ids: Vec<i32>,
    pub gantt_chart: Vec<GanttBlock>,
    pub algorithm: AlgorithmType,
    pub time_quantum: i32,
    pub quantum_remaining: i32,
    pub is_playing: bool,
    pub speed: i32,
}

/// Index of the first process with id `id`, at or after `i`.
pub open spec fn find_proc_from(ps: Seq<Process>, id: i32, i: int) -> Option<int>
    decreases ps.len() - i,
{
    if i < 0 || i >= ps.len() {
        None
    } else if ps[i].id == id {
        Some(i)
    } else {
        find_proc_from(ps, id, i + 1)
    }
}

/// Index of the first process with id `id`.
pub open spec fn find_proc(ps: Seq<Process>, id: i32) -> Option<int> {
    find_proc_from(ps, id, 0)
}

pub proof fn lemma_find_proc_from(ps: Seq<Process>, id: i32, i: int)
    requires
        0 <= i,
    ensures
        match find_proc_from(ps, id, i) {
            Some(k) => i <= k < ps.len() && ps[k].id == id,
            None => forall|j: int| i <= j < ps.len() ==> ps[j].id != id,
        },
    decreases ps.len() - i,
{
    if i < ps.len() && ps[i].id != id {
        lemma_find_proc_from(ps, id, i + 1);
    }
}

/// Index of the first process with id `id`.
pub fn find_process(ps: &[Process], id: i32) -> (r: Option<usize>)
    ensures
        match r {
            Some(k) => find_proc(ps@, id) == Some(k as int) && k < ps@.len(),
            None => find_proc(ps@, id) is None,
        },
{
    proof {
        lemma_find_proc_from(ps@, id, 0);
    }
    let mut i: usize = 0;
    while i < ps.len()
        invariant
            i <= ps@.len(),
            find_proc(ps@, id) == find_proc_from(ps@, id, i as int),
        decreases ps@.len() - i,
    {
        if ps[i].id == id {
            return Some(i);
        }
        i = i + 1;
    }
    None
}

} // verus!
