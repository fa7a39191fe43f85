//! One tick of the scheduling simulation: arrivals join the ready queue,
//! the policy may preempt the running process, a free CPU takes the next
//! process, the running process executes for one time unit, and the Gantt
//! chart records the tick.
use vstd::prelude::*;
use crate::simulation::{
    Process,
    ProcessState,
    AlgorithmType,
    GanttBlock,
    SimulationState,
    find_proc,
    find_process,
};
use crate::scheduler::{Scheduler, scheduler_for, get_scheduler};

verus! {

/// `p` after the arrival check at time `t`.
pub open spec fn arrive(p: Process, t: i32) -> Process {
    if p.state == ProcessState::Waiting && p.arrival_time <= t {
        Process { state: ProcessState::Ready, ..p }
    } else {
        p
    }
}

pub open spec fn arrivals(ps: Seq<Process>, t: i32) -> Seq<Process> {
    ps.map_values(|p: Process| arrive(p, t))
}

/// Ids of the processes that arrive at time `t`, in process order.
pub open spec fn newly_ready(ps: Seq<Process>, t: i32) -> Seq<i32>
    decreases ps.len(),
{
    if ps.len() == 0 {
        Seq::empty()
    } else {
        let p = ps.last();
        newly_ready(ps.drop_last(), t) + if p.state == ProcessState::Waiting && p.arrival_time
            <= t {
            seq![p.id]
        } else {
            Seq::empty()
        }
    }
}

/// `q` with each of `ids` appended unless already present.
pub open spec fn enqueue_all(q: Seq<i32>, ids: Seq<i32>) -> Seq<i32>
    decreases ids.len(),
{
    if ids.len() == 0 {
        q
    } else {
        let r = enqueue_all(q, ids.drop_last());
        if r.contains(ids.last()) {
            r
        } else {
            r.push(ids.last())
        }
    }
}

/// Ready queue, running process and remaining quantum after the
/// preemption check.
pub open spec fn after_preempt(
    algo: AlgorithmType,
    ps: Seq<Process>,
    queue: Seq<i32>,
    running: Option<i32>,
    quantum: i32,
) -> (Seq<i32>, Option<i32>, i32) {
    let s = scheduler_for(algo);
    match running {
        None => (queue, None, quantum),
        Some(a) => if algo == AlgorithmType::RR {
            let q2 = (quantum - 1) as i32;
            match find_proc(ps, a) {
                Some(k) => if s.preempts(ps[k], queue, ps, q2) && ps[k].state
                    != ProcessState::Completed {
                    (queue.push(a), None, q2)
                } else {
                    (queue, Some(a), q2)
                },
                None => (queue, Some(a), q2),
            }
        } else {
            match find_proc(ps, a) {
                Some(k) => if s.preempts(ps[k], queue, ps, quantum) {
                    (if queue.contains(a) { queue } else { queue.push(a) }, None, quantum)
                } else {
                    (queue, Some(a), quantum)
                },
                None => (queue, Some(a), quantum),
            }
        },
    }
}

/// First index of `x` in `q` at or after `i`.
pub open spec fn index_from(q: Seq<i32>, x: i32, i: int) -> Option<int>
    decreases q.len() - i,
{
    if i < 0 || i >= q.len() {
        None
    } else if q[i] == x {
        Some(i)
    } else {
        index_from(q, x, i + 1)
    }
}

/// `q` without the first occurrence of `x`.
pub open spec fn remove_first(q: Seq<i32>, x: i32) -> Seq<i32> {
    match index_from(q, x, 0) {
        Some(i) => q.remove(i),
        None => q,
    }
}

/// Ready queue, running process and remaining quantum after a free CPU
/// takes the policy's pick.
pub open spec fn after_select(
    algo: AlgorithmType,
    ps: Seq<Process>,
    queue: Seq<i32>,
    running: Option<i32>,
    quantum: i32,
    time_quantum: i32,
) -> (Seq<i32>, Option<i32>, i32) {
    if running is None && queue.len() > 0 {
        match scheduler_for(algo).pick(queue, ps) {
            Some(n) => (
                remove_first(queue, n),
                Some(n),
                if algo == AlgorithmType::RR {
                    (time_quantum - 1) as i32
                } else {
                    quantum
                },
            ),
            None => (queue, running, quantum),
        }
    } else {
        (queue, running, quantum)
    }
}

/// `p` after running for one time unit starting at `t`.
pub open spec fn executed(p: Process, t: i32) -> Process {
    let started = if p.start_time is None {
        Some(t)
    } else {
        p.start_time
    };
    if p.remaining_time - 1 <= 0 {
        let finish = t + 1;
        let tat = finish - p.arrival_time;
        Process {
            state: ProcessState::Completed,
            remaining_time: 0,
            completion_time: Some(finish as i32),
            turnaround_time: tat as i32,
            waiting_time: (tat - p.burst_time) as i32,
            start_time: started,
            ..p
        }
    } else {
        Process {
            state: ProcessState::Running,
            remaining_time: (p.remaining_time - 1) as i32,
            start_time: started,
            ..p
        }
    }
}

/// Processes, completed ids and running process after the execution step.
pub open spec fn after_execute(ps: Seq<Process>, completed: Seq<i32>, running: Option<i32>, t: i32) -> (
    Seq<Process>,
    Seq<i32>,
    Option<i32>,
) {
    match running {
        None => (ps, completed, None),
        Some(a) => match find_proc(ps, a) {
            None => (ps, completed, Some(a)),
            Some(k) => {
                let p2 = executed(ps[k], t);
                if p2.state == ProcessState::Completed {
                    (
                        ps.update(k, p2),
                        if completed.contains(p2.id) { completed } else { completed.push(p2.id) },
                        None,
                    )
                } else {
                    (ps.update(k, p2), completed, Some(a))
                }
            },
        },
    }
}

/// `p` marked ready where it waits in the queue and is not running.
pub open spec fn refreshed(p: Process, running: Option<i32>, queue: Seq<i32>) -> Process {
    if running != Some(p.id) && queue.contains(p.id) {
        Process { state: ProcessState::Ready, ..p }
    } else {
        p
    }
}

pub open spec fn refresh_all(ps: Seq<Process>, running: Option<i32>, queue: Seq<i32>) -> Seq<Process> {
    ps.map_values(|p: Process| refreshed(p, running, queue))
}

/// The chart with tick `t` given to `pid`: the last block grows where it
/// is `pid`'s and ends at `t`, else a new block is added.
pub open spec fn extend_chart(chart: Seq<GanttBlock>, pid: Option<i32>, t: i32) -> Seq<GanttBlock> {
    if chart.len() > 0 && chart.last().process_id == pid && chart.last().end_time == t {
        chart.update(chart.len() - 1, GanttBlock { end_time: (t + 1) as i32, ..chart.last() })
    } else {
        chart.push(GanttBlock { process_id: pid, start_time: t, end_time: (t + 1) as i32 })
    }
}

/// The chart after tick `t`: the tick goes to the process that ran, or to
/// idle time while some process is not yet complete.
pub open spec fn after_gantt(chart: Seq<GanttBlock>, runner: Option<i32>, ps: Seq<Process>, t: i32) -> Seq<
    GanttBlock,
> {
    match runner {
        Some(r) => extend_chart(chart, Some(r), t),
        None => if exists|i: int| 0 <= i < ps.len() && ps[i].state != ProcessState::Completed {
            extend_chart(chart, None, t)
        } else {
            chart
        },
    }
}

/// The arithmetic of a tick stays within `i32`.
pub open spec fn tick_in_range(s: SimulationState) -> bool {
    &&& s.current_time < i32::MAX
    &&& (s.algorithm == AlgorithmType::RR ==> s.quantum_remaining > i32::MIN && s.time_quantum
        > i32::MIN)
    &&& forall|i: int|
        0 <= i < s.processes@.len() ==> {
            let p = #[trigger] s.processes@[i];
            &&& p.remaining_time > i32::MIN
            &&& i32::MIN <= s.current_time + 1 - p.arrival_time <= i32::MAX
            &&& i32::MIN <= s.current_time + 1 - p.arrival_time - p.burst_time <= i32::MAX
        }
}

/// Whether a tick of `s` stays within `i32`, as `next_tick` requires.
pub fn tick_fits(s: &SimulationState) -> (r: bool)
    ensures
        r == tick_in_range(*s),
{
    if s.current_time == i32::MAX {
        return false;
    }
    if s.algorithm == AlgorithmType::RR && (s.quantum_remaining == i32::MIN || s.time_quantum
        == i32::MIN) {
        return false;
    }
    let t = s.current_time as i64 + 1;
    let mut i: usize = 0;
    while i < s.processes.len()
        invariant
            i <= s.processes@.len(),
            t == s.current_time + 1,
            s.current_time < i32::MAX,
            s.algorithm == AlgorithmType::RR ==> s.quantum_remaining > i32::MIN && s.time_quantum
                > i32::MIN,
            forall|j: int|
                0 <= j < i ==> {
                    let p = #[trigger] s.processes@[j];
                    &&& p.remaining_time > i32::MIN
                    &&& i32::MIN <= s.current_time + 1 - p.arrival_time <= i32::MAX
                    &&& i32::MIN <= s.current_time + 1 - p.arrival_time - p.burst_time
                        <= i32::MAX
                },
        decreases s.processes@.len() - i,
    {
        let p = &s.processes[i];
        let tat = t - p.arrival_time as i64;
        let wt = tat - p.burst_time as i64;
        if p.remaining_time == i32::MIN || tat < i32::MIN as i64 || tat > i32::MAX as i64 || wt
            < i32::MIN as i64 || wt > i32::MAX as i64 {
            return false;
        }
        i = i + 1;
    }
    true
}

/// Whether `q` holds `x`.
fn contains_id(q: &Vec<i32>, x: i32) -> (r: bool)
    ensures
        r == q@.contains(x),
{
    let mut i: usize = 0;
    while i < q.len()
        invariant
            i <= q@.len(),
            forall|j: int| 0 <= j < i ==> q@[j] != x,
        decreases q@.len() - i,
    {
        if q[i] == x {
            assert(q@[i as int] == x);
            return true;
        }
        i = i + 1;
    }
    false
}

/// Sets the state of process `i`.
fn set_state(ps: &mut Vec<Process>, i: usize, st: ProcessState)
    requires
        i < old(ps)@.len(),
    ensures
        final(ps)@ == old(ps)@.update(i as int, Process { state: st, ..old(ps)@[i as int] }),
{
    let mut p = ps.remove(i);
    p.state = st;
    ps.insert(i, p);
}

/// Marks arrived processes ready and queues them.
fn admit_arrivals(ps: &mut Vec<Process>, queue: &mut Vec<i32>, t: i32)
    ensures
        final(ps)@ == arrivals(old(ps)@, t),
        final(queue)@ == enqueue_all(old(queue)@, newly_ready(old(ps)@, t)),
{
    let ghost ps0 = ps@;
    let mut ids: Vec<i32> = Vec::new();
    let mut i: usize = 0;
    while i < ps.len()
        invariant
            i <= ps@.len(),
            ps@.len() == ps0.len(),
            forall|j: int| 0 <= j < i ==> ps@[j] == arrive(ps0[j], t),
            forall|j: int| i <= j < ps@.len() ==> ps@[j] == ps0[j],
            ids@ == newly_ready(ps0.subrange(0, i as int), t),
        decreases ps0.len() - i,
    {
        assert(ps0.subrange(0, i as int + 1).drop_last() =~= ps0.subrange(0, i as int));
        if ps[i].state == ProcessState::Waiting && ps[i].arrival_time <= t {
            let id = ps[i].id;
            set_state(ps, i, ProcessState::Ready);
            ids.push(id);
        }
        i = i + 1;
    }
    assert(ps@ =~= arrivals(ps0, t));
    assert(ps0.subrange(0, ps0.len() as int) =~= ps0);
    let ghost q0 = queue@;
    let mut k: usize = 0;
    while k < ids.len()
        invariant
            k <= ids@.len(),
            queue@ == enqueue_all(q0, ids@.subrange(0, k as int)),
        decreases ids@.len() - k,
    {
        assert(ids@.subrange(0, k as int + 1).drop_last() =~= ids@.subrange(0, k as int));
        let id = ids[k];
        if !contains_id(queue, id) {
            queue.push(id);
        }
        k = k + 1;
    }
    assert(ids@.subrange(0, ids@.len() as int) =~= ids@);
}

/// Removes the first occurrence of `x` from `q`.
fn remove_first_id(q: &mut Vec<i32>, x: i32)
    ensures
        final(q)@ == remove_first(old(q)@, x),
{
    let mut i: usize = 0;
    while i < q.len()
        invariant
            i <= q@.len(),
            q@ == old(q)@,
            index_from(q@, x, 0) == index_from(q@, x, i as int),
        decreases q@.len() - i,
    {
        if q[i] == x {
            let _ = q.remove(i);
            return;
        }
        i = i + 1;
    }
}

/// Runs process `k` for one time unit starting at `t`.
fn execute_at(ps: &mut Vec<Process>, k: usize, t: i32)
    requires
        k < old(ps)@.len(),
        t < i32::MAX,
        old(ps)@[k as int].remaining_time > i32::MIN,
        i32::MIN <= t + 1 - old(ps)@[k as int].arrival_time <= i32::MAX,
        i32::MIN <= t + 1 - old(ps)@[k as int].arrival_time - old(ps)@[k as int].burst_time
            <= i32::MAX,
    ensures
        final(ps)@ == old(ps)@.update(k as int, executed(old(ps)@[k as int], t)),
{
    let mut p = ps.remove(k);
    let next_remaining = p.remaining_time - 1;
    if p.start_time.is_none() {
        p.start_time = Some(t);
    }
    if next_remaining <= 0 {
        let finish_time = t + 1;
        let tat = finish_time - p.arrival_time;
        let wt = tat - p.burst_time;
        p.state = ProcessState::Completed;
        p.remaining_time = 0;
        p.completion_time = Some(finish_time);
        p.turnaround_time = tat;
        p.waiting_time = wt;
    } else {
        p.state = ProcessState::Running;
        p.remaining_time = next_remaining;
    }
    ps.insert(k, p);
}

/// Records tick `t` for `pid` in the chart.
fn extend_gantt(chart: &mut Vec<GanttBlock>, pid: Option<i32>, t: i32)
    requires
        t < i32::MAX,
    ensures
        final(chart)@ == extend_chart(old(chart)@, pid, t),
{
    let n = chart.len();
    if n > 0 {
        let last = chart[n - 1];
        if last.process_id == pid && last.end_time == t {
            chart.set(n - 1, GanttBlock { end_time: t + 1, ..last });
            return;
        }
    }
    chart.push(GanttBlock { process_id: pid, start_time: t, end_time: t + 1 });
}

/// Advances the simulation by one time unit.
pub fn next_tick(state: SimulationState) -> (r: SimulationState)
    requires
        tick_in_range(state),
    ensures
        ({
            let t = state.current_time;
            let ps1 = arrivals(state.processes@, t);
            let q1 = enqueue_all(state.ready_queue@, newly_ready(state.processes@, t));
            let pre = after_preempt(
                state.algorithm,
                ps1,
                q1,
                state.running_process_id,
                state.quantum_remaining,
            );
            let sel = after_select(state.algorithm, ps1, pre.0, pre.1, pre.2, state.time_quantum);
            let ex = after_execute(ps1, state.completed_process_ids@, sel.1, t);
            let ps4 = refresh_all(ex.0, ex.2, sel.0);
            &&& r.current_time == t + 1
            &&& r.processes@ == ps4
            &&& r.ready_queue@ == sel.0
            &&& r.running_process_id == ex.2
            &&& r.completed_process_ids@ == ex.1
            &&& r.gantt_chart@ == after_gantt(state.gantt_chart@, sel.1, ps4, t)
            &&& r.algorithm == state.algorithm
            &&& r.time_quantum == state.time_quantum
            &&& r.quantum_remaining == sel.2
            &&& r.is_playing == state.is_playing
            &&& r.speed == state.speed
        }),
{
    let current_time = state.current_time;
    let ghost ps0 = state.processes@;
    let mut processes = state.processes;
    let mut ready_queue = state.ready_queue;
    let mut running_process_id = state.running_process_id;
    let mut completed_process_ids = state.completed_process_ids;
    let mut gantt_chart = state.gantt_chart;
    let algorithm = state.algorithm;
    let time_quantum = state.time_quantum;
    let mut quantum_remaining = state.quantum_remaining;

    // Arrivals.
    admit_arrivals(&mut processes, &mut ready_queue, current_time);
    let ghost ps1 = processes@;
    assert forall|i: int| 0 <= i < ps1.len() implies ps1[i].id == ps0[i].id && ps1[i].arrival_time
        == ps0[i].arrival_time && ps1[i].burst_time == ps0[i].burst_time && ps1[i].remaining_time
        == ps0[i].remaining_time by {
        assert(ps1[i] == arrive(ps0[i], current_time));
    }
    let ghost q1 = ready_queue@;

    // Preemption.
    let scheduler = get_scheduler(algorithm);
    match running_process_id {
        Some(active_id) => {
            if algorithm == AlgorithmType::RR {
                quantum_remaining = quantum_remaining - 1;
                match find_process(processes.as_slice(), active_id) {
                    Some(k) => {
                        if scheduler.should_preempt(
                            &processes[k],
                            ready_queue.as_slice(),
                            processes.as_slice(),
                            quantum_remaining,
                        ) {
                            if processes[k].state != ProcessState::Completed {
                                ready_queue.push(active_id);
                                running_process_id = None;
                            }
                        }
                    },
                    None => {},
                }
            } else {
                match find_process(processes.as_slice(), active_id) {
                    Some(k) => {
                        if scheduler.should_preempt(
                            &processes[k],
                            ready_queue.as_slice(),
                            processes.as_slice(),
                            quantum_remaining,
                        ) {
                            if !contains_id(&ready_queue, active_id) {
                                ready_queue.push(active_id);
                            }
                            running_process_id = None;
                        }
                    },
                    None => {},
                }
            }
        },
        None => {},
    }
    assert((ready_queue@, running_process_id, quantum_remaining) == after_preempt(
        algorithm,
        ps1,
        q1,
        state.running_process_id,
        state.quantum_remaining,
    ));
    let ghost q2 = ready_queue@;
    let ghost run2 = running_process_id;
    let ghost qr2 = quantum_remaining;

    // Selection.
    if running_process_id.is_none() && ready_queue.len() > 0 {
        match scheduler.schedule(ready_queue.as_slice(), processes.as_slice()) {
            Some(next_id) => {
                remove_first_id(&mut ready_queue, next_id);
                running_process_id = Some(next_id);
                if algorithm == AlgorithmType::RR {
                    quantum_remaining = time_quantum - 1;
                }
            },
            None => {},
        }
    }
    assert((ready_queue@, running_process_id, quantum_remaining) == after_select(
        algorithm,
        ps1,
        q2,
        run2,
        qr2,
        time_quantum,
    ));
    let runner_id = running_process_id;

    // Execution.
    match running_process_id {
        Some(active_id) => {
            match find_process(processes.as_slice(), active_id) {
                Some(k) => {
                    proof {
                        assert(ps0[k as int] == state.processes@[k as int]);
                    }
                    execute_at(&mut processes, k, current_time);
                    if processes[k].state == ProcessState::Completed {
                        let id = processes[k].id;
                        if !contains_id(&completed_process_ids, id) {
                            completed_process_ids.push(id);
                        }
                        running_process_id = None;
                    }
                },
                None => {},
            }
        },
        None => {},
    }
    let ghost ps3 = processes@;

    // The queued processes that are not running are ready.
    let mut i: usize = 0;
    while i < processes.len()
        invariant
            i <= processes@.len(),
            processes@.len() == ps3.len(),
            forall|j: int| 0 <= j < i ==> processes@[j] == refreshed(ps3[j], running_process_id, ready_queue@),
            forall|j: int| i <= j < processes@.len() ==> processes@[j] == ps3[j],
        decreases ps3.len() - i,
    {
        let pid = processes[i].id;
        let running_this = match running_process_id {
            Some(r) => r == pid,
            None => false,
        };
        if !running_this && contains_id(&ready_queue, pid) {
            set_state(&mut processes, i, ProcessState::Ready);
        }
        i = i + 1;
    }
    assert(processes@ =~= refresh_all(ps3, running_process_id, ready_queue@));

    // Gantt chart.
    match runner_id {
        Some(rid) => {
            extend_gantt(&mut gantt_chart, Some(rid), current_time);
        },
        None => {
            let mut has_pending = false;
            let mut j: usize = 0;
            while j < processes.len()
                invariant
                    j <= processes@.len(),
                    has_pending == exists|k: int| 0 <= k < j && processes@[k].state != ProcessState::Completed,
                decreases processes@.len() - j,
            {
                if processes[j].state != ProcessState::Completed {
                    has_pending = true;
                }
                j = j + 1;
            }
            if has_pending {
                extend_gantt(&mut gantt_chart, None, current_time);
            }
        },
    }

    SimulationState {
        current_time: current_time + 1,
        processes,
        ready_queue,
        running_process_id,
        completed_process_ids,
        gantt_chart,
        algorithm,
        time_quantum,
        quantum_remaining,
        is_playing: state.is_playing,
        speed: state.speed,
    }
}

} // verus!
