use syscore::engine::next_tick;
use syscore::scheduler::{
    get_scheduler, AnyScheduler, FCFSScheduler, PriorityScheduler, RRScheduler, SJFScheduler,
    SRTFScheduler, Scheduler,
};
use syscore::simulation::{AlgorithmType, GanttBlock, Process, ProcessState, SimulationState};

fn process(id: i32, burst: i32, arrival: i32, priority: i32) -> Process {
    Process {
        id,
        name: format!("P{}", id),
        burst_time: burst,
        arrival_time: arrival,
        priority,
        remaining_time: burst,
        color: "#fff".to_string(),
        state: ProcessState::Waiting,
        start_time: None,
        completion_time: None,
        waiting_time: 0,
        turnaround_time: 0,
    }
}

fn state(algorithm: AlgorithmType, processes: Vec<Process>) -> SimulationState {
    SimulationState {
        current_time: 0,
        processes,
        ready_queue: vec![],
        running_process_id: None,
        completed_process_ids: vec![],
        gantt_chart: vec![],
        algorithm,
        time_quantum: 2,
        quantum_remaining: 0,
        is_playing: true,
        speed: 1,
    }
}

#[test]
fn schedulers_pick() {
    let ps = vec![process(1, 5, 0, 3), process(2, 2, 1, 1), process(3, 2, 0, 2)];
    let queue = [1, 2, 3];
    assert_eq!(FCFSScheduler.schedule(&queue, &ps), Some(1));
    assert_eq!(RRScheduler.schedule(&queue, &ps), Some(1));
    assert_eq!(SJFScheduler.schedule(&queue, &ps), Some(3));
    assert_eq!(SRTFScheduler.schedule(&queue, &ps), Some(3));
    assert_eq!(PriorityScheduler.schedule(&queue, &ps), Some(2));
    assert_eq!(FCFSScheduler.schedule(&[], &ps), None);
    assert_eq!(SJFScheduler.schedule(&[], &ps), None);
}

#[test]
fn unknown_ids_fall_back_to_the_head() {
    let ps = vec![process(1, 5, 0, 3)];
    assert_eq!(SJFScheduler.schedule(&[9, 8], &ps), Some(9));
}

#[test]
fn preemption_rules() {
    let ps = vec![process(1, 5, 0, 3), process(2, 2, 1, 1)];
    let current = process(1, 5, 0, 3);
    assert!(!FCFSScheduler.should_preempt(&current, &[2], &ps, 0));
    assert!(!SJFScheduler.should_preempt(&current, &[2], &ps, 0));
    assert!(SRTFScheduler.should_preempt(&current, &[2], &ps, 0));
    assert!(PriorityScheduler.should_preempt(&current, &[2], &ps, 0));
    assert!(!SRTFScheduler.should_preempt(&current, &[], &ps, 0));
    assert!(RRScheduler.should_preempt(&current, &[], &ps, -1));
    assert!(!RRScheduler.should_preempt(&current, &[], &ps, 0));
}

#[test]
fn scheduler_for_each_algorithm() {
    assert_eq!(get_scheduler(AlgorithmType::FCFS), AnyScheduler::Fcfs);
    assert_eq!(get_scheduler(AlgorithmType::RR), AnyScheduler::Rr);
    assert_eq!(get_scheduler(AlgorithmType::SJF), AnyScheduler::Sjf);
    assert_eq!(get_scheduler(AlgorithmType::SRTF), AnyScheduler::Srtf);
    assert_eq!(get_scheduler(AlgorithmType::PRIORITY), AnyScheduler::Priority);
}

#[test]
fn first_tick_admits_and_runs() {
    let s = next_tick(state(AlgorithmType::FCFS, vec![process(1, 2, 0, 0), process(2, 1, 3, 0)]));
    assert_eq!(s.current_time, 1);
    assert_eq!(s.running_process_id, Some(1));
    assert_eq!(s.processes[0].state, ProcessState::Running);
    assert_eq!(s.processes[0].remaining_time, 1);
    assert_eq!(s.processes[0].start_time, Some(0));
    assert_eq!(s.processes[1].state, ProcessState::Waiting);
    assert!(s.ready_queue.is_empty());
    assert_eq!(s.gantt_chart, vec![GanttBlock { process_id: Some(1), start_time: 0, end_time: 1 }]);
}

#[test]
fn completion_records_statistics() {
    let mut s = state(AlgorithmType::FCFS, vec![process(1, 2, 0, 0)]);
    s = next_tick(s);
    s = next_tick(s);
    let p = &s.processes[0];
    assert_eq!(p.state, ProcessState::Completed);
    assert_eq!(p.completion_time, Some(2));
    assert_eq!(p.turnaround_time, 2);
    assert_eq!(p.waiting_time, 0);
    assert_eq!(s.completed_process_ids, vec![1]);
    assert_eq!(s.running_process_id, None);
    assert_eq!(s.gantt_chart, vec![GanttBlock { process_id: Some(1), start_time: 0, end_time: 2 }]);
    let s = next_tick(s);
    assert_eq!(s.gantt_chart.len(), 1);
    assert_eq!(s.current_time, 3);
}

#[test]
fn idle_cpu_is_charted_while_work_is_pending() {
    let s = next_tick(state(AlgorithmType::FCFS, vec![process(1, 1, 2, 0)]));
    let s = next_tick(s);
    assert_eq!(s.gantt_chart, vec![GanttBlock { process_id: None, start_time: 0, end_time: 2 }]);
    let s = next_tick(s);
    assert_eq!(s.processes[0].state, ProcessState::Completed);
    assert_eq!(s.processes[0].waiting_time, 0);
    assert_eq!(s.gantt_chart.len(), 2);
}

#[test]
fn round_robin_rotates_on_quantum() {
    let mut s = state(AlgorithmType::RR, vec![process(1, 4, 0, 0), process(2, 4, 0, 0)]);
    let mut runners = vec![];
    for _ in 0..6 {
        s = next_tick(s);
        runners.push(s.gantt_chart.last().unwrap().process_id);
    }
    let ids: Vec<i32> = s.gantt_chart.iter().map(|b| b.process_id.unwrap()).collect();
    assert_eq!(ids, vec![1, 2, 1]);
    assert_eq!(s.gantt_chart[0], GanttBlock { process_id: Some(1), start_time: 0, end_time: 2 });
    assert_eq!(runners.len(), 6);
}

#[test]
fn srtf_preempts_for_a_shorter_job() {
    let mut s = state(AlgorithmType::SRTF, vec![process(1, 5, 0, 0), process(2, 1, 1, 0)]);
    s = next_tick(s);
    assert_eq!(s.running_process_id, Some(1));
    s = next_tick(s);
    assert_eq!(s.processes[1].state, ProcessState::Completed);
    assert_eq!(s.processes[0].state, ProcessState::Ready);
    assert_eq!(s.ready_queue, vec![1]);
}
