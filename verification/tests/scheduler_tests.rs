use rsis::basemodel::Model;
use rsis::external::ExternalModel;
use rsis::modellib::{BufferStruct, RuntimeStatus, MSG_UNKNOWN};
use rsis::probe::ProbeModel;
use rsis::rsis::{ModelHandle, NRTScheduler};
use rsis::scheduler::SchedulerState;

fn probe_ticks(sched: &NRTScheduler, thread: usize, index: usize) -> Vec<i64> {
    match sched.get_model(thread, index) {
        Some(Model::Probe(p)) => p.ticks.clone(),
        _ => panic!("expected a probe at that handle"),
    }
}

#[test]
fn single_group_ticks_monotonically() {
    // one group, one every-tick model: five frames record ticks 1..=5
    let mut sched = NRTScheduler::new();
    sched.add_thread(100);
    let h = sched.add_model(Model::Probe(ProbeModel::new()), 0, 1, 0).unwrap();
    assert_eq!(sched.init(), 0);
    sched.pump();
    assert_eq!(sched.get_state(), SchedulerState::INITIALIZED);
    assert_eq!(sched.step(5), 0);
    for _ in 0..5 {
        sched.pump();
    }
    assert_eq!(sched.get_state(), SchedulerState::PAUSED);
    assert_eq!(probe_ticks(&sched, h.thread, h.index), vec![1, 2, 3, 4, 5]);
    assert_eq!(sched.end(), 0);
    sched.pump();
    assert_eq!(sched.get_state(), SchedulerState::ENDED);
}

#[test]
fn divisor_and_offset_shape_the_firing_pattern() {
    // three every-frame/every-2nd/every-3rd-with-offset models over 6 frames
    let mut sched = NRTScheduler::new();
    sched.add_thread(100);
    let a = sched.add_model(Model::Probe(ProbeModel::new()), 0, 1, 0).unwrap();
    let b = sched.add_model(Model::Probe(ProbeModel::new()), 0, 2, 0).unwrap();
    let c = sched.add_model(Model::Probe(ProbeModel::new()), 0, 3, 1).unwrap();
    sched.init();
    sched.pump();
    sched.step(6);
    for _ in 0..6 {
        sched.pump();
    }
    let ta = probe_ticks(&sched, a.thread, a.index);
    let tb = probe_ticks(&sched, b.thread, b.index);
    let tc = probe_ticks(&sched, c.thread, c.index);
    assert_eq!(ta.len(), 6);
    assert_eq!(tb.len(), 3);
    assert_eq!(tc.len(), 2);
    assert_eq!(ta, vec![1, 2, 3, 4, 5, 6]);
    assert_eq!(tb, vec![1, 3, 5]);
    // counter starts at offset % divisor == 1, so the model first fires on
    // the third frame and every third frame after
    assert_eq!(tc, vec![3, 6]);
}

#[test]
fn connection_wires_producer_to_consumer() {
    let mut sched = NRTScheduler::new();
    sched.add_thread(100);
    let out = sched.interface.reserve_region(4);
    let inp = sched.interface.reserve_region(4);
    let mut producer = ProbeModel::new();
    producer.set_write(out, 7u32.to_le_bytes().to_vec());
    sched.add_model(Model::Probe(producer), 0, 1, 0).unwrap();
    assert_eq!(sched.add_connection(out, inp, 4, 0, 1, 0), 0);
    sched.init();
    sched.pump();
    sched.step(1);
    sched.pump();
    assert_eq!(sched.get_state(), SchedulerState::PAUSED);
    let got = u32::from_le_bytes(sched.interface.arena[inp..inp + 4].try_into().unwrap());
    assert_eq!(got, 7);
}

#[test]
fn init_error_makes_the_schedule_errored() {
    let mut sched = NRTScheduler::new();
    sched.add_thread(100);
    let mut bad = ProbeModel::new();
    bad.fail_init();
    let h = sched.add_model(Model::Probe(bad), 0, 1, 0).unwrap();
    sched.init();
    sched.pump();
    assert_eq!(sched.get_state(), SchedulerState::ERRORED);
    // stepping an errored schedule is ignored and no model ever steps
    sched.step(1);
    sched.pump();
    assert_eq!(sched.get_state(), SchedulerState::ERRORED);
    assert!(probe_ticks(&sched, h.thread, h.index).is_empty());
}

#[test]
fn pause_interrupts_a_long_run() {
    let mut sched = NRTScheduler::new();
    sched.add_thread(100);
    let h = sched.add_model(Model::Probe(ProbeModel::new()), 0, 1, 0).unwrap();
    sched.init();
    sched.pump();
    sched.step(1_000_000);
    sched.pump();
    sched.pump();
    sched.pump();
    assert_eq!(sched.get_state(), SchedulerState::RUNNING);
    assert_eq!(sched.pause(), 0);
    sched.pump();
    assert_eq!(sched.get_state(), SchedulerState::PAUSED);
    assert_eq!(probe_ticks(&sched, h.thread, h.index).len(), 3);
    // one more requested frame runs exactly one more step
    sched.step(1);
    sched.pump();
    assert_eq!(sched.get_state(), SchedulerState::PAUSED);
    assert_eq!(probe_ticks(&sched, h.thread, h.index).len(), 4);
    sched.end();
    sched.pump();
    assert_eq!(sched.get_state(), SchedulerState::ENDED);
}

#[test]
fn two_groups_run_in_lockstep() {
    let mut sched = NRTScheduler::new();
    sched.add_thread(100);
    sched.add_thread(50);
    let a = sched.add_model(Model::Probe(ProbeModel::new()), 0, 1, 0).unwrap();
    let b = sched.add_model(Model::Probe(ProbeModel::new()), 1, 1, 0).unwrap();
    sched.init();
    sched.pump();
    sched.step(10);
    for _ in 0..10 {
        sched.pump();
    }
    let ta = probe_ticks(&sched, a.thread, a.index);
    let tb = probe_ticks(&sched, b.thread, b.index);
    // strict lockstep: both groups observe exactly the same ticks
    assert_eq!(ta, (1..=10).collect::<Vec<i64>>());
    assert_eq!(tb, ta);
}

#[test]
fn lifecycle_states_follow_the_chain() {
    let mut sched = NRTScheduler::new();
    let mut trace = vec![sched.get_state()];
    sched.add_thread(100);
    sched.add_model(Model::Probe(ProbeModel::new()), 0, 1, 0).unwrap();
    sched.init();
    trace.push(sched.get_state());
    sched.pump();
    trace.push(sched.get_state());
    sched.step(1);
    trace.push(sched.get_state());
    sched.pump();
    trace.push(sched.get_state());
    sched.end();
    trace.push(sched.get_state());
    sched.pump();
    trace.push(sched.get_state());
    assert_eq!(
        trace,
        vec![
            SchedulerState::CONFIG,
            SchedulerState::INITIALIZING,
            SchedulerState::INITIALIZED,
            SchedulerState::RUNNING,
            SchedulerState::PAUSED,
            SchedulerState::ENDING,
            SchedulerState::ENDED,
        ],
    );
}

#[test]
fn state_ordinals_match_the_abi() {
    assert_eq!(SchedulerState::CONFIG.ordinal(), 0);
    assert_eq!(SchedulerState::INITIALIZING.ordinal(), 1);
    assert_eq!(SchedulerState::INITIALIZED.ordinal(), 2);
    assert_eq!(SchedulerState::RUNNING.ordinal(), 3);
    assert_eq!(SchedulerState::PAUSED.ordinal(), 4);
    assert_eq!(SchedulerState::ENDING.ordinal(), 5);
    assert_eq!(SchedulerState::ENDED.ordinal(), 6);
    assert_eq!(SchedulerState::ERRORED.ordinal(), 7);
}

#[test]
fn step_error_makes_the_schedule_errored() {
    let mut sched = NRTScheduler::new();
    sched.add_thread(100);
    // a probe whose write region lies outside the arena fails its step
    let mut bad = ProbeModel::new();
    bad.set_write(100, vec![1u8]);
    sched.add_model(Model::Probe(bad), 0, 1, 0).unwrap();
    sched.init();
    sched.pump();
    assert_eq!(sched.get_state(), SchedulerState::INITIALIZED);
    sched.step(5);
    sched.pump();
    assert_eq!(sched.get_state(), SchedulerState::ERRORED);
}

#[test]
fn configuration_commands_are_config_only() {
    let mut sched = NRTScheduler::new();
    assert_eq!(sched.get_num_threads(), 0);
    sched.add_thread(100);
    sched.add_thread(200);
    assert_eq!(sched.get_num_threads(), 2);
    // bad arguments are rejected
    assert!(sched.add_model(Model::Probe(ProbeModel::new()), 5, 1, 0).is_none());
    assert!(sched.add_model(Model::Probe(ProbeModel::new()), 0, 0, 0).is_none());
    assert!(sched.add_model(Model::Probe(ProbeModel::new()), 0, 1, -1).is_none());
    let h = sched.add_model(Model::Probe(ProbeModel::new()), 0, 1, 0).unwrap();
    assert_eq!(h, ModelHandle { thread: 0, index: 0 });
    assert_eq!(sched.remove_model(9, 0), 1);
    assert_eq!(sched.remove_model(0, 9), 2);
    assert_eq!(sched.remove_model(0, 0), 0);
    sched.clear_threads();
    assert_eq!(sched.get_num_threads(), 0);
    // once started, configuration is refused
    sched.add_thread(100);
    sched.init();
    sched.pump();
    assert!(sched.add_model(Model::Probe(ProbeModel::new()), 0, 1, 0).is_none());
    assert_eq!(sched.remove_model(0, 0), 3);
}

#[test]
fn commands_before_init_are_refused() {
    let mut sched = NRTScheduler::new();
    sched.add_thread(100);
    assert_eq!(sched.step(1), 2);
    assert_eq!(sched.pause(), 2);
    assert_eq!(sched.end(), 2);
}

#[test]
fn add_connection_rejects_bad_arguments() {
    let mut sched = NRTScheduler::new();
    sched.add_thread(100);
    assert_eq!(sched.add_connection(0, 0, 0, 0, 1, 0), 1);
    assert_eq!(sched.add_connection(0, 4, 4, 9, 1, 0), 2);
    assert_eq!(sched.add_connection(0, 4, 4, 0, 1, 0), 0);
}

#[test]
fn meta_get_reads_a_stored_model() {
    let mut sched = NRTScheduler::new();
    sched.add_thread(100);
    let h = sched.add_model(Model::Probe(ProbeModel::new()), 0, 1, 0).unwrap();
    sched.init();
    sched.pump();
    sched.step(3);
    for _ in 0..3 {
        sched.pump();
    }
    let id = BufferStruct::new("count".as_bytes().to_vec());
    let got = sched.meta_get(h, &id).unwrap();
    assert_eq!(got.bytes, 3u64.to_le_bytes().to_vec());
    let bad = BufferStruct::new("nope".as_bytes().to_vec());
    assert_eq!(sched.meta_get(h, &bad).unwrap_err(), MSG_UNKNOWN);
    let stale = ModelHandle { thread: 4, index: 0 };
    assert_eq!(sched.meta_get(stale, &id).unwrap_err(), MSG_UNKNOWN);
    let data = BufferStruct::new(vec![0u8]);
    assert_eq!(sched.meta_set(h, &id, &data), MSG_UNKNOWN);
}

#[test]
fn config_recognizes_the_soft_real_time_key() {
    let mut sched = NRTScheduler::new();
    assert!(!sched.soft_real_time);
    let key = rmp_serde::encode::to_vec("srt").unwrap();
    assert_eq!(sched.config(&key, &[]), None);
    assert!(sched.soft_real_time);
}

#[test]
fn config_rejects_unknown_keys() {
    let mut sched = NRTScheduler::new();
    let key = rmp_serde::encode::to_vec("nrt").unwrap();
    assert_eq!(sched.config(&key, &[]), Some(1));
    assert!(!sched.soft_real_time);
}

#[test]
fn config_rejects_undecodable_keys() {
    let mut sched = NRTScheduler::new();
    // 0xc1 is never a valid msgpack value, so the key is a bad argument
    assert_eq!(sched.config(&[0xc1], &[]), Some(1));
    assert!(!sched.soft_real_time);
}

#[test]
fn external_model_follows_deposited_outcomes() {
    // the test plays the host: it performs the "foreign calls" and deposits
    // each outcome before the frame that consumes it
    let mut sched = NRTScheduler::new();
    sched.add_thread(100);
    let h = sched.add_model(Model::External(ExternalModel::new(9)), 0, 1, 0).unwrap();
    sched.init();
    sched.pump();
    // the deposited init outcome (the default, OK) let the schedule through
    assert_eq!(sched.get_state(), SchedulerState::INITIALIZED);
    sched.step(3);
    assert!(sched.set_external_status(h.thread, h.index, RuntimeStatus::OK));
    sched.pump();
    assert_eq!(sched.get_state(), SchedulerState::RUNNING);
    // FINISHED is not an error: the run continues
    assert!(sched.set_external_status(h.thread, h.index, RuntimeStatus::FINISHED));
    sched.pump();
    assert_eq!(sched.get_state(), SchedulerState::RUNNING);
    // a deposited ERROR stops the run
    assert!(sched.set_external_status(h.thread, h.index, RuntimeStatus::ERROR));
    sched.pump();
    assert_eq!(sched.get_state(), SchedulerState::ERRORED);
}

#[test]
fn external_init_error_stops_initialization() {
    let mut sched = NRTScheduler::new();
    sched.add_thread(100);
    let h = sched.add_model(Model::External(ExternalModel::new(0)), 0, 1, 0).unwrap();
    sched.init();
    assert!(sched.set_external_status(h.thread, h.index, RuntimeStatus::ERROR));
    sched.pump();
    assert_eq!(sched.get_state(), SchedulerState::ERRORED);
}

#[test]
fn status_deposit_needs_an_external_model() {
    let mut sched = NRTScheduler::new();
    sched.add_thread(100);
    let h = sched.add_model(Model::Probe(ProbeModel::new()), 0, 1, 0).unwrap();
    assert!(!sched.set_external_status(h.thread, h.index, RuntimeStatus::OK));
    assert!(!sched.set_external_status(7, 0, RuntimeStatus::OK));
}

#[test]
fn shutdown_is_honored_from_initialized() {
    let mut sched = NRTScheduler::new();
    sched.add_thread(100);
    sched.add_model(Model::Probe(ProbeModel::new()), 0, 1, 0).unwrap();
    sched.init();
    sched.pump();
    assert_eq!(sched.get_state(), SchedulerState::INITIALIZED);
    assert_eq!(sched.end(), 0);
    assert_eq!(sched.get_state(), SchedulerState::ENDING);
    sched.pump();
    assert_eq!(sched.get_state(), SchedulerState::ENDED);
}

#[test]
fn empty_schedule_still_follows_the_lifecycle() {
    let mut sched = NRTScheduler::new();
    sched.init();
    sched.pump();
    assert_eq!(sched.get_state(), SchedulerState::INITIALIZED);
    sched.step(2);
    sched.pump();
    sched.pump();
    assert_eq!(sched.get_state(), SchedulerState::PAUSED);
    // with one frame per tick, the shared clock advanced once per step
    assert_eq!(sched.interface.get_simtick(), 2);
}

#[test]
fn zero_step_request_pauses_immediately() {
    let mut sched = NRTScheduler::new();
    sched.add_thread(100);
    sched.add_model(Model::Probe(ProbeModel::new()), 0, 1, 0).unwrap();
    sched.init();
    sched.pump();
    sched.step(0);
    assert_eq!(sched.get_state(), SchedulerState::RUNNING);
    sched.pump();
    assert_eq!(sched.get_state(), SchedulerState::PAUSED);
}
