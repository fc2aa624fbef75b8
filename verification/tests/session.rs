use evm_debugger::session::DebugSession;
use evm_debugger::types::{ChannelMessage, ExecutionResultInfo, SessionState, StepSnapshot};

fn snap(step: u64, depth: usize) -> StepSnapshot {
    StepSnapshot {
        step_number: step,
        pc: (step as usize) * 2,
        opcode: 0x01,
        opcode_name: "ADD".to_string(),
        call_depth: depth,
        gas_remaining: 1000 - step,
        gas_used: step,
        stack: vec![],
        memory_size: 0,
        memory_hex: String::new(),
        memory_truncated: false,
        storage_changes: vec![],
        call_stack: vec![],
        logs: vec![],
        contract_address: "0x00".to_string(),
    }
}

fn result() -> ExecutionResultInfo {
    ExecutionResultInfo { success: true, gas_used: 21000, output: "0x".to_string(), reason: "Stop".to_string() }
}

fn paused_step(s: &SessionState) -> Option<u64> {
    match s {
        SessionState::Paused { snapshot } => Some(snapshot.step_number),
        _ => None,
    }
}

fn is_finished(s: &SessionState) -> bool {
    matches!(s, SessionState::Finished { result } if result.gas_used == 21000)
}

fn depths(ds: &[usize]) -> Vec<StepSnapshot> {
    ds.iter().enumerate().map(|(i, d)| snap(i as u64, *d)).collect()
}

#[test]
fn from_cache_starts_at_first_snapshot() {
    let s = DebugSession::from_cache(depths(&[1, 1, 1]), Some(result()));
    assert_eq!(paused_step(&s.current_state()), Some(0));
    assert!(!s.receiver_pending());
    assert!(!s.abort_flag());
}

#[test]
fn step_into_walks_every_snapshot_then_finishes() {
    let mut s = DebugSession::from_cache(depths(&[1, 2, 1]), Some(result()));
    assert_eq!(paused_step(&s.step_into()), Some(1));
    assert_eq!(paused_step(&s.step_into()), Some(2));
    assert!(is_finished(&s.step_into()));
    // At the end, further steps stay there.
    assert!(is_finished(&s.step_into()));
    assert!(is_finished(&s.step_over()));
    assert!(is_finished(&s.current_state()));
}

#[test]
fn step_over_skips_inner_calls() {
    let mut s = DebugSession::from_cache(depths(&[1, 2, 3, 2, 1, 2, 1]), Some(result()));
    // From depth 1 at step 0, steps 1..=3 are deeper: land on step 4.
    assert_eq!(paused_step(&s.step_over()), Some(4));
    assert_eq!(paused_step(&s.step_over()), Some(6));
    assert!(is_finished(&s.step_over()));
}

#[test]
fn step_over_without_inner_call_is_step_into() {
    let mut s = DebugSession::from_cache(depths(&[2, 2, 1]), Some(result()));
    assert_eq!(paused_step(&s.step_over()), Some(1));
    assert_eq!(paused_step(&s.step_over()), Some(2));
}

#[test]
fn step_over_to_the_end_inside_a_call() {
    let mut s = DebugSession::from_cache(depths(&[1, 2, 2]), None);
    // No result from the replay: past the end the session shows `Aborted`.
    assert!(matches!(s.step_over(), SessionState::Aborted));
}

#[test]
fn continue_jumps_to_the_end() {
    let mut s = DebugSession::from_cache(depths(&[1, 2, 1]), Some(result()));
    assert!(is_finished(&s.continue_exec()));
    assert!(is_finished(&s.step_into()));
    assert!(is_finished(&s.continue_exec()));
}

#[test]
fn abort_marks_the_session() {
    let mut s = DebugSession::from_cache(depths(&[1, 1]), Some(result()));
    s.abort();
    assert!(s.abort_flag());
    assert!(matches!(s.current_state(), SessionState::Aborted));
    assert!(matches!(s.step_into(), SessionState::Aborted));
    assert!(matches!(s.step_over(), SessionState::Aborted));
    assert!(matches!(s.continue_exec(), SessionState::Aborted));
    assert!(s.snapshots_for_cache().is_none());
    assert!(s.get_trace_steps().is_empty());
}

#[test]
fn loading_session_waits() {
    let mut s = DebugSession::new();
    assert!(s.receiver_pending());
    assert!(matches!(s.current_state(), SessionState::Loading));
    assert!(matches!(s.step_into(), SessionState::Loading));
    assert!(s.snapshots_for_cache().is_none());
}

#[test]
fn wait_for_snapshots_pauses_at_first() {
    let mut s = DebugSession::new();
    let st = s.wait_for_snapshots(Some(ChannelMessage::AllSnapshots {
        snapshots: depths(&[1, 2]),
        result: Some(result()),
    }));
    assert_eq!(paused_step(&st), Some(0));
    assert_eq!(paused_step(&s.current_state()), Some(0));
    assert!(!s.receiver_pending());
    let (snaps, res) = s.snapshots_for_cache().unwrap();
    assert_eq!(snaps.len(), 2);
    assert_eq!(res.unwrap().gas_used, 21000);
}

#[test]
fn wait_for_snapshots_without_steps() {
    let mut s = DebugSession::new();
    let st = s.wait_for_snapshots(Some(ChannelMessage::AllSnapshots { snapshots: vec![], result: Some(result()) }));
    assert!(is_finished(&st));
    assert!(is_finished(&s.current_state()));

    let mut s = DebugSession::new();
    let st = s.wait_for_snapshots(Some(ChannelMessage::AllSnapshots { snapshots: vec![], result: None }));
    assert!(matches!(st, SessionState::Error { message } if message == "Execution produced no steps"));
    assert!(matches!(s.current_state(), SessionState::Aborted));
}

#[test]
fn wait_for_snapshots_errors() {
    let mut s = DebugSession::new();
    let st = s.wait_for_snapshots(Some(ChannelMessage::Error("boom".to_string())));
    assert!(matches!(st, SessionState::Error { message } if message == "boom"));
    assert!(matches!(s.current_state(), SessionState::Error { message } if message == "boom"));

    let mut s = DebugSession::new();
    let st = s.wait_for_snapshots(None);
    assert!(matches!(st, SessionState::Error { message } if message == "EVM thread disconnected"));

    // The receiver is consumed once: a second wait changes nothing.
    let st = s.wait_for_snapshots(Some(ChannelMessage::Error("late".to_string())));
    assert!(matches!(st, SessionState::Error { message } if message == "Snapshot receiver already consumed"));
    assert!(matches!(s.current_state(), SessionState::Error { message } if message == "EVM thread disconnected"));
}

#[test]
fn trace_steps_list_every_snapshot() {
    let s = DebugSession::from_cache(depths(&[1, 2, 1]), None);
    let t = s.get_trace_steps();
    assert_eq!(t.len(), 3);
    for (i, e) in t.iter().enumerate() {
        assert_eq!(e.step, i as u64);
        assert_eq!(e.pc, i * 2);
        assert_eq!(e.opcode, 0x01);
        assert_eq!(e.opcode_name, "ADD");
    }
}

#[test]
fn cache_round_trip_survives_navigation() {
    let mut s = DebugSession::from_cache(depths(&[1, 2, 1]), Some(result()));
    s.step_over();
    s.continue_exec();
    let (snaps, res) = s.snapshots_for_cache().unwrap();
    let steps: Vec<u64> = snaps.iter().map(|x| x.step_number).collect();
    assert_eq!(steps, vec![0, 1, 2]);
    assert!(res.is_some());
}

#[test]
fn state_at_past_the_end() {
    let snaps = depths(&[1]);
    assert_eq!(paused_step(&DebugSession::state_at(&snaps, 0, &None)), Some(0));
    assert!(matches!(DebugSession::state_at(&snaps, 1, &None), SessionState::Aborted));
    assert!(is_finished(&DebugSession::state_at(&snaps, 1, &Some(result()))));
}

#[test]
fn abort_while_loading_stays_aborted() {
    let mut s = DebugSession::new();
    s.abort();
    let st = s.wait_for_snapshots(Some(ChannelMessage::AllSnapshots {
        snapshots: depths(&[1, 2]),
        result: Some(result()),
    }));
    assert!(matches!(st, SessionState::Aborted));
    assert!(s.abort_flag());
    assert!(!s.receiver_pending());
    assert!(matches!(s.current_state(), SessionState::Aborted));
    assert!(matches!(s.step_into(), SessionState::Aborted));
    assert!(matches!(s.step_over(), SessionState::Aborted));
    assert!(matches!(s.continue_exec(), SessionState::Aborted));
    assert!(s.snapshots_for_cache().is_none());
}

#[test]
fn aborted_session_without_receiver_reports_consumed() {
    let mut s = DebugSession::from_cache(depths(&[1, 2]), Some(result()));
    s.abort();
    let st = s.wait_for_snapshots(Some(ChannelMessage::AllSnapshots {
        snapshots: depths(&[1]),
        result: None,
    }));
    assert!(matches!(st, SessionState::Error { message } if message == "Snapshot receiver already consumed"));
    assert!(matches!(s.current_state(), SessionState::Aborted));
    assert!(s.snapshots_for_cache().is_none());
}
