use evm_debugger::errors::{format_anyhow_chain, join_error_chain};
use evm_debugger::executor::{execution_result_info, outcome_message, plan_replay, ExecutionEnd};
use evm_debugger::types::{ChannelMessage, StepSnapshot};

#[test]
fn result_info_of_each_end() {
    let r = execution_result_info(ExecutionEnd::Success { gas_used: 5, output: vec![0xca, 0xfe], reason: "Return".to_string() });
    assert!(r.success);
    assert_eq!(r.gas_used, 5);
    assert_eq!(r.output, "0xcafe");
    assert_eq!(r.reason, "Return");
    let r = execution_result_info(ExecutionEnd::Revert { gas_used: 6, output: vec![] });
    assert!(!r.success);
    assert_eq!(r.output, "0x");
    assert_eq!(r.reason, "Revert");
    let r = execution_result_info(ExecutionEnd::Halt { gas_used: 7, reason: "OutOfGas".to_string() });
    assert!(!r.success);
    assert_eq!(r.output, "");
    assert_eq!(r.reason, "OutOfGas");
}

fn one_snapshot() -> StepSnapshot {
    StepSnapshot {
        step_number: 0,
        pc: 0,
        opcode: 0,
        opcode_name: "STOP".to_string(),
        call_depth: 1,
        gas_remaining: 0,
        gas_used: 0,
        stack: vec![],
        memory_size: 0,
        memory_hex: String::new(),
        memory_truncated: false,
        storage_changes: vec![],
        call_stack: vec![],
        logs: vec![],
        contract_address: String::new(),
    }
}

#[test]
fn outcome_messages() {
    let ok = execution_result_info(ExecutionEnd::Halt { gas_used: 1, reason: "x".to_string() });
    match outcome_message(vec![], Ok(ok)) {
        ChannelMessage::AllSnapshots { snapshots, result } => {
            assert!(snapshots.is_empty());
            assert!(result.is_some());
        }
        _ => panic!(),
    }
    match outcome_message(vec![], Err("db error".to_string())) {
        ChannelMessage::Error(m) => assert_eq!(m, "db error"),
        _ => panic!(),
    }
    match outcome_message(vec![one_snapshot()], Err("db error".to_string())) {
        ChannelMessage::AllSnapshots { snapshots, result } => {
            assert_eq!(snapshots.len(), 1);
            assert!(result.is_none());
        }
        _ => panic!(),
    }
}

#[test]
fn error_chain_text() {
    assert_eq!(join_error_chain(&vec![]), "");
    assert_eq!(join_error_chain(&vec!["a".to_string()]), "a");
    assert_eq!(
        join_error_chain(&vec!["a".to_string(), "b".to_string(), "c".to_string()]),
        "a; caused by: b; caused by: c"
    );
    let e = anyhow::Error::msg("root cause").context("fetching transaction").context("create session");
    assert_eq!(format_anyhow_chain(&e), "create session; caused by: fetching transaction; caused by: root cause");
    assert_eq!(format_anyhow_chain(&anyhow::Error::msg("single")), "single");
}

fn tx(caller: &str, to: Option<&str>, value: &str, data: &str) -> evm_debugger::types::CachedTxInfo {
    evm_debugger::types::CachedTxInfo {
        caller: caller.to_string(),
        gas_limit: 21000,
        gas_price: 1,
        max_priority_fee_per_gas: None,
        value: value.to_string(),
        data: data.to_string(),
        nonce: 0,
        to: to.map(String::from),
        chain_id: None,
        block_number: 0,
        block_beneficiary: "not an address".to_string(),
        block_timestamp: 0,
        block_difficulty: "0x0".to_string(),
        block_gas_limit: 0,
        block_basefee: 0,
    }
}

#[test]
fn plan_replay_reads_the_transaction() {
    let caller = format!("0x{}", "Ab".repeat(20));
    let to = format!("0X{}", "01".repeat(20));
    let t = tx(&caller, Some(&to), "0x1_00", "0xdeadBEEF");
    let p = plan_replay("https://rpc.example.com", &t).ok().unwrap();
    assert_eq!(p.caller, [0xab; 20]);
    assert_eq!(p.to, Some([0x01; 20]));
    let mut v = [0u8; 32];
    v[30] = 1;
    assert_eq!(p.value, v);
    assert_eq!(p.data, vec![0xde, 0xad, 0xbe, 0xef]);
    assert_eq!(p.block_beneficiary, [0u8; 20]);
    assert_eq!(p.block_difficulty, [0u8; 32]);
    assert_eq!(p.chain_id, 1);
    assert_eq!(p.state_block, 0);

    let mut t2 = tx(&caller, None, "zz", "0x123");
    t2.chain_id = Some(10);
    t2.block_number = 100;
    let p = plan_replay("http://a.b", &t2).ok().unwrap();
    assert_eq!(p.to, None);
    assert_eq!(p.value, [0u8; 32]);
    assert!(p.data.is_empty());
    assert_eq!(p.chain_id, 10);
    assert_eq!(p.state_block, 99);
}

#[test]
fn plan_replay_refusals() {
    let caller = format!("0x{}", "ab".repeat(20));
    assert_eq!(plan_replay("nope", &tx(&caller, None, "0x0", "0x")).err().unwrap(), "Invalid RPC URL: nope");
    assert_eq!(
        plan_replay("http://a.b", &tx("0x12", None, "0x0", "0x")).err().unwrap(),
        "Invalid caller address: 0x12"
    );
    assert_eq!(
        plan_replay("http://a.b", &tx(&caller, Some("0xzz"), "0x0", "0x")).err().unwrap(),
        "Invalid to address: 0xzz"
    );
}
