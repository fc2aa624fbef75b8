use evm_debugger::inspector::{
    opcode_name, opcode_name_from_mnemonic, parse_usize, CallKind, StepDebugInspector,
};

#[test]
fn encode_memory_hex_truncates() {
    let bytes = vec![0u8; 10];
    let (hex, truncated) = StepDebugInspector::encode_memory_hex(&bytes, 4);
    assert_eq!(hex.len(), 8);
    assert!(truncated);
}

#[test]
fn encode_memory_hex_no_truncate() {
    let bytes = vec![1u8, 2u8];
    let (hex, truncated) = StepDebugInspector::encode_memory_hex(&bytes, 4);
    assert_eq!(hex, "0102");
    assert!(!truncated);
}

#[test]
fn encode_memory_hex_empty_and_exact() {
    assert_eq!(StepDebugInspector::encode_memory_hex(&[], 4), (String::new(), false));
    assert_eq!(StepDebugInspector::encode_memory_hex(&[0xab, 0xcd], 2), ("abcd".to_string(), false));
    assert_eq!(StepDebugInspector::encode_memory_hex(&[0xab, 0xcd], 0), (String::new(), true));
}

#[test]
fn opcode_names() {
    assert_eq!(opcode_name(0x01), "ADD");
    assert_eq!(opcode_name(0x55), "SSTORE");
    assert_eq!(opcode_name(0x00), "STOP");
    assert_eq!(opcode_name(0x0c), "0x0c");
}

#[test]
fn memory_limit_setting() {
    assert_eq!(parse_usize("4096"), Some(4096));
    assert_eq!(parse_usize("+12"), Some(12));
    assert_eq!(parse_usize(""), None);
    assert_eq!(parse_usize("+"), None);
    assert_eq!(parse_usize("-1"), None);
    assert_eq!(parse_usize(" 1"), None);
    assert_eq!(parse_usize("18446744073709551615"), Some(usize::MAX));
    assert_eq!(parse_usize("18446744073709551616"), None);
    let i = StepDebugInspector::new(Some("16"));
    let (hex, truncated) = StepDebugInspector::encode_memory_hex(&[1u8; 20], 16);
    assert_eq!(hex.len(), 32);
    assert!(truncated);
    drop(i);
}

fn word(last: u8) -> [u8; 32] {
    let mut w = [0u8; 32];
    w[31] = last;
    w
}

#[test]
fn step_records_snapshot_and_sstore() {
    let mut insp = StepDebugInspector::new(Some("2"));
    insp.initialize_interp(100);
    let target = [0x11u8; 20];
    insp.call(1, CallKind::DelegateCall, target, [0x22u8; 20], word(0));
    // SSTORE: key is the top word, value the next.
    let stack = [word(7), word(9)];
    let snap = insp.step(false, 1, 5, 0x55, 60, &stack, &[1, 2, 3]).unwrap();
    assert_eq!(snap.step_number, 0);
    assert_eq!(snap.pc, 5);
    assert_eq!(snap.opcode_name, "SSTORE");
    assert_eq!(snap.gas_used, 40);
    assert_eq!(snap.stack, vec![format!("0x{}09", "0".repeat(62)), format!("0x{}07", "0".repeat(62))]);
    assert_eq!(snap.memory_size, 3);
    assert_eq!(snap.memory_hex, "0102");
    assert!(snap.memory_truncated);
    let contract = format!("0x{}", "11".repeat(20));
    assert_eq!(snap.contract_address, contract);
    assert_eq!(snap.storage_changes.len(), 1);
    assert_eq!(snap.storage_changes[0].contract, contract);
    assert_eq!(snap.storage_changes[0].key, format!("0x{}09", "0".repeat(62)));
    assert_eq!(snap.storage_changes[0].value, format!("0x{}07", "0".repeat(62)));
    assert_eq!(snap.call_stack.len(), 1);
    assert_eq!(snap.call_stack[0].kind, "DELEGATECALL");
    assert_eq!(snap.call_stack[0].caller, format!("0x{}", "22".repeat(20)));
    assert_eq!(snap.call_stack[0].value, "0x0");
    assert_eq!(insp.step_number(), 1);

    // A second write to the same slot replaces its value.
    let snap = insp.step(false, 1, 6, 0x55, 200, &[word(8), word(9)], &[]).unwrap();
    assert_eq!(snap.step_number, 1);
    assert_eq!(snap.gas_used, 0);
    assert_eq!(snap.storage_changes.len(), 1);
    assert_eq!(snap.storage_changes[0].value, format!("0x{}08", "0".repeat(62)));
    assert_eq!(snap.memory_hex, "");
    assert!(!snap.memory_truncated);

    insp.call_end();
    let snap = insp.step(false, 0, 7, 0x55, 50, &[word(1), word(9)], &[]).unwrap();
    assert_eq!(snap.contract_address, format!("0x{}", "0".repeat(40)));
    assert_eq!(snap.storage_changes.len(), 2);
    assert_eq!(snap.call_stack.len(), 0);
}

#[test]
fn aborted_step_records_nothing() {
    let mut insp = StepDebugInspector::new(None);
    assert!(insp.step(true, 0, 0, 0x55, 0, &[word(1), word(2)], &[]).is_none());
    assert_eq!(insp.step_number(), 0);
    let snap = insp.step(false, 0, 0, 0x01, 0, &[], &[]).unwrap();
    assert_eq!(snap.step_number, 0);
    assert!(snap.storage_changes.is_empty());
}

#[test]
fn create_and_log() {
    let mut insp = StepDebugInspector::new(None);
    let mut value = [0u8; 32];
    value[30] = 0x01;
    value[31] = 0x00;
    insp.create(0, [0xabu8; 20], value);
    insp.log_full([0x33u8; 20], &[word(0xfe)], &[0xde, 0xad]);
    let snap = insp.step(false, 1, 0, 0x00, 0, &[], &[]).unwrap();
    assert_eq!(snap.call_stack[0].kind, "CREATE");
    assert_eq!(snap.call_stack[0].contract, format!("0x{}", "0".repeat(40)));
    assert_eq!(snap.call_stack[0].value, "0x100");
    assert_eq!(snap.logs.len(), 1);
    assert_eq!(snap.logs[0].contract, format!("0x{}", "33".repeat(20)));
    assert_eq!(snap.logs[0].topics, vec![format!("0x{}fe", "0".repeat(62))]);
    assert_eq!(snap.logs[0].data, "0xdead");
    insp.create_end();
    insp.create_end();
    let snap = insp.step(false, 0, 0, 0x00, 0, &[], &[]).unwrap();
    assert!(snap.call_stack.is_empty());
}

#[test]
fn call_kinds() {
    let mut insp = StepDebugInspector::new(None);
    insp.call(1, CallKind::Call, [1u8; 20], [2u8; 20], word(5));
    insp.call(2, CallKind::StaticCall, [1u8; 20], [2u8; 20], word(0));
    insp.call(3, CallKind::CallCode, [1u8; 20], [2u8; 20], [0xffu8; 32]);
    let snap = insp.step(false, 3, 0, 0x00, 0, &[], &[]).unwrap();
    let kinds: Vec<&str> = snap.call_stack.iter().map(|f| f.kind.as_str()).collect();
    assert_eq!(kinds, vec!["CALL", "STATICCALL", "CALLCODE"]);
    assert_eq!(snap.call_stack[0].value, "0x5");
    assert_eq!(snap.call_stack[2].value, format!("0x{}", "f".repeat(64)));
    assert_eq!(snap.call_stack[2].depth, 3);
}

#[test]
fn opcode_name_fallback_from_mnemonic() {
    assert_eq!(opcode_name_from_mnemonic(0x01, Some("ADD".to_string())), "ADD");
    assert_eq!(opcode_name_from_mnemonic(0x0c, None), "0x0c");
    assert_eq!(opcode_name_from_mnemonic(0xef, None), "0xef");
    assert_eq!(opcode_name(0x0c), "0x0c");
}
