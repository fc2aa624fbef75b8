use evm_debugger::trace_cache::trace_cache_path;
use evm_debugger::tx_hash::{
    cached_tx_info, canonicalize_tx_hash, choose_cache_read, plan_tx_cache, FetchedTx, TxHashError,
};

#[test]
fn canonicalize_tx_hash_accepts_prefix_and_case() {
    let input = format!("  0X{}  ", "A".repeat(64));
    let out = canonicalize_tx_hash(&input).ok().unwrap();
    assert_eq!(out, format!("0x{}", "a".repeat(64)));
}

#[test]
fn canonicalize_tx_hash_adds_prefix() {
    let input = "b".repeat(64);
    let out = canonicalize_tx_hash(&input).ok().unwrap();
    assert_eq!(out, format!("0x{}", "b".repeat(64)));
}

#[test]
fn canonicalize_tx_hash_mixed_digits() {
    let body = "0123456789abcdefABCDEF".repeat(3);
    let body = &body[..64];
    let out = canonicalize_tx_hash(&format!("\t0x{}\n", body)).ok().unwrap();
    assert_eq!(out, format!("0x{}", body.to_ascii_lowercase()));
}

#[test]
fn canonicalize_tx_hash_rejects() {
    for bad in [
        String::new(),
        "0x".to_string(),
        "a".repeat(63),
        "a".repeat(65),
        format!("0x{}g", "a".repeat(63)),
        format!("0x0x{}", "a".repeat(62)),
        format!("x{}", "a".repeat(64)),
    ] {
        match canonicalize_tx_hash(&bad) {
            Err(e) => assert_eq!(e.message(), "invalid tx hash"),
            Ok(s) => panic!("accepted {:?} as {}", bad, s),
        }
    }
}

#[test]
fn plan_tx_cache_paths() {
    let raw = format!("  {}  ", "C".repeat(64));
    let plan = plan_tx_cache(&raw).ok().unwrap();
    assert_eq!(plan.canonical_hash, format!("0x{}", "c".repeat(64)));
    assert_eq!(plan.cache_path, format!("cache/0x{}.json", "c".repeat(64)));
    assert_eq!(plan.legacy_cache_path, format!("cache/{}.json", "C".repeat(64)));
}

#[test]
fn plan_tx_cache_rejects() {
    match plan_tx_cache("0xzz") {
        Err(e @ TxHashError::ParseTxHash { .. }) => assert_eq!(e.message(), "parsing tx hash: 0xzz"),
        _ => panic!("expected a parse error"),
    }
}

#[test]
fn choose_cache_read_order() {
    let plan = plan_tx_cache(&"d".repeat(64)).ok().unwrap();
    let canonical = format!("cache/0x{}.json", "d".repeat(64));
    let legacy = format!("cache/{}.json", "d".repeat(64));
    assert_eq!(choose_cache_read(&plan, true, true), Some((canonical.clone(), false)));
    assert_eq!(choose_cache_read(&plan, false, true), Some((legacy, true)));
    assert_eq!(choose_cache_read(&plan, false, false), None);

    // A hash already in canonical form: the legacy file is the canonical one.
    let plan = plan_tx_cache(&format!("0x{}", "d".repeat(64))).ok().unwrap();
    assert_eq!(choose_cache_read(&plan, false, true), Some((canonical, false)));
}

#[test]
fn trace_cache_path_format() {
    let h = format!(" 0x{} ", "e".repeat(64));
    assert_eq!(
        trace_cache_path(&h, Some(1), 19_000_000),
        format!("cache/trace_1_19000000_{}.json", "e".repeat(64))
    );
    assert_eq!(trace_cache_path("0x0xab", None, 0), "cache/trace_unknown_0_ab.json");
    assert_eq!(trace_cache_path("ab", Some(u64::MAX), 7), "cache/trace_18446744073709551615_7_ab.json");
}

#[test]
fn canonicalize_tx_hash_is_idempotent() {
    let once = canonicalize_tx_hash(&format!(" 0X{} ", "Ab".repeat(32))).ok().unwrap();
    let twice = canonicalize_tx_hash(&once).ok().unwrap();
    assert_eq!(once, twice);
    assert_eq!(once, format!("0x{}", "ab".repeat(32)));
}

#[test]
fn every_spelling_of_a_hash_shares_one_cache_file() {
    let lower = "ab".repeat(32);
    let upper = "AB".repeat(32);
    let expected = format!("cache/0x{}.json", lower);
    for raw in [
        lower.clone(),
        upper.clone(),
        format!("0x{}", upper),
        format!("0X{}", lower),
        format!("  0x{}\t", lower),
        format!(" {} ", upper),
    ] {
        let plan = plan_tx_cache(&raw).ok().unwrap();
        assert_eq!(plan.cache_path, expected, "spelling {:?}", raw);
        assert_eq!(plan.canonical_hash, format!("0x{}", lower));
    }
    let other = plan_tx_cache(&"ac".repeat(32)).ok().unwrap();
    assert_ne!(other.cache_path, expected);
}

#[test]
fn trace_cache_path_ignores_spelling_and_separates_keys() {
    let h = "0f".repeat(32);
    let base = trace_cache_path(&h, Some(1), 100);
    assert_eq!(base, format!("cache/trace_1_100_{}.json", h));
    assert_eq!(trace_cache_path(&format!(" 0x{} ", h), Some(1), 100), base);
    assert_eq!(trace_cache_path(&format!("0x{}", h), Some(1), 100), base);
    assert_ne!(trace_cache_path(&h, Some(2), 100), base);
    assert_ne!(trace_cache_path(&h, None, 100), base);
    assert_ne!(trace_cache_path(&h, Some(1), 101), base);
    assert_ne!(trace_cache_path(&"1f".repeat(32), Some(1), 100), base);
    // Chain 11 at block 1 and chain 1 at block 11 stay apart.
    assert_ne!(trace_cache_path("ab", Some(11), 1), trace_cache_path("ab", Some(1), 11));
}

fn sample_fetched() -> FetchedTx {
    let mut value = [0u8; 32];
    value[31] = 0x10;
    value[30] = 0x02;
    let mut difficulty = [0u8; 32];
    difficulty[0] = 0x01;
    let mut signer = [0u8; 20];
    signer[0] = 0xAB;
    signer[19] = 0x01;
    FetchedTx {
        signer,
        gas_limit: 21_000,
        gas_price: None,
        max_fee_per_gas: 30_000_000_000,
        max_priority_fee_per_gas: Some(2_000_000_000),
        value,
        input: vec![0xde, 0xad, 0xBE, 0xef],
        nonce: 7,
        to: Some([0x11u8; 20]),
        chain_id: Some(1),
        block_number: 19_000_000,
        block_beneficiary: [0u8; 20],
        block_timestamp: 1_700_000_000,
        block_difficulty: difficulty,
        block_gas_limit: 30_000_000,
        block_base_fee_per_gas: None,
    }
}

#[test]
fn cached_tx_info_formats_and_defaults() {
    let c = cached_tx_info(sample_fetched());
    assert_eq!(c.caller, format!("0xab{}01", "00".repeat(18)));
    assert_eq!(c.gas_limit, 21_000);
    // No legacy gas price: the maximum fee per gas stands in.
    assert_eq!(c.gas_price, 30_000_000_000);
    assert_eq!(c.max_priority_fee_per_gas, Some(2_000_000_000));
    assert_eq!(c.value, "0x210");
    assert_eq!(c.data, "0xdeadbeef");
    assert_eq!(c.nonce, 7);
    assert_eq!(c.to, Some(format!("0x{}", "11".repeat(20))));
    assert_eq!(c.chain_id, Some(1));
    assert_eq!(c.block_number, 19_000_000);
    assert_eq!(c.block_beneficiary, format!("0x{}", "00".repeat(20)));
    assert_eq!(c.block_timestamp, 1_700_000_000);
    assert_eq!(c.block_difficulty, format!("0x1{}", "00".repeat(31)));
    assert_eq!(c.block_gas_limit, 30_000_000);
    // No base fee: zero.
    assert_eq!(c.block_basefee, 0);
}

#[test]
fn cached_tx_info_keeps_given_values() {
    let mut f = sample_fetched();
    f.gas_price = Some(5);
    f.block_base_fee_per_gas = Some(9);
    f.value = [0u8; 32];
    f.input = Vec::new();
    f.to = None;
    let c = cached_tx_info(f);
    assert_eq!(c.gas_price, 5);
    assert_eq!(c.block_basefee, 9);
    assert_eq!(c.value, "0x0");
    assert_eq!(c.data, "0x");
    assert_eq!(c.to, None);
}
