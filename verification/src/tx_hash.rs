//! Transaction hashes: their canonical text and where a fetched transaction is
//! cached on disk.
use crate::text::{
    ascii_lower, is_whitespace, trim_end_spec, trim_start_spec, hex_digit, hex_value, is_hex_char, lower_hex, lowercase_spec, push_str,
    starts_with, starts_with_spec, trim, trim_spec,
};
use crate::executor::prefixed_output;
use crate::inspector::{format_address, format_u256, minimal_hex};
use crate::types::CachedTxInfo;
use vstd::prelude::*;
use vstd::string::*;

verus! {

/// The text after a leading `0x` or `0X`, or the whole text when it has none.
pub open spec fn strip_hex_prefix(s: Seq<char>) -> Seq<char> {
    if s.len() >= 2 && s[0] == '0' && (s[1] == 'x' || s[1] == 'X') {
        s.subrange(2, s.len() as int)
    } else {
        s
    }
}

/// Whether `s` holds exactly 64 hexadecimal digits.
pub open spec fn is_hex64(s: Seq<char>) -> bool {
    s.len() == 64 && forall|i: int| 0 <= i < s.len() ==> is_hex_char(#[trigger] s[i])
}

/// The bytes that pairs of hexadecimal digits stand for.
pub open spec fn hex_bytes(s: Seq<char>) -> Seq<u8> {
    Seq::new(
        s.len() / 2,
        |i: int| (hex_value(s[2 * i]) * 16 + hex_value(s[2 * i + 1])) as u8,
    )
}

/// The 32 bytes that `B256::from_str` reads from a text: an optional `0x` or
/// `0X` prefix, then 64 hexadecimal digits of either case.
pub open spec fn b256_from_hex(s: Seq<char>) -> Option<Seq<u8>> {
    if is_hex64(strip_hex_prefix(s)) {
        Some(hex_bytes(strip_hex_prefix(s)))
    } else {
        None
    }
}

/// Calls `alloy_primitives::B256::from_str`. Claimed: it succeeds exactly on
/// an optional `0x`/`0X` prefix followed by 64 hexadecimal digits, and gives
/// the bytes those digits stand for.
#[verifier::external_body]
fn parse_b256(s: &str) -> (r: Option<[u8; 32]>)
    ensures
        match r {
            Some(a) => b256_from_hex(s@) == Some(a@),
            None => b256_from_hex(s@) is None,
        },
{
    match s.parse::<alloy_primitives::B256>() {
        Ok(h) => Some(h.0),
        Err(_) => None,
    }
}

/// `0x` followed by the lower-case hexadecimal digits of the bytes.
pub open spec fn prefixed_hex(bytes: Seq<u8>) -> Seq<char> {
    seq!['0', 'x'] + lower_hex(bytes)
}

/// Calls the `{:#x}` formatting of `alloy_primitives::B256`. Claimed: `0x`
/// and two lower-case hexadecimal digits per byte.
#[verifier::external_body]
pub(crate) fn format_b256(bytes: [u8; 32]) -> (r: String)
    ensures
        r@ == prefixed_hex(bytes@),
{
    format!("{:#x}", alloy_primitives::B256::from(bytes))
}

proof fn lemma_hex_pair(c: char, d: char)
    requires
        is_hex_char(c),
        is_hex_char(d),
    ensures
        ({
            let b = (hex_value(c) * 16 + hex_value(d)) as u8;
            &&& hex_digit(b as int / 16) == ascii_lower(c)
            &&& hex_digit(b as int % 16) == ascii_lower(d)
        }),
{
    let hc = hex_value(c);
    let hd = hex_value(d);
    assert(0 <= hc < 16 && 0 <= hd < 16);
    let v = hc * 16 + hd;
    assert(0 <= v < 256) by (nonlinear_arith)
        requires
            0 <= hc < 16,
            0 <= hd < 16,
            v == hc * 16 + hd,
    ;
    assert(v / 16 == hc && v % 16 == hd) by (nonlinear_arith)
        requires
            0 <= hc < 16,
            0 <= hd < 16,
            v == hc * 16 + hd,
    ;
}

/// Re-encoding the bytes that 64 hexadecimal digits stand for gives the
/// digits back in lower case.
proof fn lemma_hex_round_trip(body: Seq<char>)
    requires
        is_hex64(body),
    ensures
        lower_hex(hex_bytes(body)) == lowercase_spec(body),
{
    let b = hex_bytes(body);
    assert forall|k: int| 0 <= k < 64 implies #[trigger] lower_hex(b)[k] == lowercase_spec(
        body,
    )[k] by {
        let i = k / 2;
        assert(0 <= i < 32);
        assert(body[2 * i] == body[2 * i]);
        lemma_hex_pair(body[2 * i], body[2 * i + 1]);
        if k % 2 == 0 {
            assert(k == 2 * i);
        } else {
            assert(k == 2 * i + 1);
        }
    }
    assert(lower_hex(b) =~= lowercase_spec(body));
}

/// The canonical text of a transaction hash: surrounding whitespace removed,
/// an optional `0x`/`0X` prefix, then 64 hexadecimal digits; written as `0x`
/// and the digits in lower case. `None` when the text is no hash.
pub open spec fn canonical_tx_hash(s: Seq<char>) -> Option<Seq<char>> {
    let body = strip_hex_prefix(trim_spec(s));
    if is_hex64(body) {
        Some(seq!['0', 'x'] + lowercase_spec(body))
    } else {
        None
    }
}

/// Why a transaction hash was refused.
pub enum TxHashError {
    /// The text is no transaction hash.
    InvalidTxHash,
    /// The given text could not be read as a transaction hash.
    ParseTxHash { input: String },
}

impl TxHashError {
    /// The text of the error.
    pub fn message(&self) -> (r: String)
        ensures
            match self {
                TxHashError::InvalidTxHash => r@ == "invalid tx hash"@,
                TxHashError::ParseTxHash { input } => r@ == "parsing tx hash: "@ + input@,
            },
    {
        match self {
            TxHashError::InvalidTxHash => String::from_str("invalid tx hash"),
            TxHashError::ParseTxHash { input } => {
                let mut r = String::from_str("parsing tx hash: ");
                push_str(&mut r, input.as_str());
                r
            },
        }
    }
}

/// The text with a leading `0x`, else a leading `0X`, removed once.
fn strip_one_prefix(s: &str) -> (r: &str)
    ensures
        r@ == strip_hex_prefix(s@),
{
    let n = s.unicode_len();
    if n >= 2 && s.get_char(0) == '0' && (s.get_char(1) == 'x' || s.get_char(1) == 'X') {
        s.substring_char(2, n)
    } else {
        s
    }
}

/// The canonical form of a transaction hash given by a client.
pub fn canonicalize_tx_hash(tx_hash: &str) -> (r: Result<String, TxHashError>)
    ensures
        match canonical_tx_hash(tx_hash@) {
            Some(c) => r matches Ok(s) && s@ == c,
            None => r matches Err(TxHashError::InvalidTxHash),
        },
{
    let trimmed = trim(tx_hash);
    let h = match parse_b256(trimmed) {
        Some(h) => h,
        None => {
            let stripped = strip_one_prefix(trimmed);
            let mut with_prefix = String::from_str("0x");
            push_str(&mut with_prefix, stripped);
            proof {
                reveal_strlit("0x");
                assert(strip_hex_prefix(with_prefix@) =~= strip_hex_prefix(trimmed@));
            }
            match parse_b256(with_prefix.as_str()) {
                Some(h) => h,
                None => return Err(TxHashError::InvalidTxHash),
            }
        },
    };
    proof {
        lemma_hex_round_trip(strip_hex_prefix(trimmed@));
    }
    Ok(format_b256(h))
}

/// Where a fetched transaction is cached, for a hash as a client gave it.
pub struct TxCachePlan {
    /// `0x` and the 64 lower-case digits of the hash.
    pub canonical_hash: String,
    /// `cache/<canonical hash>.json`.
    pub cache_path: String,
    /// `cache/<hash as given, trimmed>.json`, where older versions cached it.
    pub legacy_cache_path: String,
}

/// The text `fetch_tx_info` reads a hash from: the trimmed text, with `0x` put
/// in front unless it starts with `0x` or `0X`.
pub open spec fn prefixed_input(t: Seq<char>) -> Seq<char> {
    if starts_with_spec(t, "0x"@) || starts_with_spec(t, "0X"@) {
        t
    } else {
        "0x"@ + t
    }
}

/// `cache/<name>.json`.
pub open spec fn cache_file(name: Seq<char>) -> Seq<char> {
    "cache/"@ + name + ".json"@
}

/// The cache locations of a transaction, or `None` when the hash cannot be
/// read.
pub open spec fn tx_cache_plan_spec(tx_hash: Seq<char>) -> Option<(Seq<char>, Seq<char>, Seq<char>)> {
    match b256_from_hex(prefixed_input(trim_spec(tx_hash))) {
        Some(bytes) => Some(
            (
                prefixed_hex(bytes),
                cache_file(prefixed_hex(bytes)),
                cache_file(trim_spec(tx_hash)),
            ),
        ),
        None => None,
    }
}

fn cache_file_path(name: &str) -> (r: String)
    ensures
        r@ == cache_file(name@),
{
    let mut r = String::from_str("cache/");
    push_str(&mut r, name);
    push_str(&mut r, ".json");
    r
}

/// Reads the hash and names its cache files.
pub fn plan_tx_cache(tx_hash: &str) -> (r: Result<TxCachePlan, TxHashError>)
    ensures
        match tx_cache_plan_spec(tx_hash@) {
            Some((c, p, l)) => r matches Ok(plan) && plan.canonical_hash@ == c && plan.cache_path@
                == p && plan.legacy_cache_path@ == l,
            None => r matches Err(TxHashError::ParseTxHash { input }) && input@ == tx_hash@,
        },
{
    let raw = trim(tx_hash);
    let normalized = if starts_with(raw, "0x") || starts_with(raw, "0X") {
        String::from_str(raw)
    } else {
        let mut s = String::from_str("0x");
        push_str(&mut s, raw);
        s
    };
    let h = match parse_b256(normalized.as_str()) {
        Some(h) => h,
        None => return Err(TxHashError::ParseTxHash { input: String::from_str(tx_hash) }),
    };
    let canonical_hash = format_b256(h);
    let cache_path = cache_file_path(canonical_hash.as_str());
    let legacy_cache_path = cache_file_path(raw);
    Ok(TxCachePlan { canonical_hash, cache_path, legacy_cache_path })
}

/// Which cached file to read, given which of the two exist: the canonical one
/// first, then the legacy one; and whether its content is to be copied to the
/// canonical location afterwards.
pub open spec fn cache_read_choice(
    cache_path: Seq<char>,
    legacy_path: Seq<char>,
    cache_exists: bool,
    legacy_exists: bool,
) -> Option<(Seq<char>, bool)> {
    if cache_exists {
        Some((cache_path, false))
    } else if legacy_exists {
        Some((legacy_path, legacy_path != cache_path))
    } else {
        None
    }
}

/// The cached file to read, if any, and whether to copy it to the canonical
/// location.
pub fn choose_cache_read(plan: &TxCachePlan, cache_exists: bool, legacy_exists: bool) -> (r: Option<
    (String, bool),
>)
    ensures
        match cache_read_choice(
            plan.cache_path@,
            plan.legacy_cache_path@,
            cache_exists,
            legacy_exists,
        ) {
            Some((p, w)) => r matches Some(x) && x.0@ == p && x.1 == w,
            None => r is None,
        },
{
    if cache_exists {
        Some((plan.cache_path.clone(), false))
    } else if legacy_exists {
        let same = plan.legacy_cache_path == plan.cache_path;
        Some((plan.legacy_cache_path.clone(), !same))
    } else {
        None
    }
}

proof fn lemma_trim_keeps_unpadded(s: Seq<char>)
    requires
        s.len() > 0,
        !is_whitespace(s[0]),
        !is_whitespace(s.last()),
    ensures
        trim_spec(s) == s,
{
    assert(trim_start_spec(s) == s);
    assert(trim_end_spec(s) == s);
}

proof fn lemma_lower_hex_char(c: char)
    requires
        is_hex_char(c),
    ensures
        is_hex_char(ascii_lower(c)),
        ascii_lower(ascii_lower(c)) == ascii_lower(c),
        !is_whitespace(ascii_lower(c)),
{
}

/// Canonicalizing is idempotent: the canonical text of a hash is its own
/// canonical text.
pub proof fn lemma_canonical_idempotent(s: Seq<char>)
    requires
        canonical_tx_hash(s) is Some,
    ensures
        canonical_tx_hash(canonical_tx_hash(s)->0) == canonical_tx_hash(s),
{
    let body = strip_hex_prefix(trim_spec(s));
    let low = lowercase_spec(body);
    let c = seq!['0', 'x'] + low;
    assert forall|i: int| 0 <= i < low.len() implies is_hex_char(#[trigger] low[i])
        && ascii_lower(low[i]) == low[i] && !is_whitespace(low[i]) by {
        lemma_lower_hex_char(body[i]);
    }
    assert(c.last() == low[63]);
    lemma_trim_keeps_unpadded(c);
    assert(strip_hex_prefix(c) =~= low);
    assert(lowercase_spec(low) =~= low);
}

/// The case of the digits and of the prefix, whether there is a prefix, and
/// surrounding whitespace do not change the canonical text.
pub proof fn lemma_canonical_ignores_prefix_and_case(body: Seq<char>)
    requires
        is_hex64(body),
    ensures
        canonical_tx_hash(body) == Some(seq!['0', 'x'] + lowercase_spec(body)),
        canonical_tx_hash(seq!['0', 'x'] + body) == canonical_tx_hash(body),
        canonical_tx_hash(seq!['0', 'X'] + body) == canonical_tx_hash(body),
        canonical_tx_hash(seq![' '] + body + seq!['\n']) == canonical_tx_hash(body),
        canonical_tx_hash(seq!['0', 'x'] + lowercase_spec(body)) == canonical_tx_hash(body),
{
    assert(!is_whitespace(body[0]) && !is_whitespace(body.last()));
    lemma_trim_keeps_unpadded(body);
    let a = seq!['0', 'x'] + body;
    let b = seq!['0', 'X'] + body;
    assert(a.last() == body.last());
    assert(b.last() == body.last());
    lemma_trim_keeps_unpadded(a);
    lemma_trim_keeps_unpadded(b);
    assert(strip_hex_prefix(a) =~= body);
    assert(strip_hex_prefix(b) =~= body);
    let p = seq![' '] + body + seq!['\n'];
    assert(trim_start_spec(p) == trim_start_spec(p.drop_first()));
    assert(p.drop_first() =~= body + seq!['\n']);
    let q = body + seq!['\n'];
    assert(trim_start_spec(q) == q);
    assert(trim_end_spec(q) == trim_end_spec(q.drop_last()));
    assert(q.drop_last() =~= body);
    assert(trim_end_spec(body) == body);
    assert(trim_spec(p) == body);
    lemma_canonical_idempotent(body);
}

/// A text is read as a transaction hash for its cache files exactly when it
/// has a canonical form, and its cache file is then named by that form.
pub proof fn lemma_plan_follows_canonical(s: Seq<char>)
    ensures
        match canonical_tx_hash(s) {
            Some(c) => tx_cache_plan_spec(s) matches Some((h, p, _)) && h == c && p == cache_file(c),
            None => tx_cache_plan_spec(s) is None,
        },
{
    reveal_strlit("0x");
    reveal_strlit("0X");
    let t = trim_spec(s);
    if starts_with_spec(t, "0x"@) {
        assert(t.subrange(0, 2)[1] == t[1]);
    } else if starts_with_spec(t, "0X"@) {
        assert(t.subrange(0, 2)[1] == t[1]);
    } else {
        let p = "0x"@ + t;
        assert(strip_hex_prefix(p) =~= t);
        if t.len() >= 2 && t[0] == '0' && (t[1] == 'x' || t[1] == 'X') {
            if t[1] == 'x' {
                assert(t.subrange(0, 2) =~= "0x"@);
            } else {
                assert(t.subrange(0, 2) =~= "0X"@);
            }
        }
        assert(strip_hex_prefix(t) == t);
    }
    assert(strip_hex_prefix(prefixed_input(t)) == strip_hex_prefix(t));
    if canonical_tx_hash(s) is Some {
        lemma_hex_round_trip(strip_hex_prefix(t));
    }
}

/// The canonical cache file a text names, if it is read as a hash.
pub open spec fn plan_cache_file(s: Seq<char>) -> Option<Seq<char>> {
    match tx_cache_plan_spec(s) {
        Some((_, p, _)) => Some(p),
        None => None,
    }
}

/// The canonical hash a text is read as, if any.
pub open spec fn plan_hash(s: Seq<char>) -> Option<Seq<char>> {
    match tx_cache_plan_spec(s) {
        Some((h, _, _)) => Some(h),
        None => None,
    }
}

/// Every spelling of one transaction hash names the same cache file.
pub proof fn lemma_same_hash_same_cache_file(s1: Seq<char>, s2: Seq<char>)
    requires
        canonical_tx_hash(s1) is Some,
        canonical_tx_hash(s1) == canonical_tx_hash(s2),
    ensures
        tx_cache_plan_spec(s1) is Some,
        tx_cache_plan_spec(s2) is Some,
        plan_cache_file(s1) == plan_cache_file(s2),
        plan_hash(s1) == plan_hash(s2),
{
    lemma_plan_follows_canonical(s1);
    lemma_plan_follows_canonical(s2);
}

/// With or without a `0x`/`0X` prefix, in either letter case and with
/// surrounding whitespace, 64 hexadecimal digits name one cache file.
pub proof fn lemma_cache_file_ignores_spelling(body: Seq<char>)
    requires
        is_hex64(body),
    ensures
        tx_cache_plan_spec(body) matches Some((h, p, _)) && h == seq!['0', 'x'] + lowercase_spec(body)
            && p == cache_file(h),
        plan_cache_file(seq!['0', 'x'] + body) == plan_cache_file(body),
        plan_cache_file(seq!['0', 'X'] + body) == plan_cache_file(body),
        plan_cache_file(seq![' '] + body + seq!['\n']) == plan_cache_file(body),
        plan_cache_file(seq!['0', 'x'] + lowercase_spec(body)) == plan_cache_file(body),
{
    lemma_canonical_ignores_prefix_and_case(body);
    lemma_plan_follows_canonical(body);
    lemma_same_hash_same_cache_file(body, seq!['0', 'x'] + body);
    lemma_same_hash_same_cache_file(body, seq!['0', 'X'] + body);
    lemma_same_hash_same_cache_file(body, seq![' '] + body + seq!['\n']);
    lemma_same_hash_same_cache_file(body, seq!['0', 'x'] + lowercase_spec(body));
}

/// A transaction and its block as the RPC endpoint gives them, as plain
/// values.
pub struct FetchedTx {
    pub signer: [u8; 20],
    pub gas_limit: u64,
    /// The legacy gas price, when the transaction has one.
    pub gas_price: Option<u128>,
    pub max_fee_per_gas: u128,
    pub max_priority_fee_per_gas: Option<u128>,
    pub value: [u8; 32],
    pub input: Vec<u8>,
    pub nonce: u64,
    pub to: Option<[u8; 20]>,
    pub chain_id: Option<u64>,
    pub block_number: u64,
    pub block_beneficiary: [u8; 20],
    pub block_timestamp: u64,
    pub block_difficulty: [u8; 32],
    pub block_gas_limit: u64,
    pub block_base_fee_per_gas: Option<u64>,
}

/// The cached data of a fetched transaction: addresses and quantities as
/// `0x` hex text, the gas price falling back to the maximum fee per gas, and
/// a missing base fee read as zero.
pub open spec fn cached_tx_info_spec(f: FetchedTx, c: CachedTxInfo) -> bool {
    &&& c.caller@ == prefixed_hex(f.signer@)
    &&& c.gas_limit == f.gas_limit
    &&& c.gas_price == match f.gas_price {
        Some(p) => p,
        None => f.max_fee_per_gas,
    }
    &&& c.max_priority_fee_per_gas == f.max_priority_fee_per_gas
    &&& c.value@ == minimal_hex(f.value@)
    &&& c.data@ == "0x"@ + lower_hex(f.input@)
    &&& c.nonce == f.nonce
    &&& match f.to {
        Some(a) => c.to matches Some(t) && t@ == prefixed_hex(a@),
        None => c.to is None,
    }
    &&& c.chain_id == f.chain_id
    &&& c.block_number == f.block_number
    &&& c.block_beneficiary@ == prefixed_hex(f.block_beneficiary@)
    &&& c.block_timestamp == f.block_timestamp
    &&& c.block_difficulty@ == minimal_hex(f.block_difficulty@)
    &&& c.block_gas_limit == f.block_gas_limit
    &&& c.block_basefee == match f.block_base_fee_per_gas {
        Some(b) => b as u128,
        None => 0,
    }
}

/// The data to cache for a fetched transaction.
pub fn cached_tx_info(f: FetchedTx) -> (c: CachedTxInfo)
    ensures
        cached_tx_info_spec(f, c),
{
    let gas_price = match f.gas_price {
        Some(p) => p,
        None => f.max_fee_per_gas,
    };
    let to = match f.to {
        Some(a) => Some(format_address(a)),
        None => None,
    };
    let block_basefee: u128 = match f.block_base_fee_per_gas {
        Some(b) => b as u128,
        None => 0,
    };
    CachedTxInfo {
        caller: format_address(f.signer),
        gas_limit: f.gas_limit,
        gas_price,
        max_priority_fee_per_gas: f.max_priority_fee_per_gas,
        value: format_u256(f.value),
        data: prefixed_output(&f.input),
        nonce: f.nonce,
        to,
        chain_id: f.chain_id,
        block_number: f.block_number,
        block_beneficiary: format_address(f.block_beneficiary),
        block_timestamp: f.block_timestamp,
        block_difficulty: format_u256(f.block_difficulty),
        block_gas_limit: f.block_gas_limit,
        block_basefee,
    }
}

} // verus!
