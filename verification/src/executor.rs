//! What the replay reports once the engine has run the transaction.
use crate::rpc_url::{parse_url, parsed_url};
use crate::text::{hex_digit, is_hex_char, lower_hex, push_str};
use crate::trace_cache::{strip_all_0x, strip_all_0x_exec};
use crate::tx_hash::{hex_bytes, strip_hex_prefix};
use crate::types::CachedTxInfo;
use crate::session::{cache_contents, continue_spec, current_state_spec, receive_spec};
use crate::types::{
    snapshots_view, ChannelMessage, ChannelMessageView, ExecutionResultInfo,
    ExecutionResultInfoView, SessionStateView, StepSnapshot, StepSnapshotView,
};
use vstd::prelude::*;
use vstd::string::*;

verus! {

/// Calls `hex::encode`. Claimed: two lower-case hexadecimal digits per byte,
/// no prefix.
#[verifier::external_body]
pub(crate) fn encode_hex(bytes: &[u8]) -> (r: String)
    ensures
        r@ == lower_hex(bytes@),
{
    hex::encode(bytes)
}

/// How the engine ended the transaction.
pub enum ExecutionEnd {
    /// It succeeded; `reason` is the engine's name for how it stopped.
    Success { gas_used: u64, output: Vec<u8>, reason: String },
    /// It reverted with this output.
    Revert { gas_used: u64, output: Vec<u8> },
    /// It halted; `reason` is the engine's name for why.
    Halt { gas_used: u64, reason: String },
}

/// The result shown for an end of execution: output as `0x` and hex digits,
/// `Revert` as the reason of a revert, no output for a halt.
pub open spec fn result_info_spec(end: ExecutionEnd) -> ExecutionResultInfoView {
    match end {
        ExecutionEnd::Success { gas_used, output, reason } => ExecutionResultInfoView {
            success: true,
            gas_used,
            output: "0x"@ + lower_hex(output@),
            reason: reason@,
        },
        ExecutionEnd::Revert { gas_used, output } => ExecutionResultInfoView {
            success: false,
            gas_used,
            output: "0x"@ + lower_hex(output@),
            reason: "Revert"@,
        },
        ExecutionEnd::Halt { gas_used, reason } => ExecutionResultInfoView {
            success: false,
            gas_used,
            output: Seq::empty(),
            reason: reason@,
        },
    }
}

pub(crate) fn prefixed_output(output: &Vec<u8>) -> (r: String)
    ensures
        r@ == "0x"@ + lower_hex(output@),
{
    let mut r = String::from_str("0x");
    let h = encode_hex(output.as_slice());
    push_str(&mut r, h.as_str());
    r
}

/// The result shown for an end of execution.
pub fn execution_result_info(end: ExecutionEnd) -> (r: ExecutionResultInfo)
    ensures
        r@ == result_info_spec(end),
{
    match end {
        ExecutionEnd::Success { gas_used, output, reason } => ExecutionResultInfo {
            success: true,
            gas_used,
            output: prefixed_output(&output),
            reason,
        },
        ExecutionEnd::Revert { gas_used, output } => ExecutionResultInfo {
            success: false,
            gas_used,
            output: prefixed_output(&output),
            reason: String::from_str("Revert"),
        },
        ExecutionEnd::Halt { gas_used, reason } => ExecutionResultInfo {
            success: false,
            gas_used,
            output: String::new(),
            reason,
        },
    }
}

/// The message sent after a run: every snapshot taken, with the result when
/// the engine gave one; when it failed outright, its error alone if no step
/// ran, else the snapshots without a result.
pub open spec fn outcome_message_spec(
    snapshots: Seq<StepSnapshotView>,
    outcome: Result<ExecutionResultInfoView, Seq<char>>,
) -> ChannelMessageView {
    match outcome {
        Ok(r) => ChannelMessageView::AllSnapshots { snapshots, result: Some(r) },
        Err(e) => if snapshots.len() == 0 {
            ChannelMessageView::Error(e)
        } else {
            ChannelMessageView::AllSnapshots { snapshots, result: None }
        },
    }
}

/// The message to send once the engine has run: `outcome` is its result, or
/// the text of its error.
pub fn outcome_message(snapshots: Vec<StepSnapshot>, outcome: Result<ExecutionResultInfo, String>) -> (m:
    ChannelMessage)
    ensures
        m@ == outcome_message_spec(
            snapshots_view(snapshots@),
            match outcome {
                Ok(r) => Ok(r@),
                Err(e) => Err(e@),
            },
        ),
{
    match outcome {
        Ok(r) => ChannelMessage::AllSnapshots { snapshots, result: Some(r) },
        Err(e) => if snapshots.len() == 0 {
            ChannelMessage::Error(e)
        } else {
            ChannelMessage::AllSnapshots { snapshots, result: None }
        },
    }
}

/// What a session shows once the replay's message arrives: a run that took
/// steps pauses at its first snapshot, whether or not the engine gave a
/// result; a run that failed before any step shows the engine's error; a run
/// that took no step but gave a result shows that result.
pub proof fn lemma_replay_reaches_session(
    snapshots: Seq<StepSnapshotView>,
    outcome: Result<ExecutionResultInfoView, Seq<char>>,
)
    ensures
        ({
            let (d, st) = receive_spec(Some(outcome_message_spec(snapshots, outcome)));
            &&& snapshots.len() > 0 ==> st == (SessionStateView::Paused { snapshot: snapshots[0] })
                && current_state_spec(d) == st
            &&& snapshots.len() == 0 && outcome is Err ==> st == (SessionStateView::Error {
                message: outcome->Err_0,
            }) && current_state_spec(d) == st
            &&& snapshots.len() == 0 && outcome is Ok ==> st == (SessionStateView::Finished {
                result: outcome->Ok_0,
            }) && current_state_spec(d) == st
        }),
{
}

/// A successful run and a revert report their output as `0x` followed by two
/// lower-case hexadecimal digits per output byte, high nibble first, in the
/// order of the bytes; a revert is unsuccessful with the reason `Revert`, a
/// success is successful with the engine's reason; a halt is unsuccessful
/// with the engine's reason and no output. All keep the gas used.
pub proof fn lemma_result_output_is_hex(end: ExecutionEnd)
    ensures
        end matches ExecutionEnd::Halt { gas_used, reason } ==> ({
            let r = result_info_spec(end);
            &&& !r.success
            &&& r.gas_used == gas_used
            &&& r.output.len() == 0
            &&& r.reason == reason@
        }),
        !(end is Halt) ==> ({
            let bytes = match end {
                ExecutionEnd::Success { output, .. } => output@,
                ExecutionEnd::Revert { output, .. } => output@,
                ExecutionEnd::Halt { .. } => Seq::empty(),
            };
            let gas = match end {
                ExecutionEnd::Success { gas_used, .. } => gas_used,
                ExecutionEnd::Revert { gas_used, .. } => gas_used,
                ExecutionEnd::Halt { gas_used, .. } => gas_used,
            };
            let r = result_info_spec(end);
            &&& r.output.len() == 2 + 2 * bytes.len()
            &&& r.output[0] == '0' && r.output[1] == 'x'
            &&& forall|i: int|
                0 <= i < bytes.len() ==> r.output[2 + 2 * i] == hex_digit(bytes[i] as int / 16)
                    && r.output[3 + 2 * i] == hex_digit(bytes[i] as int % 16)
            &&& r.gas_used == gas
            &&& (end is Revert ==> !r.success && r.reason == "Revert"@)
            &&& (end matches ExecutionEnd::Success { reason, .. } ==> r.success && r.reason
                == reason@)
        }),
{
    if end is Halt {
        return;
    }
    let bytes = match end {
        ExecutionEnd::Success { output, .. } => output@,
        ExecutionEnd::Revert { output, .. } => output@,
        ExecutionEnd::Halt { .. } => Seq::empty(),
    };
    let r = result_info_spec(end);
    reveal_strlit("0x");
    reveal_strlit("Revert");
    assert forall|i: int| 0 <= i < bytes.len() implies r.output[2 + 2 * i] == hex_digit(
        bytes[i] as int / 16,
    ) && r.output[3 + 2 * i] == hex_digit(bytes[i] as int % 16) by {
        assert((2 * i) / 2 == i && (2 * i) % 2 == 0);
        assert((2 * i + 1) / 2 == i && (2 * i + 1) % 2 == 1);
    }
}

/// When the engine gives a result, the message carries every snapshot and
/// that result, however many snapshots there are: the session built from it
/// hands both to the trace cache, and continuing to the end shows that
/// result. When the engine fails, the snapshots still go with no result, or
/// the error alone when no step ran.
pub proof fn lemma_outcome_keeps_result(
    snapshots: Seq<StepSnapshotView>,
    r: ExecutionResultInfoView,
    e: Seq<char>,
)
    ensures
        outcome_message_spec(snapshots, Ok(r)) == (ChannelMessageView::AllSnapshots {
            snapshots,
            result: Some(r),
        }),
        ({
            let d = receive_spec(Some(outcome_message_spec(snapshots, Ok(r)))).0;
            &&& cache_contents(d) == Some((snapshots, Some(r)))
            &&& current_state_spec(continue_spec(d)) == (SessionStateView::Finished { result: r })
        }),
        snapshots.len() > 0 ==> outcome_message_spec(snapshots, Err(e)) == (
        ChannelMessageView::AllSnapshots { snapshots, result: None }),
        snapshots.len() == 0 ==> outcome_message_spec(snapshots, Err(e)) == ChannelMessageView::Error(
            e,
        ),
{
}

/// Whether every character is a hexadecimal digit.
pub open spec fn all_hex(s: Seq<char>) -> bool {
    forall|i: int| 0 <= i < s.len() ==> is_hex_char(#[trigger] s[i])
}

/// The 20 bytes that `Address::from_str` reads from a text: an optional
/// `0x`/`0X` prefix, then 40 hexadecimal digits of either case.
pub open spec fn address_from_hex(s: Seq<char>) -> Option<Seq<u8>> {
    let body = strip_hex_prefix(s);
    if body.len() == 40 && all_hex(body) {
        Some(hex_bytes(body))
    } else {
        None
    }
}

/// Calls `alloy_primitives::Address::from_str`. Claimed: it succeeds exactly on
/// an optional `0x`/`0X` prefix and 40 hexadecimal digits, giving their bytes.
#[verifier::external_body]
fn parse_address(s: &str) -> (r: Option<[u8; 20]>)
    ensures
        match r {
            Some(a) => address_from_hex(s@) == Some(a@),
            None => address_from_hex(s@) is None,
        },
{
    match s.parse::<alloy_primitives::Address>() {
        Ok(a) => Some(a.into_array()),
        Err(_) => None,
    }
}

/// `s` without its leading `0` digits.
pub open spec fn strip_zero_digits(s: Seq<char>) -> Seq<char>
    decreases s.len(),
{
    if s.len() > 0 && s[0] == '0' {
        strip_zero_digits(s.drop_first())
    } else {
        s
    }
}

/// The 32 big-endian bytes that `U256::from_str_radix(_, 16)` reads: `_`
/// characters are ignored, the rest must be hexadecimal digits of either
/// case (none at all reads as zero), with at most 64 significant digits.
pub open spec fn u256_from_hex(s: Seq<char>) -> Option<Seq<u8>> {
    let digits = s.filter(|c: char| c != '_');
    let significant = strip_zero_digits(digits);
    if all_hex(digits) && significant.len() <= 64 {
        Some(hex_bytes(Seq::new((64 - significant.len()) as nat, |i: int| '0') + significant))
    } else {
        None
    }
}

/// Calls `alloy_primitives::U256::from_str_radix` with radix 16. Claimed: the
/// result is `u256_from_hex` of the text, as 32 big-endian bytes.
#[verifier::external_body]
fn parse_u256_hex(s: &str) -> (r: Option<[u8; 32]>)
    ensures
        match r {
            Some(w) => u256_from_hex(s@) == Some(w@),
            None => u256_from_hex(s@) is None,
        },
{
    match alloy_primitives::U256::from_str_radix(s, 16) {
        Ok(v) => Some(v.to_be_bytes::<32>()),
        Err(_) => None,
    }
}

/// The bytes that `hex::decode` reads from a text: an even number of
/// hexadecimal digits of either case.
pub open spec fn hex_decode_spec(s: Seq<char>) -> Option<Seq<u8>> {
    if s.len() % 2 == 0 && all_hex(s) {
        Some(hex_bytes(s))
    } else {
        None
    }
}

/// Calls `hex::decode`. Claimed: the result is `hex_decode_spec` of the text.
#[verifier::external_body]
fn decode_hex(s: &str) -> (r: Option<Vec<u8>>)
    ensures
        match r {
            Some(v) => hex_decode_spec(s@) == Some(v@),
            None => hex_decode_spec(s@) is None,
        },
{
    hex::decode(s).ok()
}

/// What the replay engine is given for a transaction, read from its cached
/// data.
pub struct ReplayPlan {
    pub caller: [u8; 20],
    /// The called address; `None` for a contract creation.
    pub to: Option<[u8; 20]>,
    pub value: [u8; 32],
    pub data: Vec<u8>,
    pub block_beneficiary: [u8; 20],
    pub block_difficulty: [u8; 32],
    /// The chain id, 1 when the transaction names none.
    pub chain_id: u64,
    /// The block whose state the transaction runs on: the one before its own.
    pub state_block: u64,
}

/// A hex quantity as 32 bytes: `0x` prefixes removed, zero when unreadable.
pub open spec fn quantity_bytes(s: Seq<char>) -> Seq<u8> {
    match u256_from_hex(strip_all_0x(s)) {
        Some(b) => b,
        None => Seq::new(32, |i: int| 0u8),
    }
}

/// Why a transaction cannot be replayed, in the order the checks are made:
/// an unreadable RPC URL, caller or called address.
pub open spec fn replay_refusal(rpc_url: Seq<char>, tx: CachedTxInfo) -> Option<Seq<char>> {
    if parsed_url(rpc_url) is None {
        Some("Invalid RPC URL: "@ + rpc_url)
    } else if address_from_hex(tx.caller@) is None {
        Some("Invalid caller address: "@ + tx.caller@)
    } else if tx.to matches Some(t) && address_from_hex(t@) is None {
        Some("Invalid to address: "@ + tx.to->0@)
    } else {
        None
    }
}

fn zero_word() -> (w: [u8; 32])
    ensures
        w@ == Seq::new(32, |i: int| 0u8),
{
    let w = [0u8; 32];
    proof {
        assert(w@ =~= Seq::new(32, |i: int| 0u8));
    }
    w
}

fn read_quantity(s: &str) -> (w: [u8; 32])
    ensures
        w@ == quantity_bytes(s@),
{
    match parse_u256_hex(strip_all_0x_exec(s)) {
        Some(w) => w,
        None => zero_word(),
    }
}

fn message_with(prefix: &str, s: &str) -> (r: String)
    ensures
        r@ == prefix@ + s@,
{
    let mut r = String::from_str(prefix);
    push_str(&mut r, s);
    r
}

/// Reads what the engine needs from the cached data of a transaction, or
/// says why it cannot be replayed.
pub fn plan_replay(rpc_url: &str, tx: &CachedTxInfo) -> (r: Result<ReplayPlan, String>)
    ensures
        match replay_refusal(rpc_url@, *tx) {
            Some(m) => r matches Err(e) && e@ == m,
            None => r matches Ok(p) && ({
                &&& address_from_hex(tx.caller@) == Some(p.caller@)
                &&& match tx.to {
                    Some(t) => p.to matches Some(a) && address_from_hex(t@) == Some(a@),
                    None => p.to is None,
                }
                &&& p.value@ == quantity_bytes(tx.value@)
                &&& p.data@ == match hex_decode_spec(strip_all_0x(tx.data@)) {
                    Some(b) => b,
                    None => Seq::empty(),
                }
                &&& p.block_beneficiary@ == match address_from_hex(tx.block_beneficiary@) {
                    Some(b) => b,
                    None => Seq::new(20, |i: int| 0u8),
                }
                &&& p.block_difficulty@ == quantity_bytes(tx.block_difficulty@)
                &&& p.chain_id == match tx.chain_id {
                    Some(c) => c,
                    None => 1,
                }
                &&& p.state_block == if tx.block_number > 0 {
                    (tx.block_number - 1) as u64
                } else {
                    0
                }
            }),
        },
{
    if parse_url(rpc_url).is_none() {
        return Err(message_with("Invalid RPC URL: ", rpc_url));
    }
    let caller = match parse_address(tx.caller.as_str()) {
        Some(a) => a,
        None => return Err(message_with("Invalid caller address: ", tx.caller.as_str())),
    };
    let to = match &tx.to {
        Some(t) => match parse_address(t.as_str()) {
            Some(a) => Some(a),
            None => return Err(message_with("Invalid to address: ", t.as_str())),
        },
        None => None,
    };
    let data = match decode_hex(strip_all_0x_exec(tx.data.as_str())) {
        Some(d) => d,
        None => Vec::new(),
    };
    let block_beneficiary = match parse_address(tx.block_beneficiary.as_str()) {
        Some(a) => a,
        None => {
            let z = [0u8; 20];
            proof {
                assert(z@ =~= Seq::new(20, |i: int| 0u8));
            }
            z
        },
    };
    let chain_id = match tx.chain_id {
        Some(c) => c,
        None => 1,
    };
    let state_block = if tx.block_number > 0 {
        tx.block_number - 1
    } else {
        0
    };
    Ok(
        ReplayPlan {
            caller,
            to,
            value: read_quantity(tx.value.as_str()),
            data,
            block_beneficiary,
            block_difficulty: read_quantity(tx.block_difficulty.as_str()),
            chain_id,
            state_block,
        },
    )
}

} // verus!
