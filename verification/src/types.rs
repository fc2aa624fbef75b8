//! Data carried between the EVM replay, the debug session and its clients.
use vstd::prelude::*;

verus! {

/// The abstract value of a list of strings.
pub open spec fn strings_view(v: Seq<String>) -> Seq<Seq<char>> {
    v.map_values(|s: String| s@)
}

/// Clones a list of strings, keeping every element.
pub fn clone_strings(v: &Vec<String>) -> (r: Vec<String>)
    ensures
        strings_view(r@) == strings_view(v@),
{
    let r = v.clone();
    proof {
        assert(strings_view(r@) =~= strings_view(v@));
    }
    r
}

/// One storage slot written by SSTORE: the contract, the key and the value,
/// each as hex text.
pub struct StorageSlot {
    pub contract: String,
    pub key: String,
    pub value: String,
}

pub struct StorageSlotView {
    pub contract: Seq<char>,
    pub key: Seq<char>,
    pub value: Seq<char>,
}

impl View for StorageSlot {
    type V = StorageSlotView;

    open spec fn view(&self) -> StorageSlotView {
        StorageSlotView { contract: self.contract@, key: self.key@, value: self.value@ }
    }
}

impl Clone for StorageSlot {
    fn clone(&self) -> (r: Self)
        ensures
            r@ == self@,
    {
        StorageSlot { contract: self.contract.clone(), key: self.key.clone(), value: self.value.clone() }
    }
}

pub open spec fn storage_view(v: Seq<StorageSlot>) -> Seq<StorageSlotView> {
    v.map_values(|c: StorageSlot| c@)
}

/// Clones the storage changes of a snapshot.
pub fn clone_storage(v: &Vec<StorageSlot>) -> (r: Vec<StorageSlot>)
    ensures
        storage_view(r@) == storage_view(v@),
{
    let r = v.clone();
    proof {
        assert(storage_view(r@) =~= storage_view(v@));
    }
    r
}

/// A call frame in the call stack.
pub struct CallFrame {
    pub depth: usize,
    pub contract: String,
    pub caller: String,
    pub value: String,
    /// "CALL", "STATICCALL", "DELEGATECALL", "CALLCODE" or "CREATE".
    pub kind: String,
}

pub struct CallFrameView {
    pub depth: usize,
    pub contract: Seq<char>,
    pub caller: Seq<char>,
    pub value: Seq<char>,
    pub kind: Seq<char>,
}

impl View for CallFrame {
    type V = CallFrameView;

    open spec fn view(&self) -> CallFrameView {
        CallFrameView {
            depth: self.depth,
            contract: self.contract@,
            caller: self.caller@,
            value: self.value@,
            kind: self.kind@,
        }
    }
}

impl Clone for CallFrame {
    fn clone(&self) -> (r: Self)
        ensures
            r@ == self@,
    {
        CallFrame {
            depth: self.depth,
            contract: self.contract.clone(),
            caller: self.caller.clone(),
            value: self.value.clone(),
            kind: self.kind.clone(),
        }
    }
}

pub open spec fn frames_view(v: Seq<CallFrame>) -> Seq<CallFrameView> {
    v.map_values(|f: CallFrame| f@)
}

/// Clones a call stack.
pub fn clone_frames(v: &Vec<CallFrame>) -> (r: Vec<CallFrame>)
    ensures
        frames_view(r@) == frames_view(v@),
{
    let r = v.clone();
    proof {
        assert(frames_view(r@) =~= frames_view(v@));
    }
    r
}

/// A log entry emitted during execution.
pub struct LogEntry {
    pub contract: String,
    pub topics: Vec<String>,
    pub data: String,
}

pub struct LogEntryView {
    pub contract: Seq<char>,
    pub topics: Seq<Seq<char>>,
    pub data: Seq<char>,
}

impl View for LogEntry {
    type V = LogEntryView;

    open spec fn view(&self) -> LogEntryView {
        LogEntryView { contract: self.contract@, topics: strings_view(self.topics@), data: self.data@ }
    }
}

impl Clone for LogEntry {
    fn clone(&self) -> (r: Self)
        ensures
            r@ == self@,
    {
        LogEntry { contract: self.contract.clone(), topics: clone_strings(&self.topics), data: self.data.clone() }
    }
}

pub open spec fn logs_view(v: Seq<LogEntry>) -> Seq<LogEntryView> {
    v.map_values(|l: LogEntry| l@)
}

/// Clones a list of log entries.
pub fn clone_logs(v: &Vec<LogEntry>) -> (r: Vec<LogEntry>)
    ensures
        logs_view(r@) == logs_view(v@),
{
    let r = v.clone();
    proof {
        assert(logs_view(r@) =~= logs_view(v@));
    }
    r
}

/// Snapshot of EVM state at a given step.
pub struct StepSnapshot {
    pub step_number: u64,
    pub pc: usize,
    pub opcode: u8,
    pub opcode_name: String,
    pub call_depth: usize,
    pub gas_remaining: u64,
    pub gas_used: u64,
    /// Stack entries as hex strings, index 0 = top of stack.
    pub stack: Vec<String>,
    pub memory_size: usize,
    /// Memory as a hex dump, cut to the inspector's byte limit.
    pub memory_hex: String,
    /// Whether `memory_hex` was cut short.
    pub memory_truncated: bool,
    /// Storage slots written so far, at most one entry per contract and key.
    pub storage_changes: Vec<StorageSlot>,
    pub call_stack: Vec<CallFrame>,
    pub logs: Vec<LogEntry>,
    pub contract_address: String,
}

pub struct StepSnapshotView {
    pub step_number: u64,
    pub pc: usize,
    pub opcode: u8,
    pub opcode_name: Seq<char>,
    pub call_depth: usize,
    pub gas_remaining: u64,
    pub gas_used: u64,
    pub stack: Seq<Seq<char>>,
    pub memory_size: usize,
    pub memory_hex: Seq<char>,
    pub memory_truncated: bool,
    pub storage_changes: Seq<StorageSlotView>,
    pub call_stack: Seq<CallFrameView>,
    pub logs: Seq<LogEntryView>,
    pub contract_address: Seq<char>,
}

impl View for StepSnapshot {
    type V = StepSnapshotView;

    open spec fn view(&self) -> StepSnapshotView {
        StepSnapshotView {
            step_number: self.step_number,
            pc: self.pc,
            opcode: self.opcode,
            opcode_name: self.opcode_name@,
            call_depth: self.call_depth,
            gas_remaining: self.gas_remaining,
            gas_used: self.gas_used,
            stack: strings_view(self.stack@),
            memory_size: self.memory_size,
            memory_hex: self.memory_hex@,
            memory_truncated: self.memory_truncated,
            storage_changes: storage_view(self.storage_changes@),
            call_stack: frames_view(self.call_stack@),
            logs: logs_view(self.logs@),
            contract_address: self.contract_address@,
        }
    }
}

impl Clone for StepSnapshot {
    fn clone(&self) -> (r: Self)
        ensures
            r@ == self@,
    {
        StepSnapshot {
            step_number: self.step_number,
            pc: self.pc,
            opcode: self.opcode,
            opcode_name: self.opcode_name.clone(),
            call_depth: self.call_depth,
            gas_remaining: self.gas_remaining,
            gas_used: self.gas_used,
            stack: clone_strings(&self.stack),
            memory_size: self.memory_size,
            memory_hex: self.memory_hex.clone(),
            memory_truncated: self.memory_truncated,
            storage_changes: clone_storage(&self.storage_changes),
            call_stack: clone_frames(&self.call_stack),
            logs: clone_logs(&self.logs),
            contract_address: self.contract_address.clone(),
        }
    }
}

pub open spec fn snapshots_view(v: Seq<StepSnapshot>) -> Seq<StepSnapshotView> {
    v.map_values(|s: StepSnapshot| s@)
}

/// Clones a list of snapshots.
pub fn clone_snapshots(v: &Vec<StepSnapshot>) -> (r: Vec<StepSnapshot>)
    ensures
        snapshots_view(r@) == snapshots_view(v@),
{
    let r = v.clone();
    proof {
        assert(snapshots_view(r@) =~= snapshots_view(v@));
    }
    r
}

/// Lightweight trace entry: step number, pc and opcode only.
pub struct TraceStep {
    pub step: u64,
    pub pc: usize,
    pub opcode: u8,
    pub opcode_name: String,
}

pub struct TraceStepView {
    pub step: u64,
    pub pc: usize,
    pub opcode: u8,
    pub opcode_name: Seq<char>,
}

impl View for TraceStep {
    type V = TraceStepView;

    open spec fn view(&self) -> TraceStepView {
        TraceStepView { step: self.step, pc: self.pc, opcode: self.opcode, opcode_name: self.opcode_name@ }
    }
}

pub open spec fn trace_view(v: Seq<TraceStep>) -> Seq<TraceStepView> {
    v.map_values(|t: TraceStep| t@)
}

/// Final execution result.
pub struct ExecutionResultInfo {
    pub success: bool,
    pub gas_used: u64,
    pub output: String,
    pub reason: String,
}

pub struct ExecutionResultInfoView {
    pub success: bool,
    pub gas_used: u64,
    pub output: Seq<char>,
    pub reason: Seq<char>,
}

impl View for ExecutionResultInfo {
    type V = ExecutionResultInfoView;

    open spec fn view(&self) -> ExecutionResultInfoView {
        ExecutionResultInfoView {
            success: self.success,
            gas_used: self.gas_used,
            output: self.output@,
            reason: self.reason@,
        }
    }
}

impl Clone for ExecutionResultInfo {
    fn clone(&self) -> (r: Self)
        ensures
            r@ == self@,
    {
        ExecutionResultInfo {
            success: self.success,
            gas_used: self.gas_used,
            output: self.output.clone(),
            reason: self.reason.clone(),
        }
    }
}

pub open spec fn result_view(r: Option<ExecutionResultInfo>) -> Option<ExecutionResultInfoView> {
    match r {
        Some(x) => Some(x@),
        None => None,
    }
}

/// Clones an optional execution result.
pub fn clone_result(r: &Option<ExecutionResultInfo>) -> (c: Option<ExecutionResultInfo>)
    ensures
        result_view(c) == result_view(*r),
{
    match r {
        Some(x) => Some(x.clone()),
        None => None,
    }
}

/// Message from the EVM replay to the session, sent once after execution.
pub enum ChannelMessage {
    /// All snapshots collected from the full execution run.
    AllSnapshots { snapshots: Vec<StepSnapshot>, result: Option<ExecutionResultInfo> },
    Error(String),
}

pub enum ChannelMessageView {
    AllSnapshots { snapshots: Seq<StepSnapshotView>, result: Option<ExecutionResultInfoView> },
    Error(Seq<char>),
}

impl View for ChannelMessage {
    type V = ChannelMessageView;

    open spec fn view(&self) -> ChannelMessageView {
        match self {
            ChannelMessage::AllSnapshots { snapshots, result } => ChannelMessageView::AllSnapshots {
                snapshots: snapshots_view(snapshots@),
                result: result_view(*result),
            },
            ChannelMessage::Error(m) => ChannelMessageView::Error(m@),
        }
    }
}

/// State of a debug session as its clients see it.
pub enum SessionState {
    Loading,
    Paused { snapshot: StepSnapshot },
    Finished { result: ExecutionResultInfo },
    Error { message: String },
    Aborted,
}

pub enum SessionStateView {
    Loading,
    Paused { snapshot: StepSnapshotView },
    Finished { result: ExecutionResultInfoView },
    Error { message: Seq<char> },
    Aborted,
}

impl View for SessionState {
    type V = SessionStateView;

    open spec fn view(&self) -> SessionStateView {
        match self {
            SessionState::Loading => SessionStateView::Loading,
            SessionState::Paused { snapshot } => SessionStateView::Paused { snapshot: snapshot@ },
            SessionState::Finished { result } => SessionStateView::Finished { result: result@ },
            SessionState::Error { message } => SessionStateView::Error { message: message@ },
            SessionState::Aborted => SessionStateView::Aborted,
        }
    }
}

/// Cached transaction info stored on disk.
pub struct CachedTxInfo {
    pub caller: String,
    pub gas_limit: u64,
    pub gas_price: u128,
    pub max_priority_fee_per_gas: Option<u128>,
    pub value: String,
    pub data: String,
    pub nonce: u64,
    pub to: Option<String>,
    pub chain_id: Option<u64>,
    pub block_number: u64,
    pub block_beneficiary: String,
    pub block_timestamp: u64,
    pub block_difficulty: String,
    pub block_gas_limit: u64,
    pub block_basefee: u128,
}

/// Request body for creating a session.
pub struct CreateSessionRequest {
    pub tx_hash: String,
    pub rpc_url: String,
}

/// Response for session creation.
pub struct CreateSessionResponse {
    pub session_id: String,
    pub state: SessionState,
    /// Full lightweight opcode trace, so a client can list all opcodes at once.
    pub trace_steps: Vec<TraceStep>,
}

} // verus!
