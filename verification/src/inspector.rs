//! What the debugger records at each step of a replay.
//!
//! The replay engine calls in at each instruction, call, create and log; the
//! inspector keeps the call stack, the logs and the storage written so far,
//! and makes the snapshot of each step from them.
use crate::text::{hex_digit, lower_hex, nibble_char, push_char, push_str};
use crate::tx_hash::{format_b256, prefixed_hex};
use crate::types::{
    clone_frames, clone_logs, clone_storage, frames_view, logs_view, storage_view, strings_view,
    CallFrame, CallFrameView, LogEntry, LogEntryView, StepSnapshot, StepSnapshotView, StorageSlot,
    StorageSlotView,
};
use vstd::prelude::*;
use vstd::string::*;

verus! {

/// Calls `const_hex::encode` (as `revm::primitives::hex::encode`). Claimed:
/// two lower-case hexadecimal digits per byte, no prefix.
#[verifier::external_body]
fn hex_encode(bytes: &[u8]) -> (r: String)
    ensures
        r@ == lower_hex(bytes@),
{
    revm::primitives::hex::encode(bytes)
}

/// Calls the `{:#066x}` formatting of `alloy_primitives::U256`. Claimed: `0x`
/// and the 64 lower-case hexadecimal digits of the big-endian word.
#[verifier::external_body]
fn format_word(word: [u8; 32]) -> (r: String)
    ensures
        r@ == prefixed_hex(word@),
{
    format!("{:#066x}", alloy_primitives::U256::from_be_bytes(word))
}

/// Calls the `{:#x}` formatting of `alloy_primitives::Address`. Claimed: `0x`
/// and the 40 lower-case hexadecimal digits of the address.
#[verifier::external_body]
pub(crate) fn format_address(address: [u8; 20]) -> (r: String)
    ensures
        r@ == prefixed_hex(address@),
{
    format!("{:#x}", alloy_primitives::Address::from(address))
}

/// Hexadecimal digits without their leading zeros; `0` when all are zero.
pub open spec fn strip_leading_zeros(s: Seq<char>) -> Seq<char>
    decreases s.len(),
{
    if s.len() == 0 {
        seq!['0']
    } else if s.len() == 1 || s[0] != '0' {
        s
    } else {
        strip_leading_zeros(s.drop_first())
    }
}

/// `0x` and the lower-case hexadecimal digits of a big-endian word, without
/// leading zeros.
pub open spec fn minimal_hex(word: Seq<u8>) -> Seq<char> {
    seq!['0', 'x'] + strip_leading_zeros(lower_hex(word))
}

/// Calls the `{:#x}` formatting of `alloy_primitives::U256`. Claimed: `0x`
/// and the lower-case hexadecimal digits of the word without leading zeros.
#[verifier::external_body]
pub(crate) fn format_u256(word: [u8; 32]) -> (r: String)
    ensures
        r@ == minimal_hex(word@),
{
    format!("{:#x}", alloy_primitives::U256::from_be_bytes(word))
}

/// The SSTORE opcode, whose storage write the inspector records.
pub const SSTORE: u8 = 0x55;

/// The memory dump limit when no setting gives one.
pub const DEFAULT_MAX_MEMORY_BYTES: usize = 4096;

/// The mnemonic that `revm`'s opcode table gives a byte, `None` for a byte
/// that is no opcode.
pub uninterp spec fn revm_opcode_name(opcode: u8) -> Option<Seq<char>>;

/// Calls `OpCode::new` and `OpCode::as_str` of `revm`. Claimed: the result is
/// `revm_opcode_name` of the byte; the table itself is not stated.
#[verifier::external_body]
fn opcode_mnemonic(opcode: u8) -> (r: Option<String>)
    ensures
        match r {
            Some(s) => revm_opcode_name(opcode) == Some(s@),
            None => revm_opcode_name(opcode) is None,
        },
{
    match revm::state::bytecode::opcode::OpCode::new(opcode) {
        Some(op) => Some(op.as_str().to_string()),
        None => None,
    }
}

/// The name shown for an opcode, given what the opcode table says of it:
/// the mnemonic, or `0x` and two lower-case hexadecimal digits when the byte
/// is no opcode.
pub open spec fn label_from_mnemonic(opcode: u8, mnemonic: Option<Seq<char>>) -> Seq<char> {
    match mnemonic {
        Some(n) => n,
        None => seq!['0', 'x', hex_digit(opcode as int / 16), hex_digit(opcode as int % 16)],
    }
}

/// The name shown for an opcode.
pub open spec fn opcode_label(opcode: u8) -> Seq<char> {
    label_from_mnemonic(opcode, revm_opcode_name(opcode))
}

/// The name shown for an opcode, from the mnemonic the opcode table gave it
/// (`None` when the byte is no opcode).
pub fn opcode_name_from_mnemonic(opcode: u8, mnemonic: Option<String>) -> (r: String)
    ensures
        r@ == label_from_mnemonic(
            opcode,
            match mnemonic {
                Some(m) => Some(m@),
                None => None,
            },
        ),
{
    match mnemonic {
        Some(n) => n,
        None => {
            let mut r = String::from_str("0x");
            push_char(&mut r, nibble_char(opcode / 16));
            push_char(&mut r, nibble_char(opcode % 16));
            proof {
                reveal_strlit("0x");
                assert(r@ =~= label_from_mnemonic(opcode, None));
            }
            r
        },
    }
}

/// The name shown for an opcode.
pub fn opcode_name(opcode: u8) -> (r: String)
    ensures
        r@ == opcode_label(opcode),
{
    opcode_name_from_mnemonic(opcode, opcode_mnemonic(opcode))
}

/// The memory dump of a snapshot: at most `max_bytes` bytes in hex, and
/// whether bytes were left out.
pub open spec fn memory_hex_spec(bytes: Seq<u8>, max_bytes: usize) -> (Seq<char>, bool) {
    if bytes.len() == 0 {
        (Seq::empty(), false)
    } else {
        let end = if bytes.len() <= max_bytes {
            bytes.len() as int
        } else {
            max_bytes as int
        };
        (lower_hex(bytes.take(end)), bytes.len() > max_bytes)
    }
}

/// The text of the contract whose code runs: the innermost frame's contract,
/// or the zero address outside any frame.
pub open spec fn current_contract(frames: Seq<CallFrameView>) -> Seq<char> {
    if frames.len() > 0 {
        frames.last().contract
    } else {
        "0x0000000000000000000000000000000000000000"@
    }
}

/// The contract and key that identify a storage slot.
pub open spec fn slot_id(s: StorageSlotView) -> (Seq<char>, Seq<char>) {
    (s.contract, s.key)
}

/// No two entries name the same slot.
pub open spec fn slots_distinct(s: Seq<StorageSlotView>) -> bool {
    forall|i: int, j: int| 0 <= i < j < s.len() ==> slot_id(#[trigger] s[i]) != slot_id(#[trigger] s[j])
}

/// The storage written so far, as a map from contract and key to value.
pub open spec fn storage_map(s: Seq<StorageSlotView>) -> Map<(Seq<char>, Seq<char>), Seq<char>>
    decreases s.len(),
{
    if s.len() == 0 {
        Map::empty()
    } else {
        storage_map(s.drop_last()).insert(slot_id(s.last()), s.last().value)
    }
}

/// The storage entries after a write: the entry of the same slot gets the new
/// value, or the write is added at the end.
pub open spec fn record_slot_spec(s: Seq<StorageSlotView>, w: StorageSlotView) -> Seq<StorageSlotView> {
    if exists|j: int| 0 <= j < s.len() && slot_id(#[trigger] s[j]) == slot_id(w) {
        let j = choose|j: int| 0 <= j < s.len() && slot_id(#[trigger] s[j]) == slot_id(w);
        s.update(j, w)
    } else {
        s.push(w)
    }
}

/// How an inner call was made.
pub enum CallKind {
    Call,
    StaticCall,
    DelegateCall,
    CallCode,
}

/// The text of a call kind.
pub open spec fn call_kind_text(k: CallKind) -> Seq<char> {
    match k {
        CallKind::Call => "CALL"@,
        CallKind::StaticCall => "STATICCALL"@,
        CallKind::DelegateCall => "DELEGATECALL"@,
        CallKind::CallCode => "CALLCODE"@,
    }
}

/// The storage slots written so far, one entry per contract and key, in the
/// order of their first write.
pub struct StorageTable {
    slots: Vec<StorageSlot>,
}

impl View for StorageTable {
    type V = Seq<StorageSlotView>;

    closed spec fn view(&self) -> Seq<StorageSlotView> {
        storage_view(self.slots@)
    }
}

impl StorageTable {
    #[verifier::type_invariant]
    spec fn inv(self) -> bool {
        slots_distinct(storage_view(self.slots@))
    }

    /// An empty table.
    pub fn new() -> (t: Self)
        ensures
            t@ == Seq::<StorageSlotView>::empty(),
    {
        let t = StorageTable { slots: Vec::new() };
        proof {
            assert(storage_view(t.slots@) =~= Seq::empty());
        }
        t
    }

    /// A copy of the entries.
    pub fn to_vec(&self) -> (r: Vec<StorageSlot>)
        ensures
            storage_view(r@) == self@,
            slots_distinct(self@),
    {
        proof {
            use_type_invariant(self);
        }
        clone_storage(&self.slots)
    }

    pub fn record(&mut self, w: StorageSlot)
        ensures
            final(self)@ == record_slot_spec(old(self)@, w@),
            slots_distinct(final(self)@),
    {
        proof {
            use_type_invariant(&*self);
        }
        let ghost s = storage_view(self.slots@);
        let n = self.slots.len();
        for j in 0..n
            invariant
                n == self.slots.len(),
                s == storage_view(self.slots@),
                s == old(self)@,
                slots_distinct(s),
                forall|k: int| 0 <= k < j ==> slot_id(#[trigger] s[k]) != slot_id(w@),
        {
            if self.slots[j].contract == w.contract && self.slots[j].key
                == w.key {
                proof {
                    assert(slot_id(s[j as int]) == slot_id(w@));
                    let c = choose|c: int| 0 <= c < s.len() && slot_id(#[trigger] s[c]) == slot_id(w@);
                    assert(c == j) by {
                        if c < j {
                            assert(slot_id(s[c]) != slot_id(w@));
                        } else if c > j {
                            assert(slot_id(s[j as int]) != slot_id(s[c]));
                        }
                    }
                    assert(storage_view(self.slots@.update(j as int, w)) =~= s.update(
                        j as int,
                        w@,
                    ));
                    assert forall|a: int, b: int|
                        0 <= a < b < s.len() implies slot_id(#[trigger] s.update(j as int, w@)[a])
                        != slot_id(#[trigger] s.update(j as int, w@)[b]) by {
                        if a == j {
                            assert(slot_id(s[j as int]) != slot_id(s[b]));
                        } else if b == j {
                            assert(slot_id(s[a]) != slot_id(s[j as int]));
                        }
                    }
                }
                let mut v: Vec<StorageSlot> = Vec::new();
                std::mem::swap(&mut v, &mut self.slots);
                v.set(j, w);
                self.slots = v;
                return;
            }
        }
        proof {
            assert(storage_view(self.slots@.push(w)) =~= s.push(w@));
        }
        let mut v: Vec<StorageSlot> = Vec::new();
        std::mem::swap(&mut v, &mut self.slots);
        v.push(w);
        self.slots = v;
    }

}

/// What the inspector holds.
pub struct InspectorView {
    pub call_stack: Seq<CallFrameView>,
    pub logs: Seq<LogEntryView>,
    pub storage: Seq<StorageSlotView>,
    pub step_number: u64,
    pub gas_initial: u64,
    pub max_memory_bytes: usize,
}

/// The value of a memory limit setting: an optional `+` and at least one
/// ASCII digit, with a value that fits `usize` (`usize::from_str`).
pub open spec fn digits_value(s: Seq<char>) -> nat
    decreases s.len(),
{
    if s.len() == 0 {
        0
    } else {
        digits_value(s.drop_last()) * 10 + (s.last() as nat - 48) as nat
    }
}

pub open spec fn all_digits(s: Seq<char>) -> bool {
    forall|i: int| 0 <= i < s.len() ==> '0' <= #[trigger] s[i] <= '9'
}

/// What `str::parse::<usize>` makes of a text.
pub open spec fn parse_usize_spec(s: Seq<char>) -> Option<nat> {
    let body = if s.len() > 0 && s[0] == '+' {
        s.drop_first()
    } else {
        s
    };
    if body.len() > 0 && all_digits(body) && digits_value(body) <= usize::MAX {
        Some(digits_value(body))
    } else {
        None
    }
}

proof fn lemma_digits_value_grows(s: Seq<char>, i: int)
    requires
        0 <= i <= s.len(),
        all_digits(s),
    ensures
        digits_value(s.take(i)) <= digits_value(s),
    decreases s.len() - i,
{
    if i < s.len() {
        lemma_digits_value_grows(s, i + 1);
        assert(s.take(i + 1).drop_last() =~= s.take(i));
    } else {
        assert(s.take(i) =~= s);
    }
}

/// `str::parse::<usize>`.
pub fn parse_usize(s: &str) -> (r: Option<usize>)
    ensures
        match parse_usize_spec(s@) {
            Some(v) => r == Some(v as usize),
            None => r is None,
        },
{
    let n = s.unicode_len();
    let start: usize = if n > 0 && s.get_char(0) == '+' {
        1
    } else {
        0
    };
    let ghost body = if s@.len() > 0 && s@[0] == '+' {
        s@.drop_first()
    } else {
        s@
    };
    if start >= n {
        return None;
    }
    let mut v: u128 = 0;
    let mut i: usize = start;
    while i < n
        invariant
            n == s@.len(),
            start <= i <= n,
            start < n,
            body == s@.subrange(start as int, n as int),
            body == (if s@.len() > 0 && s@[0] == '+' {
                s@.drop_first()
            } else {
                s@
            }),
            all_digits(body.take(i - start)),
            v == digits_value(body.take(i - start)),
            v <= usize::MAX,
        decreases n - i,
    {
        let c = s.get_char(i);
        if !('0' <= c && c <= '9') {
            proof {
                assert(body[i - start] == c);
                assert(!all_digits(body));
            }
            return None;
        }
        let d = (c as u32 - 48) as u128;
        proof {
            assert(body.take(i + 1 - start).drop_last() =~= body.take(i - start));
            assert(body.take(i + 1 - start).last() == c);
        }
        let next = v * 10 + d;
        if next > usize::MAX as u128 {
            proof {
                assert(all_digits(body.take(i + 1 - start)));
                if all_digits(body) {
                    lemma_digits_value_grows(body, i + 1 - start);
                }
            }
            return None;
        }
        v = next;
        i = i + 1;
    }
    proof {
        assert(body.take(n - start) =~= body);
    }
    Some(v as usize)
}

/// The step recorder of one replay.
pub struct StepDebugInspector {
    call_stack: Vec<CallFrame>,
    logs: Vec<LogEntry>,
    storage_changes: StorageTable,
    step_number: u64,
    gas_initial: u64,
    max_memory_bytes: usize,
}

impl View for StepDebugInspector {
    type V = InspectorView;

    closed spec fn view(&self) -> InspectorView {
        InspectorView {
            call_stack: frames_view(self.call_stack@),
            logs: logs_view(self.logs@),
            storage: self.storage_changes@,
            step_number: self.step_number,
            gas_initial: self.gas_initial,
            max_memory_bytes: self.max_memory_bytes,
        }
    }
}

/// The snapshot of a step, from the inspector's state after the step's
/// storage write (if any) and what the engine reports.
pub open spec fn snapshot_spec(
    v: InspectorView,
    depth: usize,
    pc: usize,
    opcode: u8,
    gas_remaining: u64,
    stack: Seq<[u8; 32]>,
    memory: Seq<u8>,
) -> StepSnapshotView {
    StepSnapshotView {
        step_number: v.step_number,
        pc,
        opcode,
        opcode_name: opcode_label(opcode),
        call_depth: depth,
        gas_remaining,
        gas_used: if v.gas_initial >= gas_remaining {
            (v.gas_initial - gas_remaining) as u64
        } else {
            0
        },
        stack: Seq::new(stack.len(), |i: int| prefixed_hex(stack[stack.len() - 1 - i]@)),
        memory_size: memory.len() as usize,
        memory_hex: memory_hex_spec(memory, v.max_memory_bytes).0,
        memory_truncated: memory_hex_spec(memory, v.max_memory_bytes).1,
        storage_changes: v.storage,
        call_stack: v.call_stack,
        logs: v.logs,
        contract_address: current_contract(v.call_stack),
    }
}

/// The storage after a step: an SSTORE with two stack words records the top
/// word as key and the next as value, in the current contract.
pub open spec fn storage_after_step(v: InspectorView, opcode: u8, stack: Seq<[u8; 32]>) -> Seq<
    StorageSlotView,
> {
    if opcode == SSTORE && stack.len() >= 2 {
        record_slot_spec(
            v.storage,
            StorageSlotView {
                contract: current_contract(v.call_stack),
                key: prefixed_hex(stack[stack.len() - 1]@),
                value: prefixed_hex(stack[stack.len() - 2]@),
            },
        )
    } else {
        v.storage
    }
}

impl StepDebugInspector {
    /// A fresh inspector; `max_memory_setting` is the value of the memory
    /// limit setting (`EVM_DEBUGGER_MAX_MEMORY_BYTES`), 4096 bytes when it is
    /// absent or no number.
    pub fn new(max_memory_setting: Option<&str>) -> (r: Self)
        ensures
            r@.call_stack.len() == 0,
            r@.logs.len() == 0,
            r@.storage.len() == 0,
            slots_distinct(r@.storage),
            r@.step_number == 0,
            r@.gas_initial == 0,
            r@.max_memory_bytes == match max_memory_setting {
                Some(s) => match parse_usize_spec(s@) {
                    Some(v) => v as usize,
                    None => DEFAULT_MAX_MEMORY_BYTES,
                },
                None => DEFAULT_MAX_MEMORY_BYTES,
            },
    {
        let max_memory_bytes = match max_memory_setting {
            Some(s) => match parse_usize(s) {
                Some(v) => v,
                None => DEFAULT_MAX_MEMORY_BYTES,
            },
            None => DEFAULT_MAX_MEMORY_BYTES,
        };
        let r = StepDebugInspector {
            call_stack: Vec::new(),
            logs: Vec::new(),
            storage_changes: StorageTable::new(),
            step_number: 0,
            gas_initial: 0,
            max_memory_bytes,
        };
        proof {
            assert(frames_view(r.call_stack@) =~= Seq::empty());
            assert(logs_view(r.logs@) =~= Seq::empty());
        }
        r
    }

    /// The number of the next step.
    pub fn step_number(&self) -> (n: u64)
        ensures
            n == self@.step_number,
    {
        self.step_number
    }

    /// The memory dump of a snapshot and whether it was cut short.
    pub fn encode_memory_hex(bytes: &[u8], max_bytes: usize) -> (r: (String, bool))
        ensures
            r.0@ == memory_hex_spec(bytes@, max_bytes).0,
            r.1 == memory_hex_spec(bytes@, max_bytes).1,
    {
        if bytes.len() == 0 {
            return (String::new(), false);
        }
        let truncated = bytes.len() > max_bytes;
        let end = if bytes.len() <= max_bytes {
            bytes.len()
        } else {
            max_bytes
        };
        let (head, _) = bytes.split_at(end);
        proof {
            assert(head@ =~= bytes@.take(end as int));
        }
        (hex_encode(head), truncated)
    }

    /// At the start of a frame: remember its gas limit.
    pub fn initialize_interp(&mut self, gas_limit: u64)
        ensures
            final(self)@ == (InspectorView { gas_initial: gas_limit, ..old(self)@ }),
            slots_distinct(final(self)@.storage),
    {
        proof {
            use_type_invariant(&self.storage_changes);
        }
        self.gas_initial = gas_limit;
    }

    fn current_contract_text(&self) -> (r: String)
        ensures
            r@ == current_contract(self@.call_stack),
    {
        let n = self.call_stack.len();
        if n > 0 {
            self.call_stack[n - 1].contract.clone()
        } else {
            String::from_str("0x0000000000000000000000000000000000000000")
        }
    }

    /// One instruction of the replay. When `aborted` (an abort was requested)
    /// nothing is recorded and the engine is to halt (`None`); otherwise the
    /// storage write of an SSTORE is recorded and the step's snapshot given.
    /// `stack` lists the words bottom first; `memory` is the whole memory.
    pub fn step(
        &mut self,
        aborted: bool,
        depth: usize,
        pc: usize,
        opcode: u8,
        gas_remaining: u64,
        stack: &[[u8; 32]],
        memory: &[u8],
    ) -> (r: Option<StepSnapshot>)
        requires
            aborted || old(self)@.step_number < u64::MAX,
        ensures
            aborted ==> r is None && final(self)@ == old(self)@,
            !aborted ==> ({
                let v = InspectorView {
                    storage: storage_after_step(old(self)@, opcode, stack@),
                    ..old(self)@
                };
                &&& r matches Some(snap) && snap@ == snapshot_spec(
                    v,
                    depth,
                    pc,
                    opcode,
                    gas_remaining,
                    stack@,
                    memory@,
                )
                &&& final(self)@ == (InspectorView { step_number: (v.step_number + 1) as u64, ..v })
            }),
            !aborted && opcode == SSTORE && stack@.len() >= 2 ==> storage_map(final(self)@.storage)
                == storage_map(old(self)@.storage).insert(
                (current_contract(old(self)@.call_stack), prefixed_hex(stack@[stack@.len() - 1]@)),
                prefixed_hex(stack@[stack@.len() - 2]@),
            ),
            slots_distinct(final(self)@.storage),
    {
        proof {
            use_type_invariant(&self.storage_changes);
        }
        if aborted {
            return None;
        }
        let n = stack.len();
        if opcode == SSTORE && n >= 2 {
            let key = format_word(stack[n - 1]);
            let value = format_word(stack[n - 2]);
            let contract = self.current_contract_text();
            let w = StorageSlot { contract, key, value };
            proof {
                lemma_record_slot(self@.storage, w@);
            }
            self.storage_changes.record(w);
        }
        let snapshot = self.capture_snapshot(depth, pc, opcode, gas_remaining, stack, memory);
        self.step_number = self.step_number + 1;
        Some(snapshot)
    }

    fn capture_snapshot(
        &self,
        depth: usize,
        pc: usize,
        opcode: u8,
        gas_remaining: u64,
        stack: &[[u8; 32]],
        memory: &[u8],
    ) -> (r: StepSnapshot)
        ensures
            r@ == snapshot_spec(self@, depth, pc, opcode, gas_remaining, stack@, memory@),
    {
        let gas_used = if self.gas_initial >= gas_remaining {
            self.gas_initial - gas_remaining
        } else {
            0
        };
        let n = stack.len();
        let mut words: Vec<String> = Vec::new();
        let ghost want = Seq::new(n as nat, |i: int| prefixed_hex(stack@[n - 1 - i]@));
        for i in 0..n
            invariant
                n == stack@.len(),
                want == Seq::new(n as nat, |i: int| prefixed_hex(stack@[n - 1 - i]@)),
                words@.len() == i,
                forall|k: int| 0 <= k < i ==> (#[trigger] words@[k])@ == want[k],
        {
            words.push(format_word(stack[n - 1 - i]));
        }
        proof {
            assert(strings_view(words@) =~= want);
        }
        let (memory_hex, memory_truncated) = Self::encode_memory_hex(memory, self.max_memory_bytes);
        StepSnapshot {
            step_number: self.step_number,
            pc,
            opcode,
            opcode_name: opcode_name(opcode),
            call_depth: depth,
            gas_remaining,
            gas_used,
            stack: words,
            memory_size: memory.len(),
            memory_hex,
            memory_truncated,
            storage_changes: self.storage_changes.to_vec(),
            call_stack: clone_frames(&self.call_stack),
            logs: clone_logs(&self.logs),
            contract_address: self.current_contract_text(),
        }
    }

    /// An inner call starts: push its frame.
    pub fn call(
        &mut self,
        depth: usize,
        kind: CallKind,
        target: [u8; 20],
        caller: [u8; 20],
        value: [u8; 32],
    )
        ensures
            final(self)@ == (InspectorView {
                call_stack: old(self)@.call_stack.push(
                    CallFrameView {
                        depth,
                        contract: prefixed_hex(target@),
                        caller: prefixed_hex(caller@),
                        value: minimal_hex(value@),
                        kind: call_kind_text(kind),
                    },
                ),
                ..old(self)@
            }),
            slots_distinct(final(self)@.storage),
    {
        proof {
            use_type_invariant(&self.storage_changes);
        }
        let kind_text = match kind {
            CallKind::Call => String::from_str("CALL"),
            CallKind::StaticCall => String::from_str("STATICCALL"),
            CallKind::DelegateCall => String::from_str("DELEGATECALL"),
            CallKind::CallCode => String::from_str("CALLCODE"),
        };
        let frame = CallFrame {
            depth,
            contract: format_address(target),
            caller: format_address(caller),
            value: format_u256(value),
            kind: kind_text,
        };
        self.call_stack.push(frame);
        proof {
            assert(frames_view(self.call_stack@) =~= old(self)@.call_stack.push(frame@));
        }
    }

    /// A contract creation starts: push its frame, whose contract is the zero
    /// address.
    pub fn create(&mut self, depth: usize, caller: [u8; 20], value: [u8; 32])
        ensures
            final(self)@ == (InspectorView {
                call_stack: old(self)@.call_stack.push(
                    CallFrameView {
                        depth,
                        contract: prefixed_hex(seq![0u8; 20]),
                        caller: prefixed_hex(caller@),
                        value: minimal_hex(value@),
                        kind: "CREATE"@,
                    },
                ),
                ..old(self)@
            }),
            slots_distinct(final(self)@.storage),
    {
        proof {
            use_type_invariant(&self.storage_changes);
        }
        let zero: [u8; 20] = [0u8; 20];
        let frame = CallFrame {
            depth,
            contract: format_address(zero),
            caller: format_address(caller),
            value: format_u256(value),
            kind: String::from_str("CREATE"),
        };
        proof {
            assert(zero@ =~= seq![0u8; 20]);
        }
        self.call_stack.push(frame);
        proof {
            assert(frames_view(self.call_stack@) =~= old(self)@.call_stack.push(frame@));
        }
    }

    /// A call ends: pop its frame.
    pub fn call_end(&mut self)
        ensures
            final(self)@ == (InspectorView {
                call_stack: if old(self)@.call_stack.len() > 0 {
                    old(self)@.call_stack.drop_last()
                } else {
                    old(self)@.call_stack
                },
                ..old(self)@
            }),
            slots_distinct(final(self)@.storage),
    {
        self.pop_frame();
    }

    /// A creation ends: pop its frame.
    pub fn create_end(&mut self)
        ensures
            final(self)@ == (InspectorView {
                call_stack: if old(self)@.call_stack.len() > 0 {
                    old(self)@.call_stack.drop_last()
                } else {
                    old(self)@.call_stack
                },
                ..old(self)@
            }),
            slots_distinct(final(self)@.storage),
    {
        self.pop_frame();
    }

    fn pop_frame(&mut self)
        ensures
            final(self)@ == (InspectorView {
                call_stack: if old(self)@.call_stack.len() > 0 {
                    old(self)@.call_stack.drop_last()
                } else {
                    old(self)@.call_stack
                },
                ..old(self)@
            }),
            slots_distinct(final(self)@.storage),
    {
        proof {
            use_type_invariant(&self.storage_changes);
        }
        let _ = self.call_stack.pop();
        proof {
            assert(frames_view(self.call_stack@) =~= (if old(self)@.call_stack.len() > 0 {
                old(self)@.call_stack.drop_last()
            } else {
                old(self)@.call_stack
            }));
        }
    }

    /// A log is emitted: record its address, topics and data.
    pub fn log_full(&mut self, address: [u8; 20], topics: &[[u8; 32]], data: &[u8])
        ensures
            final(self)@ == (InspectorView {
                logs: old(self)@.logs.push(
                    LogEntryView {
                        contract: prefixed_hex(address@),
                        topics: topics@.map_values(|t: [u8; 32]| prefixed_hex(t@)),
                        data: prefixed_hex(data@),
                    },
                ),
                ..old(self)@
            }),
            slots_distinct(final(self)@.storage),
    {
        proof {
            use_type_invariant(&self.storage_changes);
        }
        let mut texts: Vec<String> = Vec::new();
        let n = topics.len();
        for i in 0..n
            invariant
                n == topics@.len(),
                texts@.len() == i,
                forall|k: int| 0 <= k < i ==> (#[trigger] texts@[k])@ == prefixed_hex(topics@[k]@),
        {
            texts.push(format_b256(topics[i]));
        }
        proof {
            assert(strings_view(texts@) =~= topics@.map_values(|t: [u8; 32]| prefixed_hex(t@)));
        }
        let mut d = String::from_str("0x");
        let h = hex_encode(data);
        push_str(&mut d, h.as_str());
        proof {
            reveal_strlit("0x");
            assert(d@ =~= prefixed_hex(data@));
        }
        let entry = LogEntry { contract: format_address(address), topics: texts, data: d };
        self.logs.push(entry);
        proof {
            assert(logs_view(self.logs@) =~= old(self)@.logs.push(entry@));
        }
    }
}

/// Recording a write makes the storage map the old map with that slot set to
/// the written value, and keeps one entry per slot.
pub proof fn lemma_record_slot(s: Seq<StorageSlotView>, w: StorageSlotView)
    requires
        slots_distinct(s),
    ensures
        storage_map(record_slot_spec(s, w)) == storage_map(s).insert(slot_id(w), w.value),
        slots_distinct(record_slot_spec(s, w)),
{
    if exists|j: int| 0 <= j < s.len() && slot_id(#[trigger] s[j]) == slot_id(w) {
        let j = choose|j: int| 0 <= j < s.len() && slot_id(#[trigger] s[j]) == slot_id(w);
        lemma_update_slot(s, j, w);
        assert forall|a: int, b: int|
            0 <= a < b < s.len() implies slot_id(#[trigger] s.update(j, w)[a]) != slot_id(
            #[trigger] s.update(j, w)[b],
        ) by {
            if a == j {
                assert(slot_id(s[j]) != slot_id(s[b]));
            } else if b == j {
                assert(slot_id(s[a]) != slot_id(s[j]));
            }
        }
    } else {
        assert(s.push(w).drop_last() =~= s);
    }
}

proof fn lemma_storage_map_has(s: Seq<StorageSlotView>, j: int)
    requires
        slots_distinct(s),
        0 <= j < s.len(),
    ensures
        storage_map(s).contains_key(slot_id(s[j])),
        storage_map(s)[slot_id(s[j])] == s[j].value,
    decreases s.len(),
{
    if j < s.len() - 1 {
        lemma_storage_map_has(s.drop_last(), j);
        assert(slot_id(s[j]) != slot_id(s.last()));
    }
}

proof fn lemma_update_slot(s: Seq<StorageSlotView>, j: int, w: StorageSlotView)
    requires
        slots_distinct(s),
        0 <= j < s.len(),
        slot_id(s[j]) == slot_id(w),
    ensures
        storage_map(s.update(j, w)) == storage_map(s).insert(slot_id(w), w.value),
    decreases s.len(),
{
    let u = s.update(j, w);
    if j == s.len() - 1 {
        assert(u.drop_last() =~= s.drop_last());
        assert(storage_map(u) =~= storage_map(s).insert(slot_id(w), w.value));
    } else {
        let t = s.drop_last();
        assert(u.drop_last() =~= t.update(j, w));
        lemma_update_slot(t, j, w);
        assert(slot_id(s[j]) != slot_id(s.last()));
        assert(storage_map(u) =~= storage_map(s).insert(slot_id(w), w.value));
    }
}

/// A step's snapshot records what the engine reported for that step: its
/// program counter, opcode, call depth and the gas remaining as given, with
/// the gas used since the frame started, so that used and remaining add up
/// to the frame's starting gas (used is zero when more remains than the frame
/// started with); the stack top first; the memory size; and the step number,
/// storage writes, call stack, logs and current contract of the inspector.
pub proof fn lemma_snapshot_records_step(
    v: InspectorView,
    depth: usize,
    pc: usize,
    opcode: u8,
    gas_remaining: u64,
    stack: Seq<[u8; 32]>,
    memory: Seq<u8>,
)
    requires
        memory.len() <= usize::MAX,
    ensures
        ({
            let snap = snapshot_spec(v, depth, pc, opcode, gas_remaining, stack, memory);
            &&& snap.gas_remaining == gas_remaining
            &&& gas_remaining <= v.gas_initial ==> snap.gas_used + snap.gas_remaining
                == v.gas_initial
            &&& gas_remaining > v.gas_initial ==> snap.gas_used == 0
            &&& snap.pc == pc
            &&& snap.opcode == opcode
            &&& snap.call_depth == depth
            &&& snap.step_number == v.step_number
            &&& snap.stack.len() == stack.len()
            &&& forall|i: int|
                0 <= i < stack.len() ==> #[trigger] snap.stack[i] == prefixed_hex(
                    stack[stack.len() - 1 - i]@,
                )
            &&& snap.memory_size == memory.len()
            &&& snap.storage_changes == v.storage
            &&& snap.call_stack == v.call_stack
            &&& snap.logs == v.logs
            &&& snap.contract_address == current_contract(v.call_stack)
        }),
{
}

/// A call or creation followed by its end gives back the call stack as it
/// was before.
pub proof fn lemma_frame_push_pop(frames: Seq<CallFrameView>, frame: CallFrameView)
    ensures
        ({
            let pushed = frames.push(frame);
            (if pushed.len() > 0 {
                pushed.drop_last()
            } else {
                pushed
            }) == frames
        }),
{
    assert(frames.push(frame).drop_last() =~= frames);
}

/// Inside a frame, a snapshot names the frame's contract; outside any frame,
/// the zero address.
pub proof fn lemma_contract_of_innermost_frame(frames: Seq<CallFrameView>, frame: CallFrameView)
    ensures
        current_contract(frames.push(frame)) == frame.contract,
        current_contract(Seq::empty()) == "0x0000000000000000000000000000000000000000"@,
{
}

} // verus!
