//! A debug session: navigation over the snapshots of one replayed transaction.
//!
//! The replay runs once, to completion, and hands over every snapshot at once;
//! stepping is then pure index movement over the stored list.
use crate::types::{
    clone_result, clone_snapshots, result_view, snapshots_view, trace_view, ChannelMessage,
    ChannelMessageView, ExecutionResultInfo, ExecutionResultInfoView, SessionState,
    SessionStateView, StepSnapshot, StepSnapshotView, TraceStep, TraceStepView,
};
use vstd::prelude::*;

verus! {

/// What a session holds, as its clients can know it.
pub enum SessionView {
    Loading,
    Ready {
        snapshots: Seq<StepSnapshotView>,
        current_index: int,
        result: Option<ExecutionResultInfoView>,
    },
    Aborted,
    Error(Seq<char>),
}

/// The whole abstract state of a session.
pub struct DebugSessionView {
    pub data: SessionView,
    /// The snapshot receiver has not been consumed yet.
    pub receiver_pending: bool,
    /// An abort was requested; the replay halts at its next step.
    pub abort_requested: bool,
}

/// The index of a ready session never passes the end of its snapshots.
pub open spec fn data_wf(d: SessionView) -> bool {
    d matches SessionView::Ready { snapshots, current_index, .. } ==> 0 <= current_index
        <= snapshots.len()
}

/// The state shown for position `index`: the snapshot there, or past the end
/// the final result (`Aborted` when the replay gave none).
pub open spec fn state_at_spec(
    snapshots: Seq<StepSnapshotView>,
    index: int,
    result: Option<ExecutionResultInfoView>,
) -> SessionStateView {
    if index < snapshots.len() {
        SessionStateView::Paused { snapshot: snapshots[index] }
    } else {
        match result {
            Some(r) => SessionStateView::Finished { result: r },
            None => SessionStateView::Aborted,
        }
    }
}

/// The state a client sees for the given session data.
pub open spec fn current_state_spec(d: SessionView) -> SessionStateView {
    match d {
        SessionView::Loading => SessionStateView::Loading,
        SessionView::Ready { snapshots, current_index, result } => state_at_spec(
            snapshots,
            current_index,
            result,
        ),
        SessionView::Aborted => SessionStateView::Aborted,
        SessionView::Error(m) => SessionStateView::Error { message: m },
    }
}

/// Moves a ready session to another index; other data is left as it is.
pub open spec fn move_to(d: SessionView, index: int) -> SessionView {
    match d {
        SessionView::Ready { snapshots, result, .. } => SessionView::Ready {
            snapshots,
            current_index: index,
            result,
        },
        _ => d,
    }
}

/// Step into: one snapshot forward, stopping at the end.
pub open spec fn step_into_spec(d: SessionView) -> SessionView {
    match d {
        SessionView::Ready { snapshots, current_index, .. } => move_to(
            d,
            if current_index + 1 <= snapshots.len() {
                current_index + 1
            } else {
                snapshots.len() as int
            },
        ),
        _ => d,
    }
}

/// The first index from `j` on whose call depth is at most `depth`, or the end.
pub open spec fn skip_deeper(snapshots: Seq<StepSnapshotView>, j: int, depth: usize) -> int
    decreases snapshots.len() - j,
{
    if j >= snapshots.len() || j < 0 || snapshots[j].call_depth <= depth {
        j
    } else {
        skip_deeper(snapshots, j + 1, depth)
    }
}

/// Where step over goes from `index`: past every later snapshot that is deeper
/// in the call stack than the current one.
pub open spec fn step_over_index(snapshots: Seq<StepSnapshotView>, index: int) -> int {
    if index >= snapshots.len() {
        index
    } else {
        skip_deeper(snapshots, index + 1, snapshots[index].call_depth)
    }
}

/// Step over: skip the inner calls of the current snapshot.
pub open spec fn step_over_spec(d: SessionView) -> SessionView {
    match d {
        SessionView::Ready { snapshots, current_index, .. } => move_to(
            d,
            step_over_index(snapshots, current_index),
        ),
        _ => d,
    }
}

/// Continue: jump to the end of execution.
pub open spec fn continue_spec(d: SessionView) -> SessionView {
    match d {
        SessionView::Ready { snapshots, .. } => move_to(d, snapshots.len() as int),
        _ => d,
    }
}

/// What the replay's message, or its absence (a closed channel), makes of the
/// session data, and the state reported for it.
pub open spec fn receive_spec(received: Option<ChannelMessageView>) -> (SessionView, SessionStateView) {
    match received {
        Some(ChannelMessageView::AllSnapshots { snapshots, result }) => {
            let d = SessionView::Ready { snapshots, current_index: 0, result };
            if snapshots.len() == 0 {
                match result {
                    Some(r) => (d, SessionStateView::Finished { result: r }),
                    None => (d, SessionStateView::Error { message: "Execution produced no steps"@ }),
                }
            } else {
                (d, SessionStateView::Paused { snapshot: snapshots[0] })
            }
        },
        Some(ChannelMessageView::Error(m)) => (
            SessionView::Error(m),
            SessionStateView::Error { message: m },
        ),
        None => (
            SessionView::Error("EVM thread disconnected"@),
            SessionStateView::Error { message: "EVM thread disconnected"@ },
        ),
    }
}

/// What a session hands to the trace cache: its snapshots and result once ready.
pub open spec fn cache_contents(d: SessionView) -> Option<(Seq<StepSnapshotView>, Option<ExecutionResultInfoView>)> {
    match d {
        SessionView::Ready { snapshots, result, .. } => Some((snapshots, result)),
        _ => None,
    }
}

/// What taking in the replay's message does: a session whose receiver was
/// consumed reports so and stays as it is; otherwise the receiver is
/// consumed, and an aborted session stays aborted while any other takes its
/// data from the message.
pub open spec fn wait_spec(v: DebugSessionView, received: Option<ChannelMessageView>) -> (
    DebugSessionView,
    SessionStateView,
) {
    let consumed = DebugSessionView { receiver_pending: false, ..v };
    if !v.receiver_pending {
        (v, SessionStateView::Error { message: "Snapshot receiver already consumed"@ })
    } else if v.data is Aborted {
        (consumed, SessionStateView::Aborted)
    } else {
        let (d, st) = receive_spec(received);
        (DebugSessionView { data: d, ..consumed }, st)
    }
}

/// The trace entry of one snapshot.
pub open spec fn trace_step_of(s: StepSnapshotView) -> TraceStepView {
    TraceStepView { step: s.step_number, pc: s.pc, opcode: s.opcode, opcode_name: s.opcode_name }
}

enum Phase {
    Loading,
    Ready,
    Aborted,
    Error(String),
}

/// A debug session over the snapshots of one transaction replay.
pub struct DebugSession {
    phase: Phase,
    snapshots: Vec<StepSnapshot>,
    current_index: usize,
    result: Option<ExecutionResultInfo>,
    receiver_pending: bool,
    abort_flag: bool,
}

impl View for DebugSession {
    type V = DebugSessionView;

    closed spec fn view(&self) -> DebugSessionView {
        DebugSessionView {
            data: match self.phase {
                Phase::Loading => SessionView::Loading,
                Phase::Ready => SessionView::Ready {
                    snapshots: snapshots_view(self.snapshots@),
                    current_index: self.current_index as int,
                    result: result_view(self.result),
                },
                Phase::Aborted => SessionView::Aborted,
                Phase::Error(m) => SessionView::Error(m@),
            },
            receiver_pending: self.receiver_pending,
            abort_requested: self.abort_flag,
        }
    }
}

impl DebugSession {
    #[verifier::type_invariant]
    spec fn inv(self) -> bool {
        self.current_index <= self.snapshots.len()
    }

    /// A session still waiting for its replay, whose receiver is not consumed.
    pub fn new() -> (s: Self)
        ensures
            s@.data == SessionView::Loading,
            s@.receiver_pending,
            !s@.abort_requested,
    {
        DebugSession {
            phase: Phase::Loading,
            snapshots: Vec::new(),
            current_index: 0,
            result: None,
            receiver_pending: true,
            abort_flag: false,
        }
    }

    /// A ready session at the first snapshot of a cached replay.
    pub fn from_cache(snapshots: Vec<StepSnapshot>, result: Option<ExecutionResultInfo>) -> (s:
        Self)
        ensures
            s@.data == (SessionView::Ready {
                snapshots: snapshots_view(snapshots@),
                current_index: 0,
                result: result_view(result),
            }),
            !s@.receiver_pending,
            !s@.abort_requested,
    {
        DebugSession {
            phase: Phase::Ready,
            snapshots,
            current_index: 0,
            result,
            receiver_pending: false,
            abort_flag: false,
        }
    }

    /// Whether an abort was requested.
    pub fn abort_flag(&self) -> (b: bool)
        ensures
            b == self@.abort_requested,
    {
        self.abort_flag
    }

    /// Whether the snapshot receiver is still to be consumed.
    pub fn receiver_pending(&self) -> (b: bool)
        ensures
            b == self@.receiver_pending,
    {
        self.receiver_pending
    }

    /// The snapshots and result of a ready session, to be written to the cache.
    pub fn snapshots_for_cache(&self) -> (r: Option<(Vec<StepSnapshot>, Option<ExecutionResultInfo>)>)
        ensures
            match cache_contents(self@.data) {
                Some((snapshots, result)) => r matches Some(p) && snapshots_view(p.0@) == snapshots
                    && result_view(p.1) == result,
                None => r is None,
            },
    {
        match self.phase {
            Phase::Ready => Some((clone_snapshots(&self.snapshots), clone_result(&self.result))),
            _ => None,
        }
    }

    /// Takes in what the replay sent: `Some` message, or `None` when the
    /// channel was closed without one. If the receiver was consumed before,
    /// nothing changes and an error is reported. Otherwise an aborted session
    /// stays aborted and the message is dropped.
    pub fn wait_for_snapshots(&mut self, received: Option<ChannelMessage>) -> (st: SessionState)
        ensures
            data_wf(final(self)@.data),
            ({
                let (v, r) = wait_spec(
                    old(self)@,
                    match received {
                        Some(m) => Some(m@),
                        None => None,
                    },
                );
                final(self)@ == v && st@ == r
            }),
    {
        proof {
            use_type_invariant(&*self);
        }
        if !self.receiver_pending {
            return SessionState::Error {
                message: String::from_str("Snapshot receiver already consumed"),
            };
        }
        if let Phase::Aborted = self.phase {
            self.receiver_pending = false;
            return SessionState::Aborted;
        }
        self.receiver_pending = false;
        match received {
            Some(ChannelMessage::AllSnapshots { snapshots, result }) => {
                if snapshots.len() == 0 {
                    let s = match &result {
                        Some(r) => SessionState::Finished { result: r.clone() },
                        None => SessionState::Error {
                            message: String::from_str("Execution produced no steps"),
                        },
                    };
                    self.current_index = 0;
                    self.snapshots = snapshots;
                    self.result = result;
                    self.phase = Phase::Ready;
                    s
                } else {
                    let first = snapshots[0].clone();
                    self.current_index = 0;
                    self.snapshots = snapshots;
                    self.result = result;
                    self.phase = Phase::Ready;
                    SessionState::Paused { snapshot: first }
                }
            },
            Some(ChannelMessage::Error(msg)) => {
                let m = msg.clone();
                self.phase = Phase::Error(msg);
                SessionState::Error { message: m }
            },
            None => {
                let msg = String::from_str("EVM thread disconnected");
                let m = msg.clone();
                self.phase = Phase::Error(msg);
                SessionState::Error { message: m }
            },
        }
    }

    /// Advance one snapshot.
    pub fn step_into(&mut self) -> (st: SessionState)
        ensures
            final(self)@.data == step_into_spec(old(self)@.data),
            final(self)@.receiver_pending == old(self)@.receiver_pending,
            final(self)@.abort_requested == old(self)@.abort_requested,
            st@ == current_state_spec(final(self)@.data),
            data_wf(final(self)@.data),
    {
        proof {
            use_type_invariant(&*self);
        }
        match self.phase {
            Phase::Ready => {
                let next = if self.current_index < self.snapshots.len() {
                    self.current_index + 1
                } else {
                    self.snapshots.len()
                };
                self.current_index = next;
                Self::state_at(&self.snapshots, self.current_index, &self.result)
            },
            _ => self.current_state_locked(),
        }
    }

    /// Advance past the inner calls of the current snapshot.
    pub fn step_over(&mut self) -> (st: SessionState)
        ensures
            final(self)@.data == step_over_spec(old(self)@.data),
            final(self)@.receiver_pending == old(self)@.receiver_pending,
            final(self)@.abort_requested == old(self)@.abort_requested,
            st@ == current_state_spec(final(self)@.data),
            data_wf(final(self)@.data),
    {
        proof {
            use_type_invariant(&*self);
        }
        match self.phase {
            Phase::Ready => {
                let len = self.snapshots.len();
                if self.current_index >= len {
                    return Self::state_at(&self.snapshots, self.current_index, &self.result);
                }
                let ghost snaps = snapshots_view(self.snapshots@);
                let target_depth = self.snapshots[self.current_index].call_depth;
                let mut i = self.current_index + 1;
                assert(snaps[self.current_index as int].call_depth == target_depth);
                while i < len && self.snapshots[i].call_depth > target_depth
                    invariant
                        len == self.snapshots.len(),
                        snaps == snapshots_view(self.snapshots@),
                        i <= len,
                        skip_deeper(snaps, i as int, target_depth) == step_over_index(
                            snaps,
                            self.current_index as int,
                        ),
                        self.current_index < len,
                        snaps[self.current_index as int].call_depth == target_depth,
                    decreases len - i,
                {
                    assert(snaps[i as int].call_depth == self.snapshots[i as int].call_depth);
                    i = i + 1;
                }
                proof {
                    if i < len {
                        assert(snaps[i as int].call_depth == self.snapshots[i as int].call_depth);
                    }
                }
                self.current_index = i;
                Self::state_at(&self.snapshots, self.current_index, &self.result)
            },
            _ => self.current_state_locked(),
        }
    }

    /// Jump to the end of execution.
    pub fn continue_exec(&mut self) -> (st: SessionState)
        ensures
            final(self)@.data == continue_spec(old(self)@.data),
            final(self)@.receiver_pending == old(self)@.receiver_pending,
            final(self)@.abort_requested == old(self)@.abort_requested,
            st@ == current_state_spec(final(self)@.data),
            data_wf(final(self)@.data),
    {
        proof {
            use_type_invariant(&*self);
        }
        match self.phase {
            Phase::Ready => {
                self.current_index = self.snapshots.len();
                Self::state_at(&self.snapshots, self.current_index, &self.result)
            },
            _ => self.current_state_locked(),
        }
    }

    /// Request an abort and mark the session aborted.
    pub fn abort(&mut self)
        ensures
            final(self)@.data == SessionView::Aborted,
            final(self)@.abort_requested,
            final(self)@.receiver_pending == old(self)@.receiver_pending,
    {
        proof {
            use_type_invariant(&*self);
        }
        self.abort_flag = true;
        self.current_index = 0;
        self.snapshots = Vec::new();
        self.result = None;
        self.phase = Phase::Aborted;
    }

    /// The current state, without changing anything.
    pub fn current_state(&self) -> (st: SessionState)
        ensures
            st@ == current_state_spec(self@.data),
            data_wf(self@.data),
    {
        proof {
            use_type_invariant(self);
        }
        self.current_state_locked()
    }

    /// The lightweight trace of a ready session; empty otherwise.
    pub fn get_trace_steps(&self) -> (r: Vec<TraceStep>)
        ensures
            match self@.data {
                SessionView::Ready { snapshots, .. } => trace_view(r@) == snapshots.map_values(
                    |s: StepSnapshotView| trace_step_of(s),
                ),
                _ => r@.len() == 0,
            },
    {
        match self.phase {
            Phase::Ready => {
                let mut out: Vec<TraceStep> = Vec::new();
                let n = self.snapshots.len();
                let ghost want = snapshots_view(self.snapshots@).map_values(
                    |s: StepSnapshotView| trace_step_of(s),
                );
                for i in 0..n
                    invariant
                        n == self.snapshots.len(),
                        want == snapshots_view(self.snapshots@).map_values(
                            |s: StepSnapshotView| trace_step_of(s),
                        ),
                        out@.len() == i,
                        forall|k: int| 0 <= k < i ==> (#[trigger] out@[k])@ == want[k],
                {
                    let s = &self.snapshots[i];
                    out.push(
                        TraceStep {
                            step: s.step_number,
                            pc: s.pc,
                            opcode: s.opcode,
                            opcode_name: s.opcode_name.clone(),
                        },
                    );
                }
                proof {
                    assert(trace_view(out@) =~= want);
                }
                out
            },
            _ => Vec::new(),
        }
    }

    /// The state shown for position `index` of `snapshots`.
    pub fn state_at(
        snapshots: &Vec<StepSnapshot>,
        index: usize,
        result: &Option<ExecutionResultInfo>,
    ) -> (st: SessionState)
        ensures
            st@ == state_at_spec(snapshots_view(snapshots@), index as int, result_view(*result)),
    {
        if index < snapshots.len() {
            SessionState::Paused { snapshot: snapshots[index].clone() }
        } else {
            match result {
                Some(r) => SessionState::Finished { result: r.clone() },
                None => SessionState::Aborted,
            }
        }
    }

    fn current_state_locked(&self) -> (st: SessionState)
        ensures
            st@ == current_state_spec(self@.data),
    {
        match &self.phase {
            Phase::Loading => SessionState::Loading,
            Phase::Ready => Self::state_at(&self.snapshots, self.current_index, &self.result),
            Phase::Aborted => SessionState::Aborted,
            Phase::Error(msg) => SessionState::Error { message: msg.clone() },
        }
    }
}

/// Step over stops right after the current snapshot's inner calls: every
/// snapshot it skips is deeper than the current one, and where it stops is the
/// end or a snapshot no deeper than the current one.
pub proof fn lemma_step_over_target(snapshots: Seq<StepSnapshotView>, index: int)
    requires
        0 <= index < snapshots.len(),
    ensures
        index < step_over_index(snapshots, index) <= snapshots.len(),
        forall|k: int|
            index < k < step_over_index(snapshots, index) ==> #[trigger] snapshots[k].call_depth
                > snapshots[index].call_depth,
        step_over_index(snapshots, index) < snapshots.len() ==> snapshots[step_over_index(
            snapshots,
            index,
        )].call_depth <= snapshots[index].call_depth,
{
    lemma_skip_deeper(snapshots, index + 1, snapshots[index].call_depth);
}

proof fn lemma_skip_deeper(snapshots: Seq<StepSnapshotView>, j: int, depth: usize)
    requires
        0 <= j <= snapshots.len(),
    ensures
        j <= skip_deeper(snapshots, j, depth) <= snapshots.len(),
        forall|k: int| j <= k < skip_deeper(snapshots, j, depth) ==> #[trigger] snapshots[k].call_depth > depth,
        skip_deeper(snapshots, j, depth) < snapshots.len() ==> snapshots[skip_deeper(
            snapshots,
            j,
            depth,
        )].call_depth <= depth,
    decreases snapshots.len() - j,
{
    if j < snapshots.len() && snapshots[j].call_depth > depth {
        lemma_skip_deeper(snapshots, j + 1, depth);
    }
}

/// Navigation never moves back and never passes the end: step into, step over
/// and continue all keep a ready session ready, with the same snapshots and
/// result, at an index between the old one and the end.
pub proof fn lemma_navigation_moves_forward(d: SessionView)
    requires
        data_wf(d),
        d is Ready,
    ensures
        ({
            let i = d->current_index;
            let n = d->snapshots.len();
            &&& step_into_spec(d) == move_to(d, step_into_spec(d)->current_index)
            &&& step_over_spec(d) == move_to(d, step_over_spec(d)->current_index)
            &&& continue_spec(d) == move_to(d, n as int)
            &&& i <= step_into_spec(d)->current_index <= n
            &&& i <= step_over_spec(d)->current_index <= n
            &&& data_wf(step_into_spec(d)) && data_wf(step_over_spec(d)) && data_wf(continue_spec(d))
        }),
{
    let i = d->current_index;
    if i < d->snapshots.len() {
        lemma_step_over_target(d->snapshots, i);
    }
}

/// Step into moves exactly one snapshot forward until the end, and then stays.
pub proof fn lemma_step_into_successor(d: SessionView)
    requires
        data_wf(d),
        d is Ready,
    ensures
        d->current_index < d->snapshots.len() ==> step_into_spec(d)->current_index
            == d->current_index + 1,
        d->current_index == d->snapshots.len() ==> step_into_spec(d) == d,
{
}

/// Over a snapshot that starts no inner call, step over is step into.
pub proof fn lemma_step_over_without_inner_call(d: SessionView)
    requires
        data_wf(d),
        d is Ready,
        d->current_index + 1 < d->snapshots.len(),
        d->snapshots[d->current_index + 1].call_depth <= d->snapshots[d->current_index].call_depth,
    ensures
        step_over_spec(d) == step_into_spec(d),
{
}

/// At the end of execution every navigation is a no-op, and the state shown
/// is the final result (or `Aborted` when the replay gave none).
pub proof fn lemma_end_is_fixed_point(d: SessionView)
    requires
        data_wf(d),
        d is Ready,
    ensures
        ({
            let e = continue_spec(d);
            &&& step_into_spec(e) == e
            &&& step_over_spec(e) == e
            &&& continue_spec(e) == e
            &&& current_state_spec(e) == match d->result {
                Some(r) => SessionStateView::Finished { result: r },
                None => SessionStateView::Aborted,
            }
        }),
{
}

/// A session that is not ready (loading, aborted or failed) is left as it is
/// by every navigation, and shows the same state before and after.
pub proof fn lemma_navigation_needs_ready(d: SessionView)
    requires
        !(d is Ready),
    ensures
        step_into_spec(d) == d,
        step_over_spec(d) == d,
        continue_spec(d) == d,
        d is Aborted ==> current_state_spec(d) == SessionStateView::Aborted,
{
}

/// Navigation never changes what the session hands to the trace cache.
pub proof fn lemma_navigation_keeps_cache_contents(d: SessionView)
    ensures
        cache_contents(step_into_spec(d)) == cache_contents(d),
        cache_contents(step_over_spec(d)) == cache_contents(d),
        cache_contents(continue_spec(d)) == cache_contents(d),
{
}

/// A navigation call of a client.
pub enum NavigationCall {
    StepInto,
    StepOver,
    Continue,
}

/// The session data after the navigation calls, in order.
pub open spec fn navigate(d: SessionView, calls: Seq<NavigationCall>) -> SessionView
    decreases calls.len(),
{
    if calls.len() == 0 {
        d
    } else {
        let before = navigate(d, calls.drop_last());
        match calls.last() {
            NavigationCall::StepInto => step_into_spec(before),
            NavigationCall::StepOver => step_over_spec(before),
            NavigationCall::Continue => continue_spec(before),
        }
    }
}

/// Whatever navigation calls a client makes, the session hands the same
/// snapshots and result to the trace cache; a session built from a cache
/// hands back exactly what it was built from after any of them.
pub proof fn lemma_navigation_sequence_keeps_cache_contents(
    d: SessionView,
    calls: Seq<NavigationCall>,
    snapshots: Seq<StepSnapshotView>,
    result: Option<ExecutionResultInfoView>,
)
    ensures
        cache_contents(navigate(d, calls)) == cache_contents(d),
        cache_contents(
            navigate(SessionView::Ready { snapshots, current_index: 0, result }, calls),
        ) == Some((snapshots, result)),
    decreases calls.len(),
{
    if calls.len() > 0 {
        lemma_navigation_sequence_keeps_cache_contents(d, calls.drop_last(), snapshots, result);
        lemma_navigation_keeps_cache_contents(navigate(d, calls.drop_last()));
        lemma_navigation_keeps_cache_contents(
            navigate(SessionView::Ready { snapshots, current_index: 0, result }, calls.drop_last()),
        );
    }
}

/// A session built from a cache hands back exactly what it was built from.
pub proof fn lemma_cache_round_trip(
    snapshots: Seq<StepSnapshotView>,
    result: Option<ExecutionResultInfoView>,
)
    ensures
        cache_contents(SessionView::Ready { snapshots, current_index: 0, result }) == Some(
            (snapshots, result),
        ),
{
}

/// The state reported on receiving the replay's message is the state the
/// session shows from then on, except when the replay ran no step and gave no
/// result (reported as an error, then shown as `Aborted`).
pub proof fn lemma_receive_reports_current_state(received: Option<ChannelMessageView>)
    requires
        !(received matches Some(ChannelMessageView::AllSnapshots { snapshots, result }) && snapshots.len()
            == 0 && result is None),
    ensures
        current_state_spec(receive_spec(received).0) == receive_spec(received).1,
        data_wf(receive_spec(received).0),
{
}

/// Taking in the replay's snapshots and result, on a session that is loading
/// and still waiting for them, leaves it ready at the first snapshot with
/// exactly those snapshots and that result, whatever the result says: the
/// trace cache gets both, and continuing to the end shows the result
/// (`Aborted` when there is none).
pub proof fn lemma_receive_keeps_snapshots_and_result(
    v: DebugSessionView,
    snapshots: Seq<StepSnapshotView>,
    result: Option<ExecutionResultInfoView>,
)
    requires
        v.receiver_pending,
        v.data is Loading,
    ensures
        ({
            let (w, _) = wait_spec(
                v,
                Some(ChannelMessageView::AllSnapshots { snapshots, result }),
            );
            &&& w.data == (SessionView::Ready { snapshots, current_index: 0, result })
            &&& !w.receiver_pending
            &&& cache_contents(w.data) == Some((snapshots, result))
            &&& current_state_spec(continue_spec(w.data)) == match result {
                Some(r) => SessionStateView::Finished { result: r },
                None => SessionStateView::Aborted,
            }
        }),
{
}

/// An abort is final: once a session is aborted, taking in the replay's
/// message and every navigation leave it aborted; while its message is still
/// to come, taking it in reports `Aborted`.
pub proof fn lemma_abort_is_final(v: DebugSessionView, received: Option<ChannelMessageView>)
    requires
        v.data is Aborted,
    ensures
        wait_spec(v, received).0.data == SessionView::Aborted,
        v.receiver_pending ==> wait_spec(v, received).1 == SessionStateView::Aborted,
        step_into_spec(v.data) == SessionView::Aborted,
        step_over_spec(v.data) == SessionView::Aborted,
        continue_spec(v.data) == SessionView::Aborted,
        current_state_spec(v.data) == SessionStateView::Aborted,
{
}

} // verus!
