//! Channel reassembler: a state machine that accumulates frames into a
//! complete inbound message, enforcing channel identity, sequencing,
//! timeout and the single-in-flight-transaction rule.

use vstd::prelude::*;
use crate::codec::{
    cont_chunk, init_chunk, lemma_fragment_parses, spec_fragment, spec_frames, spec_min,
    spec_num_packets, spec_parse, zero_pad, Frame, FrameView,
};
use crate::message::{
    ErrorKind, Message, MessageView, CONT_DATA_LEN, INIT_DATA_LEN, MAX_PAYLOAD_LEN, TIMEOUT_MS,
};

verus! {

/// Reassembly state for one in-progress inbound message.
pub struct Transaction {
    /// Channel the transaction belongs to.
    pub cid: u32,
    /// Opcode announced by the initial frame.
    pub cmd: u8,
    /// Total payload length announced by the initial frame.
    pub total_len: u16,
    /// Payload bytes received so far.
    pub buffer: Vec<u8>,
    /// Sequence number the next continuation frame must carry.
    pub next_seq: u8,
    /// Timestamp of the last accepted frame of this transaction.
    pub last_time: u64,
}

/// Mathematical model of a [`Transaction`].
#[verifier::ext_equal]
pub struct TransactionView {
    pub cid: u32,
    pub cmd: u8,
    pub total_len: u16,
    pub buffer: Seq<u8>,
    pub next_seq: u8,
    pub last_time: u64,
}

impl View for Transaction {
    type V = TransactionView;

    open spec fn view(&self) -> TransactionView {
        TransactionView {
            cid: self.cid,
            cmd: self.cmd,
            total_len: self.total_len,
            buffer: self.buffer@,
            next_seq: self.next_seq,
            last_time: self.last_time,
        }
    }
}

/// The two states of the reassembler.
pub enum AssemblerState {
    /// No transaction in flight.
    Idle,
    /// One transaction in flight; no other channel may start one.
    Assembling(Transaction),
}

/// Mathematical model of an [`AssemblerState`].
#[verifier::ext_equal]
pub enum AssemblerStateView {
    Idle,
    Assembling(TransactionView),
}

/// The per-process reassembler. At most one transaction is in flight at any
/// instant, across all channels.
pub struct MessageAssembler {
    /// Current state: idle or one in-flight transaction.
    pub state: AssemblerState,
}

impl View for MessageAssembler {
    type V = AssemblerStateView;

    open spec fn view(&self) -> AssemblerStateView {
        match &self.state {
            AssemblerState::Idle => AssemblerStateView::Idle,
            AssemblerState::Assembling(t) => AssemblerStateView::Assembling(t@),
        }
    }
}

/// What one transition of the reassembler yields besides its new state.
#[verifier::ext_equal]
pub enum StepOut {
    /// The frame was accepted; the message is not complete yet.
    Pending,
    /// The frame completed this message.
    Complete(MessageView),
    /// The frame was rejected with an error addressed to a channel.
    Reject(u32, ErrorKind),
}

/// New state and outcome of one transition.
#[verifier::ext_equal]
pub struct StepView {
    pub state: AssemblerStateView,
    pub out: StepOut,
}

/// A frame whose payload chunk fits one fixed-size packet. Frames handed to
/// the reassembler come from such packets, so their chunks obey this bound.
pub open spec fn frame_bounded(f: FrameView) -> bool {
    match f {
        FrameView::Initial { data, .. } => data.len() <= INIT_DATA_LEN as int,
        FrameView::Continuation { data, .. } => data.len() <= CONT_DATA_LEN as int,
    }
}

/// Outcome of an initial frame once the busy check has passed: either the
/// announced length already fits the carried chunk and the message is
/// complete at once, or a fresh transaction starts.
pub open spec fn asm_start(cid: u32, cmd: u8, total_len: u16, data: Seq<u8>, now: u64) -> StepView {
    if total_len as int <= data.len() {
        StepView {
            state: AssemblerStateView::Idle,
            out: StepOut::Complete(
                MessageView { cid, cmd, payload: data.subrange(0, total_len as int) },
            ),
        }
    } else {
        StepView {
            state: AssemblerStateView::Assembling(
                TransactionView { cid, cmd, total_len, buffer: data, next_seq: 0, last_time: now },
            ),
            out: StepOut::Pending,
        }
    }
}

/// One transition of the reassembler: from a state, an incoming frame and
/// its arrival time to the new state and the outcome.
///
/// An initial frame for another channel is rejected without touching the
/// transaction; one for the same channel aborts and restarts it. A
/// continuation frame must belong to the in-flight channel, arrive within
/// the timeout, and carry the expected sequence number, which never exceeds
/// the 7-bit range; otherwise the transaction is discarded.
pub open spec fn asm_step(s: AssemblerStateView, f: FrameView, now: u64) -> StepView {
    match f {
        FrameView::Initial { cid, cmd, total_len, data } => {
            match s {
                AssemblerStateView::Idle => asm_start(cid, cmd, total_len, data, now),
                AssemblerStateView::Assembling(t) => {
                    if t.cid != cid {
                        StepView { state: s, out: StepOut::Reject(cid, ErrorKind::ChannelBusy) }
                    } else {
                        asm_start(cid, cmd, total_len, data, now)
                    }
                },
            }
        },
        FrameView::Continuation { cid, seq, data } => {
            match s {
                AssemblerStateView::Idle => {
                    StepView { state: s, out: StepOut::Reject(cid, ErrorKind::Sequence) }
                },
                AssemblerStateView::Assembling(t) => {
                    if t.cid != cid {
                        StepView { state: s, out: StepOut::Reject(cid, ErrorKind::ChannelBusy) }
                    } else if now - t.last_time > TIMEOUT_MS {
                        StepView {
                            state: AssemblerStateView::Idle,
                            out: StepOut::Reject(t.cid, ErrorKind::Timeout),
                        }
                    } else if seq != t.next_seq || t.next_seq > 127 {
                        StepView {
                            state: AssemblerStateView::Idle,
                            out: StepOut::Reject(t.cid, ErrorKind::Sequence),
                        }
                    } else {
                        let take = spec_min(t.total_len as int - t.buffer.len() as int, data.len() as int);
                        let buffer = t.buffer + data.subrange(0, take);
                        if buffer.len() == t.total_len as int {
                            StepView {
                                state: AssemblerStateView::Idle,
                                out: StepOut::Complete(
                                    MessageView { cid: t.cid, cmd: t.cmd, payload: buffer },
                                ),
                            }
                        } else {
                            StepView {
                                state: AssemblerStateView::Assembling(
                                    TransactionView {
                                        buffer,
                                        next_seq: (t.next_seq + 1) as u8,
                                        last_time: now,
                                        ..t
                                    },
                                ),
                                out: StepOut::Pending,
                            }
                        }
                    }
                },
            }
        },
    }
}

/// Internal consistency of a reassembler state: an in-flight buffer is
/// strictly short of its announced total, and can never have outgrown what
/// the accepted frames could carry.
pub open spec fn asm_wf(s: AssemblerStateView) -> bool {
    match s {
        AssemblerStateView::Idle => true,
        AssemblerStateView::Assembling(t) => {
            &&& t.buffer.len() < t.total_len as int
            &&& t.next_seq <= 128
            &&& t.buffer.len() <= INIT_DATA_LEN as int + CONT_DATA_LEN as int * t.next_seq as int
        },
    }
}

/// The model of a reassembler call's result.
pub open spec fn out_view(r: Result<Option<Message>, (u32, ErrorKind)>) -> StepOut {
    match r {
        Ok(None) => StepOut::Pending,
        Ok(Some(m)) => StepOut::Complete(m@),
        Err((cid, kind)) => StepOut::Reject(cid, kind),
    }
}

impl MessageAssembler {
    /// Internal consistency of this reassembler.
    pub open spec fn wf(&self) -> bool {
        asm_wf(self@)
    }

    /// A fresh, idle reassembler.
    pub fn new() -> (a: MessageAssembler)
        ensures
            a@ == AssemblerStateView::Idle,
            a.wf(),
    {
        MessageAssembler { state: AssemblerState::Idle }
    }

    /// Feeds one typed frame, with its arrival timestamp in milliseconds,
    /// through one transition of the state machine. Returns the completed
    /// message, nothing when more frames are owed, or an error addressed to
    /// a channel. Never panics, whatever the frame holds.
    pub fn parse_frame(&mut self, frame: &Frame, timestamp: u64) -> (r: Result<
        Option<Message>,
        (u32, ErrorKind),
    >)
        requires
            old(self).wf(),
            frame_bounded(frame@),
        ensures
            final(self).wf(),
            final(self)@ == asm_step(old(self)@, frame@, timestamp).state,
            out_view(r) == asm_step(old(self)@, frame@, timestamp).out,
            r matches Ok(Some(m)) ==> m@.payload.len() <= MAX_PAYLOAD_LEN as int,
    {
        let ghost step = asm_step(old(self)@, frame@, timestamp);
        match frame {
            Frame::Initial { cid, cmd, total_len, data } => {
                let busy = match &self.state {
                    AssemblerState::Idle => false,
                    AssemblerState::Assembling(t) => t.cid != *cid,
                };
                if busy {
                    return Err((*cid, ErrorKind::ChannelBusy));
                }
                if (*total_len as usize) <= data.len() {
                    let payload = vstd::slice::slice_to_vec(
                        vstd::slice::slice_subrange(data.as_slice(), 0, *total_len as usize),
                    );
                    self.state = AssemblerState::Idle;
                    let m = Message { cid: *cid, cmd: *cmd, payload };
                    proof {
                        assert(out_view(Ok(Some(m))) =~= step.out);
                    }
                    Ok(Some(m))
                } else {
                    let buffer = vstd::slice::slice_to_vec(data.as_slice());
                    self.state = AssemblerState::Assembling(
                        Transaction {
                            cid: *cid,
                            cmd: *cmd,
                            total_len: *total_len,
                            buffer,
                            next_seq: 0,
                            last_time: timestamp,
                        },
                    );
                    proof {
                        assert(self@ =~= step.state);
                    }
                    Ok(None)
                }
            },
            Frame::Continuation { cid, seq, data } => {
                let mut state = AssemblerState::Idle;
                core::mem::swap(&mut state, &mut self.state);
                match state {
                    AssemblerState::Idle => Err((*cid, ErrorKind::Sequence)),
                    AssemblerState::Assembling(mut t) => {
                        if t.cid != *cid {
                            let err = (*cid, ErrorKind::ChannelBusy);
                            self.state = AssemblerState::Assembling(t);
                            proof {
                                assert(self@ =~= step.state);
                            }
                            Err(err)
                        } else if timestamp > t.last_time && timestamp - t.last_time > TIMEOUT_MS {
                            Err((t.cid, ErrorKind::Timeout))
                        } else if *seq != t.next_seq || t.next_seq > 127 {
                            Err((t.cid, ErrorKind::Sequence))
                        } else {
                            let room = t.total_len as usize - t.buffer.len();
                            let take = if room < data.len() {
                                room
                            } else {
                                data.len()
                            };
                            let mut chunk = vstd::slice::slice_to_vec(
                                vstd::slice::slice_subrange(data.as_slice(), 0, take),
                            );
                            t.buffer.append(&mut chunk);
                            if t.buffer.len() == t.total_len as usize {
                                let m = Message { cid: t.cid, cmd: t.cmd, payload: t.buffer };
                                proof {
                                    assert(out_view(Ok(Some(m))) =~= step.out);
                                }
                                Ok(Some(m))
                            } else {
                                t.next_seq = t.next_seq + 1;
                                t.last_time = timestamp;
                                self.state = AssemblerState::Assembling(t);
                                proof {
                                    assert(self@ =~= step.state);
                                }
                                Ok(None)
                            }
                        }
                    },
                }
            },
        }
    }
}

/// Sequencing law: a continuation frame whose sequence number differs from
/// the expected next value — or that arrives with no transaction to
/// continue — always yields a sequence error addressed to its channel and
/// leaves the reassembler idle. For an in-flight transaction the frame must
/// belong to that channel and arrive within the timeout window, or the
/// channel and timeout rules fire first.
pub proof fn lemma_sequence_error(
    s: AssemblerStateView,
    cid: u32,
    seq: u8,
    data: Seq<u8>,
    now: u64,
)
    requires
        match s {
            AssemblerStateView::Idle => true,
            AssemblerStateView::Assembling(t) => cid == t.cid && now - t.last_time <= TIMEOUT_MS
                && seq != t.next_seq,
        },
    ensures
        asm_step(s, FrameView::Continuation { cid, seq, data }, now).state
            == AssemblerStateView::Idle,
        asm_step(s, FrameView::Continuation { cid, seq, data }, now).out == StepOut::Reject(
            cid,
            ErrorKind::Sequence,
        ),
{
}

/// Timeout law: a continuation frame of the in-flight transaction's channel
/// that arrives after the timeout threshold always yields a timeout error
/// and discards the transaction, whatever its sequence number or contents.
pub proof fn lemma_timeout(t: TransactionView, seq: u8, data: Seq<u8>, now: u64)
    requires
        now - t.last_time > TIMEOUT_MS,
    ensures
        asm_step(
            AssemblerStateView::Assembling(t),
            FrameView::Continuation { cid: t.cid, seq, data },
            now,
        ) == (StepView {
            state: AssemblerStateView::Idle,
            out: StepOut::Reject(t.cid, ErrorKind::Timeout),
        }),
{
}

/// Busy-exclusion law: while a transaction is in flight on one channel, an
/// initial frame on any other channel is rejected with a busy error
/// addressed to the interrupting channel and the transaction is untouched;
/// and whenever the reassembler is idle — after a completion, a timeout or
/// a cancellation — an initial frame on any channel is never rejected.
pub proof fn lemma_busy_exclusion(
    t: TransactionView,
    cid: u32,
    cmd: u8,
    total_len: u16,
    data: Seq<u8>,
    now: u64,
    later: u64,
)
    requires
        cid != t.cid,
    ensures
        asm_step(
            AssemblerStateView::Assembling(t),
            FrameView::Initial { cid, cmd, total_len, data },
            now,
        ) == (StepView {
            state: AssemblerStateView::Assembling(t),
            out: StepOut::Reject(cid, ErrorKind::ChannelBusy),
        }),
        !(asm_step(
            AssemblerStateView::Idle,
            FrameView::Initial { cid, cmd, total_len, data },
            later,
        ).out is Reject),
{
}

/// Runs the reassembler from `s` over a non-empty sequence of frames and
/// their arrival times; yields the state after the last frame together with
/// the last frame's outcome.
pub open spec fn run_frames(
    s: AssemblerStateView,
    frames: Seq<FrameView>,
    times: Seq<u64>,
) -> StepView
    recommends
        frames.len() >= 1,
        times.len() == frames.len(),
    decreases frames.len(),
{
    if frames.len() <= 1 {
        asm_step(s, frames[0], times[0])
    } else {
        run_frames(
            asm_step(s, frames[0], times[0]).state,
            frames.subrange(1, frames.len() as int),
            times.subrange(1, times.len() as int),
        )
    }
}

/// The continuation count of a fragmented payload is the least number of
/// 59-byte chunks that cover what the initial 57 bytes leave.
proof fn lemma_cont_count(len: int)
    requires
        (INIT_DATA_LEN as int) < len,
    ensures
        (CONT_DATA_LEN as int) * (spec_num_packets(len) - 2) < len - INIT_DATA_LEN as int,
        len - INIT_DATA_LEN as int <= (CONT_DATA_LEN as int) * (spec_num_packets(len) - 1),
{
    let c = len - INIT_DATA_LEN as int;
    let d = (c + 58) / 59;
    vstd::arithmetic::div_mod::lemma_fundamental_div_mod(c + 58, 59);
    vstd::arithmetic::div_mod::lemma_mod_division_less_than_divisor(c + 58, 59);
}

/// Feeding the remaining continuation frames of `m`, in order and each
/// within the timeout window of its predecessor, completes the message.
proof fn lemma_feed_continuations(m: MessageView, times: Seq<u64>, k: int)
    requires
        m.payload.len() <= MAX_PAYLOAD_LEN as int,
        (INIT_DATA_LEN as int) < m.payload.len(),
        times.len() == spec_num_packets(m.payload.len() as int),
        forall|i: int|
            0 < i < times.len() ==> #[trigger] times[i] - times[i - 1] <= TIMEOUT_MS,
        0 <= k < spec_num_packets(m.payload.len() as int) - 1,
        INIT_DATA_LEN as int + CONT_DATA_LEN as int * k < m.payload.len(),
    ensures
        ({
            let s = AssemblerStateView::Assembling(
                TransactionView {
                    cid: m.cid,
                    cmd: m.cmd,
                    total_len: m.payload.len() as u16,
                    buffer: m.payload.subrange(
                        0,
                        INIT_DATA_LEN as int + CONT_DATA_LEN as int * k,
                    ),
                    next_seq: k as u8,
                    last_time: times[k],
                },
            );
            run_frames(
                s,
                spec_frames(m).subrange(k + 1, spec_frames(m).len() as int),
                times.subrange(k + 1, times.len() as int),
            ) == (StepView { state: AssemblerStateView::Idle, out: StepOut::Complete(m) })
        }),
    decreases spec_num_packets(m.payload.len() as int) - k,
{
    let len = m.payload.len() as int;
    let idl = INIT_DATA_LEN as int;
    let cdl = CONT_DATA_LEN as int;
    let n = spec_num_packets(len);
    let frames = spec_frames(m);
    lemma_cont_count(len);
    let t = TransactionView {
        cid: m.cid,
        cmd: m.cmd,
        total_len: m.payload.len() as u16,
        buffer: m.payload.subrange(0, idl + cdl * k),
        next_seq: k as u8,
        last_time: times[k],
    };
    let s = AssemblerStateView::Assembling(t);
    let rest = frames.subrange(k + 1, n);
    let rest_times = times.subrange(k + 1, n);
    let f = rest[0];
    assert(f == frames[k + 1]);
    assert(f == FrameView::Continuation {
        cid: m.cid,
        seq: k as u8,
        data: zero_pad(cont_chunk(m, k), cdl),
    });
    let chunk = cont_chunk(m, k);
    let data = zero_pad(chunk, cdl);
    let now = rest_times[0];
    assert(now == times[k + 1]);
    // within the window, matching channel and sequence number
    assert(now - t.last_time <= TIMEOUT_MS);
    assert(k <= 127);
    let step = asm_step(s, f, now);
    let take = spec_min(t.total_len as int - t.buffer.len() as int, data.len() as int);
    let upper = spec_min(len, idl + (k + 1) * cdl);
    assert(chunk.len() == upper - (idl + cdl * k));
    assert(data.len() == cdl);
    assert(take == upper - (idl + cdl * k));
    assert(data.subrange(0, take) =~= chunk);
    let buffer = t.buffer + data.subrange(0, take);
    assert(buffer =~= m.payload.subrange(0, upper));
    if len <= idl + cdl * (k + 1) {
        // the transaction is complete; this was the last frame
        assert(upper == len);
        assert(buffer =~= m.payload);
        assert(step.out =~= StepOut::Complete(m));
        assert(k + 1 == n - 1);
        assert(rest.len() == 1);
    } else {
        // one more chunk is buffered; the rest completes by induction
        assert(upper == idl + cdl * (k + 1));
        assert(buffer.len() < t.total_len as int);
        assert(k + 1 < n - 1);
        lemma_feed_continuations(m, times, k + 1);
        let s2 = AssemblerStateView::Assembling(
            TransactionView {
                cid: m.cid,
                cmd: m.cmd,
                total_len: m.payload.len() as u16,
                buffer: m.payload.subrange(0, idl + cdl * (k + 1)),
                next_seq: (k + 1) as u8,
                last_time: times[k + 1],
            },
        );
        assert(step.state =~= s2);
        assert(rest.subrange(1, rest.len() as int) =~= frames.subrange(k + 2, n));
        assert(rest_times.subrange(1, rest_times.len() as int) =~= times.subrange(k + 2, n));
    }
}

/// Round-trip law: every packet that `fragment` produces for a message with
/// a 7-bit opcode and a payload within the framing maximum parses back to
/// its frame, and feeding those frames in order — each arriving within the
/// timeout window of its predecessor — reconstructs exactly the original
/// message and returns the reassembler to idle.
pub proof fn lemma_roundtrip(m: MessageView, times: Seq<u64>)
    requires
        m.payload.len() <= MAX_PAYLOAD_LEN as int,
        m.cmd <= 127,
        times.len() == spec_num_packets(m.payload.len() as int),
        forall|i: int|
            0 < i < times.len() ==> #[trigger] times[i] - times[i - 1] <= TIMEOUT_MS,
    ensures
        forall|i: int|
            0 <= i < spec_fragment(m).len() ==> spec_parse(spec_fragment(m)[i]) == Ok::<
                FrameView,
                ErrorKind,
            >(spec_frames(m)[i]),
        run_frames(AssemblerStateView::Idle, spec_frames(m), times) == (StepView {
            state: AssemblerStateView::Idle,
            out: StepOut::Complete(m),
        }),
{
    lemma_fragment_parses(m);
    let len = m.payload.len() as int;
    let idl = INIT_DATA_LEN as int;
    let frames = spec_frames(m);
    let n = spec_num_packets(len);
    let f0 = frames[0];
    let step = asm_step(AssemblerStateView::Idle, f0, times[0]);
    if len <= idl {
        assert(n == 1);
        assert(zero_pad(init_chunk(m), idl).subrange(0, len) =~= m.payload);
        assert(step.out =~= StepOut::Complete(m));
    } else {
        assert(zero_pad(init_chunk(m), idl) =~= m.payload.subrange(0, idl));
        lemma_feed_continuations(m, times, 0);
        let s0 = AssemblerStateView::Assembling(
            TransactionView {
                cid: m.cid,
                cmd: m.cmd,
                total_len: m.payload.len() as u16,
                buffer: m.payload.subrange(0, idl),
                next_seq: 0,
                last_time: times[0],
            },
        );
        assert(step.state =~= s0);
        assert(frames.subrange(1, frames.len() as int) =~= frames.subrange(1, n));
        assert(times.subrange(1, times.len() as int) =~= times.subrange(1, n));
    }
}

} // verus!

