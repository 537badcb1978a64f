//! Transport front end: feeds raw packets through the reassembler, routes
//! complete messages — transport commands and CBOR requests alike — and
//! fragments every reply back into packets.

use vstd::prelude::*;
use crate::codec::{
    cid_bytes, fragment, parse, push_cid, spec_fragment, spec_num_packets, spec_parse, Frame,
    FrameView,
};
use crate::dispatch::{
    dispatch_cbor, error_reply, spec_dispatch_cbor, spec_error_reply, CtapState, DispatchEnv,
    CMD_CANCEL, CMD_CBOR, CMD_INIT, CMD_PING, PROTOCOL_GENERATION,
};
use crate::message::{
    ErrorKind, Message, MessageView, BROADCAST_CID, MAX_PAYLOAD_LEN, PACKET_SIZE,
};
use crate::receive::{asm_step, frame_bounded, AssemblerStateView, MessageAssembler, StepOut};

verus! {

/// Bytes of the nonce that a channel-allocation request must carry.
pub const INIT_NONCE_LEN: usize = 8;

/// Capability byte reported by the allocation reply: CBOR requests are
/// supported.
pub const CAPABILITY_CBOR: u8 = 0x04;

/// The fixed bytes that close an allocation reply: protocol generation,
/// device version (major, minor, build) and the capability byte.
pub open spec fn init_trailer() -> Seq<u8> {
    seq![PROTOCOL_GENERATION, 1u8, 0u8, 0u8, CAPABILITY_CBOR]
}

/// The channel id allocated after `next_cid`: the counter walks the
/// regular ids and never reaches the reserved broadcast id.
pub open spec fn spec_next_cid(next_cid: u32) -> u32 {
    if next_cid + 1 == BROADCAST_CID {
        1u32
    } else {
        (next_cid + 1) as u32
    }
}

/// What routing one complete message does: the new allocation counter, the
/// new authenticator state and the reply.
///
/// On the broadcast channel only the allocation handshake is valid; it
/// answers with the nonce, the allocated channel id and the fixed trailer.
/// On a regular channel: an echo request echoes its payload; the handshake
/// re-synchronizes the same channel; a cancel is acknowledged; a CBOR
/// request goes to the command dispatcher; any other opcode is an
/// invalid-command error.
pub open spec fn spec_process(
    next_cid: u32,
    st: CtapState,
    msg: MessageView,
    env: DispatchEnv,
) -> (u32, CtapState, MessageView) {
    if msg.cid == BROADCAST_CID {
        if msg.cmd == CMD_INIT {
            if msg.payload.len() == INIT_NONCE_LEN as int {
                (
                    spec_next_cid(next_cid),
                    st,
                    MessageView {
                        cid: BROADCAST_CID,
                        cmd: CMD_INIT,
                        payload: msg.payload + cid_bytes(next_cid) + init_trailer(),
                    },
                )
            } else {
                (next_cid, st, spec_error_reply(BROADCAST_CID, ErrorKind::InvalidParameter))
            }
        } else {
            (next_cid, st, spec_error_reply(BROADCAST_CID, ErrorKind::InvalidCommand))
        }
    } else if msg.cmd == CMD_PING {
        (next_cid, st, MessageView { cid: msg.cid, cmd: CMD_PING, payload: msg.payload })
    } else if msg.cmd == CMD_INIT {
        if msg.payload.len() == INIT_NONCE_LEN as int {
            (
                next_cid,
                st,
                MessageView {
                    cid: msg.cid,
                    cmd: CMD_INIT,
                    payload: msg.payload + cid_bytes(msg.cid) + init_trailer(),
                },
            )
        } else {
            (next_cid, st, spec_error_reply(msg.cid, ErrorKind::InvalidParameter))
        }
    } else if msg.cmd == CMD_CANCEL {
        (next_cid, st, MessageView { cid: msg.cid, cmd: CMD_CANCEL, payload: Seq::empty() })
    } else if msg.cmd == CMD_CBOR {
        let result = spec_dispatch_cbor(msg.cid, msg.payload, st, env);
        (next_cid, result.0, result.1)
    } else {
        (next_cid, st, spec_error_reply(msg.cid, ErrorKind::InvalidCommand))
    }
}

/// The transport front end: one reassembler and the channel-allocation
/// counter.
pub struct CtapHid {
    /// Reassembler for inbound frames.
    pub assembler: MessageAssembler,
    /// Next channel id to allocate; walks the regular ids only.
    pub next_cid: u32,
}

impl CtapHid {
    /// Internal consistency: a sound reassembler and an allocation counter
    /// inside the regular id range.
    pub open spec fn wf(&self) -> bool {
        &&& self.assembler.wf()
        &&& 1 <= self.next_cid < BROADCAST_CID
    }

    /// A fresh front end: idle, with the first regular channel id pending.
    pub fn new() -> (hid: CtapHid)
        ensures
            hid.wf(),
            hid.assembler@ == AssemblerStateView::Idle,
            hid.next_cid == 1,
    {
        CtapHid { assembler: MessageAssembler::new(), next_cid: 1 }
    }

    /// Routes one complete message and builds its reply. The reassembler
    /// is untouched; the reply never outgrows what one packet sequence can
    /// carry when the request fit one.
    pub fn process_message(&mut self, msg: Message, state: &mut CtapState, env: &DispatchEnv) -> (reply:
        Message)
        requires
            old(self).wf(),
            msg@.payload.len() <= MAX_PAYLOAD_LEN as int,
        ensures
            final(self).wf(),
            final(self).assembler@ == old(self).assembler@,
            final(self).next_cid == spec_process(old(self).next_cid, *old(state), msg@, *env).0,
            *final(state) == spec_process(old(self).next_cid, *old(state), msg@, *env).1,
            reply@ == spec_process(old(self).next_cid, *old(state), msg@, *env).2,
            reply@.payload.len() <= MAX_PAYLOAD_LEN as int,
    {
        let ghost expected = spec_process(old(self).next_cid, *old(state), msg@, *env);
        if msg.cid == BROADCAST_CID {
            if msg.cmd == CMD_INIT {
                if msg.payload.len() == INIT_NONCE_LEN {
                    let allocated = self.next_cid;
                    self.next_cid = if self.next_cid + 1 == BROADCAST_CID {
                        1
                    } else {
                        self.next_cid + 1
                    };
                    let mut payload = msg.payload;
                    push_cid(&mut payload, allocated);
                    payload.push(PROTOCOL_GENERATION);
                    payload.push(1);
                    payload.push(0);
                    payload.push(0);
                    payload.push(CAPABILITY_CBOR);
                    let reply = Message { cid: BROADCAST_CID, cmd: CMD_INIT, payload };
                    proof {
                        assert(reply@ =~= expected.2);
                    }
                    reply
                } else {
                    error_reply(BROADCAST_CID, ErrorKind::InvalidParameter)
                }
            } else {
                error_reply(BROADCAST_CID, ErrorKind::InvalidCommand)
            }
        } else if msg.cmd == CMD_PING {
            Message { cid: msg.cid, cmd: CMD_PING, payload: msg.payload }
        } else if msg.cmd == CMD_INIT {
            if msg.payload.len() == INIT_NONCE_LEN {
                let mut payload = msg.payload;
                push_cid(&mut payload, msg.cid);
                payload.push(PROTOCOL_GENERATION);
                payload.push(1);
                payload.push(0);
                payload.push(0);
                payload.push(CAPABILITY_CBOR);
                let reply = Message { cid: msg.cid, cmd: CMD_INIT, payload };
                proof {
                    assert(reply@ =~= expected.2);
                }
                reply
            } else {
                error_reply(msg.cid, ErrorKind::InvalidParameter)
            }
        } else if msg.cmd == CMD_CANCEL {
            let reply = Message { cid: msg.cid, cmd: CMD_CANCEL, payload: Vec::new() };
            proof {
                assert(reply@ =~= expected.2);
            }
            reply
        } else if msg.cmd == CMD_CBOR {
            dispatch_cbor(msg.cid, &msg.payload, state, env)
        } else {
            error_reply(msg.cid, ErrorKind::InvalidCommand)
        }
    }

    /// Handles one raw 64-byte packet: parses it, feeds it through the
    /// reassembler, and — once a message completes or a frame is rejected
    /// — routes the message and fragments the reply. No packets are owed
    /// while a transaction is still accumulating.
    pub fn process_hid_packet(
        &mut self,
        packet: &Vec<u8>,
        timestamp: u64,
        state: &mut CtapState,
        env: &DispatchEnv,
    ) -> (replies: Vec<Vec<u8>>)
        requires
            old(self).wf(),
            packet@.len() == PACKET_SIZE as int,
        ensures
            final(self).wf(),
            ({
                let step = asm_step(
                    old(self).assembler@,
                    spec_parse(packet@)->Ok_0,
                    timestamp,
                );
                &&& final(self).assembler@ == step.state
                &&& match step.out {
                    StepOut::Pending => {
                        &&& replies@.len() == 0
                        &&& final(self).next_cid == old(self).next_cid
                        &&& *final(state) == *old(state)
                    },
                    StepOut::Complete(m) => {
                        let result = spec_process(old(self).next_cid, *old(state), m, *env);
                        &&& final(self).next_cid == result.0
                        &&& *final(state) == result.1
                        &&& replies@.len() == spec_num_packets(result.2.payload.len() as int)
                        &&& forall|i: int|
                            0 <= i < replies@.len() ==> replies@[i]@ == spec_fragment(result.2)[i]
                    },
                    StepOut::Reject(cid, kind) => {
                        let rep = spec_error_reply(cid, kind);
                        &&& final(self).next_cid == old(self).next_cid
                        &&& *final(state) == *old(state)
                        &&& replies@.len() == 1
                        &&& replies@[0]@ == spec_fragment(rep)[0]
                    },
                }
            }),
    {
        let frame = match parse(packet) {
            Ok(f) => f,
            Err(_) => {
                proof {
                    assert(false);
                }
                return Vec::new();
            },
        };
        proof {
            assert(frame_bounded(frame@));
        }
        match self.assembler.parse_frame(&frame, timestamp) {
            Ok(None) => Vec::new(),
            Ok(Some(msg)) => {
                let reply = self.process_message(msg, state, env);
                match fragment(&reply) {
                    Some(packets) => packets,
                    None => {
                        proof {
                            assert(false);
                        }
                        Vec::new()
                    },
                }
            },
            Err((cid, kind)) => {
                let reply = error_reply(cid, kind);
                match fragment(&reply) {
                    Some(packets) => packets,
                    None => {
                        proof {
                            assert(false);
                        }
                        Vec::new()
                    },
                }
            },
        }
    }
}

} // verus!
