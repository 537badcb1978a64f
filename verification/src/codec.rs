//! Packet codec: splits one outbound message into fixed-size frames and
//! parses one inbound raw frame into a typed structure.

use vstd::prelude::*;
use crate::message::{
    ErrorKind, Message, MessageView, CONT_DATA_LEN, CONT_HEADER_LEN, INIT_DATA_LEN,
    INIT_HEADER_LEN, MAX_PAYLOAD_LEN, PACKET_SIZE,
};

verus! {

/// A typed link-layer frame.
#[derive(Debug, PartialEq, Eq)]
pub enum Frame {
    /// First frame of a message: carries the opcode and the total length.
    Initial { cid: u32, cmd: u8, total_len: u16, data: Vec<u8> },
    /// Later frame of a message: carries a sequence number.
    Continuation { cid: u32, seq: u8, data: Vec<u8> },
}

/// Mathematical model of a [`Frame`].
#[verifier::ext_equal]
pub enum FrameView {
    Initial { cid: u32, cmd: u8, total_len: u16, data: Seq<u8> },
    Continuation { cid: u32, seq: u8, data: Seq<u8> },
}

impl View for Frame {
    type V = FrameView;

    open spec fn view(&self) -> FrameView {
        match self {
            Frame::Initial { cid, cmd, total_len, data } => FrameView::Initial {
                cid: *cid,
                cmd: *cmd,
                total_len: *total_len,
                data: data@,
            },
            Frame::Continuation { cid, seq, data } => FrameView::Continuation {
                cid: *cid,
                seq: *seq,
                data: data@,
            },
        }
    }
}

/// The smaller of two integers.
pub open spec fn spec_min(a: int, b: int) -> int {
    if a < b {
        a
    } else {
        b
    }
}

/// The 16-bit value whose big-endian bytes are `hi`, `lo`.
pub open spec fn be16(hi: u8, lo: u8) -> u16 {
    (((hi as u16) << 8) | (lo as u16)) as u16
}

/// The 32-bit value whose big-endian bytes are `b0`..`b3`.
pub open spec fn be32(b0: u8, b1: u8, b2: u8, b3: u8) -> u32 {
    (((b0 as u32) << 24) | ((b1 as u32) << 16) | ((b2 as u32) << 8) | (b3 as u32)) as u32
}

/// The big-endian bytes of a 32-bit channel id.
pub open spec fn cid_bytes(cid: u32) -> Seq<u8> {
    seq![(cid >> 24) as u8, (cid >> 16) as u8, (cid >> 8) as u8, cid as u8]
}

/// The big-endian bytes of a 16-bit length field.
pub open spec fn len_bytes(n: u16) -> Seq<u8> {
    seq![(n >> 8) as u8, n as u8]
}

/// `s` followed by zeros up to a total of `count` bytes.
pub open spec fn zero_pad(s: Seq<u8>, count: int) -> Seq<u8>
    recommends
        s.len() <= count,
{
    s + Seq::new((count - s.len()) as nat, |i: int| 0u8)
}

proof fn lemma_be32_roundtrip(x: u32)
    ensures
        be32((x >> 24) as u8, (x >> 16) as u8, (x >> 8) as u8, x as u8) == x,
{
    assert((((((x >> 24) as u8) as u32) << 24) | ((((x >> 16) as u8) as u32) << 16) | ((((x >> 8)
        as u8) as u32) << 8) | (((x as u8) as u32))) as u32 == x) by (bit_vector);
}

proof fn lemma_be16_roundtrip(x: u16)
    ensures
        be16((x >> 8) as u8, x as u8) == x,
{
    assert((((((x >> 8) as u8) as u16) << 8) | (((x as u8) as u16))) as u16 == x) by (bit_vector);
}

/// What `parse` returns on a raw frame: a frame too short for its header is
/// a decoding error; otherwise the reserved top bit of byte 4 classifies the
/// frame, and the remaining bytes are its (still padded) payload chunk.
pub open spec fn spec_parse(bytes: Seq<u8>) -> Result<FrameView, ErrorKind> {
    if bytes.len() < CONT_HEADER_LEN as int {
        Err(ErrorKind::Decoding)
    } else if bytes[4] & 0x80 != 0 {
        if bytes.len() < INIT_HEADER_LEN as int {
            Err(ErrorKind::Decoding)
        } else {
            Ok(
                FrameView::Initial {
                    cid: be32(bytes[0], bytes[1], bytes[2], bytes[3]),
                    cmd: (bytes[4] & 0x7F) as u8,
                    total_len: be16(bytes[5], bytes[6]),
                    data: bytes.subrange(INIT_HEADER_LEN as int, bytes.len() as int),
                },
            )
        }
    } else {
        Ok(
            FrameView::Continuation {
                cid: be32(bytes[0], bytes[1], bytes[2], bytes[3]),
                seq: bytes[4],
                data: bytes.subrange(CONT_HEADER_LEN as int, bytes.len() as int),
            },
        )
    }
}

/// The model of a parse result.
pub open spec fn parse_result_view(r: Result<Frame, ErrorKind>) -> Result<FrameView, ErrorKind> {
    match r {
        Ok(f) => Ok(f@),
        Err(e) => Err(e),
    }
}

/// Parses one raw frame. Fails only on length, never on content.
pub fn parse(bytes: &Vec<u8>) -> (r: Result<Frame, ErrorKind>)
    ensures
        parse_result_view(r) == spec_parse(bytes@),
{
    if bytes.len() < CONT_HEADER_LEN {
        return Err(ErrorKind::Decoding);
    }
    let cid = be32_read(bytes);
    let marker = bytes[4];
    if marker & 0x80 != 0 {
        if bytes.len() < INIT_HEADER_LEN {
            return Err(ErrorKind::Decoding);
        }
        let data = vstd::slice::slice_to_vec(
            vstd::slice::slice_subrange(bytes.as_slice(), INIT_HEADER_LEN, bytes.len()),
        );
        let frame = Frame::Initial {
            cid,
            cmd: marker & 0x7F,
            total_len: be16_read(bytes[5], bytes[6]),
            data,
        };
        proof {
            assert(frame@ =~= spec_parse(bytes@)->Ok_0);
        }
        Ok(frame)
    } else {
        let data = vstd::slice::slice_to_vec(
            vstd::slice::slice_subrange(bytes.as_slice(), CONT_HEADER_LEN, bytes.len()),
        );
        let frame = Frame::Continuation { cid, seq: marker, data };
        proof {
            assert(frame@ =~= spec_parse(bytes@)->Ok_0);
        }
        Ok(frame)
    }
}

/// Reads the leading big-endian channel id of a raw frame.
fn be32_read(bytes: &Vec<u8>) -> (cid: u32)
    requires
        bytes@.len() >= 4,
    ensures
        cid == be32(bytes@[0], bytes@[1], bytes@[2], bytes@[3]),
{
    ((bytes[0] as u32) << 24) | ((bytes[1] as u32) << 16) | ((bytes[2] as u32) << 8) | (bytes[3]
        as u32)
}

/// Combines two big-endian bytes into a 16-bit length.
fn be16_read(hi: u8, lo: u8) -> (n: u16)
    ensures
        n == be16(hi, lo),
{
    ((hi as u16) << 8) | (lo as u16)
}

/// How many packets a payload of `len` bytes needs: one initial packet, then
/// one continuation per further 59 bytes.
pub open spec fn spec_num_packets(len: int) -> int {
    if len <= INIT_DATA_LEN as int {
        1
    } else {
        1 + (len - INIT_DATA_LEN as int + CONT_DATA_LEN as int - 1) / CONT_DATA_LEN as int
    }
}

/// The payload bytes the initial packet of `m` carries, before padding.
pub open spec fn init_chunk(m: MessageView) -> Seq<u8> {
    m.payload.subrange(0, spec_min(m.payload.len() as int, INIT_DATA_LEN as int))
}

/// The payload bytes the continuation packet with sequence number `k`
/// carries, before padding.
pub open spec fn cont_chunk(m: MessageView, k: int) -> Seq<u8>
    recommends
        0 <= k,
        INIT_DATA_LEN + k * CONT_DATA_LEN < m.payload.len(),
{
    m.payload.subrange(
        INIT_DATA_LEN as int + k * CONT_DATA_LEN as int,
        spec_min(
            m.payload.len() as int,
            INIT_DATA_LEN as int + (k + 1) * CONT_DATA_LEN as int,
        ),
    )
}

/// The raw bytes of the initial packet of `m`.
pub open spec fn spec_initial_packet(m: MessageView) -> Seq<u8> {
    cid_bytes(m.cid) + seq![(m.cmd | 0x80) as u8] + len_bytes(m.payload.len() as u16) + zero_pad(
        init_chunk(m),
        INIT_DATA_LEN as int,
    )
}

/// The raw bytes of the continuation packet of `m` with sequence number `k`.
pub open spec fn spec_cont_packet(m: MessageView, k: int) -> Seq<u8> {
    cid_bytes(m.cid) + seq![k as u8] + zero_pad(cont_chunk(m, k), CONT_DATA_LEN as int)
}

/// The whole packet sequence that carries `m`.
pub open spec fn spec_fragment(m: MessageView) -> Seq<Seq<u8>> {
    Seq::new(
        spec_num_packets(m.payload.len() as int) as nat,
        |i: int|
            if i == 0 {
                spec_initial_packet(m)
            } else {
                spec_cont_packet(m, i - 1)
            },
    )
}

/// The packet sequence of one outbound message, handed out frame by
/// frame: finite and not restartable — refragmenting takes a fresh call
/// to [`HidPacketIterator::new`].
pub struct HidPacketIterator {
    /// All packets of the message; the ones already handed out are spent.
    pub packets: Vec<Vec<u8>>,
    /// Index of the next packet to hand out.
    pub pos: usize,
}

impl HidPacketIterator {
    /// Internal consistency: the cursor never outruns the packets.
    pub open spec fn wf(&self) -> bool {
        self.pos <= self.packets@.len()
    }

    /// The packets not handed out yet.
    pub open spec fn remaining(&self) -> Seq<Seq<u8>> {
        Seq::new(
            (self.packets@.len() - self.pos) as nat,
            |i: int| self.packets@[self.pos + i]@,
        )
    }

    /// Fragments `m` into its packet sequence, or yields `None` if the
    /// payload is longer than the framing can carry.
    pub fn new(m: Message) -> (r: Option<HidPacketIterator>)
        ensures
            r is Some <==> m@.payload.len() <= MAX_PAYLOAD_LEN as int,
            r matches Some(it) ==> it.wf() && it.remaining() == spec_fragment(m@),
    {
        match fragment(&m) {
            None => None,
            Some(packets) => {
                let it = HidPacketIterator { packets, pos: 0 };
                proof {
                    assert(it.remaining() =~~= spec_fragment(m@));
                }
                Some(it)
            },
        }
    }

    /// Hands out the next packet, or `None` once all are spent.
    pub fn next(&mut self) -> (r: Option<Vec<u8>>)
        requires
            old(self).wf(),
        ensures
            final(self).wf(),
            old(self).remaining().len() == 0 ==> r is None && final(self).remaining()
                == old(self).remaining(),
            old(self).remaining().len() > 0 ==> (r matches Some(packet) && packet@ == old(
                self,
            ).remaining()[0] && final(self).remaining() == old(self).remaining().drop_first()),
    {
        if self.pos == self.packets.len() {
            proof {
                assert(self.remaining() =~~= old(self).remaining());
            }
            None
        } else {
            let mut taken: Vec<u8> = Vec::new();
            core::mem::swap(&mut self.packets[self.pos], &mut taken);
            self.pos = self.pos + 1;
            proof {
                assert(self.remaining() =~~= old(self).remaining().drop_first());
            }
            Some(taken)
        }
    }
}

/// The byte of `data` at `i`, or zero where `data` is too short.
pub open spec fn byte_or_zero(data: Seq<u8>, i: int) -> u8 {
    if 0 <= i < data.len() {
        data[i]
    } else {
        0
    }
}

/// Builds a message from raw bytes: the first four bytes are the channel
/// id, the fifth the opcode, the rest the payload; what the bytes do not
/// reach stays zero or empty.
pub fn raw_to_message(data: &Vec<u8>, len: usize) -> (m: Message)
    requires
        len == data@.len(),
    ensures
        m.cid == be32(
            byte_or_zero(data@, 0),
            byte_or_zero(data@, 1),
            byte_or_zero(data@, 2),
            byte_or_zero(data@, 3),
        ),
        m.cmd == byte_or_zero(data@, 4),
        m.payload@ == if len > 5 {
            data@.subrange(5, len as int)
        } else {
            Seq::<u8>::empty()
        },
{
    if len <= 4 {
        let mut cid_bytes_in: Vec<u8> = Vec::new();
        let mut i: usize = 0;
        while i < 4
            invariant
                i <= 4,
                len == data@.len(),
                len <= 4,
                cid_bytes_in@.len() == i,
                forall|j: int| 0 <= j < i ==> cid_bytes_in@[j] == byte_or_zero(data@, j),
            decreases 4 - i,
        {
            if i < len {
                let b = data[i];
                cid_bytes_in.push(b);
            } else {
                cid_bytes_in.push(0);
            }
            i = i + 1;
        }
        let cid = be32_read(&cid_bytes_in);
        let m = Message { cid, cmd: 0, payload: Vec::new() };
        proof {
            assert(m.payload@ =~= Seq::<u8>::empty());
        }
        m
    } else if len == 5 {
        Message { cid: be32_read(data), cmd: data[4], payload: Vec::new() }
    } else {
        let payload = vstd::slice::slice_to_vec(
            vstd::slice::slice_subrange(data.as_slice(), 5, len),
        );
        Message { cid: be32_read(data), cmd: data[4], payload }
    }
}

/// The typed frames that the packets of `spec_fragment(m)` encode: the
/// initial frame first, then one continuation per further payload chunk,
/// with sequence numbers counted from zero.
pub open spec fn spec_frames(m: MessageView) -> Seq<FrameView> {
    Seq::new(
        spec_num_packets(m.payload.len() as int) as nat,
        |i: int|
            if i == 0 {
                FrameView::Initial {
                    cid: m.cid,
                    cmd: m.cmd,
                    total_len: m.payload.len() as u16,
                    data: zero_pad(init_chunk(m), INIT_DATA_LEN as int),
                }
            } else {
                FrameView::Continuation {
                    cid: m.cid,
                    seq: (i - 1) as u8,
                    data: zero_pad(cont_chunk(m, i - 1), CONT_DATA_LEN as int),
                }
            },
    )
}

/// Parsing the initial packet of a message with a 7-bit opcode yields back
/// exactly the initial frame it encodes.
pub proof fn lemma_parse_initial_packet(m: MessageView)
    requires
        m.cmd <= 127,
        m.payload.len() <= MAX_PAYLOAD_LEN as int,
    ensures
        spec_parse(spec_initial_packet(m)) == Ok::<FrameView, ErrorKind>(spec_frames(m)[0]),
{
    let p = spec_initial_packet(m);
    assert(init_chunk(m).len() == spec_min(m.payload.len() as int, INIT_DATA_LEN as int));
    assert(p.len() == PACKET_SIZE as int);
    let cmd = m.cmd;
    assert(p[4] == (cmd | 0x80) as u8);
    assert(((cmd | 0x80) as u8) & 0x80 != 0 && ((cmd | 0x80) as u8) & 0x7F == cmd) by (bit_vector)
        requires
            cmd <= 127,
    ;
    lemma_be32_roundtrip(m.cid);
    lemma_be16_roundtrip(m.payload.len() as u16);
    assert(p[0] == (m.cid >> 24) as u8 && p[1] == (m.cid >> 16) as u8 && p[2] == (m.cid >> 8) as u8
        && p[3] == m.cid as u8);
    assert(p[5] == ((m.payload.len() as u16) >> 8) as u8 && p[6] == (m.payload.len() as u16) as u8);
    assert(p.subrange(INIT_HEADER_LEN as int, p.len() as int) =~= zero_pad(
        init_chunk(m),
        INIT_DATA_LEN as int,
    ));
    assert(spec_parse(p)->Ok_0 =~= spec_frames(m)[0]);
}

/// Parsing the continuation packet with sequence number `k` yields back
/// exactly the continuation frame it encodes.
pub proof fn lemma_parse_cont_packet(m: MessageView, k: int)
    requires
        0 <= k <= 127,
    ensures
        spec_parse(spec_cont_packet(m, k)) == Ok::<FrameView, ErrorKind>(
            FrameView::Continuation {
                cid: m.cid,
                seq: k as u8,
                data: zero_pad(cont_chunk(m, k), CONT_DATA_LEN as int),
            },
        ),
{
    let p = spec_cont_packet(m, k);
    let chunk = cont_chunk(m, k);
    assert(p.len() == 5 + zero_pad(chunk, CONT_DATA_LEN as int).len());
    assert(p[4] == k as u8);
    let kb = k as u8;
    assert(kb & 0x80 == 0) by (bit_vector)
        requires
            kb <= 127,
    ;
    lemma_be32_roundtrip(m.cid);
    assert(p[0] == (m.cid >> 24) as u8 && p[1] == (m.cid >> 16) as u8 && p[2] == (m.cid >> 8) as u8
        && p[3] == m.cid as u8);
    assert(p.subrange(CONT_HEADER_LEN as int, p.len() as int) =~= zero_pad(
        chunk,
        CONT_DATA_LEN as int,
    ));
    assert(spec_parse(p)->Ok_0 =~= FrameView::Continuation {
        cid: m.cid,
        seq: k as u8,
        data: zero_pad(chunk, CONT_DATA_LEN as int),
    });
}

/// Every packet of a fragmented message parses back to the frame it
/// encodes: the codec loses nothing.
pub proof fn lemma_fragment_parses(m: MessageView)
    requires
        m.cmd <= 127,
        m.payload.len() <= MAX_PAYLOAD_LEN as int,
    ensures
        spec_frames(m).len() == spec_fragment(m).len(),
        forall|i: int|
            0 <= i < spec_fragment(m).len() ==> spec_parse(spec_fragment(m)[i]) == Ok::<FrameView, ErrorKind>(
                #[trigger] spec_frames(m)[i],
            ),
{
    let n = spec_fragment(m).len();
    assert forall|i: int| 0 <= i < n implies spec_parse(spec_fragment(m)[i]) == Ok::<FrameView, ErrorKind>(
        #[trigger] spec_frames(m)[i],
    ) by {
        if i == 0 {
            lemma_parse_initial_packet(m);
        } else {
            assert(n <= 129);
            lemma_parse_cont_packet(m, i - 1);
            assert(spec_frames(m)[i] =~= FrameView::Continuation {
                cid: m.cid,
                seq: (i - 1) as u8,
                data: zero_pad(cont_chunk(m, i - 1), CONT_DATA_LEN as int),
            });
        }
    }
}

/// Appends the big-endian bytes of `cid`.
pub(crate) fn push_cid(out: &mut Vec<u8>, cid: u32)
    requires
        old(out)@.len() + 4 <= usize::MAX,
    ensures
        final(out)@ == old(out)@ + cid_bytes(cid),
{
    out.push((cid >> 24) as u8);
    out.push((cid >> 16) as u8);
    out.push((cid >> 8) as u8);
    out.push(cid as u8);
    proof {
        assert(out@ =~= old(out)@ + cid_bytes(cid));
    }
}

/// Appends `payload[from..to]` followed by zeros, `count` bytes in all.
fn push_chunk(out: &mut Vec<u8>, payload: &Vec<u8>, from: usize, to: usize, count: usize)
    requires
        from <= to <= payload@.len(),
        to - from <= count,
        old(out)@.len() + count <= usize::MAX,
    ensures
        final(out)@ == old(out)@ + zero_pad(
            payload@.subrange(from as int, to as int),
            count as int,
        ),
{
    let mut i: usize = from;
    while i < to
        invariant
            from <= i <= to <= payload@.len(),
            to - from <= count,
            old(out)@.len() + count <= usize::MAX,
            out@ == old(out)@ + payload@.subrange(from as int, i as int),
        decreases to - i,
    {
        let b = payload[i];
        out.push(b);
        proof {
            assert(out@ =~= old(out)@ + payload@.subrange(from as int, i as int + 1));
        }
        i = i + 1;
    }
    let mut added: usize = to - from;
    while added < count
        invariant
            to - from <= added <= count,
            old(out)@.len() + count <= usize::MAX,
            out@ == old(out)@ + payload@.subrange(from as int, to as int) + Seq::new(
                (added - (to - from)) as nat,
                |j: int| 0u8,
            ),
        decreases count - added,
    {
        out.push(0);
        added = added + 1;
        proof {
            assert(out@ =~= old(out)@ + payload@.subrange(from as int, to as int) + Seq::new(
                (added - (to - from)) as nat,
                |j: int| 0u8,
            ));
        }
    }
    proof {
        assert(out@ =~= old(out)@ + zero_pad(
            payload@.subrange(from as int, to as int),
            count as int,
        ));
    }
}

/// Splits `m` into the minimal ordered sequence of fixed-size packets, or
/// returns `None` if the payload is longer than the framing can carry.
pub fn fragment(m: &Message) -> (r: Option<Vec<Vec<u8>>>)
    ensures
        r is Some <==> m@.payload.len() <= MAX_PAYLOAD_LEN as int,
        r matches Some(packets) ==> {
            &&& packets@.len() == spec_num_packets(m@.payload.len() as int)
            &&& forall|i: int|
                0 <= i < packets@.len() ==> packets@[i]@ == spec_fragment(m@)[i]
        },
{
    let len = m.payload.len();
    if len > MAX_PAYLOAD_LEN {
        return None;
    }
    let total: u16 = len as u16;
    let mut packets: Vec<Vec<u8>> = Vec::new();
    let mut first: Vec<u8> = Vec::new();
    push_cid(&mut first, m.cid);
    first.push(m.cmd | 0x80);
    first.push((total >> 8) as u8);
    first.push(total as u8);
    let first_end: usize = if len < INIT_DATA_LEN {
        len
    } else {
        INIT_DATA_LEN
    };
    push_chunk(&mut first, &m.payload, 0, first_end, INIT_DATA_LEN);
    proof {
        assert(first@ =~= spec_initial_packet(m@));
    }
    packets.push(first);
    let n_cont: usize = if len <= INIT_DATA_LEN {
        0
    } else {
        (len - INIT_DATA_LEN + CONT_DATA_LEN - 1) / CONT_DATA_LEN
    };
    assert(1 + n_cont == spec_num_packets(len as int));
    let mut k: usize = 0;
    while k < n_cont
        invariant
            k <= n_cont <= 128,
            len == m.payload@.len(),
            len <= MAX_PAYLOAD_LEN,
            1 + n_cont == spec_num_packets(len as int),
            k < n_cont ==> INIT_DATA_LEN + k * CONT_DATA_LEN < len,
            packets@.len() == 1 + k,
            forall|i: int| 0 <= i <= k ==> packets@[i]@ == spec_fragment(m@)[i],
        decreases n_cont - k,
    {
        let start: usize = INIT_DATA_LEN + k * CONT_DATA_LEN;
        let end: usize = if len < start + CONT_DATA_LEN {
            len
        } else {
            start + CONT_DATA_LEN
        };
        let mut packet: Vec<u8> = Vec::new();
        push_cid(&mut packet, m.cid);
        packet.push(k as u8);
        push_chunk(&mut packet, &m.payload, start, end, CONT_DATA_LEN);
        proof {
            assert(packet@ =~= spec_cont_packet(m@, k as int));
        }
        packets.push(packet);
        k = k + 1;
    }
    Some(packets)
}

} // verus!
