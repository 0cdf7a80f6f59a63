//! Framed transport: a frame is a four-byte big-endian length followed by
//! the payload; the receiver answers every complete payload with `OK`.

use vstd::prelude::*;

verus! {

/// Largest payload length that the four-byte header can carry.
pub const MAX_FRAME_LEN: u64 = 0xffff_ffff;

/// The four header bytes that announce a payload of `n` bytes.
pub open spec fn header_bytes(n: nat) -> Seq<u8> {
    seq![
        ((n / 0x100_0000) % 0x100) as u8,
        ((n / 0x1_0000) % 0x100) as u8,
        ((n / 0x100) % 0x100) as u8,
        (n % 0x100) as u8,
    ]
}

/// The length that four header bytes announce.
pub open spec fn header_value(b: Seq<u8>) -> nat {
    (b[0] as nat) * 0x100_0000 + (b[1] as nat) * 0x1_0000 + (b[2] as nat) * 0x100 + (b[3] as nat)
}

/// The acknowledgment a receiver writes after consuming a whole payload.
pub open spec fn ack_bytes() -> Seq<u8> {
    seq![0x4fu8, 0x4bu8]
}

/// The bytes that go on the wire for one payload.
pub open spec fn frame_bytes(payload: Seq<u8>) -> Seq<u8> {
    header_bytes(payload.len()) + payload
}

/// Decoding a header gives back the length it was made from.
pub proof fn lemma_header_round_trip(n: nat)
    requires
        n <= MAX_FRAME_LEN,
    ensures
        header_value(header_bytes(n)) == n,
{
    let b = header_bytes(n);
    assert(b[0] as nat == (n / 0x100_0000) % 0x100);
    assert(b[1] as nat == (n / 0x1_0000) % 0x100);
    assert(b[2] as nat == (n / 0x100) % 0x100);
    assert(b[3] as nat == n % 0x100);
    assert(((n / 0x100_0000) % 0x100) * 0x100_0000 + ((n / 0x1_0000) % 0x100) * 0x1_0000
        + ((n / 0x100) % 0x100) * 0x100 + n % 0x100 == n) by (nonlinear_arith)
        requires
            n <= 0xffff_ffff,
    ;
}

/// Header bytes for a payload of `size` bytes.
pub fn send_size(size: u32) -> (r: Vec<u8>)
    ensures
        r@ == header_bytes(size as nat),
{
    let b0 = ((size / 0x100_0000) % 0x100) as u8;
    let b1 = ((size / 0x1_0000) % 0x100) as u8;
    let b2 = ((size / 0x100) % 0x100) as u8;
    let b3 = (size % 0x100) as u8;
    let r = vec![b0, b1, b2, b3];
    assert(r@ =~= header_bytes(size as nat));
    r
}

/// The length announced by a four-byte header.
pub fn recv_size(hdr: &[u8]) -> (r: u32)
    requires
        hdr@.len() == 4,
    ensures
        r as nat == header_value(hdr@),
{
    let v: u32 = (hdr[0] as u32) * 0x100_0000 + (hdr[1] as u32) * 0x1_0000 + (hdr[2] as u32) * 0x100
        + (hdr[3] as u32);
    v
}

/// Frame for `payload`, or `None` when its length does not fit the header.
pub fn encode_frame(payload: &[u8]) -> (r: Option<Vec<u8>>)
    ensures
        r is Some <==> payload@.len() <= MAX_FRAME_LEN,
        r matches Some(v) ==> v@ == frame_bytes(payload@),
{
    if payload.len() as u64 > MAX_FRAME_LEN {
        return None;
    }
    let mut out = send_size(payload.len() as u32);
    let mut i: usize = 0;
    while i < payload.len()
        invariant
            i <= payload@.len(),
            out@ == header_bytes(payload@.len()) + payload@.subrange(0, i as int),
        decreases payload@.len() - i,
    {
        out.push(payload[i]);
        i = i + 1;
        assert(out@ =~= header_bytes(payload@.len()) + payload@.subrange(0, i as int));
    }
    assert(payload@.subrange(0, payload@.len() as int) =~= payload@);
    Some(out)
}

/// The two acknowledgment bytes `OK`.
pub fn ack() -> (r: Vec<u8>)
    ensures
        r@ == ack_bytes(),
{
    let r = vec![0x4fu8, 0x4bu8];
    assert(r@ =~= ack_bytes());
    r
}

/// Whether the bytes read back after a send are the acknowledgment.
pub fn is_ack(buf: &[u8]) -> (r: bool)
    ensures
        r == (buf@ == ack_bytes()),
{
    if buf.len() != 2 {
        return false;
    }
    let r = buf[0] == 0x4f && buf[1] == 0x4b;
    if r {
        assert(buf@ =~= ack_bytes());
    }
    r
}

/// Where a receiver stands inside the current frame.
pub struct RecvState {
    pub header: Seq<u8>,
    pub payload: Seq<u8>,
}

/// A receiver that has not seen any byte of the current frame.
pub open spec fn recv_empty() -> RecvState {
    RecvState { header: Seq::empty(), payload: Seq::empty() }
}

/// One received byte: the new state, and the payload to acknowledge if the
/// byte completed a frame.
pub open spec fn recv_step(st: RecvState, b: u8) -> (RecvState, Option<Seq<u8>>) {
    if st.header.len() < 4 {
        let h = st.header.push(b);
        if h.len() == 4 && header_value(h) == 0 {
            (recv_empty(), Some(Seq::empty()))
        } else {
            (RecvState { header: h, payload: st.payload }, None)
        }
    } else {
        let p = st.payload.push(b);
        if p.len() >= header_value(st.header) {
            (recv_empty(), Some(p))
        } else {
            (RecvState { header: st.header, payload: p }, None)
        }
    }
}

/// Bytes received in order: the final state and every payload completed on
/// the way, in order. Each completed payload is acknowledged once.
pub open spec fn recv_all(st: RecvState, bytes: Seq<u8>) -> (RecvState, Seq<Seq<u8>>)
    decreases bytes.len(),
{
    if bytes.len() == 0 {
        (st, Seq::empty())
    } else {
        let prev = recv_all(st, bytes.drop_last());
        let (next, done) = recv_step(prev.0, bytes.last());
        match done {
            Some(p) => (next, prev.1.push(p)),
            None => (next, prev.1),
        }
    }
}

/// Receiving `a` then `b` is receiving `a + b`: how the bytes are cut into
/// reads, however small the reader's buffer, changes nothing.
pub proof fn lemma_recv_all_append(st: RecvState, a: Seq<u8>, b: Seq<u8>)
    ensures
        recv_all(st, a + b).0 == recv_all(recv_all(st, a).0, b).0,
        recv_all(st, a + b).1 == recv_all(st, a).1 + recv_all(recv_all(st, a).0, b).1,
    decreases b.len(),
{
    if b.len() == 0 {
        assert(a + b =~= a);
        assert(recv_all(st, a).1 + Seq::<Seq<u8>>::empty() =~= recv_all(st, a).1);
    } else {
        assert((a + b).drop_last() =~= a + b.drop_last());
        assert((a + b).last() == b.last());
        lemma_recv_all_append(st, a, b.drop_last());
        let mid = recv_all(st, a);
        let prev = recv_all(mid.0, b.drop_last());
        let (next, done) = recv_step(prev.0, b.last());
        match done {
            Some(p) => {
                assert(mid.1 + prev.1.push(p) =~= (mid.1 + prev.1).push(p));
            },
            None => {},
        }
    }
}

proof fn lemma_recv_header(n: nat)
    requires
        n <= MAX_FRAME_LEN,
    ensures
        n == 0 ==> recv_all(recv_empty(), header_bytes(n)) == (recv_empty(), seq![Seq::<u8>::empty()]),
        n > 0 ==> recv_all(recv_empty(), header_bytes(n)) == (
            RecvState { header: header_bytes(n), payload: Seq::empty() },
            Seq::<Seq<u8>>::empty(),
        ),
{
    let h = header_bytes(n);
    lemma_header_round_trip(n);
    let e = recv_empty();
    assert(h.subrange(0, 0) =~= Seq::<u8>::empty());
    assert(recv_all(e, h.subrange(0, 0)) == (e, Seq::<Seq<u8>>::empty()));
    assert(h.subrange(0, 1).drop_last() =~= h.subrange(0, 0));
    assert(e.header.push(h[0]) =~= h.subrange(0, 1));
    assert(recv_all(e, h.subrange(0, 1)) == (
        RecvState { header: h.subrange(0, 1), payload: Seq::empty() },
        Seq::<Seq<u8>>::empty(),
    ));
    assert(h.subrange(0, 2).drop_last() =~= h.subrange(0, 1));
    assert(h.subrange(0, 1).push(h[1]) =~= h.subrange(0, 2));
    assert(recv_all(e, h.subrange(0, 2)) == (
        RecvState { header: h.subrange(0, 2), payload: Seq::empty() },
        Seq::<Seq<u8>>::empty(),
    ));
    assert(h.subrange(0, 3).drop_last() =~= h.subrange(0, 2));
    assert(h.subrange(0, 2).push(h[2]) =~= h.subrange(0, 3));
    assert(recv_all(e, h.subrange(0, 3)) == (
        RecvState { header: h.subrange(0, 3), payload: Seq::empty() },
        Seq::<Seq<u8>>::empty(),
    ));
    assert(h.drop_last() =~= h.subrange(0, 3));
    assert(h.subrange(0, 3).push(h[3]) =~= h);
    assert(Seq::<Seq<u8>>::empty().push(Seq::<u8>::empty()) =~= seq![Seq::<u8>::empty()]);
}

proof fn lemma_recv_payload(h: Seq<u8>, p: Seq<u8>, k: nat)
    requires
        h.len() == 4,
        header_value(h) == p.len(),
        0 < k <= p.len(),
    ensures
        k < p.len() ==> recv_all(RecvState { header: h, payload: Seq::empty() }, p.subrange(0, k as int))
            == (RecvState { header: h, payload: p.subrange(0, k as int) }, Seq::<Seq<u8>>::empty()),
        k == p.len() ==> recv_all(RecvState { header: h, payload: Seq::empty() }, p.subrange(0, k as int))
            == (recv_empty(), seq![p]),
    decreases k,
{
    let st = RecvState { header: h, payload: Seq::empty() };
    let q = p.subrange(0, k as int);
    assert(q.drop_last() =~= p.subrange(0, k - 1));
    if k == 1 {
        assert(p.subrange(0, 0) =~= Seq::<u8>::empty());
        assert(Seq::<u8>::empty().push(p[0]) =~= p.subrange(0, 1));
    } else {
        lemma_recv_payload(h, p, (k - 1) as nat);
        assert(p.subrange(0, k - 1).push(p[k - 1]) =~= q);
    }
    if k == p.len() {
        assert(q =~= p);
        assert(Seq::<Seq<u8>>::empty().push(p) =~= seq![p]);
    }
}

/// A whole frame fed to a fresh receiver, in chunks of any size, completes
/// exactly one payload, equal to the one sent, so exactly one `OK` goes
/// back; the receiver is then ready for the next frame.
pub proof fn lemma_one_ack_per_frame(payload: Seq<u8>)
    requires
        payload.len() <= MAX_FRAME_LEN,
    ensures
        recv_all(recv_empty(), frame_bytes(payload)) == (recv_empty(), seq![payload]),
{
    let n = payload.len();
    lemma_recv_header(n);
    lemma_header_round_trip(n);
    lemma_recv_all_append(recv_empty(), header_bytes(n), payload);
    if n == 0 {
        assert(frame_bytes(payload) =~= header_bytes(n));
        assert(payload =~= Seq::<u8>::empty());
    } else {
        lemma_recv_payload(header_bytes(n), payload, n);
        assert(payload.subrange(0, n as int) =~= payload);
        assert(Seq::<Seq<u8>>::empty() + seq![payload] =~= seq![payload]);
    }
}

/// Frames sent one after another are each acknowledged once, in order.
pub proof fn lemma_acks_in_order(first: Seq<u8>, rest: Seq<u8>)
    requires
        first.len() <= MAX_FRAME_LEN,
    ensures
        recv_all(recv_empty(), frame_bytes(first) + rest).1
            == seq![first] + recv_all(recv_empty(), rest).1,
        recv_all(recv_empty(), frame_bytes(first) + rest).0 == recv_all(recv_empty(), rest).0,
{
    lemma_one_ack_per_frame(first);
    lemma_recv_all_append(recv_empty(), frame_bytes(first), rest);
}

/// Incremental frame receiver: bytes may arrive in chunks of any size.
pub struct FrameReceiver {
    header: Vec<u8>,
    payload: Vec<u8>,
}

impl FrameReceiver {
    pub closed spec fn view(&self) -> RecvState {
        RecvState { header: self.header@, payload: self.payload@ }
    }

    pub closed spec fn wf(&self) -> bool {
        &&& self.header@.len() <= 4
        &&& self.header@.len() < 4 ==> self.payload@.len() == 0
        &&& self.header@.len() == 4 ==> self.payload@.len() < header_value(self.header@)
    }

    /// A receiver waiting for the first byte of a frame.
    pub fn new() -> (r: FrameReceiver)
        ensures
            r.wf(),
            r.view() == recv_empty(),
    {
        let r = FrameReceiver { header: Vec::new(), payload: Vec::new() };
        assert(r.view().header =~= recv_empty().header);
        assert(r.view().payload =~= recv_empty().payload);
        r
    }

    /// Takes one byte; returns the payload when the byte completes a frame.
    pub fn feed(&mut self, b: u8) -> (r: Option<Vec<u8>>)
        requires
            old(self).wf(),
        ensures
            final(self).wf(),
            final(self).view() == recv_step(old(self).view(), b).0,
            r is Some <==> recv_step(old(self).view(), b).1 is Some,
            r matches Some(v) ==> recv_step(old(self).view(), b).1 == Some(v@),
    {
        if self.header.len() < 4 {
            self.header.push(b);
            if self.header.len() == 4 {
                let n = recv_size(self.header.as_slice());
                if n == 0 {
                    self.header = Vec::new();
                    assert(self.header@ =~= Seq::<u8>::empty());
                    assert(self.payload@ =~= Seq::<u8>::empty());
                    assert(self.view() == recv_empty());
                    let out: Vec<u8> = Vec::new();
                    assert(out@ =~= Seq::<u8>::empty());
                    return Some(out);
                }
            }
            None
        } else {
            self.payload.push(b);
            let n = recv_size(self.header.as_slice());
            if self.payload.len() as u64 >= n as u64 {
                let mut out: Vec<u8> = Vec::new();
                std::mem::swap(&mut out, &mut self.payload);
                self.header = Vec::new();
                assert(self.header@ =~= Seq::<u8>::empty());
                    assert(self.payload@ =~= Seq::<u8>::empty());
                    assert(self.view() == recv_empty());
                Some(out)
            } else {
                None
            }
        }
    }

    /// Takes a chunk of bytes; returns the payloads it completed, in order.
    pub fn feed_chunk(&mut self, chunk: &[u8]) -> (r: Vec<Vec<u8>>)
        requires
            old(self).wf(),
        ensures
            final(self).wf(),
            final(self).view() == recv_all(old(self).view(), chunk@).0,
            r@.map_values(|v: Vec<u8>| v@) == recv_all(old(self).view(), chunk@).1,
    {
        let ghost start = self.view();
        let mut out: Vec<Vec<u8>> = Vec::new();
        let mut i: usize = 0;
        while i < chunk.len()
            invariant
                i <= chunk@.len(),
                self.wf(),
                self.view() == recv_all(start, chunk@.subrange(0, i as int)).0,
                out@.map_values(|v: Vec<u8>| v@) == recv_all(start, chunk@.subrange(0, i as int)).1,
            decreases chunk@.len() - i,
        {
            let ghost before = out@;
            let done = self.feed(chunk[i]);
            let ghost pre = chunk@.subrange(0, i as int);
            let ghost post = chunk@.subrange(0, i + 1);
            assert(post.drop_last() =~= pre);
            assert(post.last() == chunk@[i as int]);
            match done {
                Some(p) => {
                    out.push(p);
                    assert(out@.map_values(|v: Vec<u8>| v@) =~= before.map_values(|v: Vec<u8>| v@).push(p@));
                },
                None => {},
            }
            i = i + 1;
        }
        assert(chunk@.subrange(0, chunk@.len() as int) =~= chunk@);
        out
    }
}

} // verus!
