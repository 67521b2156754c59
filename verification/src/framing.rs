//! The serial framing: `0x02`, a one-byte length, the payload, the payload's CRC-16 with its high
//! byte first, `0x03`.

use vstd::prelude::*;
use vstd::slice::{slice_subrange, slice_to_vec};
use crate::crc::{crc16, crc16_spec, lemma_crc_detects_byte_change};

verus! {

/// The byte that opens a frame.
pub const FRAME_START: u8 = 0x02;

/// The byte that closes a frame.
pub const FRAME_END: u8 = 0x03;

/// The high byte of the checksum of `payload`.
pub open spec fn crc_high(payload: Seq<u8>) -> u8 {
    (crc16_spec(payload) / 256) as u8
}

/// The low byte of the checksum of `payload`.
pub open spec fn crc_low(payload: Seq<u8>) -> u8 {
    (crc16_spec(payload) % 256) as u8
}

/// The frame around `payload`. The length byte holds the payload's length modulo 256.
pub open spec fn frame_of(payload: Seq<u8>) -> Seq<u8> {
    seq![FRAME_START, (payload.len() % 256) as u8] + payload + seq![
        crc_high(payload),
        crc_low(payload),
        FRAME_END,
    ]
}

/// Wraps `payload` in a frame.
pub fn encode_frame(payload: &[u8]) -> (out: Vec<u8>)
    ensures
        out@ == frame_of(payload@),
{
    let mut out: Vec<u8> = Vec::new();
    out.push(FRAME_START);
    out.push((payload.len() % 256) as u8);
    out.extend_from_slice(payload);
    let crc: u16 = crc16(payload);
    out.push((crc / 256) as u8);
    out.push((crc % 256) as u8);
    out.push(FRAME_END);
    assert(out@ =~= frame_of(payload@));
    out
}

/// The payload of the frame that the start byte at `i` announces.
pub open spec fn payload_at(buf: Seq<u8>, i: int) -> Seq<u8> {
    buf.subrange(i + 2, i + 2 + buf[i + 1])
}

/// A frame starts at `i` and more bytes are needed to tell whether it is valid.
pub open spec fn pending_at(buf: Seq<u8>, i: int) -> bool {
    &&& 0 <= i < buf.len()
    &&& buf[i] == FRAME_START
    &&& i + 1 == buf.len() || i + 5 + buf[i + 1] > buf.len()
}

/// A complete valid frame starts at `i`.
pub open spec fn frame_at(buf: Seq<u8>, i: int) -> bool {
    &&& 0 <= i
    &&& i + 1 < buf.len()
    &&& i + 5 + buf[i + 1] <= buf.len()
    &&& buf.subrange(i, i + 5 + buf[i + 1]) == frame_of(payload_at(buf, i))
}

/// A parser that looks at `i` has its answer there.
pub open spec fn settles_at(buf: Seq<u8>, i: int) -> bool {
    pending_at(buf, i) || frame_at(buf, i)
}

/// `i` is the first position with an answer.
pub open spec fn first_settled(buf: Seq<u8>, i: int) -> bool {
    &&& settles_at(buf, i)
    &&& forall|j: int| 0 <= j < i ==> !settles_at(buf, j)
}

/// The position behind the last start byte, 0 if there is none.
pub open spec fn after_last_start(buf: Seq<u8>) -> int
    decreases buf.len(),
{
    if buf.len() == 0 {
        0
    } else if buf.last() == FRAME_START {
        buf.len() as int
    } else {
        after_last_start(buf.drop_last())
    }
}

/// What one extraction takes out of `buf` and what it leaves: the payload of the first valid frame
/// with all bytes up to its end gone; or nothing, with the first unfinished frame kept, or with
/// all rejected start bytes gone.
pub open spec fn extract(buf: Seq<u8>) -> (Option<Seq<u8>>, Seq<u8>) {
    if exists|i: int| first_settled(buf, i) {
        let i = choose|i: int| first_settled(buf, i);
        if frame_at(buf, i) {
            (Some(payload_at(buf, i)), buf.skip(i + 5 + buf[i + 1]))
        } else {
            (None, buf.skip(i))
        }
    } else {
        (None, buf.skip(after_last_start(buf)))
    }
}

proof fn lemma_first_settled(buf: Seq<u8>, i: int)
    requires
        first_settled(buf, i),
    ensures
        extract(buf) == (if frame_at(buf, i) {
            (Some(payload_at(buf, i)), buf.skip(i + 5 + buf[i + 1]))
        } else {
            (None, buf.skip(i))
        }),
{
    let k = choose|k: int| first_settled(buf, k);
    assert(first_settled(buf, k));
    if k < i {
        assert(!settles_at(buf, k));
    } else if i < k {
        assert(!settles_at(buf, i));
    }
}

proof fn lemma_after_last_start(buf: Seq<u8>)
    ensures
        0 <= after_last_start(buf) <= buf.len(),
        after_last_start(buf) > 0 ==> buf[after_last_start(buf) - 1] == FRAME_START,
        forall|j: int| after_last_start(buf) <= j < buf.len() ==> buf[j] != FRAME_START,
    decreases buf.len(),
{
    if buf.len() > 0 && buf.last() != FRAME_START {
        lemma_after_last_start(buf.drop_last());
        assert forall|j: int| after_last_start(buf) <= j < buf.len() implies buf[j]
            != FRAME_START by {
            if j < buf.len() - 1 {
                assert(buf.drop_last()[j] == buf[j]);
            }
        }
    }
}

proof fn lemma_after_last_start_is(buf: Seq<u8>, k: int)
    requires
        0 <= k <= buf.len(),
        k > 0 ==> buf[k - 1] == FRAME_START,
        forall|j: int| k <= j < buf.len() ==> buf[j] != FRAME_START,
    ensures
        after_last_start(buf) == k,
{
    lemma_after_last_start(buf);
}

/// The bytes of a frame, spelled out.
proof fn lemma_frame_at_bytes(buf: Seq<u8>, i: int)
    requires
        0 <= i,
        i + 1 < buf.len(),
        i + 5 + buf[i + 1] <= buf.len(),
    ensures
        frame_at(buf, i) <==> {
            let n = buf[i + 1] as int;
            &&& buf[i] == FRAME_START
            &&& buf[i + 2 + n] == crc_high(payload_at(buf, i))
            &&& buf[i + 3 + n] == crc_low(payload_at(buf, i))
            &&& buf[i + 4 + n] == FRAME_END
        },
{
    let n = buf[i + 1] as int;
    let p = payload_at(buf, i);
    let f = frame_of(p);
    let s = buf.subrange(i, i + 5 + n);
    assert(p.len() == n);
    assert(f.len() == n + 5);
    assert(s[0] == buf[i]);
    assert(s[n + 2] == buf[i + 2 + n] && s[n + 3] == buf[i + 3 + n] && s[n + 4] == buf[i + 4 + n]);
    assert(f[0] == FRAME_START && f[1] == buf[i + 1] && f[n + 2] == crc_high(p) && f[n + 3]
        == crc_low(p) && f[n + 4] == FRAME_END);
    if buf[i] == FRAME_START && buf[i + 2 + n] == crc_high(p) && buf[i + 3 + n] == crc_low(p)
        && buf[i + 4 + n] == FRAME_END {
        assert forall|j: int| 0 <= j < s.len() implies s[j] == f[j] by {
            if 2 <= j < n + 2 {
                assert(f[j] == p[j - 2]);
            }
        }
        assert(s =~= f);
    }
}

/// Collects received bytes and takes the valid frames out of them.
pub struct FrameParser {
    buf: Vec<u8>,
}

impl View for FrameParser {
    type V = Seq<u8>;

    /// The bytes that have been received and neither delivered nor dropped.
    closed spec fn view(&self) -> Seq<u8> {
        self.buf@
    }
}

impl FrameParser {
    /// A parser that has received nothing.
    pub fn new() -> (parser: Self)
        ensures
            parser@ == Seq::<u8>::empty(),
    {
        FrameParser { buf: Vec::new() }
    }

    /// Appends received bytes.
    pub fn feed(&mut self, bytes: &[u8])
        ensures
            final(self)@ == old(self)@ + bytes@,
    {
        self.buf.extend_from_slice(bytes);
        assert(self.buf@ =~= old(self)@ + bytes@);
    }

    /// Forgets the first `n` bytes.
    fn drop_front(&mut self, n: usize)
        requires
            n <= old(self)@.len(),
        ensures
            final(self)@ == old(self)@.skip(n as int),
    {
        let rest: Vec<u8> = self.buf.split_off(n);
        self.buf = rest;
        assert(self.buf@ =~= old(self)@.skip(n as int));
    }

    /// Pops the payload of the next complete, CRC-valid frame, if there is one. Start bytes that
    /// turn out not to open a valid frame are dropped, and the search goes on behind them.
    pub fn next_frame(&mut self) -> (payload: Option<Vec<u8>>)
        ensures
            extract(old(self)@) == (match payload {
                Some(p) => Some(p@),
                None => None,
            }, final(self)@),
    {
        let n: usize = self.buf.len();
        let mut kept: usize = 0;
        loop
            invariant
                self@ == old(self)@,
                n == self.buf@.len(),
                kept <= n,
                kept > 0 ==> self.buf@[kept - 1] == FRAME_START,
                forall|j: int| 0 <= j < kept ==> !settles_at(self.buf@, j),
            decreases n - kept,
        {
            let mut start: usize = kept;
            while start < n && self.buf[start] != FRAME_START
                invariant
                    n == self.buf@.len(),
                    kept <= start <= n,
                    forall|j: int| kept <= j < start ==> self.buf@[j] != FRAME_START,
                decreases n - start,
            {
                start = start + 1;
            }
            proof {
                assert forall|j: int| 0 <= j < start implies !settles_at(self.buf@, j) by {
                    if kept <= j {
                        assert(self.buf@[j] != FRAME_START);
                        if frame_at(self.buf@, j) {
                            lemma_frame_at_bytes(self.buf@, j);
                        }
                    }
                }
            }
            if start == n {
                proof {
                    if exists|i: int| first_settled(self.buf@, i) {
                        let i = choose|i: int| first_settled(self.buf@, i);
                        assert(!settles_at(self.buf@, i));
                    }
                    lemma_after_last_start_is(self.buf@, kept as int);
                }
                self.drop_front(kept);
                return None;
            }
            if n - start < 2 {
                proof {
                    assert(pending_at(self.buf@, start as int));
                    lemma_first_settled(self.buf@, start as int);
                }
                self.drop_front(start);
                return None;
            }
            let len: usize = self.buf[start + 1] as usize;
            let total: usize = len + 5;
            if n - start < total {
                proof {
                    assert(pending_at(self.buf@, start as int));
                    lemma_first_settled(self.buf@, start as int);
                }
                self.drop_front(start);
                return None;
            }
            let payload: Vec<u8> = slice_to_vec(
                slice_subrange(self.buf.as_slice(), start + 2, start + 2 + len),
            );
            let crc_hi: u8 = self.buf[start + 2 + len];
            let crc_lo: u8 = self.buf[start + 3 + len];
            let tail: u8 = self.buf[start + 4 + len];
            let crc: u16 = crc16(payload.as_slice());
            proof {
                lemma_frame_at_bytes(self.buf@, start as int);
            }
            if tail == FRAME_END && crc_hi == (crc / 256) as u8 && crc_lo == (crc % 256) as u8 {
                proof {
                    lemma_first_settled(self.buf@, start as int);
                }
                self.drop_front(start + total);
                return Some(payload);
            }
            kept = start + 1;
        }
    }
}

/// An extraction that delivers a payload makes the buffer shorter; one that delivers nothing never
/// makes it longer.
pub proof fn lemma_extract_shrinks(buf: Seq<u8>)
    ensures
        extract(buf).0 is Some ==> extract(buf).1.len() + 5 <= buf.len(),
        extract(buf).1.len() <= buf.len(),
{
    lemma_after_last_start(buf);
    if exists|i: int| first_settled(buf, i) {
        let i = choose|i: int| first_settled(buf, i);
        assert(settles_at(buf, i));
    }
}

/// All payloads that repeated extraction delivers from `buf`, and what is left at the end.
pub open spec fn frames_in(buf: Seq<u8>) -> (Seq<Seq<u8>>, Seq<u8>)
    decreases buf.len(),
{
    proof {
        lemma_extract_shrinks(buf);
    }
    match extract(buf) {
        (Some(payload), rest) => (
            seq![payload] + frames_in(rest).0,
            frames_in(rest).1,
        ),
        (None, rest) => (Seq::empty(), rest),
    }
}

/// Bytes in front of which nothing is settled do not change what an extraction finds behind them.
proof fn lemma_extract_behind(front: Seq<u8>, back: Seq<u8>)
    requires
        forall|j: int| 0 <= j < front.len() ==> !settles_at(front + back, j),
        front.len() == 0 || front.last() == FRAME_START || back.contains(FRAME_START),
    ensures
        extract(front + back) == extract(back),
{
    let buf = front + back;
    let n = front.len() as int;
    assert forall|i: int| 0 <= i implies #[trigger] settles_at(back, i) == settles_at(
        buf,
        n + i,
    ) && frame_at(back, i) == frame_at(buf, n + i) by {
        if i + 1 < back.len() {
            assert(back[i] == buf[n + i] && back[i + 1] == buf[n + i + 1]);
            if i + 5 + back[i + 1] <= back.len() {
                assert(payload_at(back, i) =~= payload_at(buf, n + i));
                assert(back.subrange(i, i + 5 + back[i + 1]) =~= buf.subrange(
                    n + i,
                    n + i + 5 + back[i + 1],
                ));
            }
        } else if i < back.len() {
            assert(back[i] == buf[n + i]);
        }
    }
    if exists|i: int| settles_at(back, i) {
        let some = choose|i: int| settles_at(back, i);
        let i = lemma_first_exists(back, some);
        assert(first_settled(buf, n + i)) by {
            assert forall|j: int| 0 <= j < n + i implies !settles_at(buf, j) by {
                if j >= n {
                    assert(!settles_at(back, j - n));
                }
            }
        }
        lemma_first_settled(back, i);
        lemma_first_settled(buf, n + i);
        if frame_at(back, i) {
            assert(payload_at(back, i) =~= payload_at(buf, n + i));
            assert(back.skip(i + 5 + back[i + 1]) =~= buf.skip(n + i + 5 + buf[n + i + 1]));
        } else {
            assert(back.skip(i) =~= buf.skip(n + i));
        }
    } else {
        assert forall|j: int| !first_settled(buf, j) by {
            if settles_at(buf, j) {
                assert(j >= n);
                assert(!settles_at(back, j - n));
            }
        }
        assert forall|j: int| !first_settled(back, j) by {
        }
        let k = after_last_start(back);
        lemma_after_last_start(back);
        if k == 0 {
            assert forall|j: int| n <= j < buf.len() implies buf[j] != FRAME_START by {
                assert(buf[j] == back[j - n]);
            }
            lemma_after_last_start_is(buf, n);
        } else {
            assert(buf[n + k - 1] == back[k - 1]);
            assert forall|j: int| n + k <= j < buf.len() implies buf[j] != FRAME_START by {
                assert(buf[j] == back[j - n]);
            }
            lemma_after_last_start_is(buf, n + k);
        }
        assert(buf.skip(n + k) =~= back.skip(k));
    }
}

proof fn lemma_first_exists(buf: Seq<u8>, some: int) -> (first: int)
    requires
        settles_at(buf, some),
    ensures
        first_settled(buf, first),
        0 <= first <= some,
    decreases some,
{
    if exists|j: int| 0 <= j < some && settles_at(buf, j) {
        let j = choose|j: int| 0 <= j < some && settles_at(buf, j);
        lemma_first_exists(buf, j)
    } else {
        assert(first_settled(buf, some));
        some
    }
}

/// A position that is rejected stays rejected when more bytes arrive, and a valid frame stays
/// valid.
proof fn lemma_settled_stays(buf: Seq<u8>, more: Seq<u8>, i: int)
    requires
        0 <= i < buf.len(),
        !pending_at(buf, i),
    ensures
        !pending_at(buf + more, i),
        frame_at(buf + more, i) == frame_at(buf, i),
{
    let whole = buf + more;
    assert(whole[i] == buf[i]);
    if buf[i] == FRAME_START {
        assert(whole[i + 1] == buf[i + 1]);
        assert(payload_at(buf, i) =~= payload_at(whole, i));
        assert(buf.subrange(i, i + 5 + buf[i + 1]) =~= whole.subrange(i, i + 5 + buf[i + 1]));
    } else {
        if frame_at(whole, i) {
            lemma_frame_at_bytes(whole, i);
        }
        if frame_at(buf, i) {
            lemma_frame_at_bytes(buf, i);
        }
    }
}

/// What comes out does not depend on how much has arrived behind it. A payload that can be
/// delivered is delivered whatever bytes follow, and an extraction that finds nothing loses
/// nothing: it finds the same later as if it had not been tried.
pub proof fn lemma_extract_is_incremental(buf: Seq<u8>, more: Seq<u8>)
    ensures
        extract(buf).0 is Some ==> extract(buf + more) == (extract(buf).0, extract(buf).1 + more),
        extract(buf).0 is None ==> extract(buf + more) == extract(extract(buf).1 + more),
{
    let whole = buf + more;
    if exists|i: int| first_settled(buf, i) {
        let i = choose|i: int| first_settled(buf, i);
        lemma_first_settled(buf, i);
        assert forall|j: int| 0 <= j < i implies !settles_at(whole, j) by {
            assert(!settles_at(buf, j));
            lemma_settled_stays(buf, more, j);
        }
        if frame_at(buf, i) {
            assert(!pending_at(buf, i));
            lemma_settled_stays(buf, more, i);
            assert(first_settled(whole, i));
            lemma_first_settled(whole, i);
            assert(payload_at(buf, i) =~= payload_at(whole, i));
            assert(whole.skip(i + 5 + buf[i + 1]) =~= buf.skip(i + 5 + buf[i + 1]) + more);
        } else {
            let front = buf.take(i);
            let back = buf.skip(i) + more;
            assert(whole =~= front + back);
            assert(back[0] == buf[i]);
            lemma_extract_behind(front, back);
        }
    } else {
        let k = after_last_start(buf);
        lemma_after_last_start(buf);
        let front = buf.take(k);
        let back = buf.skip(k) + more;
        assert(whole =~= front + back);
        assert forall|j: int| 0 <= j < front.len() implies !settles_at(front + back, j) by {
            if settles_at(buf, j) {
                let first = lemma_first_exists(buf, j);
            }
            lemma_settled_stays(buf, more, j);
        }
        if k > 0 {
            assert(front.last() == buf[k - 1]);
        }
        lemma_extract_behind(front, back);
    }
}

/// Once an extraction has found nothing, trying again finds nothing and drops nothing more.
pub proof fn lemma_extract_settles(buf: Seq<u8>)
    requires
        extract(buf).0 is None,
    ensures
        extract(extract(buf).1) == extract(buf),
{
    let rest = extract(buf).1;
    lemma_extract_is_incremental(buf, Seq::empty());
    assert(buf + Seq::<u8>::empty() =~= buf);
    assert(rest + Seq::<u8>::empty() =~= rest);
}

proof fn lemma_frame_stands(payload: Seq<u8>, rest: Seq<u8>)
    requires
        payload.len() <= 255,
    ensures
        frame_at(frame_of(payload) + rest, 0),
        payload_at(frame_of(payload) + rest, 0) == payload,
        (frame_of(payload) + rest).skip(5 + payload.len() as int) == rest,
        (frame_of(payload) + rest)[1] == payload.len(),
{
    let f = frame_of(payload);
    let buf = f + rest;
    assert(f.len() == payload.len() + 5);
    assert(buf[1] == f[1] && f[1] == payload.len());
    assert(payload_at(buf, 0) =~= payload) by {
        assert forall|j: int| 0 <= j < payload.len() implies payload_at(buf, 0)[j]
            == payload[j] by {
            assert(buf[j + 2] == f[j + 2]);
        }
    }
    assert(buf.subrange(0, 5 + payload.len() as int) =~= f);
    assert(buf.skip(5 + payload.len() as int) =~= rest);
}

/// The parser resynchronises: bytes in front of a frame that hold no start byte are skipped, the
/// frame's payload is delivered, and what follows the frame stays.
pub proof fn lemma_extract_resyncs(junk: Seq<u8>, payload: Seq<u8>, rest: Seq<u8>)
    requires
        payload.len() <= 255,
        !junk.contains(FRAME_START),
    ensures
        extract(junk + frame_of(payload) + rest) == (Some(payload), rest),
{
    let back = frame_of(payload) + rest;
    let buf = junk + back;
    assert(junk + frame_of(payload) + rest =~= buf);
    lemma_frame_stands(payload, rest);
    assert(first_settled(back, 0));
    lemma_first_settled(back, 0);
    assert(back[0] == FRAME_START);
    assert forall|j: int| 0 <= j < junk.len() implies !settles_at(buf, j) by {
        assert(buf[j] == junk[j]);
        assert(junk.contains(junk[j]));
        if frame_at(buf, j) {
            lemma_frame_at_bytes(buf, j);
        }
    }
    lemma_extract_behind(junk, back);
}

/// A frame's payload comes back out of the parser as it went into the frame.
pub proof fn lemma_frame_round_trip(payload: Seq<u8>, rest: Seq<u8>)
    requires
        payload.len() <= 255,
    ensures
        extract(frame_of(payload) + rest) == (Some(payload), rest),
{
    lemma_extract_resyncs(Seq::empty(), payload, rest);
    assert(Seq::<u8>::empty() + frame_of(payload) + rest =~= frame_of(payload) + rest);
}

/// The frames around some payloads, one after the other.
pub open spec fn frames_of(payloads: Seq<Seq<u8>>) -> Seq<u8>
    decreases payloads.len(),
{
    if payloads.len() == 0 {
        Seq::empty()
    } else {
        frame_of(payloads.first()) + frames_of(payloads.drop_first())
    }
}

/// A stream of frames delivers all the payloads, in order, and leaves what follows the last frame
/// to be looked at next.
pub proof fn lemma_frames_come_out_in_order(payloads: Seq<Seq<u8>>, rest: Seq<u8>)
    requires
        forall|i: int| 0 <= i < payloads.len() ==> (#[trigger] payloads[i]).len() <= 255,
    ensures
        frames_in(frames_of(payloads) + rest) == (
            payloads + frames_in(rest).0,
            frames_in(rest).1,
        ),
    decreases payloads.len(),
{
    if payloads.len() == 0 {
        assert(frames_of(payloads) + rest =~= rest);
        assert(payloads + frames_in(rest).0 =~= frames_in(rest).0);
    } else {
        let first = payloads.first();
        let others = payloads.drop_first();
        lemma_frames_come_out_in_order(others, rest);
        assert(payloads[0].len() <= 255);
        lemma_frame_round_trip(first, frames_of(others) + rest);
        assert(frames_of(payloads) + rest =~= frame_of(first) + (frames_of(others) + rest));
        assert(seq![first] + (others + frames_in(rest).0) =~= payloads + frames_in(rest).0);
    }
}

/// Nothing comes out of nothing.
pub proof fn lemma_nothing_in_nothing()
    ensures
        extract(Seq::<u8>::empty()) == (None::<Seq<u8>>, Seq::<u8>::empty()),
        frames_in(Seq::<u8>::empty()) == (Seq::<Seq<u8>>::empty(), Seq::<u8>::empty()),
{
    let empty = Seq::<u8>::empty();
    assert forall|i: int| !first_settled(empty, i) by {
    }
    assert(empty.skip(0) =~= empty);
}

/// A single frame delivers its payload and leaves nothing.
pub proof fn lemma_single_frame(payload: Seq<u8>)
    requires
        payload.len() <= 255,
    ensures
        frames_in(frame_of(payload)) == (seq![payload], Seq::<u8>::empty()),
{
    let payloads = seq![payload];
    let empty = Seq::<u8>::empty();
    lemma_frames_come_out_in_order(payloads, empty);
    lemma_nothing_in_nothing();
    assert(payloads.drop_first() =~= Seq::<Seq<u8>>::empty());
    assert(frames_of(payloads.drop_first()) == empty);
    assert(frames_of(payloads) + empty =~= frame_of(payload));
    assert(payloads + Seq::<Seq<u8>>::empty() =~= payloads);
}

/// How the bytes are cut into pieces does not matter: emptying the parser after a first piece and
/// again after a second delivers what emptying it once after both delivers.
pub proof fn lemma_frames_in_pieces(first: Seq<u8>, second: Seq<u8>)
    ensures
        frames_in(first + second) == (
            frames_in(first).0 + frames_in(frames_in(first).1 + second).0,
            frames_in(frames_in(first).1 + second).1,
        ),
    decreases first.len(),
{
    lemma_extract_is_incremental(first, second);
    lemma_extract_shrinks(first);
    let (payload, rest) = extract(first);
    if payload is Some {
        lemma_frames_in_pieces(rest, second);
        let later = frames_in(frames_in(rest).1 + second);
        assert(seq![payload->0] + (frames_in(rest).0 + later.0) =~= (seq![payload->0] + frames_in(
            rest,
        ).0) + later.0);
    } else {
        assert(frames_in(first) == (Seq::<Seq<u8>>::empty(), rest));
        assert(Seq::<Seq<u8>>::empty() + frames_in(rest + second).0 =~= frames_in(rest + second).0);
    }
}

/// A frame with one damaged payload byte is not taken for a valid frame.
pub proof fn lemma_damaged_frame_is_rejected(
    before: Seq<u8>,
    sent: u8,
    received: u8,
    after: Seq<u8>,
    rest: Seq<u8>,
)
    requires
        before.len() + 1 + after.len() <= 255,
        sent != received,
    ensures
        ({
            let payload = before.push(sent) + after;
            let damaged = frame_of(payload).update(2 + before.len() as int, received);
            !settles_at(damaged + rest, 0)
        }),
{
    let payload = before.push(sent) + after;
    let seen = before.push(received) + after;
    let n = payload.len() as int;
    let damaged = frame_of(payload).update(2 + before.len() as int, received);
    let buf = damaged + rest;
    lemma_crc_detects_byte_change(before, sent, received, after);
    assert(buf[1] == frame_of(payload)[1] && frame_of(payload)[1] == n);
    assert(payload_at(buf, 0) =~= seen) by {
        assert forall|j: int| 0 <= j < n implies payload_at(buf, 0)[j] == seen[j] by {
            assert(buf[j + 2] == damaged[j + 2]);
            if j != before.len() {
                assert(damaged[j + 2] == frame_of(payload)[j + 2]);
                assert(frame_of(payload)[j + 2] == payload[j]);
            }
        }
    }
    assert(buf[n + 2] == frame_of(payload)[n + 2] && buf[n + 3] == frame_of(payload)[n + 3]);
    assert(frame_of(payload)[n + 2] == crc_high(payload) && frame_of(payload)[n + 3] == crc_low(
        payload,
    ));
    lemma_frame_at_bytes(buf, 0);
    assert(crc16_spec(payload) == (crc16_spec(payload) / 256) * 256 + crc16_spec(payload) % 256);
    assert(crc16_spec(seen) == (crc16_spec(seen) / 256) * 256 + crc16_spec(seen) % 256);
}

/// A frame byte by byte: 0x02, the length modulo 256, the payload, the two halves of the payload's
/// CRC with the high one first, 0x03.
pub proof fn lemma_frame_bytes(payload: Seq<u8>)
    ensures
        ({
            let f = frame_of(payload);
            let n = payload.len() as int;
            &&& f.len() == n + 5
            &&& f[0] == 0x02
            &&& f[1] == n % 256
            &&& f.subrange(2, 2 + n) == payload
            &&& f[2 + n] == crc16_spec(payload) as int / 256
            &&& f[3 + n] == crc16_spec(payload) as int % 256
            &&& f[4 + n] == 0x03
        }),
{
    assert(frame_of(payload).subrange(2, 2 + payload.len() as int) =~= payload);
}

/// Whatever the payload, a buffer that holds it as 0x02, length, payload, CRC high, CRC low, 0x03,
/// behind bytes none of which is 0x02, delivers it and keeps what follows.
pub proof fn lemma_spelled_out_frame_is_delivered(
    junk: Seq<u8>,
    payload: Seq<u8>,
    rest: Seq<u8>,
    buf: Seq<u8>,
)
    requires
        payload.len() <= 255,
        forall|i: int| 0 <= i < junk.len() ==> junk[i] != 0x02,
        buf == junk + seq![0x02u8, payload.len() as u8] + payload + seq![
            (crc16_spec(payload) / 256) as u8,
            (crc16_spec(payload) % 256) as u8,
            0x03u8,
        ] + rest,
    ensures
        extract(buf) == (Some(payload), rest),
{
    assert(!junk.contains(FRAME_START));
    lemma_extract_resyncs(junk, payload, rest);
    assert(buf =~= junk + frame_of(payload) + rest);
}

proof fn lemma_rejected(buf: Seq<u8>, j: int)
    requires
        0 <= j < buf.len(),
        (buf[j] != 0x02 || (j + 1 < buf.len() && j + 5 + buf[j + 1] <= buf.len() && !({
            let n = buf[j + 1] as int;
            let crc = crc16_spec(buf.subrange(j + 2, j + 2 + n)) as int;
            buf[j + 2 + n] == crc / 256 && buf[j + 3 + n] == crc % 256 && buf[j + 4 + n] == 0x03
        }))),
    ensures
        !settles_at(buf, j),
{
    if buf[j] == 0x02 {
        lemma_frame_at_bytes(buf, j);
    } else if frame_at(buf, j) {
        lemma_frame_at_bytes(buf, j);
    }
}

/// The first valid frame is delivered, whatever stands before it: bytes other than 0x02, and 0x02
/// bytes whose announced frames are there in full but have a wrong CRC or no 0x03 at their end.
/// Everything up to the frame's end is gone.
pub proof fn lemma_first_valid_frame_is_delivered(buf: Seq<u8>, i: int)
    requires
        0 <= i,
        i + 1 < buf.len(),
        i + 5 + buf[i + 1] <= buf.len(),
        buf[i] == 0x02,
        ({
            let n = buf[i + 1] as int;
            let crc = crc16_spec(buf.subrange(i + 2, i + 2 + n)) as int;
            buf[i + 2 + n] == crc / 256 && buf[i + 3 + n] == crc % 256 && buf[i + 4 + n] == 0x03
        }),
        forall|j: int| #![trigger buf[j]] 0 <= j < i ==> (buf[j] != 0x02 || (j + 1 < buf.len() && j + 5 + buf[j + 1] <= buf.len() && !({
            let n = buf[j + 1] as int;
            let crc = crc16_spec(buf.subrange(j + 2, j + 2 + n)) as int;
            buf[j + 2 + n] == crc / 256 && buf[j + 3 + n] == crc % 256 && buf[j + 4 + n] == 0x03
        }))),
    ensures
        extract(buf) == (
            Some(buf.subrange(i + 2, i + 2 + buf[i + 1])),
            buf.skip(i + 5 + buf[i + 1]),
        ),
{
    lemma_frame_at_bytes(buf, i);
    assert forall|j: int| 0 <= j < i implies !settles_at(buf, j) by {
        assert(buf[j] == buf[j]);
        lemma_rejected(buf, j);
    }
    lemma_first_settled(buf, i);
}

/// A 0x02 whose frame is not yet there in full, behind nothing but such rejected bytes, waits:
/// nothing is delivered and it stays first in the buffer.
pub proof fn lemma_unfinished_frame_waits(buf: Seq<u8>, i: int)
    requires
        0 <= i < buf.len(),
        buf[i] == 0x02,
        i + 1 == buf.len() || i + 5 + buf[i + 1] > buf.len(),
        forall|j: int| #![trigger buf[j]] 0 <= j < i ==> (buf[j] != 0x02 || (j + 1 < buf.len() && j + 5 + buf[j + 1] <= buf.len() && !({
            let n = buf[j + 1] as int;
            let crc = crc16_spec(buf.subrange(j + 2, j + 2 + n)) as int;
            buf[j + 2 + n] == crc / 256 && buf[j + 3 + n] == crc % 256 && buf[j + 4 + n] == 0x03
        }))),
    ensures
        extract(buf) == (None::<Seq<u8>>, buf.skip(i)),
{
    assert(pending_at(buf, i));
    assert forall|j: int| 0 <= j < i implies !settles_at(buf, j) by {
        assert(buf[j] == buf[j]);
        lemma_rejected(buf, j);
    }
    lemma_first_settled(buf, i);
}

/// Where every byte is rejected, nothing is delivered, and what stays begins right behind the last
/// 0x02, at the buffer's start if there is none.
pub proof fn lemma_rejected_bytes_go(buf: Seq<u8>, k: int)
    requires
        forall|j: int| #![trigger buf[j]] 0 <= j < buf.len() ==> (buf[j] != 0x02 || (j + 1 < buf.len() && j + 5 + buf[j + 1] <= buf.len() && !({
            let n = buf[j + 1] as int;
            let crc = crc16_spec(buf.subrange(j + 2, j + 2 + n)) as int;
            buf[j + 2 + n] == crc / 256 && buf[j + 3 + n] == crc % 256 && buf[j + 4 + n] == 0x03
        }))),
        0 <= k <= buf.len(),
        k > 0 ==> buf[k - 1] == 0x02,
        forall|j: int| k <= j < buf.len() ==> buf[j] != 0x02,
    ensures
        extract(buf) == (None::<Seq<u8>>, buf.skip(k)),
{
    assert forall|j: int| !first_settled(buf, j) by {
        if 0 <= j < buf.len() {
            assert(buf[j] == buf[j]);
            lemma_rejected(buf, j);
        }
    }
    lemma_after_last_start_is(buf, k);
}

/// Emptying a buffer is extracting until nothing comes: the first payload, then all that the rest
/// holds.
pub proof fn lemma_emptying_is_repeated_extraction(buf: Seq<u8>)
    ensures
        extract(buf).0 is None ==> frames_in(buf) == (Seq::<Seq<u8>>::empty(), extract(buf).1),
        extract(buf).0 matches Some(payload) ==> frames_in(buf) == (
            seq![payload] + frames_in(extract(buf).1).0,
            frames_in(extract(buf).1).1,
        ),
{
}

/// What each operation does: an encoded payload is its frame; a new parser holds nothing, feeding
/// appends, and a frame that is taken out is what extraction finds, with the rest kept.
pub proof fn lemma_framing_operations(
    payload: &[u8],
    frame: Vec<u8>,
    new: FrameParser,
    parser: &mut FrameParser,
    found: Option<Vec<u8>>,
    cksum: u16,
)
    ensures
        call_ensures(crc16, (payload,), cksum) ==> cksum == crc16_spec(payload@),
        call_ensures(encode_frame, (payload,), frame) ==> frame@ == frame_of(payload@),
        call_ensures(FrameParser::new, (), new) ==> new@.len() == 0,
        call_ensures(FrameParser::feed, (parser, payload), ()) ==> final(parser)@ == old(parser)@
            + payload@,
        call_ensures(FrameParser::next_frame, (parser,), found) ==> {
            &&& found is None <==> extract(old(parser)@).0 is None
            &&& found matches Some(p) ==> extract(old(parser)@).0 == Some(p@)
            &&& final(parser)@ == extract(old(parser)@).1
        },
{
}

} // verus!
