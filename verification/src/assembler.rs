//! Frame recovery from the rolling buffer: locating the first HEADER..END
//! span, delivering it when it is a well-formed packet with a non-empty
//! payload, consuming the buffer through that END, and holding the buffer
//! under its high-water mark.

use crate::frame::{R200_FRAME_END, R200_FRAME_HEADER};
use crate::packet::{packet_valid, payload_rep, Packet};
use vstd::prelude::*;

verus! {

/// The rolling buffer's high-water mark in bytes.
pub const ROLLING_HIGH_WATER: usize = 8192;

/// What the rolling buffer is cut back to once it exceeds the mark.
pub const ROLLING_RETAIN: usize = 4096;

/// The first index holding byte `b`, if any.
pub open spec fn first_index_of(s: Seq<u8>, b: u8) -> Option<int>
    decreases s.len(),
{
    if s.len() == 0 {
        None
    } else if s[0] == b {
        Some(0int)
    } else {
        match first_index_of(s.drop_first(), b) {
            Some(i) => Some(i + 1),
            None => None,
        }
    }
}

/// What `first_index_of` finds: the first occurrence where one exists,
/// and nothing exactly when the byte does not occur.
pub proof fn lemma_first_index_of(s: Seq<u8>, b: u8)
    ensures
        match first_index_of(s, b) {
            Some(i) => 0 <= i < s.len() && s[i] == b && forall|j: int| 0 <= j < i ==> s[j] != b,
            None => forall|j: int| 0 <= j < s.len() ==> s[j] != b,
        },
    decreases s.len(),
{
    if s.len() == 0 {
    } else if s[0] == b {
    } else {
        lemma_first_index_of(s.drop_first(), b);
        match first_index_of(s.drop_first(), b) {
            Some(i) => {
                assert(s[i + 1] == s.drop_first()[i]);
                assert forall|j: int| 0 <= j < i + 1 implies s[j] != b by {
                    if j > 0 {
                        assert(s.drop_first()[j - 1] == s[j]);
                    }
                }
            },
            None => {
                assert forall|j: int| 0 <= j < s.len() implies s[j] != b by {
                    if j > 0 {
                        assert(s.drop_first()[j - 1] == s[j]);
                    }
                }
            },
        }
    }
}

/// An occurrence with nothing equal before it is what `first_index_of`
/// finds.
pub proof fn lemma_first_index_witness(s: Seq<u8>, b: u8, i: int)
    requires
        0 <= i < s.len(),
        s[i] == b,
        forall|j: int| 0 <= j < i ==> s[j] != b,
    ensures
        first_index_of(s, b) == Some(i),
{
    lemma_first_index_of(s, b);
    match first_index_of(s, b) {
        Some(k) => {
            if k < i {
                assert(s[k] == b);
            } else if k > i {
                assert(s[i] != b);
            }
        },
        None => {
            assert(s[i] != b);
        },
    }
}

/// The buffer after the high-water guard: unchanged up to the mark, cut
/// back to its retained tail beyond it.
pub open spec fn trim_rep(s: Seq<u8>) -> Seq<u8> {
    if s.len() > ROLLING_HIGH_WATER {
        s.subrange(s.len() - ROLLING_RETAIN, s.len() as int)
    } else {
        s
    }
}

/// The guard's bound: the buffer never exceeds the high-water mark after
/// it runs, and one that had exceeded the mark is cut to the retained tail.
pub proof fn lemma_trim_bounds(s: Seq<u8>)
    ensures
        trim_rep(s).len() <= ROLLING_HIGH_WATER,
        s.len() > ROLLING_HIGH_WATER ==> trim_rep(s).len() == ROLLING_RETAIN,
        s.len() <= ROLLING_HIGH_WATER ==> trim_rep(s) == s,
{
}

/// One slot fewer to fill, where a bound was given.
pub open spec fn dec_room(room: Option<nat>) -> Option<nat> {
    match room {
        Some(n) => Some((n - 1) as nat),
        None => None,
    }
}

/// One recovery pass over the rolling buffer: the buffer left behind, the
/// frame chunks delivered in arrival order, and whether the pass stopped
/// because it filled the remaining room.
///
/// A buffer with no HEADER anywhere is dropped whole (the documented lossy
/// noise-discard policy). A buffer with a HEADER but no END yet is kept,
/// cut back by the high-water guard, to wait for more bytes. Otherwise the
/// bytes from the first HEADER to the first END are a candidate chunk,
/// delivered exactly when it is a well-formed packet with a non-empty
/// payload; either way the buffer through that END is consumed, the guard
/// runs, and the remainder is examined again.
pub open spec fn recover_rep(rolling: Seq<u8>, room: Option<nat>) -> (Seq<u8>, Seq<Seq<u8>>, bool)
    recommends
        room matches Some(n) ==> n >= 1,
    decreases rolling.len(),
    via recover_rep_decreases
{
    match first_index_of(rolling, R200_FRAME_HEADER) {
        None => (Seq::empty(), Seq::empty(), false),
        Some(hi) => match first_index_of(rolling, R200_FRAME_END) {
            None => (trim_rep(rolling), Seq::empty(), false),
            Some(ei) => {
                let rest = trim_rep(rolling.skip(ei + 1));
                let chunk = rolling.subrange(hi, ei + 1);
                if hi + 4 <= ei && packet_valid(chunk) && payload_rep(chunk).len() > 0 {
                    if room == Some(1nat) {
                        (rest, seq![chunk], true)
                    } else {
                        let (buf, chunks, done) = recover_rep(rest, dec_room(room));
                        (buf, seq![chunk] + chunks, done)
                    }
                } else {
                    recover_rep(rest, room)
                }
            },
        },
    }
}

#[via_fn]
proof fn recover_rep_decreases(rolling: Seq<u8>, room: Option<nat>) {
    lemma_first_index_of(rolling, R200_FRAME_HEADER);
    lemma_first_index_of(rolling, R200_FRAME_END);
    match first_index_of(rolling, R200_FRAME_END) {
        Some(ei) => {
            lemma_trim_bounds(rolling.skip(ei + 1));
            assert(trim_rep(rolling.skip(ei + 1)).len() <= rolling.skip(ei + 1).len());
        },
        None => {},
    }
}

/// Every chunk a recovery pass delivers is a well-formed packet with a
/// non-empty payload.
pub proof fn lemma_recover_chunks_valid(rolling: Seq<u8>, room: Option<nat>)
    ensures
        forall|i: int|
            0 <= i < recover_rep(rolling, room).1.len() ==> packet_valid(
                #[trigger] recover_rep(rolling, room).1[i],
            ) && payload_rep(recover_rep(rolling, room).1[i]).len() > 0,
    decreases rolling.len(),
{
    lemma_first_index_of(rolling, R200_FRAME_HEADER);
    lemma_first_index_of(rolling, R200_FRAME_END);
    match first_index_of(rolling, R200_FRAME_HEADER) {
        None => {},
        Some(hi) => match first_index_of(rolling, R200_FRAME_END) {
            None => {},
            Some(ei) => {
                lemma_trim_bounds(rolling.skip(ei + 1));
                let rest = trim_rep(rolling.skip(ei + 1));
                let chunk = rolling.subrange(hi, ei + 1);
                if hi + 4 <= ei && packet_valid(chunk) && payload_rep(chunk).len() > 0 {
                    if room == Some(1nat) {
                        assert(recover_rep(rolling, room).1 =~= seq![chunk]);
                    } else {
                        lemma_recover_chunks_valid(rest, dec_room(room));
                        let cs = recover_rep(rolling, room).1;
                        let rc = recover_rep(rest, dec_room(room)).1;
                        assert(cs =~= seq![chunk] + rc);
                        assert forall|i: int|
                            0 <= i < cs.len() implies packet_valid(#[trigger] cs[i])
                            && payload_rep(cs[i]).len() > 0 by {
                            if i > 0 {
                                assert(cs[i] == rc[i - 1]);
                            }
                        }
                    }
                } else {
                    lemma_recover_chunks_valid(rest, room);
                    assert(recover_rep(rolling, room) == recover_rep(rest, room));
                }
            },
        },
    }
}

/// The buffer a recovery pass leaves behind never exceeds the high-water
/// mark.
pub proof fn lemma_recover_buffer_bounded(rolling: Seq<u8>, room: Option<nat>)
    ensures
        recover_rep(rolling, room).0.len() <= ROLLING_HIGH_WATER,
    decreases rolling.len(),
{
    lemma_first_index_of(rolling, R200_FRAME_HEADER);
    lemma_first_index_of(rolling, R200_FRAME_END);
    match first_index_of(rolling, R200_FRAME_HEADER) {
        None => {},
        Some(hi) => match first_index_of(rolling, R200_FRAME_END) {
            None => {
                lemma_trim_bounds(rolling);
            },
            Some(ei) => {
                lemma_trim_bounds(rolling.skip(ei + 1));
                let rest = trim_rep(rolling.skip(ei + 1));
                let chunk = rolling.subrange(hi, ei + 1);
                if hi + 4 <= ei && packet_valid(chunk) && payload_rep(chunk).len() > 0 {
                    if room == Some(1nat) {
                    } else {
                        lemma_recover_buffer_bounded(rest, dec_room(room));
                    }
                } else {
                    lemma_recover_buffer_bounded(rest, room);
                }
            },
        },
    }
}

/// A recovery pass never delivers more chunks than its room, fills the
/// room exactly when it reports that it stopped early, and never stops
/// early without a bound.
pub proof fn lemma_recover_count(rolling: Seq<u8>, room: Option<nat>)
    requires
        room matches Some(n) ==> n >= 1,
    ensures
        room is None ==> !recover_rep(rolling, room).2,
        room matches Some(n) ==> recover_rep(rolling, room).1.len() <= n && (recover_rep(
            rolling,
            room,
        ).2 <==> recover_rep(rolling, room).1.len() == n),
    decreases rolling.len(),
{
    lemma_first_index_of(rolling, R200_FRAME_HEADER);
    lemma_first_index_of(rolling, R200_FRAME_END);
    match first_index_of(rolling, R200_FRAME_HEADER) {
        None => {},
        Some(hi) => match first_index_of(rolling, R200_FRAME_END) {
            None => {},
            Some(ei) => {
                lemma_trim_bounds(rolling.skip(ei + 1));
                let rest = trim_rep(rolling.skip(ei + 1));
                let chunk = rolling.subrange(hi, ei + 1);
                if hi + 4 <= ei && packet_valid(chunk) && payload_rep(chunk).len() > 0 {
                    if room == Some(1nat) {
                    } else {
                        lemma_recover_count(rest, dec_room(room));
                    }
                } else {
                    lemma_recover_count(rest, room);
                }
            },
        },
    }
}

/// Noise with no HEADER anywhere is dropped whole and nothing is delivered.
pub proof fn lemma_noise_without_header_is_discarded(rolling: Seq<u8>, room: Option<nat>)
    requires
        first_index_of(rolling, R200_FRAME_HEADER) is None,
    ensures
        recover_rep(rolling, room) == (Seq::<u8>::empty(), Seq::<Seq<u8>>::empty(), false),
{
}

/// Once a HEADER has been seen, nothing is delivered until an END arrives:
/// the pass keeps the buffer, only cut back by the high-water guard.
pub proof fn lemma_no_end_no_delivery(rolling: Seq<u8>, room: Option<nat>)
    requires
        first_index_of(rolling, R200_FRAME_HEADER) is Some,
        first_index_of(rolling, R200_FRAME_END) is None,
    ensures
        recover_rep(rolling, room) == (trim_rep(rolling), Seq::<Seq<u8>>::empty(), false),
{
}

/// Leading noise that holds neither frame marker is discarded wholesale and
/// a complete frame behind it is still delivered: the pass ends as if the
/// noise had never arrived. The frame must be a well-formed packet with a
/// non-empty payload whose END byte occurs only at its last position.
pub proof fn lemma_noise_then_frame(noise: Seq<u8>, f: Seq<u8>)
    requires
        forall|j: int| 0 <= j < noise.len() ==> noise[j] != R200_FRAME_HEADER,
        forall|j: int| 0 <= j < noise.len() ==> noise[j] != R200_FRAME_END,
        packet_valid(f),
        payload_rep(f).len() > 0,
        f[0] == R200_FRAME_HEADER,
        f[f.len() - 1] == R200_FRAME_END,
        forall|j: int| 0 <= j < f.len() - 1 ==> f[j] != R200_FRAME_END,
    ensures
        recover_rep(noise + f, None) == recover_rep(f, None),
        recover_rep(noise + f, None) == (Seq::<u8>::empty(), seq![f], false),
{
    let s = noise + f;
    let hi = noise.len() as int;
    let ei = s.len() - 1;
    assert(s[hi] == R200_FRAME_HEADER);
    assert(forall|j: int| 0 <= j < hi ==> s[j] == noise[j]);
    lemma_first_index_witness(s, R200_FRAME_HEADER, hi);
    assert(s[ei] == f[f.len() - 1]);
    assert forall|j: int| 0 <= j < ei implies s[j] != R200_FRAME_END by {
        if j >= hi {
            assert(s[j] == f[j - hi]);
        }
    }
    lemma_first_index_witness(s, R200_FRAME_END, ei);
    assert(s.subrange(hi, ei + 1) =~= f);
    assert(s.skip(ei + 1) =~= Seq::<u8>::empty());
    lemma_trim_bounds(Seq::<u8>::empty());
    assert(packet_valid(f) ==> f.len() >= 7);
    assert(recover_rep(Seq::<u8>::empty(), None) == (
        Seq::<u8>::empty(),
        Seq::<Seq<u8>>::empty(),
        false,
    ));
    lemma_one_frame(f);
    assert(recover_rep(s, None).1 =~= seq![f]);
}

/// Two complete frames that arrive together are delivered as two packets,
/// in arrival order. Each frame must be a well-formed packet with a
/// non-empty payload whose END byte occurs only at its last position, and
/// the second must fit under the high-water mark.
pub proof fn lemma_two_frames_in_order(f1: Seq<u8>, f2: Seq<u8>)
    requires
        packet_valid(f1),
        packet_valid(f2),
        payload_rep(f1).len() > 0,
        payload_rep(f2).len() > 0,
        f1[0] == R200_FRAME_HEADER,
        f2[0] == R200_FRAME_HEADER,
        f1[f1.len() - 1] == R200_FRAME_END,
        f2[f2.len() - 1] == R200_FRAME_END,
        forall|j: int| 0 <= j < f1.len() - 1 ==> f1[j] != R200_FRAME_END,
        forall|j: int| 0 <= j < f2.len() - 1 ==> f2[j] != R200_FRAME_END,
        f2.len() <= ROLLING_HIGH_WATER,
    ensures
        recover_rep(f1 + f2, None) == (Seq::<u8>::empty(), seq![f1, f2], false),
{
    let s = f1 + f2;
    assert(s[0] == R200_FRAME_HEADER);
    lemma_first_index_witness(s, R200_FRAME_HEADER, 0);
    assert(s[f1.len() - 1] == R200_FRAME_END);
    assert(forall|j: int| 0 <= j < f1.len() - 1 ==> s[j] == f1[j]);
    lemma_first_index_witness(s, R200_FRAME_END, f1.len() - 1);
    let ei = f1.len() - 1;
    assert(s.subrange(0, ei + 1) =~= f1);
    assert(s.skip(ei + 1) =~= f2);
    lemma_trim_bounds(f2);
    assert(packet_valid(f1) ==> f1.len() >= 7);
    lemma_one_frame(f2);
    assert(recover_rep(s, None).1 =~= seq![f1, f2]);
}

/// One complete frame alone is delivered as one packet and leaves the
/// buffer empty. The frame must be a well-formed packet with a non-empty
/// payload whose END byte occurs only at its last position.
pub proof fn lemma_one_frame(f: Seq<u8>)
    requires
        packet_valid(f),
        payload_rep(f).len() > 0,
        f[0] == R200_FRAME_HEADER,
        f[f.len() - 1] == R200_FRAME_END,
        forall|j: int| 0 <= j < f.len() - 1 ==> f[j] != R200_FRAME_END,
    ensures
        recover_rep(f, None) == (Seq::<u8>::empty(), seq![f], false),
{
    lemma_first_index_witness(f, R200_FRAME_HEADER, 0);
    lemma_first_index_witness(f, R200_FRAME_END, f.len() - 1);
    let ei = f.len() - 1;
    assert(f.subrange(0, ei + 1) =~= f);
    assert(f.skip(ei + 1) =~= Seq::<u8>::empty());
    lemma_trim_bounds(Seq::<u8>::empty());
    assert(recover_rep(Seq::<u8>::empty(), None) == (
        Seq::<u8>::empty(),
        Seq::<Seq<u8>>::empty(),
        false,
    ));
    assert(recover_rep(f, None).1 =~= seq![f]);
}

/// The room an exec-level bound denotes.
pub open spec fn room_rep(room: Option<u32>) -> Option<nat> {
    match room {
        Some(n) => Some(n as nat),
        None => None,
    }
}

/// Looks for the first occurrence of a byte.
fn find_first(v: &Vec<u8>, b: u8) -> (r: Option<usize>)
    ensures
        match r {
            Some(i) => first_index_of(v@, b) == Some(i as int),
            None => first_index_of(v@, b) is None,
        },
{
    let n = v.len();
    let mut i: usize = 0;
    while i < n
        invariant
            n == v@.len(),
            i <= n,
            forall|j: int| 0 <= j < i ==> v@[j] != b,
        decreases n - i,
    {
        if v[i] == b {
            proof {
                lemma_first_index_witness(v@, b, i as int);
            }
            return Some(i);
        }
        i = i + 1;
    }
    proof {
        lemma_first_index_of(v@, b);
        match first_index_of(v@, b) {
            Some(k) => {
                assert(v@[k] != b);
            },
            None => {},
        }
    }
    None
}

/// Drops the first `k` bytes of a buffer.
fn drop_prefix(v: Vec<u8>, k: usize) -> (r: Vec<u8>)
    requires
        k <= v@.len(),
    ensures
        r@ == v@.skip(k as int),
{
    let n = v.len();
    let mut out: Vec<u8> = Vec::new();
    let mut i: usize = k;
    while i < n
        invariant
            k <= n,
            n == v@.len(),
            k <= i <= n,
            out@ == v@.subrange(k as int, i as int),
        decreases n - i,
    {
        out.push(v[i]);
        proof {
            assert(v@.subrange(k as int, i + 1) =~= v@.subrange(k as int, i as int) + seq![
                v@[i as int],
            ]);
        }
        i = i + 1;
    }
    proof {
        assert(v@.subrange(k as int, n as int) =~= v@.skip(k as int));
    }
    out
}

/// Copies the bytes of the range `from..to`.
fn copy_range(v: &Vec<u8>, from: usize, to: usize) -> (r: Vec<u8>)
    requires
        from <= to,
        to <= v@.len(),
    ensures
        r@ == v@.subrange(from as int, to as int),
{
    vstd::slice::slice_to_vec(vstd::slice::slice_subrange(v.as_slice(), from, to))
}

/// Runs the high-water guard: a buffer over the mark is cut back to its
/// retained tail.
fn trim_buffer(v: Vec<u8>) -> (r: Vec<u8>)
    ensures
        r@ == trim_rep(v@),
{
    if v.len() > ROLLING_HIGH_WATER {
        let k = v.len() - ROLLING_RETAIN;
        let out = drop_prefix(v, k);
        proof {
            assert(out@ =~= trim_rep(v@));
        }
        out
    } else {
        v
    }
}

/// One recovery pass over the rolling buffer. Takes the buffer and the
/// remaining room (`None` for an unbounded burst), and returns the buffer
/// left behind, the packets recovered in arrival order, and whether the
/// room was filled.
pub fn recover_frames(rolling: Vec<u8>, room: Option<u32>) -> (r: (Vec<u8>, Vec<Packet>, bool))
    requires
        room matches Some(n) ==> n >= 1,
    ensures
        ({
            let (buf, chunks, done) = recover_rep(rolling@, room_rep(room));
            &&& r.0@ == buf
            &&& r.1@.len() == chunks.len()
            &&& (forall|i: int| 0 <= i < chunks.len() ==> (#[trigger] r.1@[i])@ == chunks[i])
            &&& r.2 == done
        }),
    decreases rolling@.len(),
{
    let ghost rm = room_rep(room);
    match find_first(&rolling, R200_FRAME_HEADER) {
        None => (Vec::new(), Vec::new(), false),
        Some(hi) => {
            match find_first(&rolling, R200_FRAME_END) {
                None => {
                    let b = trim_buffer(rolling);
                    (b, Vec::new(), false)
                },
                Some(ei) => {
                    let buf_len = rolling.len();
                    proof {
                        lemma_first_index_of(rolling@, R200_FRAME_HEADER);
                        lemma_first_index_of(rolling@, R200_FRAME_END);
                        assert(ei < buf_len);
                    }
                    let ghost chunk_rep = rolling@.subrange(hi as int, ei + 1);
                    let mut emit: Option<Packet> = None;
                    if hi <= ei && ei - hi >= 4 {
                        let chunk = copy_range(&rolling, hi, ei + 1);
                        let p = Packet::new(chunk);
                        if p.is_valid() {
                            let data = p.get_data();
                            if data.len() > 0 {
                                emit = Some(p);
                            }
                        }
                    }
                    proof {
                        assert(emit is Some <==> hi + 4 <= ei && packet_valid(chunk_rep)
                            && payload_rep(chunk_rep).len() > 0);
                    }
                    let rest = trim_buffer(drop_prefix(rolling, ei + 1));
                    match emit {
                        Some(p) => {
                            let last_slot = match room {
                                Some(n) => n == 1,
                                None => false,
                            };
                            if last_slot {
                                let mut out: Vec<Packet> = Vec::new();
                                out.push(p);
                                proof {
                                    assert(out@.len() == recover_rep(rolling@, rm).1.len());
                                }
                                (rest, out, true)
                            } else {
                                let room2 = match room {
                                    Some(n) => Some(n - 1),
                                    None => None,
                                };
                                let (buf, mut chunks, done) = recover_frames(rest, room2);
                                let ghost chunks_snap = chunks@;
                                let mut out: Vec<Packet> = Vec::new();
                                out.push(p);
                                out.append(&mut chunks);
                                proof {
                                    assert(room_rep(room2) == dec_room(rm));
                                    let spec_chunks = recover_rep(rolling@, rm).1;
                                    let rec_chunks = recover_rep(rest@, dec_room(rm)).1;
                                    assert(spec_chunks =~= seq![chunk_rep] + rec_chunks);
                                    assert(out@ =~= seq![p] + chunks_snap);
                                    assert forall|i: int| 0 <= i < spec_chunks.len() implies (
                                    #[trigger] out@[i])@ == spec_chunks[i] by {
                                        if i > 0 {
                                            assert(out@[i] == chunks_snap[i - 1]);
                                        }
                                    }
                                }
                                (buf, out, done)
                            }
                        },
                        None => recover_frames(rest, room),
                    }
                },
            }
        },
    }
}

} // verus!
