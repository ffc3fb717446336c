//! The wire format of the log's parts: integers with the lowest byte
//! first, a truth value as one byte, a list as its length in 64 bits and
//! then its elements.
use vstd::prelude::*;
use vstd::bytes::{
    lemma_auto_spec_u32_to_from_le_bytes, lemma_auto_spec_u64_to_from_le_bytes,
    spec_u32_from_le_bytes, spec_u32_to_le_bytes, spec_u64_from_le_bytes, spec_u64_to_le_bytes,
    u32_from_le_bytes, u32_to_le_bytes, u64_from_le_bytes, u64_to_le_bytes,
};
use vstd::slice::slice_subrange;
use crate::tag::TagSeg;

verus! {

/// Number of bytes that one tainted range takes.
pub const SEG_SIZE: usize = 9;

/// The 32-bit number at `pos`, and the position after it.
pub open spec fn u32_at(s: Seq<u8>, pos: int) -> Option<(u32, int)> {
    if 0 <= pos && pos + 4 <= s.len() {
        Some((spec_u32_from_le_bytes(s.subrange(pos, pos + 4)), pos + 4))
    } else {
        None
    }
}

/// The 64-bit number at `pos`, and the position after it.
pub open spec fn u64_at(s: Seq<u8>, pos: int) -> Option<(u64, int)> {
    if 0 <= pos && pos + 8 <= s.len() {
        Some((spec_u64_from_le_bytes(s.subrange(pos, pos + 8)), pos + 8))
    } else {
        None
    }
}

/// The truth value at `pos`, and the position after it. A byte other than
/// zero and one is no truth value.
pub open spec fn bool_at(s: Seq<u8>, pos: int) -> Option<(bool, int)> {
    if 0 <= pos && pos + 1 <= s.len() && s[pos] <= 1 {
        Some((s[pos] == 1, pos + 1))
    } else {
        None
    }
}

/// The tainted range at `pos`, and the position after it.
pub open spec fn seg_at(s: Seq<u8>, pos: int) -> Option<(TagSeg, int)> {
    match u32_at(s, pos) {
        Some((begin, p1)) => match u32_at(s, p1) {
            Some((end, p2)) => match bool_at(s, p2) {
                Some((sign, p3)) => Some((TagSeg { begin, end, sign }, p3)),
                None => None,
            },
            None => None,
        },
        None => None,
    }
}

/// The `n` tainted ranges from `pos` on, and the position after them.
pub open spec fn segs_at(s: Seq<u8>, pos: int, n: nat) -> Option<(Seq<TagSeg>, int)>
    decreases n,
{
    if n == 0 {
        if 0 <= pos <= s.len() {
            Some((Seq::empty(), pos))
        } else {
            None
        }
    } else {
        match segs_at(s, pos, (n - 1) as nat) {
            Some((segs, p)) => match seg_at(s, p) {
                Some((seg, q)) => Some((segs.push(seg), q)),
                None => None,
            },
            None => None,
        }
    }
}

/// The list of tainted ranges at `pos`: its length, then the ranges.
pub open spec fn seg_list_at(s: Seq<u8>, pos: int) -> Option<(Seq<TagSeg>, int)> {
    match u64_at(s, pos) {
        Some((n, p)) => segs_at(s, p, n as nat),
        None => None,
    }
}

/// The list of bytes at `pos`: its length, then the bytes.
pub open spec fn bytes_at(s: Seq<u8>, pos: int) -> Option<(Seq<u8>, int)> {
    match u64_at(s, pos) {
        Some((n, p)) => if p + n <= s.len() {
            Some((s.subrange(p, p + n), p + n))
        } else {
            None
        },
        None => None,
    }
}

/// A 32-bit number on the wire.
pub open spec fn enc_u32(x: u32) -> Seq<u8> {
    spec_u32_to_le_bytes(x)
}

/// A 64-bit number on the wire.
pub open spec fn enc_u64(x: u64) -> Seq<u8> {
    spec_u64_to_le_bytes(x)
}

/// A truth value on the wire.
pub open spec fn enc_bool(b: bool) -> Seq<u8> {
    seq![if b {
        1u8
    } else {
        0u8
    }]
}

/// A tainted range on the wire.
pub open spec fn enc_seg(seg: TagSeg) -> Seq<u8> {
    enc_u32(seg.begin) + enc_u32(seg.end) + enc_bool(seg.sign)
}

/// Tainted ranges on the wire, one after the other.
pub open spec fn enc_segs(segs: Seq<TagSeg>) -> Seq<u8>
    decreases segs.len(),
{
    if segs.len() == 0 {
        Seq::empty()
    } else {
        enc_segs(segs.drop_last()) + enc_seg(segs.last())
    }
}

/// A list of tainted ranges on the wire.
pub open spec fn enc_seg_list(segs: Seq<TagSeg>) -> Seq<u8> {
    enc_u64(segs.len() as u64) + enc_segs(segs)
}

/// A list of bytes on the wire.
pub open spec fn enc_bytes(bytes: Seq<u8>) -> Seq<u8> {
    enc_u64(bytes.len() as u64) + bytes
}

/// `part` stands in `s` at `pos`.
pub open spec fn holds(s: Seq<u8>, pos: int, part: Seq<u8>) -> bool {
    0 <= pos && pos + part.len() <= s.len() && s.subrange(pos, pos + part.len()) == part
}

/// Where two parts stand one after the other, each stands at its place.
pub proof fn lemma_holds_split(s: Seq<u8>, pos: int, a: Seq<u8>, b: Seq<u8>)
    requires
        holds(s, pos, a + b),
    ensures
        holds(s, pos, a),
        holds(s, pos + a.len(), b),
{
    let whole = s.subrange(pos, pos + (a + b).len());
    assert(s.subrange(pos, pos + a.len()) =~= whole.subrange(0, a.len() as int));
    assert((a + b).subrange(0, a.len() as int) =~= a);
    assert(s.subrange(pos + a.len(), pos + a.len() + b.len()) =~= whole.subrange(
        a.len() as int,
        (a + b).len() as int,
    ));
    assert((a + b).subrange(a.len() as int, (a + b).len() as int) =~= b);
}

/// A 32-bit number is read back from where it stands.
pub proof fn lemma_u32_round_trip(s: Seq<u8>, pos: int, x: u32)
    requires
        holds(s, pos, enc_u32(x)),
    ensures
        enc_u32(x).len() == 4,
        u32_at(s, pos) == Some((x, pos + 4)),
{
    lemma_auto_spec_u32_to_from_le_bytes();
}

/// A 64-bit number is read back from where it stands.
pub proof fn lemma_u64_round_trip(s: Seq<u8>, pos: int, x: u64)
    requires
        holds(s, pos, enc_u64(x)),
    ensures
        enc_u64(x).len() == 8,
        u64_at(s, pos) == Some((x, pos + 8)),
{
    lemma_auto_spec_u64_to_from_le_bytes();
}

/// A truth value is read back from where it stands.
pub proof fn lemma_bool_round_trip(s: Seq<u8>, pos: int, b: bool)
    requires
        holds(s, pos, enc_bool(b)),
    ensures
        bool_at(s, pos) == Some((b, pos + 1)),
{
    assert(s.subrange(pos, pos + 1)[0] == enc_bool(b)[0]);
}

/// A tainted range is read back from where it stands.
pub proof fn lemma_seg_round_trip(s: Seq<u8>, pos: int, seg: TagSeg)
    requires
        holds(s, pos, enc_seg(seg)),
    ensures
        enc_seg(seg).len() == 9,
        seg_at(s, pos) == Some((seg, pos + 9)),
{
    lemma_auto_spec_u32_to_from_le_bytes();
    lemma_holds_split(s, pos, enc_u32(seg.begin) + enc_u32(seg.end), enc_bool(seg.sign));
    lemma_holds_split(s, pos, enc_u32(seg.begin), enc_u32(seg.end));
    lemma_u32_round_trip(s, pos, seg.begin);
    lemma_u32_round_trip(s, pos + 4, seg.end);
    lemma_bool_round_trip(s, pos + 8, seg.sign);
}

/// Tainted ranges are read back from where they stand.
pub proof fn lemma_segs_round_trip(s: Seq<u8>, pos: int, segs: Seq<TagSeg>)
    requires
        holds(s, pos, enc_segs(segs)),
    ensures
        enc_segs(segs).len() == 9 * segs.len(),
        segs_at(s, pos, segs.len()) == Some((segs, pos + 9 * segs.len())),
    decreases segs.len(),
{
    if segs.len() > 0 {
        lemma_holds_split(s, pos, enc_segs(segs.drop_last()), enc_seg(segs.last()));
        lemma_segs_round_trip(s, pos, segs.drop_last());
        lemma_seg_round_trip(s, pos + 9 * (segs.len() - 1), segs.last());
        assert(segs.drop_last().push(segs.last()) =~= segs);
    } else {
        assert(segs =~= Seq::empty());
    }
}

/// A list of tainted ranges is read back from where it stands.
pub proof fn lemma_seg_list_round_trip(s: Seq<u8>, pos: int, segs: Seq<TagSeg>)
    requires
        segs.len() <= u64::MAX,
        holds(s, pos, enc_seg_list(segs)),
    ensures
        enc_seg_list(segs).len() == 8 + 9 * segs.len(),
        seg_list_at(s, pos) == Some((segs, pos + 8 + 9 * segs.len())),
{
    lemma_auto_spec_u64_to_from_le_bytes();
    lemma_holds_split(s, pos, enc_u64(segs.len() as u64), enc_segs(segs));
    lemma_u64_round_trip(s, pos, segs.len() as u64);
    lemma_segs_round_trip(s, pos + 8, segs);
}

/// A list of bytes is read back from where it stands.
pub proof fn lemma_bytes_round_trip(s: Seq<u8>, pos: int, bytes: Seq<u8>)
    requires
        bytes.len() <= u64::MAX,
        holds(s, pos, enc_bytes(bytes)),
    ensures
        enc_bytes(bytes).len() == 8 + bytes.len(),
        bytes_at(s, pos) == Some((bytes, pos + 8 + bytes.len())),
{
    lemma_auto_spec_u64_to_from_le_bytes();
    lemma_holds_split(s, pos, enc_u64(bytes.len() as u64), bytes);
    lemma_u64_round_trip(s, pos, bytes.len() as u64);
}

/// What reading ranges consumes: nine bytes for each.
pub proof fn lemma_segs_at_length(s: Seq<u8>, pos: int, n: nat)
    ensures
        match segs_at(s, pos, n) {
            Some((segs, q)) => segs.len() == n && q == pos + 9 * n && 0 <= pos && q <= s.len(),
            None => true,
        },
    decreases n,
{
    if n > 0 {
        lemma_segs_at_length(s, pos, (n - 1) as nat);
    }
}

/// Reads a 32-bit number.
pub fn read_u32(bytes: &[u8], pos: usize) -> (r: Option<(u32, usize)>)
    ensures
        match r {
            Some((x, next)) => u32_at(bytes@, pos as int) == Some((x, next as int)),
            None => u32_at(bytes@, pos as int).is_none(),
        },
{
    if pos > bytes.len() || bytes.len() - pos < 4 {
        return None;
    }
    let x = u32_from_le_bytes(slice_subrange(bytes, pos, pos + 4));
    Some((x, pos + 4))
}

/// Reads a 64-bit number.
pub fn read_u64(bytes: &[u8], pos: usize) -> (r: Option<(u64, usize)>)
    ensures
        match r {
            Some((x, next)) => u64_at(bytes@, pos as int) == Some((x, next as int)),
            None => u64_at(bytes@, pos as int).is_none(),
        },
{
    if pos > bytes.len() || bytes.len() - pos < 8 {
        return None;
    }
    let x = u64_from_le_bytes(slice_subrange(bytes, pos, pos + 8));
    Some((x, pos + 8))
}

/// Reads a truth value.
pub fn read_bool(bytes: &[u8], pos: usize) -> (r: Option<(bool, usize)>)
    ensures
        match r {
            Some((b, next)) => bool_at(bytes@, pos as int) == Some((b, next as int)),
            None => bool_at(bytes@, pos as int).is_none(),
        },
{
    if pos >= bytes.len() {
        return None;
    }
    let b = bytes[pos];
    if b > 1 {
        return None;
    }
    Some((b == 1, pos + 1))
}

/// Reads a tainted range.
pub fn read_seg(bytes: &[u8], pos: usize) -> (r: Option<(TagSeg, usize)>)
    ensures
        match r {
            Some((seg, next)) => seg_at(bytes@, pos as int) == Some((seg, next as int)),
            None => seg_at(bytes@, pos as int).is_none(),
        },
{
    let (begin, p1) = match read_u32(bytes, pos) {
        Some(r) => r,
        None => {
            return None;
        },
    };
    let (end, p2) = match read_u32(bytes, p1) {
        Some(r) => r,
        None => {
            return None;
        },
    };
    let (sign, p3) = match read_bool(bytes, p2) {
        Some(r) => r,
        None => {
            return None;
        },
    };
    Some((TagSeg { begin, end, sign }, p3))
}

/// Reads a list of tainted ranges.
pub fn read_seg_list(bytes: &[u8], pos: usize) -> (r: Option<(Vec<TagSeg>, usize)>)
    ensures
        match r {
            Some((segs, next)) => seg_list_at(bytes@, pos as int) == Some((segs@, next as int)),
            None => seg_list_at(bytes@, pos as int).is_none(),
        },
{
    let (n, start) = match read_u64(bytes, pos) {
        Some(r) => r,
        None => {
            return None;
        },
    };
    let room: usize = (bytes.len() - start) / SEG_SIZE;
    if n > room as u64 {
        proof {
            lemma_segs_at_length(bytes@, start as int, n as nat);
        }
        return None;
    }
    let mut segs: Vec<TagSeg> = Vec::new();
    let mut at: usize = start;
    let mut k: u64 = 0;
    while k < n
        invariant
            k <= n,
            start <= bytes@.len(),
            n <= (bytes@.len() - start) / 9,
            u64_at(bytes@, pos as int) == Some((n, start as int)),
            at == start + 9 * k,
            segs_at(bytes@, start as int, k as nat) == Some((segs@, at as int)),
        decreases n - k,
    {
        match read_seg(bytes, at) {
            Some((seg, next)) => {
                proof {
                    lemma_segs_at_length(bytes@, start as int, (k + 1) as nat);
                }
                segs.push(seg);
                at = next;
            },
            None => {
                proof {
                    assert(((k + 1) as nat - 1) as nat == k as nat);
                    assert(segs_at(bytes@, start as int, (k + 1) as nat).is_none());
                    lemma_segs_fail(bytes@, start as int, (k + 1) as nat, n as nat);
                }
                return None;
            },
        }
        k = k + 1;
    }
    Some((segs, at))
}

/// Where fewer ranges cannot be read, more cannot either.
pub proof fn lemma_segs_fail(s: Seq<u8>, pos: int, k: nat, n: nat)
    requires
        k <= n,
        segs_at(s, pos, k).is_none(),
    ensures
        segs_at(s, pos, n).is_none(),
    decreases n,
{
    if k < n {
        lemma_segs_fail(s, pos, k, (n - 1) as nat);
    }
}

/// Reads a list of bytes.
pub fn read_bytes(bytes: &[u8], pos: usize) -> (r: Option<(Vec<u8>, usize)>)
    ensures
        match r {
            Some((list, next)) => bytes_at(bytes@, pos as int) == Some((list@, next as int)),
            None => bytes_at(bytes@, pos as int).is_none(),
        },
{
    let (n, start) = match read_u64(bytes, pos) {
        Some(r) => r,
        None => {
            return None;
        },
    };
    if n > (bytes.len() - start) as u64 {
        return None;
    }
    let end: usize = start + (n as usize);
    let mut list: Vec<u8> = Vec::new();
    let mut i: usize = start;
    while i < end
        invariant
            start <= i <= end,
            end <= bytes@.len(),
            list@ == bytes@.subrange(start as int, i as int),
        decreases end - i,
    {
        list.push(bytes[i]);
        proof {
            assert(bytes@.subrange(start as int, i + 1) =~= bytes@.subrange(
                start as int,
                i as int,
            ).push(bytes@[i as int]));
        }
        i = i + 1;
    }
    Some((list, end))
}

/// Writes a 32-bit number.
pub fn write_u32(out: &mut Vec<u8>, x: u32)
    ensures
        final(out)@ == old(out)@ + enc_u32(x),
{
    let mut part = u32_to_le_bytes(x);
    out.append(&mut part);
}

/// Writes a 64-bit number.
pub fn write_u64(out: &mut Vec<u8>, x: u64)
    ensures
        final(out)@ == old(out)@ + enc_u64(x),
{
    let mut part = u64_to_le_bytes(x);
    out.append(&mut part);
}

/// Writes a truth value.
pub fn write_bool(out: &mut Vec<u8>, b: bool)
    ensures
        final(out)@ == old(out)@ + enc_bool(b),
{
    out.push(if b {
        1u8
    } else {
        0u8
    });
    proof {
        assert(out@ =~= old(out)@ + enc_bool(b));
    }
}

/// Writes a tainted range.
pub fn write_seg(out: &mut Vec<u8>, seg: &TagSeg)
    ensures
        final(out)@ == old(out)@ + enc_seg(*seg),
{
    write_u32(out, seg.begin);
    write_u32(out, seg.end);
    write_bool(out, seg.sign);
    proof {
        assert(out@ =~= old(out)@ + enc_seg(*seg));
    }
}

/// Writes a list of tainted ranges.
pub fn write_seg_list(out: &mut Vec<u8>, segs: &Vec<TagSeg>)
    ensures
        final(out)@ == old(out)@ + enc_seg_list(segs@),
{
    write_u64(out, segs.len() as u64);
    let ghost head = out@;
    let mut i: usize = 0;
    while i < segs.len()
        invariant
            i <= segs.len(),
            out@ == head + enc_segs(segs@.take(i as int)),
        decreases segs.len() - i,
    {
        let ghost before = out@;
        write_seg(out, &segs[i]);
        proof {
            assert(segs@.take(i + 1).drop_last() =~= segs@.take(i as int));
            assert(out@ =~= head + enc_segs(segs@.take(i + 1)));
        }
        i = i + 1;
    }
    proof {
        assert(segs@.take(i as int) =~= segs@);
        assert(out@ =~= old(out)@ + enc_seg_list(segs@));
    }
}

/// Writes a list of bytes.
pub fn write_bytes(out: &mut Vec<u8>, list: &Vec<u8>)
    ensures
        final(out)@ == old(out)@ + enc_bytes(list@),
{
    write_u64(out, list.len() as u64);
    let ghost head = out@;
    let mut i: usize = 0;
    while i < list.len()
        invariant
            i <= list.len(),
            out@ == head + list@.take(i as int),
        decreases list.len() - i,
    {
        out.push(list[i]);
        proof {
            assert(out@ =~= head + list@.take(i + 1));
        }
        i = i + 1;
    }
    proof {
        assert(list@.take(i as int) =~= list@);
        assert(out@ =~= old(out)@ + enc_bytes(list@));
    }
}

} // verus!
