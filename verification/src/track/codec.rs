//! The log of a tracking run on the wire: each record is a number that
//! tells its kind, followed by the record's fields in their order.
use vstd::prelude::*;
use vstd::bytes::{
    lemma_auto_spec_u32_to_from_le_bytes, lemma_auto_spec_u64_to_from_le_bytes,
    spec_u32_from_le_bytes, spec_u64_from_le_bytes,
};
use crate::cond_stmt_base::CondStmtBase;
use crate::conv::{
    bits_of, int_of, signed_of, to_bits, to_signed, to_word, wide64, wide64_of,
};
use crate::track::log_data::{LogData, LogMsg, LogView, MsgView};
use crate::track::wire::{
    bytes_at, enc_bytes, enc_seg_list, enc_u32, enc_u64, holds, lemma_bytes_round_trip,
    lemma_holds_split, lemma_seg_list_round_trip, lemma_u32_round_trip, lemma_u64_round_trip,
    read_bytes, read_seg_list, read_u32, read_u64, seg_list_at, u32_at, u64_at, write_bytes,
    write_seg_list, write_u32, write_u64,
};

verus! {

/// Kind of a record: the input ranges of a label.
pub const KIND_TAG: u32 = 0;

/// Kind of a record: probe bytes.
pub const KIND_MAGIC_BYTES: u32 = 1;

/// Kind of a record: a condition.
pub const KIND_COND: u32 = 2;

/// Kind of a record: a loaded library.
pub const KIND_LOAD: u32 = 3;

/// Number of bytes that a condition takes.
pub const COND_SIZE: usize = 64;

/// The 32-bit number that stands at `pos`.
pub open spec fn word_at(s: Seq<u8>, pos: int) -> u32 {
    spec_u32_from_le_bytes(s.subrange(pos, pos + 4))
}

/// The 64-bit number that stands at `pos`.
pub open spec fn long_at(s: Seq<u8>, pos: int) -> u64 {
    spec_u64_from_le_bytes(s.subrange(pos, pos + 8))
}

/// A condition on the wire: its fields in their order.
pub open spec fn enc_cond(c: CondStmtBase) -> Seq<u8> {
    enc_u32(c.cmpid) + enc_u32(bits_of(c.thread_id)) + enc_u32(c.context) + enc_u32(
        c.last_callsite,
    ) + enc_u32(c.order) + enc_u32(c.belong) + enc_u32(c.condition) + enc_u32(c.level) + enc_u32(
        c.op,
    ) + enc_u32(c.size) + enc_u32(c.lb1) + enc_u32(c.lb2) + enc_u64(c.arg1) + enc_u64(c.arg2)
}

/// The condition at `pos`, and the position after it.
pub open spec fn cond_at(s: Seq<u8>, pos: int) -> Option<(CondStmtBase, int)> {
    if 0 <= pos && pos + 64 <= s.len() {
        Some(
            (
                CondStmtBase {
                    cmpid: word_at(s, pos),
                    thread_id: signed_of(word_at(s, pos + 4)),
                    context: word_at(s, pos + 8),
                    last_callsite: word_at(s, pos + 12),
                    order: word_at(s, pos + 16),
                    belong: word_at(s, pos + 20),
                    condition: word_at(s, pos + 24),
                    level: word_at(s, pos + 28),
                    op: word_at(s, pos + 32),
                    size: word_at(s, pos + 36),
                    lb1: word_at(s, pos + 40),
                    lb2: word_at(s, pos + 44),
                    arg1: long_at(s, pos + 48),
                    arg2: long_at(s, pos + 56),
                },
                pos + 64,
            ),
        )
    } else {
        None
    }
}

/// No byte of the path is zero.
pub open spec fn is_path(path: Seq<u8>) -> bool {
    forall|k: int| 0 <= k < path.len() ==> path[k] != 0
}

/// A record on the wire.
pub open spec fn enc_msg(msg: MsgView) -> Seq<u8> {
    match msg {
        MsgView::Tag { lb, tag } => enc_u32(KIND_TAG) + enc_u32(lb) + enc_seg_list(tag),
        MsgView::MagicBytes { i, left, right } => enc_u32(KIND_MAGIC_BYTES) + enc_u64(
            wide64_of(i),
        ) + enc_bytes(left) + enc_bytes(right),
        MsgView::Cond { cond } => enc_u32(KIND_COND) + enc_cond(cond),
        MsgView::Load { path } => enc_u32(KIND_LOAD) + enc_bytes(path),
    }
}

/// The record can be written: its lists are not longer than the wire can
/// say, and a path has no zero byte.
pub open spec fn writable(msg: MsgView) -> bool {
    match msg {
        MsgView::Tag { lb, tag } => tag.len() <= u64::MAX,
        MsgView::MagicBytes { i, left, right } => left.len() <= u64::MAX && right.len()
            <= u64::MAX,
        MsgView::Cond { cond } => true,
        MsgView::Load { path } => path.len() <= u64::MAX && is_path(path),
    }
}

/// The probe bytes at `pos`: the number of the condition, then the two
/// lists of bytes.
pub open spec fn magic_at(s: Seq<u8>, pos: int) -> Option<(MsgView, int)> {
    match u64_at(s, pos) {
        Some((i, p1)) => match bytes_at(s, p1) {
            Some((left, p2)) => match bytes_at(s, p2) {
                Some((right, p3)) => if i <= usize::MAX {
                    Some((MsgView::MagicBytes { i: i as usize, left, right }, p3))
                } else {
                    None
                },
                None => None,
            },
            None => None,
        },
        None => None,
    }
}

/// The record at `pos`, and the position after it; nothing where no whole
/// well-formed record stands there.
pub open spec fn msg_at(s: Seq<u8>, pos: int) -> Option<(MsgView, int)> {
    match u32_at(s, pos) {
        Some((kind, p)) => if kind == KIND_TAG {
            match u32_at(s, p) {
                Some((lb, p1)) => match seg_list_at(s, p1) {
                    Some((tag, p2)) => Some((MsgView::Tag { lb, tag }, p2)),
                    None => None,
                },
                None => None,
            }
        } else if kind == KIND_MAGIC_BYTES {
            magic_at(s, p)
        } else if kind == KIND_COND {
            match cond_at(s, p) {
                Some((cond, p1)) => Some((MsgView::Cond { cond }, p1)),
                None => None,
            }
        } else if kind == KIND_LOAD {
            match bytes_at(s, p) {
                Some((path, p1)) => if is_path(path) {
                    Some((MsgView::Load { path }, p1))
                } else {
                    None
                },
                None => None,
            }
        } else {
            None
        },
        None => None,
    }
}

/// The records from `pos` on, up to the end or to the first place where no
/// well-formed record stands.
pub open spec fn msgs_at(s: Seq<u8>, pos: int) -> Seq<MsgView>
    decreases s.len() - pos,
{
    match msg_at(s, pos) {
        Some((msg, next)) => if pos < next <= s.len() {
            seq![msg] + msgs_at(s, next)
        } else {
            seq![msg]
        },
        None => Seq::empty(),
    }
}

/// Records on the wire, one after the other.
pub open spec fn enc_all(msgs: Seq<MsgView>) -> Seq<u8>
    decreases msgs.len(),
{
    if msgs.len() == 0 {
        Seq::empty()
    } else {
        enc_msg(msgs.first()) + enc_all(msgs.drop_first())
    }
}

/// A condition is read back from where it stands.
pub proof fn lemma_cond_round_trip(s: Seq<u8>, pos: int, c: CondStmtBase)
    requires
        holds(s, pos, enc_cond(c)),
    ensures
        enc_cond(c).len() == 64,
        cond_at(s, pos) == Some((c, pos + 64)),
{
    lemma_auto_spec_u32_to_from_le_bytes();
    lemma_auto_spec_u64_to_from_le_bytes();
    let f0 = enc_u32(c.cmpid);
    let f1 = f0 + enc_u32(bits_of(c.thread_id));
    let f2 = f1 + enc_u32(c.context);
    let f3 = f2 + enc_u32(c.last_callsite);
    let f4 = f3 + enc_u32(c.order);
    let f5 = f4 + enc_u32(c.belong);
    let f6 = f5 + enc_u32(c.condition);
    let f7 = f6 + enc_u32(c.level);
    let f8 = f7 + enc_u32(c.op);
    let f9 = f8 + enc_u32(c.size);
    let f10 = f9 + enc_u32(c.lb1);
    let f11 = f10 + enc_u32(c.lb2);
    let f12 = f11 + enc_u64(c.arg1);
    lemma_holds_split(s, pos, f12, enc_u64(c.arg2));
    lemma_holds_split(s, pos, f11, enc_u64(c.arg1));
    lemma_holds_split(s, pos, f10, enc_u32(c.lb2));
    lemma_holds_split(s, pos, f9, enc_u32(c.lb1));
    lemma_holds_split(s, pos, f8, enc_u32(c.size));
    lemma_holds_split(s, pos, f7, enc_u32(c.op));
    lemma_holds_split(s, pos, f6, enc_u32(c.level));
    lemma_holds_split(s, pos, f5, enc_u32(c.condition));
    lemma_holds_split(s, pos, f4, enc_u32(c.belong));
    lemma_holds_split(s, pos, f3, enc_u32(c.order));
    lemma_holds_split(s, pos, f2, enc_u32(c.last_callsite));
    lemma_holds_split(s, pos, f1, enc_u32(c.context));
    lemma_holds_split(s, pos, f0, enc_u32(bits_of(c.thread_id)));
}

/// A record is read back from where it stands.
pub proof fn lemma_msg_round_trip(s: Seq<u8>, pos: int, msg: MsgView)
    requires
        writable(msg),
        holds(s, pos, enc_msg(msg)),
    ensures
        msg_at(s, pos) == Some((msg, pos + enc_msg(msg).len())),
        enc_msg(msg).len() >= 4,
{
    lemma_auto_spec_u32_to_from_le_bytes();
    lemma_auto_spec_u64_to_from_le_bytes();
    match msg {
        MsgView::Tag { lb, tag } => {
            lemma_holds_split(s, pos, enc_u32(KIND_TAG) + enc_u32(lb), enc_seg_list(tag));
            lemma_holds_split(s, pos, enc_u32(KIND_TAG), enc_u32(lb));
            lemma_u32_round_trip(s, pos, KIND_TAG);
            lemma_u32_round_trip(s, pos + 4, lb);
            lemma_seg_list_round_trip(s, pos + 8, tag);
        },
        MsgView::MagicBytes { i, left, right } => {
            let head = enc_u32(KIND_MAGIC_BYTES) + enc_u64(wide64_of(i));
            lemma_holds_split(s, pos, head + enc_bytes(left), enc_bytes(right));
            lemma_holds_split(s, pos, head, enc_bytes(left));
            lemma_holds_split(s, pos, enc_u32(KIND_MAGIC_BYTES), enc_u64(wide64_of(i)));
            lemma_u32_round_trip(s, pos, KIND_MAGIC_BYTES);
            lemma_u64_round_trip(s, pos + 4, wide64_of(i));
            lemma_bytes_round_trip(s, pos + 12, left);
            lemma_bytes_round_trip(s, pos + 12 + 8 + left.len(), right);
        },
        MsgView::Cond { cond } => {
            lemma_holds_split(s, pos, enc_u32(KIND_COND), enc_cond(cond));
            lemma_u32_round_trip(s, pos, KIND_COND);
            lemma_cond_round_trip(s, pos + 4, cond);
        },
        MsgView::Load { path } => {
            lemma_holds_split(s, pos, enc_u32(KIND_LOAD), enc_bytes(path));
            lemma_u32_round_trip(s, pos, KIND_LOAD);
            lemma_bytes_round_trip(s, pos + 4, path);
        },
    }
}

/// Records that were written one after the other, up to the end of the
/// log, are read back as they were.
pub proof fn lemma_log_round_trip(s: Seq<u8>, pos: int, msgs: Seq<MsgView>)
    requires
        forall|k: int| 0 <= k < msgs.len() ==> writable(#[trigger] msgs[k]),
        holds(s, pos, enc_all(msgs)),
        pos + enc_all(msgs).len() == s.len(),
    ensures
        msgs_at(s, pos) == msgs,
        LogView::empty().with_all(msgs_at(s, pos)) == LogView::empty().with_all(msgs),
    decreases msgs.len(),
{
    if msgs.len() == 0 {
        assert(msgs =~= Seq::empty());
    } else {
        let first = msgs.first();
        let rest = msgs.drop_first();
        lemma_holds_split(s, pos, enc_msg(first), enc_all(rest));
        lemma_msg_round_trip(s, pos, first);
        let next = pos + enc_msg(first).len();
        assert forall|k: int| 0 <= k < rest.len() implies writable(#[trigger] rest[k]) by {
            assert(rest[k] == msgs[k + 1]);
        }
        lemma_log_round_trip(s, next, rest);
        assert(seq![first] + rest =~= msgs);
    }
}

/// Where a 32-bit number can be read, it is the one that stands there.
pub proof fn lemma_word_at(s: Seq<u8>, pos: int)
    ensures
        0 <= pos && pos + 4 <= s.len() ==> u32_at(s, pos) == Some((word_at(s, pos), pos + 4)),
        0 <= pos && pos + 8 <= s.len() ==> u64_at(s, pos) == Some((long_at(s, pos), pos + 8)),
{
}

/// Reads a condition.
pub fn read_cond(bytes: &[u8], pos: usize) -> (r: Option<(CondStmtBase, usize)>)
    ensures
        match r {
            Some((cond, next)) => cond_at(bytes@, int_of(pos)) == Some((cond, int_of(next))),
            None => cond_at(bytes@, int_of(pos)).is_none(),
        },
{
    if pos > bytes.len() || bytes.len() - pos < COND_SIZE {
        return None;
    }
    proof {
        lemma_word_at(bytes@, int_of(pos));
        lemma_word_at(bytes@, pos + 4);
        lemma_word_at(bytes@, pos + 8);
        lemma_word_at(bytes@, pos + 12);
        lemma_word_at(bytes@, pos + 16);
        lemma_word_at(bytes@, pos + 20);
        lemma_word_at(bytes@, pos + 24);
        lemma_word_at(bytes@, pos + 28);
        lemma_word_at(bytes@, pos + 32);
        lemma_word_at(bytes@, pos + 36);
        lemma_word_at(bytes@, pos + 40);
        lemma_word_at(bytes@, pos + 44);
        lemma_word_at(bytes@, pos + 48);
        lemma_word_at(bytes@, pos + 56);
    }
    let f0 = read_field(bytes, pos);
    let f1 = read_field(bytes, pos + 4);
    let f2 = read_field(bytes, pos + 8);
    let f3 = read_field(bytes, pos + 12);
    let f4 = read_field(bytes, pos + 16);
    let f5 = read_field(bytes, pos + 20);
    let f6 = read_field(bytes, pos + 24);
    let f7 = read_field(bytes, pos + 28);
    let f8 = read_field(bytes, pos + 32);
    let f9 = read_field(bytes, pos + 36);
    let f10 = read_field(bytes, pos + 40);
    let f11 = read_field(bytes, pos + 44);
    let a1 = read_long_field(bytes, pos + 48);
    let a2 = read_long_field(bytes, pos + 56);
    Some(
        (
            CondStmtBase {
                cmpid: f0,
                thread_id: to_signed(f1),
                context: f2,
                last_callsite: f3,
                order: f4,
                belong: f5,
                condition: f6,
                level: f7,
                op: f8,
                size: f9,
                lb1: f10,
                lb2: f11,
                arg1: a1,
                arg2: a2,
            },
            pos + COND_SIZE,
        ),
    )
}

fn read_field(bytes: &[u8], pos: usize) -> (x: u32)
    requires
        pos + 4 <= bytes@.len(),
    ensures
        x == word_at(bytes@, pos as int),
{
    match read_u32(bytes, pos) {
        Some((x, _)) => x,
        None => 0,
    }
}

fn read_long_field(bytes: &[u8], pos: usize) -> (x: u64)
    requires
        pos + 8 <= bytes@.len(),
    ensures
        x == long_at(bytes@, pos as int),
{
    match read_u64(bytes, pos) {
        Some((x, _)) => x,
        None => 0,
    }
}

/// Whether no byte of the path is zero.
pub fn check_path(path: &Vec<u8>) -> (ok: bool)
    ensures
        ok == is_path(path@),
{
    let mut i: usize = 0;
    while i < path.len()
        invariant
            i <= path.len(),
            forall|k: int| 0 <= k < i ==> path@[k] != 0,
        decreases path.len() - i,
    {
        if path[i] == 0 {
            return false;
        }
        i = i + 1;
    }
    true
}

fn read_magic(bytes: &[u8], pos: usize) -> (r: Option<(LogMsg, usize)>)
    ensures
        match r {
            Some((msg, next)) => magic_at(bytes@, pos as int) == Some((msg@, next as int)),
            None => magic_at(bytes@, pos as int).is_none(),
        },
{
    let (i, p1) = match read_u64(bytes, pos) {
        Some(r) => r,
        None => {
            return None;
        },
    };
    let (left, p2) = match read_bytes(bytes, p1) {
        Some(r) => r,
        None => {
            return None;
        },
    };
    let (right, p3) = match read_bytes(bytes, p2) {
        Some(r) => r,
        None => {
            return None;
        },
    };
    match to_word(i) {
        Some(i) => Some((LogMsg::MagicBytes { i, bytes: (left, right) }, p3)),
        None => None,
    }
}

/// Reads one record.
pub fn read_msg(bytes: &[u8], pos: usize) -> (r: Option<(LogMsg, usize)>)
    ensures
        match r {
            Some((msg, next)) => msg_at(bytes@, pos as int) == Some((msg@, next as int)) && pos
                < next <= bytes@.len(),
            None => msg_at(bytes@, pos as int).is_none(),
        },
{
    let (kind, p) = match read_u32(bytes, pos) {
        Some(r) => r,
        None => {
            return None;
        },
    };
    let r = if kind == KIND_TAG {
        let (lb, p1) = match read_u32(bytes, p) {
            Some(r) => r,
            None => {
                return None;
            },
        };
        match read_seg_list(bytes, p1) {
            Some((tag, p2)) => Some((LogMsg::Tag { lb, tag }, p2)),
            None => None,
        }
    } else if kind == KIND_MAGIC_BYTES {
        read_magic(bytes, p)
    } else if kind == KIND_COND {
        match read_cond(bytes, p) {
            Some((cond, p1)) => Some((LogMsg::Cond { cond }, p1)),
            None => None,
        }
    } else if kind == KIND_LOAD {
        match read_bytes(bytes, p) {
            Some((path, p1)) => if check_path(&path) {
                Some((LogMsg::Load { path }, p1))
            } else {
                None
            },
            None => None,
        }
    } else {
        None
    };
    proof {
        lemma_msg_at_advances(bytes@, pos as int);
    }
    r
}

/// A record takes at least the four bytes of its kind and ends within the
/// log.
pub proof fn lemma_msg_at_advances(s: Seq<u8>, pos: int)
    ensures
        match msg_at(s, pos) {
            Some((msg, next)) => pos + 4 <= next <= s.len(),
            None => true,
        },
{
    match u32_at(s, pos) {
        Some((kind, p)) => {
            if kind == KIND_TAG {
                match u32_at(s, p) {
                    Some((lb, p1)) => {
                        match u64_at(s, p1) {
                            Some((n, p2)) => {
                                crate::track::wire::lemma_segs_at_length(s, p2, n as nat);
                            },
                            None => {},
                        }
                    },
                    None => {},
                }
            }
        },
        None => {},
    }
}

/// Writes a condition.
pub fn write_cond(out: &mut Vec<u8>, c: &CondStmtBase)
    ensures
        final(out)@ == old(out)@ + enc_cond(*c),
{
    write_u32(out, c.cmpid);
    write_u32(out, to_bits(c.thread_id));
    write_u32(out, c.context);
    write_u32(out, c.last_callsite);
    write_u32(out, c.order);
    write_u32(out, c.belong);
    write_u32(out, c.condition);
    write_u32(out, c.level);
    write_u32(out, c.op);
    write_u32(out, c.size);
    write_u32(out, c.lb1);
    write_u32(out, c.lb2);
    write_u64(out, c.arg1);
    write_u64(out, c.arg2);
    proof {
        assert(out@ =~= old(out)@ + enc_cond(*c));
    }
}

/// Writes one record.
pub fn write_msg(out: &mut Vec<u8>, msg: &LogMsg)
    ensures
        final(out)@ == old(out)@ + enc_msg(msg@),
{
    match msg {
        LogMsg::Tag { lb, tag } => {
            write_u32(out, KIND_TAG);
            write_u32(out, *lb);
            write_seg_list(out, tag);
        },
        LogMsg::MagicBytes { i, bytes } => {
            write_u32(out, KIND_MAGIC_BYTES);
            write_u64(out, wide64(*i));
            write_bytes(out, &bytes.0);
            write_bytes(out, &bytes.1);
        },
        LogMsg::Cond { cond } => {
            write_u32(out, KIND_COND);
            write_cond(out, cond);
        },
        LogMsg::Load { path } => {
            write_u32(out, KIND_LOAD);
            write_bytes(out, path);
        },
    }
    proof {
        assert(out@ =~= old(out)@ + enc_msg(msg@));
    }
}

/// The log of one record.
pub fn serialize(msg: &LogMsg) -> (out: Vec<u8>)
    ensures
        out@ == enc_msg(msg@),
{
    let mut out: Vec<u8> = Vec::new();
    write_msg(&mut out, msg);
    proof {
        assert(Seq::<u8>::empty() + enc_msg(msg@) =~= enc_msg(msg@));
    }
    out
}

/// Why a log yields no report.
#[derive(Debug, Clone, Copy, PartialEq, Eq, Structural)]
pub enum LogError {
    /// The log is empty: the run tracked no condition.
    Empty,
}

/// Reads the log of a tracking run: its records up to the end or to the
/// first place where no well-formed record stands, entered one after the
/// other. An empty log is an error.
pub fn get_log_data(bytes: &[u8]) -> (r: Result<LogData, LogError>)
    ensures
        match r {
            Ok(data) => bytes@.len() > 0 && data@ == LogView::empty().with_all(msgs_at(bytes@, 0)),
            Err(e) => bytes@.len() == 0 && e == LogError::Empty,
        },
{
    if bytes.len() == 0 {
        return Err(LogError::Empty);
    }
    let mut data = LogData::new();
    let mut pos: usize = 0;
    loop
        invariant
            pos <= bytes@.len(),
            data@.with_all(msgs_at(bytes@, pos as int)) == LogView::empty().with_all(
                msgs_at(bytes@, 0),
            ),
        ensures
            data@ == LogView::empty().with_all(msgs_at(bytes@, 0)),
        decreases bytes@.len() - pos,
    {
        match read_msg(bytes, pos) {
            Some((msg, next)) => {
                proof {
                    let all = msgs_at(bytes@, pos as int);
                    assert(all.first() == msg@);
                    assert(all.drop_first() =~= msgs_at(bytes@, next as int));
                }
                data.record(msg);
                pos = next;
            },
            None => {
                break ;
            },
        }
    }
    Ok(data)
}

} // verus!
