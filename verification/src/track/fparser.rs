//! From the log of a tracking run to the conditions that are fuzzed.
use vstd::prelude::*;
use std::collections::HashMap;
use crate::cond_stmt::{copy_bytes, copy_segs, views, CondState, CondStmt, CondView};
use crate::cond_stmt_base::CondStmtBase;
use crate::defs::COND_LEN_OP;
use crate::tag::TagSeg;
use crate::track::codec::{get_log_data, msgs_at};
use crate::track::filter::{filter_cond_list, filtered};
use crate::track::log_data::{LogData, LogView};

verus! {

broadcast use vstd::std_specs::hash::group_hash_axioms;

/// The lowest `size` bytes of `val`, the lowest first; at most eight.
pub open spec fn ule_bytes(val: u64, size: nat) -> Seq<u8>
    decreases size,
{
    if size == 0 {
        Seq::empty()
    } else if size > 8 {
        ule_bytes(val, 8)
    } else {
        seq![(val % 256) as u8] + ule_bytes(val / 256, (size - 1) as nat)
    }
}

/// The lowest `size` bytes of `val`, the lowest first; at most eight.
pub fn write_as_ule(val: u64, size: usize) -> (bytes: Vec<u8>)
    ensures
        bytes@ == ule_bytes(val, size as nat),
{
    let n: usize = if size > 8 {
        8
    } else {
        size
    };
    let mut bytes: Vec<u8> = Vec::new();
    let mut rest: u64 = val;
    let mut k: usize = 0;
    while k < n
        invariant
            k <= n,
            n <= 8,
            bytes@ + ule_bytes(rest, (n - k) as nat) == ule_bytes(val, n as nat),
        decreases n - k,
    {
        proof {
            assert(bytes@.push((rest % 256) as u8) + ule_bytes(rest / 256, (n - k - 1) as nat)
                =~= bytes@ + ule_bytes(rest, (n - k) as nat));
        }
        bytes.push((rest % 256) as u8);
        rest = rest / 256;
        k = k + 1;
    }
    proof {
        assert(bytes@ + ule_bytes(rest, 0) =~= bytes@);
    }
    bytes
}

/// The ranges recorded for a label; none for a label that was not
/// recorded.
pub open spec fn ranges_of(tags: Map<u32, Seq<TagSeg>>, lb: u32) -> Seq<TagSeg> {
    if tags.contains_key(lb) {
        tags[lb]
    } else {
        Seq::empty()
    }
}

/// The first operand carries the taint that is searched over: the second
/// has none, or the first has some and no more ranges than the second.
pub open spec fn first_leads(first: Seq<TagSeg>, second: Seq<TagSeg>) -> bool {
    second.len() == 0 || (first.len() > 0 && first.len() <= second.len())
}

/// The condition with the taint of its operands filled in. The operand
/// with fewer ranges gives the primary offsets; the other one, where it has
/// a label of its own, gives the secondary ones. The probe bytes are the
/// compared bytes where they were recorded, those of the other operand
/// first, and otherwise the value of the other operand in `size` bytes.
pub open spec fn with_taint(
    cond: CondView,
    tags: Map<u32, Seq<TagSeg>>,
    magic: Option<(Seq<u8>, Seq<u8>)>,
) -> CondView {
    let first = ranges_of(tags, cond.base.lb1);
    let second = ranges_of(tags, cond.base.lb2);
    if first_leads(first, second) {
        CondView {
            offsets: first,
            offsets_opt: if cond.base.lb2 > 0 && cond.base.lb1 != cond.base.lb2 {
                second
            } else {
                cond.offsets_opt
            },
            variables: match magic {
                Some(args) => args.1 + args.0,
                None => ule_bytes(cond.base.arg2, cond.base.size as nat),
            },
            ..cond
        }
    } else {
        CondView {
            offsets: second,
            offsets_opt: if cond.base.lb1 > 0 && cond.base.lb1 != cond.base.lb2 {
                first
            } else {
                cond.offsets_opt
            },
            variables: match magic {
                Some(args) => args.0 + args.1,
                None => ule_bytes(cond.base.arg1, cond.base.size as nat),
            },
            ..cond
        }
    }
}

fn join(a: &Vec<u8>, b: &Vec<u8>) -> (out: Vec<u8>)
    ensures
        out@ == a@ + b@,
{
    let mut out = copy_bytes(a);
    let mut i: usize = 0;
    while i < b.len()
        invariant
            i <= b.len(),
            out@ == a@ + b@.take(i as int),
        decreases b.len() - i,
    {
        out.push(b[i]);
        proof {
            assert(a@ + b@.take(i + 1) =~= (a@ + b@.take(i as int)).push(b@[i as int]));
        }
        i = i + 1;
    }
    proof {
        assert(b@.take(i as int) =~= b@);
    }
    out
}

fn ranges(m: &HashMap<u32, Vec<TagSeg>>, lb: u32) -> (segs: Vec<TagSeg>)
    ensures
        segs@ == (if m@.contains_key(lb) {
            m@[lb]@
        } else {
            Seq::empty()
        }),
{
    match m.get(&lb) {
        Some(found) => copy_segs(found),
        None => Vec::new(),
    }
}

/// The value of recorded probe bytes.
pub open spec fn magic_view(magic: Option<&(Vec<u8>, Vec<u8>)>) -> Option<(Seq<u8>, Seq<u8>)> {
    match magic {
        Some(args) => Some((args.0@, args.1@)),
        None => None,
    }
}

/// The tags of a log, by value.
pub open spec fn tags_view(m: Map<u32, Vec<TagSeg>>) -> Map<u32, Seq<TagSeg>> {
    Map::new(|lb: u32| m.contains_key(lb), |lb: u32| m[lb]@)
}

/// Fills in the taint of a condition's operands.
pub fn get_offsets_and_variables(
    m: &HashMap<u32, Vec<TagSeg>>,
    cond: &mut CondStmt,
    magic_bytes: Option<&(Vec<u8>, Vec<u8>)>,
)
    ensures
        final(cond)@ == with_taint(old(cond)@, tags_view(m@), magic_view(magic_bytes)),
{
    let offsets1 = ranges(m, cond.base.lb1);
    let offsets2 = ranges(m, cond.base.lb2);
    if offsets2.len() == 0 || (offsets1.len() > 0 && offsets1.len() <= offsets2.len()) {
        cond.offsets = offsets1;
        if cond.base.lb2 > 0 && cond.base.lb1 != cond.base.lb2 {
            cond.offsets_opt = offsets2;
        }
        cond.variables = match magic_bytes {
            Some(args) => join(&args.1, &args.0),
            None => write_as_ule(cond.base.arg2, cond.base.size as usize),
        };
    } else {
        cond.offsets = offsets2;
        if cond.base.lb1 > 0 && cond.base.lb1 != cond.base.lb2 {
            cond.offsets_opt = offsets1;
        }
        cond.variables = match magic_bytes {
            Some(args) => join(&args.0, &args.1),
            None => write_as_ule(cond.base.arg1, cond.base.size as usize),
        };
    }
}

/// The condition that the `i`-th record of the log yields.
pub open spec fn parsed_cond(log: LogView, i: int) -> CondView {
    let base = log.cond_list[i];
    if base.op != COND_LEN_OP && (base.lb1 > 0 || base.lb2 > 0) {
        with_taint(
            CondView::fresh(base),
            log.tags,
            if log.magic_bytes.contains_key(i as usize) {
                Some(log.magic_bytes[i as usize])
            } else {
                None
            },
        )
    } else {
        CondView::fresh(base)
    }
}

/// The conditions that the first `n` records of the log yield. Without
/// exploitation the exploitable ones are left out.
pub open spec fn parsed(log: LogView, enable_exploitation: bool, n: nat) -> Seq<CondView>
    decreases n,
{
    if n == 0 {
        Seq::empty()
    } else {
        let before = parsed(log, enable_exploitation, (n - 1) as nat);
        if !enable_exploitation && log.cond_list[n - 1].spec_is_exploitable() {
            before
        } else {
            before.push(parsed_cond(log, n - 1))
        }
    }
}

/// Turns the records of a log into conditions, each with the taint of its
/// operands.
pub fn read_and_parse(log_data: &LogData, enable_exploitation: bool) -> (cond_list: Vec<CondStmt>)
    ensures
        views(cond_list@) == parsed(log_data@, enable_exploitation, log_data@.cond_list.len()),
{
    let mut cond_list: Vec<CondStmt> = Vec::new();
    let mut i: usize = 0;
    proof {
        assert(views(cond_list@) =~= parsed(log_data@, enable_exploitation, 0));
    }
    while i < log_data.cond_list.len()
        invariant
            i <= log_data.cond_list.len(),
            views(cond_list@) == parsed(log_data@, enable_exploitation, i as nat),
        decreases log_data.cond_list.len() - i,
    {
        let cond_base = log_data.cond_list[i];
        if enable_exploitation || !cond_base.is_exploitable() {
            let mut cond = CondStmt::from(cond_base);
            if cond_base.op != COND_LEN_OP && (cond_base.lb1 > 0 || cond_base.lb2 > 0) {
                let magic = log_data.magic_bytes.get(&i);
                proof {
                    assert(tags_view(log_data.tags@) =~= log_data@.tags);
                }
                get_offsets_and_variables(&log_data.tags, &mut cond, magic);
            }
            let ghost before = views(cond_list@);
            let ghost added = cond@;
            cond_list.push(cond);
            proof {
                assert(views(cond_list@) =~= before.push(added));
            }
        }
        i = i + 1;
    }
    cond_list
}

/// The condition as it enters the queue: it belongs to input `id`, runs
/// at `speed`, and is marked where a single input byte decides it.
pub open spec fn prepared(cond: CondView, id: u32, speed: u32) -> CondView {
    CondView {
        base: CondStmtBase { belong: id, ..cond.base },
        speed,
        state: if cond.offsets.len() == 1 && cond.offsets[0].spec_len() == 1 {
            CondState::OneByte
        } else {
            cond.state
        },
        ..cond
    }
}

/// The conditions of a log, each prepared for the queue.
pub open spec fn prepared_all(conds: Seq<CondView>, id: u32, speed: u32) -> Seq<CondView> {
    conds.map_values(|c: CondView| prepared(c, id, speed))
}

/// The conditions that the log of a tracking run yields for input `id`:
/// parsed, prepared for the queue and filtered.
pub open spec fn track_conds(log: LogView, id: u32, speed: u32, enable_exploitation: bool) -> Seq<
    CondView,
> {
    filtered(
        prepared_all(parsed(log, enable_exploitation, log.cond_list.len()), id, speed),
    )
}

/// Turns the log of a tracking run into the conditions to fuzz and the
/// libraries that were loaded. A log that cannot be read yields neither.
pub fn load_track_data(log: &[u8], id: u32, speed: u32, enable_exploitation: bool) -> (r: (
    Vec<CondStmt>,
    Vec<Vec<u8>>,
))
    ensures
        log@.len() == 0 ==> r.0@.len() == 0 && r.1@.len() == 0,
        log@.len() > 0 ==> {
            let data = LogView::empty().with_all(msgs_at(log@, 0));
            &&& views(r.0@) == track_conds(data, id, speed, enable_exploitation)
            &&& r.1@.map_values(|p: Vec<u8>| p@) == data.load_paths
        },
{
    let data = match get_log_data(log) {
        Ok(data) => data,
        Err(_) => {
            return (Vec::new(), Vec::new());
        },
    };
    let mut cond_list = read_and_parse(&data, enable_exploitation);
    let ghost parsed_views = views(cond_list@);
    let mut i: usize = 0;
    while i < cond_list.len()
        invariant
            i <= cond_list.len(),
            cond_list@.len() == parsed_views.len(),
            forall|j: int| 0 <= j < i ==> (#[trigger] cond_list@[j])@ == prepared(parsed_views[j], id, speed),
            forall|j: int| i <= j < cond_list@.len() ==> (#[trigger] cond_list@[j])@ == parsed_views[j],
        decreases cond_list.len() - i,
    {
        let one_byte = cond_list[i].offsets.len() == 1 && cond_list[i].offsets[0].len() == 1;
        let mut cond = cond_list[i].clone();
        cond.base.belong = id;
        cond.speed = speed;
        if one_byte {
            cond.state = CondState::OneByte;
        }
        cond_list.set(i, cond);
        i = i + 1;
    }
    proof {
        assert(views(cond_list@) =~= prepared_all(parsed_views, id, speed));
    }
    filter_cond_list(&mut cond_list);
    (cond_list, data.load_paths)
}

} // verus!
