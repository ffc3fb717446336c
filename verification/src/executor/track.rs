//! What a tracking run adds to the control-flow graph, and the conditions
//! that it yields for indirect calls.
use vstd::prelude::*;
use std::collections::HashMap;
use crate::cond_stmt::{copy_segs, views, CondStmt, CondView};
use crate::dyncfg::cfg::{
    dominators_in, edge_key_of, fixed_bytes, ControlFlowGraph, DEFAULT_WEIGHT,
};
use crate::tag::TagSeg;
use crate::track::fparser::tags_view;

verus! {

broadcast use vstd::std_specs::hash::group_hash_axioms;

/// What linking has come to: the parts of the graph that it changes, the
/// offsets remembered for the sites that dominate an indirect call, and
/// the conditions made for indirect calls so far.
pub struct LinkState {
    pub weights: Map<(u32, u32), u32>,
    pub indirect: Map<u64, u32>,
    pub magic: Map<u64, Seq<(usize, u8)>>,
    pub dom_offsets: Map<u32, Seq<TagSeg>>,
    pub fixed: Seq<CondView>,
}

/// Some pair names `site` as the dominator of a call site.
pub open spec fn dominates(pairs: Seq<(u32, u32)>, site: u32) -> bool {
    exists|i: int| 0 <= i < pairs.len() && (#[trigger] pairs[i]).1 == site
}

/// The offsets remembered for the sites in `doms`, one after the other.
pub open spec fn gathered(dom_offsets: Map<u32, Seq<TagSeg>>, doms: Seq<u32>) -> Seq<TagSeg>
    decreases doms.len(),
{
    if doms.len() == 0 {
        Seq::empty()
    } else {
        gathered(dom_offsets, doms.drop_last()) + (if dom_offsets.contains_key(doms.last()) {
            dom_offsets[doms.last()]
        } else {
            Seq::empty()
        })
    }
}

/// The probe bytes with the recorded bytes written over them, in their
/// order; the last probe byte and positions past it are left alone.
pub open spec fn patched(variables: Seq<u8>, bytes: Seq<(usize, u8)>) -> Seq<u8>
    decreases bytes.len(),
{
    if bytes.len() == 0 {
        variables
    } else {
        let before = patched(variables, bytes.drop_last());
        if bytes.last().0 + 1 < variables.len() {
            before.update(bytes.last().0 as int, bytes.last().1)
        } else {
            before
        }
    }
}

/// One step of linking: condition `b` was seen right after `a` in one
/// thread. The edge between their sites is added. Where `a` dominates an
/// indirect call, its offsets are remembered. Where `b` came by an
/// indirect call, the edge is marked with the call site, the input bytes
/// under the offsets of the call site's dominators are recorded for the
/// edge, and a copy of `b` is made that has those offsets too and whose
/// probe bytes are written over with the recorded bytes.
pub open spec fn link_step(
    s: LinkState,
    pairs: Seq<(u32, u32)>,
    a: CondView,
    b: CondView,
    buf: Seq<u8>,
) -> LinkState {
    let edge = (a.base.cmpid, b.base.cmpid);
    let weights = if s.weights.dom().contains(edge) {
        s.weights
    } else {
        s.weights.insert(edge, DEFAULT_WEIGHT)
    };
    let dom_offsets = if dominates(pairs, a.base.cmpid) {
        s.dom_offsets.insert(a.base.cmpid, a.offsets)
    } else {
        s.dom_offsets
    };
    if b.base.last_callsite != 0 {
        let key = edge_key_of(edge.0, edge.1);
        let more = gathered(dom_offsets, dominators_in(pairs, b.base.last_callsite));
        let bytes = fixed_bytes(buf, more);
        LinkState {
            weights,
            dom_offsets,
            indirect: s.indirect.insert(key, b.base.last_callsite),
            magic: s.magic.insert(key, bytes),
            fixed: s.fixed.push(
                CondView { offsets: b.offsets + more, variables: patched(b.variables, bytes), ..b },
            ),
        }
    } else {
        LinkState { weights, dom_offsets, ..s }
    }
}

/// Linking along the conditions of one thread among the first `n`
/// conditions: the state, and the position of the thread's last condition
/// so far.
pub open spec fn link_thread(
    s: LinkState,
    pairs: Seq<(u32, u32)>,
    conds: Seq<CondView>,
    thread: i32,
    n: nat,
    buf: Seq<u8>,
) -> (LinkState, Option<int>)
    decreases n,
{
    if n == 0 {
        (s, None)
    } else {
        let (before, last) = link_thread(s, pairs, conds, thread, (n - 1) as nat, buf);
        if conds[n - 1].base.thread_id == thread {
            (
                match last {
                    Some(p) => link_step(before, pairs, conds[p], conds[n - 1], buf),
                    None => before,
                },
                Some(n - 1),
            )
        } else {
            (before, last)
        }
    }
}

/// The threads of the conditions, each once, in the order in which they
/// first appear.
pub open spec fn threads_of(conds: Seq<CondView>) -> Seq<i32>
    decreases conds.len(),
{
    if conds.len() == 0 {
        Seq::empty()
    } else {
        let before = threads_of(conds.drop_last());
        if before.contains(conds.last().base.thread_id) {
            before
        } else {
            before.push(conds.last().base.thread_id)
        }
    }
}

/// Linking thread by thread.
pub open spec fn link_all(
    s: LinkState,
    pairs: Seq<(u32, u32)>,
    conds: Seq<CondView>,
    threads: Seq<i32>,
    buf: Seq<u8>,
) -> LinkState
    decreases threads.len(),
{
    if threads.len() == 0 {
        s
    } else {
        link_thread(
            link_all(s, pairs, conds, threads.drop_last(), buf),
            pairs,
            conds,
            threads.last(),
            conds.len(),
            buf,
        ).0
    }
}

/// The conditions with those marked whose site is a live target.
pub open spec fn marked(conds: Seq<CondView>, targets: Set<u32>) -> Seq<CondView> {
    conds.map_values(|c: CondView| marked_one(c, targets))
}

/// Where linking starts from a graph: nothing remembered, nothing made.
pub open spec fn link_start(cfg: ControlFlowGraph) -> LinkState {
    LinkState {
        weights: cfg.weights(),
        indirect: cfg.indirect(),
        magic: cfg.magic(),
        dom_offsets: Map::empty(),
        fixed: Seq::empty(),
    }
}

fn gather(dom_offsets: &HashMap<u32, Vec<TagSeg>>, doms: &Vec<u32>) -> (more: Vec<TagSeg>)
    ensures
        more@ == gathered(tags_view(dom_offsets@), doms@),
{
    let mut more: Vec<TagSeg> = Vec::new();
    let mut i: usize = 0;
    while i < doms.len()
        invariant
            i <= doms.len(),
            more@ == gathered(tags_view(dom_offsets@), doms@.take(i as int)),
        decreases doms.len() - i,
    {
        proof {
            assert(doms@.take(i + 1).drop_last() =~= doms@.take(i as int));
        }
        match dom_offsets.get(&doms[i]) {
            Some(offsets) => {
                let mut k: usize = 0;
                let ghost start = more@;
                while k < offsets.len()
                    invariant
                        k <= offsets.len(),
                        more@ == start + offsets@.take(k as int),
                    decreases offsets.len() - k,
                {
                    more.push(offsets[k]);
                    proof {
                        assert(start + offsets@.take(k + 1) =~= (start + offsets@.take(
                            k as int,
                        )).push(offsets@[k as int]));
                    }
                    k = k + 1;
                }
                proof {
                    assert(offsets@.take(k as int) =~= offsets@);
                }
            },
            None => {
                proof {
                    assert(more@ + Seq::<TagSeg>::empty() =~= more@);
                }
            },
        }
        i = i + 1;
    }
    proof {
        assert(doms@.take(i as int) =~= doms@);
    }
    more
}

fn patch(variables: &mut Vec<u8>, bytes: &Vec<(usize, u8)>)
    ensures
        final(variables)@ == patched(old(variables)@, bytes@),
{
    let mut i: usize = 0;
    while i < bytes.len()
        invariant
            i <= bytes.len(),
            variables@.len() == old(variables)@.len(),
            variables@ == patched(old(variables)@, bytes@.take(i as int)),
        decreases bytes.len() - i,
    {
        proof {
            assert(bytes@.take(i + 1).drop_last() =~= bytes@.take(i as int));
        }
        let (at, value) = bytes[i];
        if at < variables.len() && at + 1 < variables.len() {
            variables.set(at, value);
        }
        i = i + 1;
    }
    proof {
        assert(bytes@.take(i as int) =~= bytes@);
    }
}

fn join_segs(a: &Vec<TagSeg>, b: &Vec<TagSeg>) -> (out: Vec<TagSeg>)
    ensures
        out@ == a@ + b@,
{
    let mut out = copy_segs(a);
    let mut i: usize = 0;
    while i < b.len()
        invariant
            i <= b.len(),
            out@ == a@ + b@.take(i as int),
        decreases b.len() - i,
    {
        out.push(b[i]);
        proof {
            assert(a@ + b@.take(i + 1) =~= (a@ + b@.take(i as int)).push(b@[i as int]));
        }
        i = i + 1;
    }
    proof {
        assert(b@.take(i as int) =~= b@);
    }
    out
}

/// The parts of the graph and of the linking agree with `s`.
pub open spec fn link_agrees(
    s: LinkState,
    cfg: ControlFlowGraph,
    dom_offsets: Map<u32, Seq<TagSeg>>,
    fixed: Seq<CondView>,
) -> bool {
    &&& s.weights == cfg.weights()
    &&& s.indirect == cfg.indirect()
    &&& s.magic == cfg.magic()
    &&& s.dom_offsets == dom_offsets
    &&& s.fixed == fixed
}

fn step(
    cfg: &mut ControlFlowGraph,
    dom_offsets: &mut HashMap<u32, Vec<TagSeg>>,
    fixed: &mut Vec<CondStmt>,
    a: &CondStmt,
    b: &CondStmt,
    buf: &Vec<u8>,
    Ghost(s): Ghost<LinkState>,
)
    requires
        link_agrees(s, *old(cfg), tags_view(old(dom_offsets)@), views(old(fixed)@)),
    ensures
        link_agrees(
            link_step(s, old(cfg).dominator_pairs(), a@, b@, buf@),
            *final(cfg),
            tags_view(final(dom_offsets)@),
            views(final(fixed)@),
        ),
        final(cfg).dominator_pairs() == old(cfg).dominator_pairs(),
        final(cfg).live_targets() == old(cfg).live_targets(),
{
    let site_a = a.base.cmpid;
    let site_b = b.base.cmpid;
    let edge = (site_a, site_b);
    let _ = cfg.add_edge(edge);
    if cfg.dominates_indirect_call(site_a) {
        let _ = dom_offsets.insert(site_a, copy_segs(&a.offsets));
        proof {
            assert(tags_view(dom_offsets@) =~= tags_view(old(dom_offsets)@).insert(
                site_a,
                a@.offsets,
            ));
        }
    }
    if b.base.last_callsite != 0 {
        cfg.set_edge_indirect(edge, b.base.last_callsite);
        let dominators = cfg.get_callsite_dominators(b.base.last_callsite);
        let more = gather(dom_offsets, &dominators);
        cfg.set_magic_bytes(edge, buf, &more);
        let bytes = cfg.get_magic_bytes(edge);
        let mut fixed_cond = b.clone();
        fixed_cond.offsets = join_segs(&b.offsets, &more);
        patch(&mut fixed_cond.variables, &bytes);
        let ghost before = views(fixed@);
        let ghost made = fixed_cond@;
        fixed.push(fixed_cond);
        proof {
            assert(views(fixed@) =~= before.push(made));
        }
    }
}

fn link_one_thread(
    cfg: &mut ControlFlowGraph,
    dom_offsets: &mut HashMap<u32, Vec<TagSeg>>,
    fixed: &mut Vec<CondStmt>,
    cond_list: &Vec<CondStmt>,
    thread: i32,
    buf: &Vec<u8>,
    Ghost(s): Ghost<LinkState>,
)
    requires
        link_agrees(s, *old(cfg), tags_view(old(dom_offsets)@), views(old(fixed)@)),
    ensures
        link_agrees(
            link_thread(
                s,
                old(cfg).dominator_pairs(),
                views(cond_list@),
                thread,
                cond_list@.len(),
                buf@,
            ).0,
            *final(cfg),
            tags_view(final(dom_offsets)@),
            views(final(fixed)@),
        ),
        final(cfg).dominator_pairs() == old(cfg).dominator_pairs(),
        final(cfg).live_targets() == old(cfg).live_targets(),
{
    let ghost pairs = cfg.dominator_pairs();
    let ghost conds = views(cond_list@);
    let mut last: Option<usize> = None;
    let mut j: usize = 0;
    while j < cond_list.len()
        invariant
            j <= cond_list.len(),
            conds == views(cond_list@),
            cfg.dominator_pairs() == pairs,
            cfg.live_targets() == old(cfg).live_targets(),
            match last {
                Some(p) => p < j,
                None => true,
            },
            link_thread(s, pairs, conds, thread, j as nat, buf@).1 == (match last {
                Some(p) => Some(p as int),
                None => None,
            }),
            link_agrees(
                link_thread(s, pairs, conds, thread, j as nat, buf@).0,
                *cfg,
                tags_view(dom_offsets@),
                views(fixed@),
            ),
        decreases cond_list.len() - j,
    {
        let ghost now = link_thread(s, pairs, conds, thread, j as nat, buf@).0;
        proof {
            assert(((j + 1) as nat - 1) as nat == j as nat);
            assert(conds[j as int] == cond_list@[j as int]@);
        }
        if cond_list[j].base.thread_id == thread {
            match last {
                Some(p) => {
                    proof {
                        assert(conds[p as int] == cond_list@[p as int]@);
                    }
                    step(cfg, dom_offsets, fixed, &cond_list[p], &cond_list[j], buf, Ghost(now));
                },
                None => {},
            }
            last = Some(j);
        }
        j = j + 1;
    }
}

/// Whether `thread` is among the threads listed.
fn has_thread(threads: &Vec<i32>, thread: i32) -> (b: bool)
    ensures
        b == threads@.contains(thread),
{
    let mut i: usize = 0;
    while i < threads.len()
        invariant
            i <= threads.len(),
            forall|k: int| 0 <= k < i ==> threads@[k] != thread,
        decreases threads.len() - i,
    {
        if threads[i] == thread {
            return true;
        }
        i = i + 1;
    }
    false
}

/// The threads of the conditions, each once, in the order in which they
/// first appear.
pub fn thread_ids(cond_list: &Vec<CondStmt>) -> (threads: Vec<i32>)
    ensures
        threads@ == threads_of(views(cond_list@)),
{
    let mut threads: Vec<i32> = Vec::new();
    let mut i: usize = 0;
    proof {
        assert(views(cond_list@.take(0)) =~= Seq::<CondView>::empty());
    }
    while i < cond_list.len()
        invariant
            i <= cond_list.len(),
            threads@ == threads_of(views(cond_list@.take(i as int))),
        decreases cond_list.len() - i,
    {
        proof {
            let next = views(cond_list@.take(i + 1));
            assert(next.drop_last() =~= views(cond_list@.take(i as int)));
            assert(next.last() == cond_list@[i as int]@);
        }
        let thread = cond_list[i].base.thread_id;
        if !has_thread(&threads, thread) {
            threads.push(thread);
        }
        i = i + 1;
    }
    proof {
        assert(cond_list@.take(i as int) =~= cond_list@);
    }
    threads
}

/// The condition as it is marked against the targets of `targets`.
pub open spec fn marked_one(c: CondView, targets: Set<u32>) -> CondView {
    if targets.contains(c.base.cmpid) {
        CondView { is_target: true, ..c }
    } else {
        c
    }
}

fn mark(cfg: &ControlFlowGraph, cond: &CondStmt) -> (out: CondStmt)
    ensures
        out@ == marked_one(cond@, cfg.live_targets()),
{
    let mut out = cond.clone();
    if cfg.is_target(out.base.cmpid) {
        out.set_target(true);
    }
    out
}

/// Links the conditions of a tracking run into the graph and returns them,
/// those marked whose site is a target, followed by the conditions made
/// for indirect calls. The conditions are linked thread by thread, each
/// with the one that the same thread reported before it.
pub fn link_conds(cfg: &mut ControlFlowGraph, cond_list: Vec<CondStmt>, buf: &Vec<u8>) -> (out: Vec<
    CondStmt,
>)
    ensures
        link_agrees(
            link_all(
                link_start(*old(cfg)),
                old(cfg).dominator_pairs(),
                views(cond_list@),
                threads_of(views(cond_list@)),
                buf@,
            ),
            *final(cfg),
            link_all(
                link_start(*old(cfg)),
                old(cfg).dominator_pairs(),
                views(cond_list@),
                threads_of(views(cond_list@)),
                buf@,
            ).dom_offsets,
            link_all(
                link_start(*old(cfg)),
                old(cfg).dominator_pairs(),
                views(cond_list@),
                threads_of(views(cond_list@)),
                buf@,
            ).fixed,
        ),
        final(cfg).dominator_pairs() == old(cfg).dominator_pairs(),
        final(cfg).live_targets() == old(cfg).live_targets(),
        views(out@) == marked(views(cond_list@), old(cfg).live_targets()) + link_all(
            link_start(*old(cfg)),
            old(cfg).dominator_pairs(),
            views(cond_list@),
            threads_of(views(cond_list@)),
            buf@,
        ).fixed,
{
    let ghost pairs = cfg.dominator_pairs();
    let ghost conds = views(cond_list@);
    let ghost start = link_start(*cfg);
    let threads = thread_ids(&cond_list);
    let mut dom_offsets: HashMap<u32, Vec<TagSeg>> = HashMap::new();
    let mut fixed: Vec<CondStmt> = Vec::new();
    proof {
        assert(tags_view(dom_offsets@) =~= start.dom_offsets);
        assert(views(fixed@) =~= start.fixed);
    }
    let mut t: usize = 0;
    while t < threads.len()
        invariant
            t <= threads.len(),
            conds == views(cond_list@),
            threads@ == threads_of(conds),
            cfg.dominator_pairs() == pairs,
            cfg.live_targets() == old(cfg).live_targets(),
            link_agrees(
                link_all(start, pairs, conds, threads@.take(t as int), buf@),
                *cfg,
                tags_view(dom_offsets@),
                views(fixed@),
            ),
        decreases threads.len() - t,
    {
        let ghost now = link_all(start, pairs, conds, threads@.take(t as int), buf@);
        proof {
            assert(threads@.take(t + 1).drop_last() =~= threads@.take(t as int));
            assert(threads@.take(t + 1).last() == threads@[t as int]);
        }
        link_one_thread(cfg, &mut dom_offsets, &mut fixed, &cond_list, threads[t], buf, Ghost(now));
        t = t + 1;
    }
    proof {
        assert(threads@.take(t as int) =~= threads@);
    }
    let mut out: Vec<CondStmt> = Vec::new();
    let mut i: usize = 0;
    while i < cond_list.len()
        invariant
            i <= cond_list.len(),
            conds == views(cond_list@),
            cfg.live_targets() == old(cfg).live_targets(),
            views(out@) == marked(conds, old(cfg).live_targets()).take(i as int),
        decreases cond_list.len() - i,
    {
        let cond = mark(cfg, &cond_list[i]);
        let ghost before = views(out@);
        let ghost made = cond@;
        out.push(cond);
        proof {
            assert(conds[i as int] == cond_list@[i as int]@);
            assert(views(out@) =~= before.push(made));
            assert(marked(conds, old(cfg).live_targets()).take(i + 1) =~= marked(
                conds,
                old(cfg).live_targets(),
            ).take(i as int).push(made));
        }
        i = i + 1;
    }
    let ghost head = views(out@);
    let ghost tail = views(fixed@);
    out.append(&mut fixed);
    proof {
        assert(marked(conds, old(cfg).live_targets()).take(i as int) =~= marked(
            conds,
            old(cfg).live_targets(),
        ));
        assert(views(out@) =~= head + tail);
    }
    out
}

} // verus!
