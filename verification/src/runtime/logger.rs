//! The numbering of the records of a tracking run, and which of them are
//! written.
use vstd::prelude::*;
use std::collections::HashMap;
use crate::cond_stmt_base::CondStmtBase;
use crate::config::MAX_COND_ORDER;
use crate::defs::{COND_AFL_OP, COND_FN_OP};
use crate::dyncfg::cfg::edge_key_of;
use crate::tag::TagSeg;
use crate::track::log_data::{LogData, LogMsg, LogView, MsgView};

verus! {

broadcast use vstd::std_specs::hash::group_hash_axioms;

/// The sum of two 32-bit numbers, within 32 bits.
pub open spec fn wrapped(a: u32, b: u32) -> u32 {
    ((a + b) % 0x1_0000_0000) as u32
}

fn wrapping(a: u32, b: u32) -> (r: u32)
    ensures
        r == wrapped(a, b),
{
    (((a as u64) + (b as u64)) % 0x1_0000_0000u64) as u32
}

fn site_key(site: u32, context: u32) -> (k: u64)
    ensures
        k == edge_key_of(site, context),
{
    (site as u64) * 0x1_0000_0000u64 + (context as u64)
}

/// The record needs its order numbered: it is a comparison of the program
/// or of a library function.
pub open spec fn is_ordered(op: u32) -> bool {
    op < COND_AFL_OP || op == COND_FN_OP
}

/// The count kept for a site in a context; zero for one not seen.
pub open spec fn count_at(orders: Map<u64, u32>, key: u64) -> u32 {
    if orders.contains_key(key) {
        orders[key]
    } else {
        0
    }
}

/// The count of a site after a record with `order` came by: a record
/// whose order is zero opens a new visit of the site.
pub open spec fn count_after(count: u32, order: u32) -> u32 {
    if order == 0 {
        wrapped(count, 1)
    } else {
        count
    }
}

/// The record is written: its order within the visit is small enough.
pub open spec fn is_logged(order: u32) -> bool {
    (order & 0xffff) <= MAX_COND_ORDER
}

/// The record as it is numbered at a site that was visited `count` times
/// before.
pub open spec fn numbered(cond: CondStmtBase, count: u32) -> CondStmtBase {
    if is_ordered(cond.op) {
        CondStmtBase { order: wrapped(cond.order, count_after(count, cond.order)), ..cond }
    } else {
        cond
    }
}

/// The record for the tag of a label, where the label is not zero and the
/// report has no tag for it yet.
pub open spec fn tag_msg(data: LogView, lb: u32, tag: Seq<TagSeg>) -> Seq<MsgView> {
    if lb > 0 && !data.tags.contains_key(lb) {
        seq![MsgView::Tag { lb, tag }]
    } else {
        Seq::empty()
    }
}

/// The records that are written for a condition whose operands have the
/// tags `tag1` and `tag2`, at a site that was visited `count` times before:
/// nothing for a condition without taint or with too high an order, else
/// the tags that are new and then the numbered condition.
pub open spec fn saved_msgs(
    data: LogView,
    count: u32,
    cond: CondStmtBase,
    tag1: Seq<TagSeg>,
    tag2: Seq<TagSeg>,
) -> Seq<MsgView> {
    if cond.lb1 == 0 && cond.lb2 == 0 {
        Seq::empty()
    } else if !is_logged(numbered(cond, count).order) {
        Seq::empty()
    } else {
        let first = tag_msg(data, cond.lb1, tag1);
        let second = tag_msg(data.with_all(first), cond.lb2, tag2);
        first + second + seq![MsgView::Cond { cond: numbered(cond, count) }]
    }
}

/// The values of a list of records.
pub open spec fn msg_views(msgs: Seq<LogMsg>) -> Seq<MsgView> {
    msgs.map_values(|m: LogMsg| m@)
}

/// The state of the logger inside the target.
pub struct Logger {
    pub data: LogData,
    /// For each site in its context, how often it was visited.
    pub order_map: HashMap<u64, u32>,
}

impl Logger {
    /// For each site in its context, how often it was visited.
    pub open spec fn orders(&self) -> Map<u64, u32> {
        self.order_map@
    }

    pub fn new() -> (logger: Self)
        ensures
            logger.data@ == LogView::empty(),
            logger.orders() == Map::<u64, u32>::empty(),
    {
        Logger { data: LogData::new(), order_map: HashMap::new() }
    }

    /// Numbers a record: adds the count of visits of its site to its
    /// order. A record whose order is zero counts as a new visit.
    pub fn update_order(&mut self, cond: &mut CondStmtBase)
        ensures
            final(self).orders() == old(self).orders().insert(
                edge_key_of(old(cond).cmpid, old(cond).context),
                count_after(
                    count_at(old(self).orders(), edge_key_of(old(cond).cmpid, old(cond).context)),
                    old(cond).order,
                ),
            ),
            *final(cond) == (CondStmtBase {
                order: wrapped(
                    old(cond).order,
                    count_after(
                        count_at(
                            old(self).orders(),
                            edge_key_of(old(cond).cmpid, old(cond).context),
                        ),
                        old(cond).order,
                    ),
                ),
                ..*old(cond)
            }),
            final(self).data == old(self).data,
    {
        let key = site_key(cond.cmpid, cond.context);
        let known = match self.order_map.get(&key) {
            Some(count) => *count,
            None => 0,
        };
        let count = if cond.order == 0 {
            wrapping(known, 1)
        } else {
            known
        };
        let _ = self.order_map.insert(key, count);
        cond.order = wrapping(cond.order, count);
    }

    /// The records that are written for the tag of a label: the tag where
    /// the label is new, nothing where it is zero or known.
    pub fn save_tag(&mut self, lb: u32, tag: Vec<TagSeg>) -> (written: Option<LogMsg>)
        ensures
            final(self).orders() == old(self).orders(),
            match written {
                Some(msg) => {
                    &&& lb > 0 && !old(self).data@.tags.contains_key(lb)
                    &&& msg@ == (MsgView::Tag { lb, tag: tag@ })
                    &&& final(self).data@ == old(self).data@.with(msg@)
                },
                None => {
                    &&& lb == 0 || old(self).data@.tags.contains_key(lb)
                    &&& final(self).data@ == old(self).data@
                },
            },
    {
        if lb > 0 && !self.data.tags.contains_key(&lb) {
            let copy = crate::cond_stmt::copy_segs(&tag);
            self.data.record(LogMsg::Tag { lb, tag });
            Some(LogMsg::Tag { lb, tag: copy })
        } else {
            None
        }
    }

    /// Whether the record is kept at all: one of its operands is tainted.
    pub fn is_tainted(cond: &CondStmtBase) -> (b: bool)
        ensures
            b == (cond.lb1 != 0 || cond.lb2 != 0),
    {
        cond.lb1 != 0 || cond.lb2 != 0
    }

    /// Numbers a tainted record and says whether it is written.
    pub fn number(&mut self, cond: &mut CondStmtBase) -> (logged: bool)
        requires
            old(cond).lb1 != 0 || old(cond).lb2 != 0,
        ensures
            logged == is_logged(final(cond).order),
            final(self).data == old(self).data,
            !is_ordered(old(cond).op) ==> *final(cond) == *old(cond) && final(self).orders() == old(
                self,
            ).orders(),
            is_ordered(old(cond).op) ==> {
                let key = edge_key_of(old(cond).cmpid, old(cond).context);
                let count = count_after(count_at(old(self).orders(), key), old(cond).order);
                &&& final(self).orders() == old(self).orders().insert(key, count)
                &&& *final(cond) == (CondStmtBase {
                    order: wrapped(old(cond).order, count),
                    ..*old(cond)
                })
            },
    {
        if cond.op < COND_AFL_OP || cond.op == COND_FN_OP {
            self.update_order(cond);
        }
        (cond.order & 0xffff) <= MAX_COND_ORDER
    }

    /// Takes a condition from the instrumentation, with the tags of its two
    /// operands: numbers it and returns the records to write, which are
    /// entered into the logger's own report as well.
    pub fn save(&mut self, cond: CondStmtBase, tag1: Vec<TagSeg>, tag2: Vec<TagSeg>) -> (written:
        Vec<LogMsg>)
        ensures
            msg_views(written@) == saved_msgs(
                old(self).data@,
                count_at(old(self).orders(), edge_key_of(cond.cmpid, cond.context)),
                cond,
                tag1@,
                tag2@,
            ),
            final(self).data@ == old(self).data@.with_all(msg_views(written@)),
            final(self).orders() == (if (cond.lb1 != 0 || cond.lb2 != 0) && is_ordered(cond.op) {
                old(self).orders().insert(
                    edge_key_of(cond.cmpid, cond.context),
                    count_after(
                        count_at(old(self).orders(), edge_key_of(cond.cmpid, cond.context)),
                        cond.order,
                    ),
                )
            } else {
                old(self).orders()
            }),
    {
        let mut written: Vec<LogMsg> = Vec::new();
        let mut cond = cond;
        proof {
            assert(msg_views(written@) =~= Seq::<MsgView>::empty());
        }
        if !Self::is_tainted(&cond) {
            return written;
        }
        if !self.number(&mut cond) {
            return written;
        }
        let ghost start = self.data@;
        let lb1 = cond.lb1;
        let lb2 = cond.lb2;
        match self.save_tag(lb1, tag1) {
            Some(msg) => {
                written.push(msg);
            },
            None => {},
        }
        let ghost first = msg_views(written@);
        proof {
            assert(first =~= tag_msg(start, lb1, tag1@));
            lemma_with_all_short(start, first);
        }
        let ghost mid = self.data@;
        match self.save_tag(lb2, tag2) {
            Some(msg) => {
                written.push(msg);
            },
            None => {},
        }
        let ghost second = tag_msg(mid, lb2, tag2@);
        let ghost two = msg_views(written@);
        proof {
            assert(two =~= first + second);
            lemma_with_all_short(mid, second);
        }
        let ghost late = self.data@;
        let msg = self.keep(cond);
        written.push(msg);
        proof {
            let last = seq![MsgView::Cond { cond }];
            assert(msg_views(written@) =~= first + second + last);
            lemma_with_all_short(late, last);
            lemma_with_all_concat(start, first, second);
            lemma_with_all_concat(start, first + second, last);
        }
        written
    }

    /// Enters a record that is written into the logger's own report.
    pub fn keep(&mut self, cond: CondStmtBase) -> (written: LogMsg)
        ensures
            written@ == (MsgView::Cond { cond }),
            final(self).data@ == old(self).data@.with(written@),
            final(self).orders() == old(self).orders(),
    {
        self.data.record(LogMsg::Cond { cond });
        LogMsg::Cond { cond }
    }

    /// The record for the probe bytes of the condition written last; none
    /// before the first condition.
    pub fn save_magic_bytes(&mut self, bytes: (Vec<u8>, Vec<u8>)) -> (written: Option<LogMsg>)
        ensures
            final(self).orders() == old(self).orders(),
            match written {
                Some(msg) => {
                    &&& old(self).data@.cond_list.len() > 0
                    &&& msg@ == (MsgView::MagicBytes {
                        i: old(self).data.cond_list@.len() as usize,
                        left: bytes.0@,
                        right: bytes.1@,
                    })
                    &&& final(self).data@ == old(self).data@.with(msg@)
                },
                None => {
                    &&& old(self).data@.cond_list.len() == 0
                    &&& final(self).data@ == old(self).data@
                },
            },
    {
        let i = self.data.cond_list.len();
        if i > 0 {
            let left = crate::cond_stmt::copy_bytes(&bytes.0);
            let right = crate::cond_stmt::copy_bytes(&bytes.1);
            self.data.record(LogMsg::MagicBytes { i, bytes });
            Some(LogMsg::MagicBytes { i, bytes: (left, right) })
        } else {
            None
        }
    }

    /// The record for a library that the target loaded; none for one that
    /// was loaded before.
    pub fn save_load(&mut self, path: Vec<u8>) -> (written: Option<LogMsg>)
        ensures
            final(self).orders() == old(self).orders(),
            match written {
                Some(msg) => {
                    &&& !old(self).data@.load_paths.contains(path@)
                    &&& msg@ == (MsgView::Load { path: path@ })
                    &&& final(self).data@ == old(self).data@.with(msg@)
                },
                None => {
                    &&& old(self).data@.load_paths.contains(path@)
                    &&& final(self).data@ == old(self).data@
                },
            },
    {
        if self.data.has_load_path(&path) {
            None
        } else {
            let copy = crate::cond_stmt::copy_bytes(&path);
            self.data.record(LogMsg::Load { path });
            Some(LogMsg::Load { path: copy })
        }
    }
}

/// Entering no record changes nothing, and entering one is one step.
pub proof fn lemma_with_all_short(data: LogView, msgs: Seq<MsgView>)
    requires
        msgs.len() <= 1,
    ensures
        msgs.len() == 0 ==> data.with_all(msgs) == data,
        msgs.len() == 1 ==> data.with_all(msgs) == data.with(msgs[0]),
{
    if msgs.len() == 1 {
        assert(msgs.drop_first() =~= Seq::<MsgView>::empty());
        assert(data.with(msgs.first()).with_all(msgs.drop_first()) == data.with(msgs.first()));
    }
}

/// Entering records one list after another is entering them all in turn.
pub proof fn lemma_with_all_concat(data: LogView, a: Seq<MsgView>, b: Seq<MsgView>)
    ensures
        data.with_all(a + b) == data.with_all(a).with_all(b),
    decreases a.len(),
{
    if a.len() == 0 {
        assert(a + b =~= b);
    } else {
        assert((a + b).first() == a.first());
        assert((a + b).drop_first() =~= a.drop_first() + b);
        lemma_with_all_concat(data.with(a.first()), a.drop_first(), b);
    }
}

} // verus!
