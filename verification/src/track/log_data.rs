//! The records of a tracking run.
use vstd::prelude::*;
use std::collections::HashMap;
use crate::cond_stmt_base::CondStmtBase;
use crate::tag::TagSeg;

verus! {

broadcast use vstd::std_specs::hash::group_hash_axioms;

/// One record of the log.
#[derive(Debug)]
pub enum LogMsg {
    /// The input ranges behind the taint label `lb`.
    Tag { lb: u32, tag: Vec<TagSeg> },
    /// The bytes compared by the `i`-th condition so far, counted from one.
    MagicBytes { i: usize, bytes: (Vec<u8>, Vec<u8>) },
    /// A condition.
    Cond { cond: CondStmtBase },
    /// A library that the target loaded; the path has no zero byte.
    Load { path: Vec<u8> },
}

/// The value of a record.
pub enum MsgView {
    Tag { lb: u32, tag: Seq<TagSeg> },
    MagicBytes { i: usize, left: Seq<u8>, right: Seq<u8> },
    Cond { cond: CondStmtBase },
    Load { path: Seq<u8> },
}

impl View for LogMsg {
    type V = MsgView;

    open spec fn view(&self) -> MsgView {
        match *self {
            LogMsg::Tag { lb, tag } => MsgView::Tag { lb, tag: tag@ },
            LogMsg::MagicBytes { i, bytes } => MsgView::MagicBytes {
                i,
                left: bytes.0@,
                right: bytes.1@,
            },
            LogMsg::Cond { cond } => MsgView::Cond { cond },
            LogMsg::Load { path } => MsgView::Load { path: path@ },
        }
    }
}

/// Everything that one tracking run reported.
pub struct LogData {
    pub cond_list: Vec<CondStmtBase>,
    pub tags: HashMap<u32, Vec<TagSeg>>,
    pub magic_bytes: HashMap<usize, (Vec<u8>, Vec<u8>)>,
    /// The libraries that the target loaded, each once, in the order of
    /// their first loading.
    pub load_paths: Vec<Vec<u8>>,
}

/// The value of what a tracking run reported.
pub struct LogView {
    pub cond_list: Seq<CondStmtBase>,
    pub tags: Map<u32, Seq<TagSeg>>,
    pub magic_bytes: Map<usize, (Seq<u8>, Seq<u8>)>,
    pub load_paths: Seq<Seq<u8>>,
}

impl View for LogData {
    type V = LogView;

    open spec fn view(&self) -> LogView {
        LogView {
            cond_list: self.cond_list@,
            tags: Map::new(|lb: u32| self.tags@.contains_key(lb), |lb: u32| self.tags@[lb]@),
            magic_bytes: Map::new(
                |i: usize| self.magic_bytes@.contains_key(i),
                |i: usize| (self.magic_bytes@[i].0@, self.magic_bytes@[i].1@),
            ),
            load_paths: self.load_paths@.map_values(|p: Vec<u8>| p@),
        }
    }
}

impl LogView {
    /// The report of a run that reported nothing.
    pub open spec fn empty() -> LogView {
        LogView {
            cond_list: Seq::empty(),
            tags: Map::empty(),
            magic_bytes: Map::empty(),
            load_paths: Seq::empty(),
        }
    }

    /// The report after one more record. A tag or probe bytes take the
    /// place of what was recorded for the label or the condition before; a
    /// library that was loaded before is not listed again. Probe bytes that
    /// name no condition, with the number zero, change nothing.
    pub open spec fn with(self, msg: MsgView) -> LogView {
        match msg {
            MsgView::Tag { lb, tag } => LogView { tags: self.tags.insert(lb, tag), ..self },
            MsgView::MagicBytes { i, left, right } => if i > 0 {
                LogView {
                    magic_bytes: self.magic_bytes.insert((i - 1) as usize, (left, right)),
                    ..self
                }
            } else {
                self
            },
            MsgView::Cond { cond } => LogView { cond_list: self.cond_list.push(cond), ..self },
            MsgView::Load { path } => if self.load_paths.contains(path) {
                self
            } else {
                LogView { load_paths: self.load_paths.push(path), ..self }
            },
        }
    }

    /// The report after the records in turn.
    pub open spec fn with_all(self, msgs: Seq<MsgView>) -> LogView
        decreases msgs.len(),
    {
        if msgs.len() == 0 {
            self
        } else {
            self.with(msgs.first()).with_all(msgs.drop_first())
        }
    }
}

/// Whether two lists of bytes are the same.
pub fn same_bytes(a: &Vec<u8>, b: &Vec<u8>) -> (same: bool)
    ensures
        same == (a@ == b@),
{
    if a.len() != b.len() {
        return false;
    }
    let mut i: usize = 0;
    while i < a.len()
        invariant
            i <= a.len(),
            a.len() == b.len(),
            forall|j: int| 0 <= j < i ==> a@[j] == b@[j],
        decreases a.len() - i,
    {
        if a[i] != b[i] {
            return false;
        }
        i = i + 1;
    }
    proof {
        assert(a@ =~= b@);
    }
    true
}

impl LogData {
    /// The report of a run that reported nothing.
    pub fn new() -> (data: Self)
        ensures
            data@ == LogView::empty(),
    {
        let data = LogData {
            cond_list: Vec::new(),
            tags: HashMap::new(),
            magic_bytes: HashMap::new(),
            load_paths: Vec::new(),
        };
        proof {
            assert(data@.tags =~= Map::<u32, Seq<TagSeg>>::empty());
            assert(data@.magic_bytes =~= Map::<usize, (Seq<u8>, Seq<u8>)>::empty());
            assert(data@.load_paths =~= Seq::<Seq<u8>>::empty());
        }
        data
    }

    /// Whether the library was reported before.
    pub fn has_load_path(&self, path: &Vec<u8>) -> (b: bool)
        ensures
            b == self@.load_paths.contains(path@),
    {
        let mut i: usize = 0;
        while i < self.load_paths.len()
            invariant
                i <= self.load_paths.len(),
                forall|j: int| 0 <= j < i ==> self.load_paths@[j]@ != path@,
            decreases self.load_paths.len() - i,
        {
            if same_bytes(&self.load_paths[i], path) {
                proof {
                    assert(self@.load_paths[i as int] == path@);
                }
                return true;
            }
            i = i + 1;
        }
        proof {
            assert forall|j: int| 0 <= j < self@.load_paths.len() implies self@.load_paths[j]
                != path@ by {
                assert(self@.load_paths[j] == self.load_paths@[j]@);
            }
        }
        false
    }

    /// Enters one more record.
    pub fn record(&mut self, msg: LogMsg)
        ensures
            final(self)@ == old(self)@.with(msg@),
    {
        match msg {
            LogMsg::Tag { lb, tag } => {
                let ghost seen = tag@;
                let _ = self.tags.insert(lb, tag);
                proof {
                    assert(self@.tags =~= old(self)@.tags.insert(lb, seen));
                    assert(self@.magic_bytes =~= old(self)@.magic_bytes);
                    assert(self@.load_paths =~= old(self)@.load_paths);
                }
            },
            LogMsg::MagicBytes { i, bytes } => {
                if i > 0 {
                    let ghost left = bytes.0@;
                    let ghost right = bytes.1@;
                    let _ = self.magic_bytes.insert(i - 1, bytes);
                    proof {
                        assert(self@.magic_bytes =~= old(self)@.magic_bytes.insert(
                            (i - 1) as usize,
                            (left, right),
                        ));
                        assert(self@.tags =~= old(self)@.tags);
                        assert(self@.load_paths =~= old(self)@.load_paths);
                    }
                }
            },
            LogMsg::Cond { cond } => {
                self.cond_list.push(cond);
                proof {
                    assert(self@.tags =~= old(self)@.tags);
                    assert(self@.magic_bytes =~= old(self)@.magic_bytes);
                    assert(self@.load_paths =~= old(self)@.load_paths);
                }
            },
            LogMsg::Load { path } => {
                if !self.has_load_path(&path) {
                    let ghost seen = path@;
                    self.load_paths.push(path);
                    proof {
                        assert(self@.load_paths =~= old(self)@.load_paths.push(seen));
                        assert(self@.tags =~= old(self)@.tags);
                        assert(self@.magic_bytes =~= old(self)@.magic_bytes);
                    }
                }
            },
        }
    }
}

} // verus!
