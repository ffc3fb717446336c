use ampfuzz::cond_stmt::{CondState, CondStmt};
use ampfuzz::cond_stmt_base::CondStmtBase;
use ampfuzz::defs::{COND_AFL_OP, COND_TRUE_ST};
use ampfuzz::depot::depot::{Depot, SaveDir, Saved};
use ampfuzz::depot::qpriority::QPriority;
use ampfuzz::depot::queue::{cond_key, CondQueue};
use ampfuzz::depot::random::pick_input;
use ampfuzz::byte_count::{AmpByteCount, UdpByteCount};
use ampfuzz::dyncfg::cfg::{ControlFlowGraph, UNDEF_SCORE};
use ampfuzz::status_type::StatusType;
use ampfuzz::tag::TagSeg;

fn cond(cmpid: u32, order: u32, speed: u32) -> CondStmt {
    let mut base = CondStmtBase::default();
    base.cmpid = cmpid;
    base.order = order;
    base.op = 32;
    let mut c = CondStmt::from(base);
    c.speed = speed;
    c.offsets = vec![TagSeg { begin: 0, end: 4, sign: false }];
    c
}

#[test]
fn priorities_are_deterministic_and_ordered() {
    assert_eq!(QPriority::init_distance(32, 5), QPriority::init_distance(32, 5));
    assert_eq!(QPriority::init_distance(32, 5), QPriority { level: 0, distance: 5 });
    assert_eq!(QPriority::init_distance(COND_AFL_OP, 5), QPriority { level: 1, distance: 5 });
    assert_eq!(QPriority::init(32), QPriority { level: 0, distance: 0 });
    assert!(QPriority::init_distance(32, 5).to_rank() > QPriority::init_distance(32, 6).to_rank());
    assert!(QPriority::init_distance(32, 900).to_rank() > QPriority::init_distance(COND_AFL_OP, 0).to_rank());
    assert!(QPriority::done().is_done());
    assert!(QPriority::init_distance(32, u32::MAX).to_rank() > QPriority::done().to_rank());
    assert_eq!(QPriority::init(32).inc(32), QPriority { level: 1, distance: 0 });
    assert_eq!(QPriority::init(COND_AFL_OP).inc(COND_AFL_OP), QPriority { level: 3, distance: 0 });
    assert_eq!(QPriority { level: 0xFFFE, distance: 1 }.inc(32), QPriority { level: 0xFFFE, distance: 1 });
    assert_eq!(QPriority::done().inc(32), QPriority::done());
    assert_eq!(QPriority { level: 4, distance: 1 }.new_distance(9), QPriority { level: 4, distance: 9 });
}

#[test]
fn keys_tell_conditions_apart() {
    let a = cond(1, 0, 0);
    let mut b = cond(1, 0, 50);
    assert_eq!(cond_key(&a.base), cond_key(&b.base));
    b.base.context = 1;
    assert_ne!(cond_key(&a.base), cond_key(&b.base));
    let mut c = CondStmtBase::default();
    c.cmpid = 0xAAAA_AAAA;
    c.context = 0xBBBB_BBBB;
    c.order = 0xCCCC_CCCC;
    c.op = 0xDDDD_DDDD;
    assert_eq!(cond_key(&c), 0xAAAA_AAAA_BBBB_BBBB_CCCC_CCCC_DDDD_DDDDu128);
}

#[test]
fn one_entry_for_each_condition() {
    let mut depot = Depot::new(ControlFlowGraph::new());
    assert!(depot.get_entry().is_none());
    depot.add_entries(vec![cond(1, 0, 100), cond(2, 0, 100), cond(1, 0, 100)]);
    assert_eq!(depot.queue.len(), 2);
    assert!(depot.queue.contains(&cond(1, 0, 0).base));
    assert!(!depot.queue.contains(&cond(3, 0, 0).base));
    let mut keys = depot.queue.keys();
    keys.sort();
    assert_eq!(keys, vec![cond_key(&cond(1, 0, 0).base), cond_key(&cond(2, 0, 0).base)]);
}

#[test]
fn undesirable_conditions_are_not_taken() {
    let mut depot = Depot::new(ControlFlowGraph::new());
    let mut c = cond(1, 0, 0);
    c.is_desirable = false;
    depot.add_entries(vec![c]);
    assert_eq!(depot.queue.len(), 0);
}

#[test]
fn the_faster_of_two_equal_conditions_is_kept() {
    let mut depot = Depot::new(ControlFlowGraph::new());
    depot.add_entries(vec![cond(1, 0, 100)]);
    depot.add_entries(vec![cond(1, 0, 500)]);
    assert_eq!(depot.queue.get(&cond(1, 0, 0).base).unwrap().0.speed, 100);
    depot.add_entries(vec![cond(1, 0, 10)]);
    let (held, priority) = depot.queue.get(&cond(1, 0, 0).base).unwrap();
    assert_eq!(held.speed, 10);
    assert_eq!(priority, QPriority { level: 0, distance: UNDEF_SCORE });
}

#[test]
fn both_outcomes_seen_finishes_the_condition() {
    let mut depot = Depot::new(ControlFlowGraph::new());
    depot.add_entries(vec![cond(1, 0, 100)]);
    let mut other = cond(1, 0, 100);
    other.base.condition = COND_TRUE_ST;
    depot.add_entries(vec![other]);
    let (held, priority) = depot.queue.get(&cond(1, 0, 0).base).unwrap();
    assert!(held.is_done());
    assert!(held.offsets.is_empty());
    assert!(priority.is_done());
    // Nothing brings it back.
    depot.add_entries(vec![cond(1, 0, 1)]);
    let (held, priority) = depot.queue.get(&cond(1, 0, 0).base).unwrap();
    assert!(held.is_done());
    assert!(priority.is_done());
}

#[test]
fn entries_come_out_nearest_first_and_move_down() {
    let mut cfg = ControlFlowGraph::new();
    cfg.add_edge((1, 2));
    cfg.add_edge((2, 3));
    cfg.add_target(3);
    let mut depot = Depot::new(cfg);
    depot.add_entries(vec![cond(1, 0, 0), cond(2, 0, 0), cond(9, 0, 0)]);
    let (first, p1) = depot.get_entry().unwrap();
    assert_eq!(first.base.cmpid, 2);
    assert_eq!(p1, QPriority { level: 0, distance: 1 });
    let (second, p2) = depot.get_entry().unwrap();
    assert_eq!(second.base.cmpid, 1);
    assert_eq!(p2, QPriority { level: 0, distance: 2 });
    let (third, p3) = depot.get_entry().unwrap();
    assert_eq!(third.base.cmpid, 9);
    assert_eq!(p3, QPriority { level: 0, distance: UNDEF_SCORE });
    // All three are one level down now; the nearest is first again.
    let (again, p4) = depot.get_entry().unwrap();
    assert_eq!(again.base.cmpid, 2);
    assert_eq!(p4, QPriority { level: 1, distance: 1 });
}

#[test]
fn update_entry_replaces_and_retires() {
    let mut cfg = ControlFlowGraph::new();
    cfg.add_edge((1, 2));
    cfg.add_target(2);
    cfg.add_target(1);
    let mut depot = Depot::new(cfg);
    depot.add_entries(vec![cond(1, 0, 0)]);
    let (mut taken, _) = depot.get_entry().unwrap();
    taken.fuzz_times = 3;
    cfg_check(&depot, 1, true);
    assert!(depot.update_entry(taken.clone()));
    let (held, priority) = depot.queue.get(&taken.base).unwrap();
    assert_eq!(held.fuzz_times, 3);
    assert_eq!(priority, QPriority { level: 1, distance: 0 });
    taken.state = CondState::Unsolvable;
    assert!(depot.update_entry(taken.clone()));
    assert!(depot.queue.get(&taken.base).unwrap().1.is_done());
    cfg_check(&depot, 1, false);
    cfg_check(&depot, 2, true);
    assert!(!depot.update_entry(cond(77, 0, 0)));
    assert_eq!(depot.queue.len(), 1);
}

fn cfg_check(depot: &Depot, site: u32, is_target: bool) {
    assert_eq!(depot.cfg.is_target(site), is_target);
}

#[test]
fn inputs_are_numbered_by_kind() {
    let mut depot = Depot::new(ControlFlowGraph::new());
    assert!(depot.empty());
    assert_eq!(depot.try_next_random(), None);
    assert_eq!(depot.save(&StatusType::Normal, false), Saved { id: 0, dir: Some(SaveDir::Inputs), amp: false });
    assert_eq!(depot.save(&StatusType::Normal, false), Saved { id: 1, dir: Some(SaveDir::Inputs), amp: false });
    assert_eq!(depot.save(&StatusType::Timeout, false), Saved { id: 0, dir: Some(SaveDir::Hangs), amp: false });
    assert_eq!(depot.save(&StatusType::Crash, false), Saved { id: 0, dir: Some(SaveDir::Crashes), amp: false });
    assert_eq!(depot.save(&StatusType::Crash, false), Saved { id: 1, dir: Some(SaveDir::Crashes), amp: false });
    assert_eq!(depot.save(&StatusType::Skip, false), Saved { id: 0, dir: None, amp: false });
    assert_eq!(depot.save(&StatusType::Error, false), Saved { id: 0, dir: None, amp: false });
    assert_eq!((depot.num_inputs, depot.num_hangs, depot.num_crashes, depot.num_amps), (2, 1, 2, 0));
    assert!(!depot.empty());
    assert!(depot.next_random() < 2);
    assert!(depot.try_next_random().unwrap() < 2);
}

#[test]
fn an_amplifying_input_is_kept_twice_unless_known() {
    let mut depot = Depot::new(ControlFlowGraph::new());
    let status = StatusType::Amp(
        7,
        AmpByteCount { bytes_in: UdpByteCount::from_l7(16), bytes_out: UdpByteCount::from_l7(16) },
    );
    assert_eq!(depot.save(&status, false), Saved { id: 0, dir: Some(SaveDir::Inputs), amp: true });
    assert_eq!((depot.num_inputs, depot.num_amps), (1, 1));
    assert_eq!(depot.save(&status, true), Saved { id: 0, dir: None, amp: false });
    assert_eq!((depot.num_inputs, depot.num_amps), (1, 1));
}

#[test]
fn random_picks_stay_in_range() {
    assert_eq!(pick_input(17, 5), 2);
    assert_eq!(pick_input(usize::MAX, 1), 0);
    assert_eq!(pick_input(4, 5), 4);
}

#[test]
fn queue_alone_keeps_entries() {
    let mut queue = CondQueue::new();
    assert_eq!(queue.len(), 0);
    queue.add_entry(cond(5, 1, 0), 3);
    queue.add_entry(cond(5, 2, 0), 1);
    assert_eq!(queue.len(), 2);
    let (top, priority) = queue.get_entry().unwrap();
    assert_eq!(top.base.order, 2);
    assert_eq!(priority, QPriority { level: 0, distance: 1 });
    assert!(queue.update_entry(&cond(5, 2, 9), 0));
    assert_eq!(queue.get(&cond(5, 2, 0).base).unwrap().1, QPriority { level: 1, distance: 0 });
    assert_eq!(queue.cond_of(cond_key(&cond(5, 1, 0).base)).unwrap().base.order, 1);
    assert!(queue.cond_of(1).is_none());
}
