use ampfuzz::branches::{bucket, hash_path, scan_path, Branches, GlobalBranches, MapKind};
use ampfuzz::byte_count::{AmpByteCount, UdpByteCount};
use ampfuzz::config::BRANCHES_SIZE;
use ampfuzz::dyncfg::cfg::ControlFlowGraph;
use ampfuzz::status_type::StatusType;

fn trace_with(hits: &[(usize, u8)]) -> Branches {
    let mut shared = vec![0u8; BRANCHES_SIZE];
    for (edge, count) in hits {
        shared[*edge] = *count;
    }
    let mut branches = Branches::new();
    branches.load_trace(&shared);
    branches
}

fn amp(request: usize, reply: usize) -> AmpByteCount {
    AmpByteCount { bytes_in: UdpByteCount::from_l7(request), bytes_out: UdpByteCount::from_l7(reply) }
}

#[test]
fn buckets_are_classes_of_counts() {
    assert_eq!(bucket(0), 0);
    assert_eq!(bucket(1), 1);
    assert_eq!(bucket(2), 2);
    assert_eq!(bucket(3), 4);
    assert_eq!(bucket(4), 8);
    assert_eq!(bucket(7), 8);
    assert_eq!(bucket(8), 16);
    assert_eq!(bucket(15), 16);
    assert_eq!(bucket(16), 32);
    assert_eq!(bucket(31), 32);
    assert_eq!(bucket(32), 64);
    assert_eq!(bucket(127), 64);
    assert_eq!(bucket(128), 128);
    assert_eq!(bucket(255), 128);
}

#[test]
fn path_lists_hit_edges_in_order() {
    assert_eq!(scan_path(&[0, 3, 0, 0, 200, 1]), vec![(1, 4), (4, 128), (5, 1)]);
    assert_eq!(scan_path(&[]), vec![]);
    assert_eq!(scan_path(&[0, 0]), vec![]);
    let branches = trace_with(&[(10, 1), (BRANCHES_SIZE - 1, 9)]);
    assert_eq!(branches.get_path(), vec![(10, 1), (BRANCHES_SIZE - 1, 16)]);
}

#[test]
fn path_hash_ignores_counts() {
    let a = trace_with(&[(10, 1), (700, 9)]);
    let b = trace_with(&[(10, 200), (700, 2)]);
    let c = trace_with(&[(10, 1), (701, 9)]);
    let d = trace_with(&[(700, 9), (10, 1)]);
    assert_eq!(a.get_path_as_hash(), b.get_path_as_hash());
    assert_ne!(a.get_path_as_hash(), c.get_path_as_hash());
    assert_eq!(a.get_path_as_hash(), d.get_path_as_hash());
    assert_eq!(hash_path(&vec![(1, 1), (2, 2)]), hash_path(&vec![(1, 128), (2, 64)]));
    assert_ne!(hash_path(&vec![(1, 1), (2, 2)]), hash_path(&vec![(2, 2), (1, 1)]));
    assert_ne!(hash_path(&vec![]), hash_path(&vec![(0, 1)]));
}

#[test]
fn clear_trace_forgets_hits() {
    let mut branches = trace_with(&[(3, 3)]);
    assert_eq!(branches.get_path().len(), 1);
    branches.clear_trace();
    assert!(branches.get_path().is_empty());
    assert_eq!(branches.trace().len(), BRANCHES_SIZE);
}

#[test]
fn first_run_is_new_and_second_is_not() {
    let mut global = GlobalBranches::new(ControlFlowGraph::new());
    let run = trace_with(&[(5, 1), (9, 3)]);
    assert_eq!(run.has_new(&mut global, &StatusType::Normal, false), (true, true, 2, false));
    assert_eq!(global.density(), 2);
    assert_eq!(global.virgin_at(MapKind::Normal, 5), 0xFE);
    assert_eq!(global.virgin_at(MapKind::Normal, 9), 0xFB);
    assert_eq!(global.virgin_at(MapKind::Normal, 6), 0xFF);
    assert_eq!(run.has_new(&mut global, &StatusType::Normal, false), (false, false, 2, false));
    assert_eq!(global.density(), 2);
    // A new class of count on a known edge is a new path, but no new edge.
    let again = trace_with(&[(5, 2), (9, 3)]);
    assert_eq!(again.has_new(&mut global, &StatusType::Normal, false), (true, false, 2, false));
    assert_eq!(global.virgin_at(MapKind::Normal, 5), 0xFC);
    assert_eq!(global.density(), 2);
}

#[test]
fn cleared_bits_never_come_back() {
    let mut global = GlobalBranches::new(ControlFlowGraph::new());
    let runs = [
        trace_with(&[(1, 1)]),
        trace_with(&[(1, 130), (2, 5)]),
        trace_with(&[(1, 1), (2, 5)]),
        trace_with(&[(1, 16)]),
    ];
    let mut before = [0xFFu8; 3];
    for run in runs.iter() {
        run.has_new(&mut global, &StatusType::Normal, false);
        for edge in 0..3 {
            let now = global.virgin_at(MapKind::Normal, edge);
            assert_eq!(now & !before[edge], 0);
            before[edge] = now;
        }
    }
    assert_eq!(before[1], 0xFF & !1 & !128 & !32);
    assert_eq!(before[2], 0xFF & !8);
}

#[test]
fn skipped_and_failed_runs_change_nothing() {
    let mut global = GlobalBranches::new(ControlFlowGraph::new());
    let run = trace_with(&[(5, 1)]);
    assert_eq!(run.has_new(&mut global, &StatusType::Skip, false), (false, false, 0, false));
    assert_eq!(run.has_new(&mut global, &StatusType::Error, false), (false, false, 0, false));
    assert_eq!(global.density(), 0);
    assert_eq!(global.virgin_at(MapKind::Normal, 5), 0xFF);
}

#[test]
fn a_crash_is_held_against_its_own_map() {
    let mut global = GlobalBranches::new(ControlFlowGraph::new());
    let run = trace_with(&[(5, 1)]);
    assert_eq!(run.has_new(&mut global, &StatusType::Crash, false), (true, true, 1, false));
    assert_eq!(global.virgin_at(MapKind::Crash, 5), 0xFE);
    assert_eq!(global.virgin_at(MapKind::Normal, 5), 0xFF);
    assert_eq!(global.virgin_at(MapKind::Timeout, 5), 0xFF);
    assert_eq!(global.density(), 0);
    assert_eq!(run.has_new(&mut global, &StatusType::Timeout, false), (true, true, 1, false));
    assert_eq!(global.virgin_at(MapKind::Timeout, 5), 0xFE);
    // The normal map still sees the edge as new.
    assert_eq!(run.has_new(&mut global, &StatusType::Normal, false), (true, true, 1, false));
    assert_eq!(global.density(), 1);
}

#[test]
fn a_target_that_never_replies_is_an_ordinary_run() {
    let mut global = GlobalBranches::new(ControlFlowGraph::new());
    let run = trace_with(&[(100, 1), (200, 1)]);
    let (has_new_path, _, edge_num, has_good_amp) = run.has_new(&mut global, &StatusType::Normal, false);
    assert!(has_new_path);
    assert!(!has_good_amp);
    assert_eq!(edge_num, 2);
    assert!(global.density() >= 1);
    assert!(global.path_amps().is_empty());
    assert_eq!(global.density_permyriad(), 2 * 10000 / BRANCHES_SIZE);
}

#[test]
fn two_replies_on_one_path_keep_the_better() {
    let mut global = GlobalBranches::new(ControlFlowGraph::new());
    let run = trace_with(&[(100, 1), (200, 1)]);
    let path = run.get_path_as_hash();
    let first = StatusType::Amp(path, amp(50, 100));
    assert_eq!(run.has_new(&mut global, &first, false), (true, true, 2, true));
    assert_eq!(global.path_amps().len(), 1);
    assert_eq!(global.best_amp().bytes_out.l7_size(), 100);
    // The same edges again, with a larger reply: no new coverage, a better amplification.
    let second = StatusType::Amp(path, amp(50, 1000));
    assert_eq!(run.has_new(&mut global, &second, false), (false, false, 2, true));
    assert_eq!(global.path_amps().len(), 1);
    assert_eq!(global.path_amps().get(&path).unwrap().bytes_out.l7_size(), 1000);
    assert_eq!(global.best_amp().bytes_out.l7_size(), 1000);
    // A smaller reply afterwards changes nothing.
    let third = StatusType::Amp(path, amp(50, 500));
    assert_eq!(run.has_new(&mut global, &third, false), (false, false, 2, false));
    assert_eq!(global.path_amps().get(&path).unwrap().bytes_out.l7_size(), 1000);
    assert_eq!(global.best_amp().bytes_out.l7_size(), 1000);
}

#[test]
fn an_echoed_seed_is_a_good_amp() {
    let mut global = GlobalBranches::new(ControlFlowGraph::new());
    let run = trace_with(&[(1, 1)]);
    let status = StatusType::Amp(run.get_path_as_hash(), amp(16, 16));
    let (_, _, _, has_good_amp) = run.has_new(&mut global, &status, false);
    assert!(has_good_amp);
}

#[test]
fn directed_runs_need_a_way_to_a_target() {
    let mut cfg = ControlFlowGraph::new();
    cfg.add_edge((7, 8));
    cfg.add_edge((8, 9));
    cfg.add_target(9);
    let mut global = GlobalBranches::new(cfg);
    let aside = trace_with(&[(20, 1)]);
    assert_eq!(aside.has_new(&mut global, &StatusType::Normal, true), (false, true, 1, false));
    let towards = trace_with(&[(7, 1), (21, 1)]);
    assert_eq!(towards.has_new(&mut global, &StatusType::Normal, true), (true, true, 2, false));
    // The edge was entered all the same.
    assert_eq!(global.virgin_at(MapKind::Normal, 20), 0xFE);
    let target_itself = trace_with(&[(9, 1)]);
    assert_eq!(target_itself.has_new(&mut global, &StatusType::Normal, true), (true, true, 1, false));
}
