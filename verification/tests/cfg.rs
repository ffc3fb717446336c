use ampfuzz::dyncfg::cfg::{collect_fixed_bytes, ControlFlowGraph, UNDEF_SCORE};
use ampfuzz::tag::TagSeg;

#[test]
fn add_edge_is_idempotent() {
    let mut cfg = ControlFlowGraph::new();
    assert!(!cfg.has_edge((1, 2)));
    assert!(cfg.add_edge((1, 2)));
    assert!(cfg.has_edge((1, 2)));
    assert!(!cfg.has_edge((2, 1)));
    assert!(!cfg.add_edge((1, 2)));
    assert!(cfg.has_edge((1, 2)));
    assert!(cfg.add_edge((2, 1)));
    assert!(cfg.add_edge((3, 3)));
}

#[test]
fn reachability_follows_edges_to_live_targets() {
    let mut cfg = ControlFlowGraph::new();
    cfg.add_edge((1, 2));
    cfg.add_edge((2, 3));
    cfg.add_edge((4, 5));
    assert!(!cfg.has_path_to_target(1));
    cfg.add_target(3);
    assert!(cfg.is_target(3));
    assert!(!cfg.is_target(2));
    assert!(cfg.has_path_to_target(1));
    assert!(cfg.has_path_to_target(2));
    assert!(cfg.has_path_to_target(3));
    assert!(!cfg.has_path_to_target(4));
    assert!(!cfg.has_path_to_target(99));
    cfg.remove_target(3);
    assert!(!cfg.is_target(3));
    assert!(!cfg.has_path_to_target(1));
    assert!(!cfg.has_path_to_target(3));
}

#[test]
fn score_is_the_distance_to_the_nearest_target() {
    let mut cfg = ControlFlowGraph::new();
    cfg.add_edge((1, 2));
    cfg.add_edge((2, 3));
    cfg.add_edge((3, 4));
    cfg.add_edge((1, 4));
    cfg.add_edge((9, 1));
    cfg.add_target(4);
    assert_eq!(cfg.score_for_cmp(4), 0);
    assert_eq!(cfg.score_for_cmp(3), 1);
    assert_eq!(cfg.score_for_cmp(2), 2);
    assert_eq!(cfg.score_for_cmp(1), 1);
    assert_eq!(cfg.score_for_cmp(9), 2);
    assert_eq!(cfg.score_for_cmp(77), UNDEF_SCORE);
    cfg.add_target(2);
    assert_eq!(cfg.score_for_cmp(2), 0);
    assert_eq!(cfg.score_for_cmp(1), 1);
    assert_eq!(cfg.score_for_cmp_inp(9, &vec![1, 2, 3]), 2);
    cfg.remove_target(4);
    assert_eq!(cfg.score_for_cmp(3), UNDEF_SCORE);
    assert_eq!(cfg.score_for_cmp(9), 2);
}

#[test]
fn indirect_edges_and_dominators() {
    let mut cfg = ControlFlowGraph::new();
    assert_eq!(cfg.callsite_of((1, 2)), None);
    cfg.set_edge_indirect((1, 2), 500);
    assert_eq!(cfg.callsite_of((1, 2)), Some(500));
    assert_eq!(cfg.callsite_of((2, 1)), None);
    assert!(!cfg.dominates_indirect_call(10));
    cfg.add_callsite_dominator(500, 10);
    cfg.add_callsite_dominator(501, 11);
    cfg.add_callsite_dominator(500, 12);
    assert!(cfg.dominates_indirect_call(10));
    assert!(cfg.dominates_indirect_call(11));
    assert!(!cfg.dominates_indirect_call(500));
    assert_eq!(cfg.get_callsite_dominators(500), vec![10, 12]);
    assert_eq!(cfg.get_callsite_dominators(501), vec![11]);
    assert_eq!(cfg.get_callsite_dominators(7), Vec::<u32>::new());
}

#[test]
fn magic_bytes_are_the_input_under_the_offsets() {
    let input = vec![10u8, 11, 12, 13, 14];
    let offsets = vec![
        TagSeg { begin: 1, end: 3, sign: false },
        TagSeg { begin: 4, end: 9, sign: false },
        TagSeg { begin: 3, end: 3, sign: false },
        TagSeg { begin: 7, end: 2, sign: false },
    ];
    assert_eq!(collect_fixed_bytes(&input, &offsets), vec![(1, 11), (2, 12), (4, 14)]);
    let mut cfg = ControlFlowGraph::new();
    assert_eq!(cfg.get_magic_bytes((1, 2)), vec![]);
    cfg.set_magic_bytes((1, 2), &input, &offsets);
    assert_eq!(cfg.get_magic_bytes((1, 2)), vec![(1, 11), (2, 12), (4, 14)]);
    assert_eq!(cfg.get_magic_bytes((2, 1)), vec![]);
    cfg.set_magic_bytes((1, 2), &input, &vec![TagSeg { begin: 0, end: 1, sign: true }]);
    assert_eq!(cfg.get_magic_bytes((1, 2)), vec![(0, 10)]);
}

#[test]
fn append_merges_a_snapshot() {
    let mut cfg = ControlFlowGraph::new();
    cfg.add_edge((1, 2));
    cfg.add_target(2);
    cfg.append(&vec![7, 2], &vec![(2, 7), (1, 2), (7, 8)], &vec![(500, 1)]);
    assert!(cfg.is_target(7));
    assert!(cfg.is_target(2));
    assert!(cfg.has_edge((2, 7)));
    assert!(cfg.has_edge((7, 8)));
    assert!(cfg.has_edge((1, 2)));
    assert!(cfg.dominates_indirect_call(1));
    assert_eq!(cfg.score_for_cmp(1), 1);
    cfg.remove_target(2);
    assert_eq!(cfg.score_for_cmp(1), 2);
}
