use ampfuzz::branches::{Branches, GlobalBranches};
use ampfuzz::byte_count::UdpByteCount;
use ampfuzz::cond_stmt::{CondState, CondStmt};
use ampfuzz::cond_stmt_base::CondStmtBase;
use ampfuzz::config::{BRANCHES_SIZE, MAX_INVARIABLE_NUM, TMOUT_SKIP};
use ampfuzz::defs::{EarlyTermination, COND_AFL_OP, COND_AMP_OP, UNREACHABLE};
use ampfuzz::depot::depot::Depot;
use ampfuzz::dyncfg::cfg::ControlFlowGraph;
use ampfuzz::executor::envs::{
    signed_decimal, target_envs, targets_file, track_env, track_limit, EnvSetup,
};
use ampfuzz::executor::exit::{amp_status, classify_exit, classify_wait_status, count_time, ChildExit};
use ampfuzz::executor::judge::Executor;
use ampfuzz::executor::news::{
    enqueue_amp, enqueue_tracked, unlimited_memory_differs, wants_amp_cond, wants_measure,
    wants_track,
};
use ampfuzz::executor::track::{link_conds, thread_ids};
use ampfuzz::stats::local::LocalStats;
use ampfuzz::status_type::StatusType;
use ampfuzz::tag::TagSeg;

fn cond_at(cmpid: u32, thread_id: i32) -> CondStmt {
    let mut base = CondStmtBase::default();
    base.cmpid = cmpid;
    base.thread_id = thread_id;
    base.op = 32;
    CondStmt::from(base)
}

#[test]
fn sixteen_equal_outputs_make_a_condition_invariable() {
    assert_eq!(MAX_INVARIABLE_NUM, 16);
    let mut exec = Executor::new(false);
    let mut cond = cond_at(1, 0);
    for run in 1..=15 {
        let skip = exec.check_invariable(777, &mut cond);
        assert!(!skip, "run {}", run);
        assert!(cond.is_desirable, "run {}", run);
    }
    let skip = exec.check_invariable(777, &mut cond);
    assert!(skip);
    assert!(!cond.is_desirable);
    assert_eq!(exec.last_f, 777);
    // A changed output starts over.
    assert!(!exec.check_invariable(778, &mut cond));
    assert_eq!(exec.invariable_cnt, 1);
}

#[test]
fn deterministic_and_one_byte_conditions_are_not_skipped() {
    for state in [CondState::Det, CondState::OneByte] {
        let mut exec = Executor::new(false);
        let mut cond = cond_at(1, 0);
        cond.state = state;
        let mut skipped = false;
        for _ in 0..20 {
            skipped |= exec.check_invariable(5, &mut cond);
        }
        assert!(!skipped);
        assert!(!cond.is_desirable);
    }
}

#[test]
fn an_output_of_zero_explores_the_condition() {
    let exec = Executor::new(false);
    let mut cond = cond_at(1, 0);
    cond.variables = vec![1];
    assert!(!exec.check_explored(&mut cond, 5));
    assert!(!cond.is_done());
    assert!(exec.check_explored(&mut cond, 0));
    assert!(cond.is_done());
    assert!(cond.variables.is_empty());
    assert!(!exec.check_explored(&mut cond, 0));
}

#[test]
fn an_unreached_condition_is_inconsistent_on_its_first_run_only() {
    let exec = Executor::new(false);
    let mut cond = cond_at(1, 0);
    cond.fuzz_times = 1;
    exec.check_consistent(5, &mut cond, true);
    assert!(cond.is_consistent);
    exec.check_consistent(UNREACHABLE, &mut cond, false);
    assert!(cond.is_consistent);
    cond.fuzz_times = 2;
    exec.check_consistent(UNREACHABLE, &mut cond, true);
    assert!(cond.is_consistent);
    cond.fuzz_times = 1;
    cond.state = CondState::Det;
    exec.check_consistent(UNREACHABLE, &mut cond, true);
    assert!(cond.is_consistent);
    cond.state = CondState::Initial;
    exec.check_consistent(UNREACHABLE, &mut cond, true);
    assert!(!cond.is_consistent);
}

#[test]
fn three_timeouts_give_a_condition_up() {
    assert_eq!(TMOUT_SKIP, 3);
    let mut exec = Executor::new(false);
    let mut cond = cond_at(1, 0);
    assert_eq!(exec.check_timeout(&StatusType::Timeout, &mut cond), (StatusType::Timeout, false));
    assert_eq!(exec.check_timeout(&StatusType::Error, &mut cond), (StatusType::Timeout, true));
    assert_eq!(exec.check_timeout(&StatusType::Timeout, &mut cond), (StatusType::Skip, false));
    assert_eq!(cond.state, CondState::Timeout);
    assert_eq!(exec.tmout_cnt, 0);
    let mut fresh = cond_at(2, 0);
    exec.check_timeout(&StatusType::Timeout, &mut fresh);
    exec.check_timeout(&StatusType::Timeout, &mut fresh);
    assert_eq!(exec.check_timeout(&StatusType::Normal, &mut fresh), (StatusType::Normal, false));
    assert_eq!(exec.tmout_cnt, 0);
    assert_eq!(exec.check_timeout(&StatusType::Crash, &mut fresh), (StatusType::Crash, false));
    assert_eq!(fresh.state, CondState::Initial);
}

#[test]
fn a_skipped_round_reports_skip() {
    let mut exec = Executor::new(true);
    let mut cond = cond_at(1, 0);
    let (explored, skip) = exec.judge_output(0, &mut cond, true);
    assert!(explored && skip);
    assert_eq!(exec.finish_run(&StatusType::Normal, &mut cond, skip), (StatusType::Skip, false));
    let (explored, skip) = exec.judge_output(9, &mut cond, false);
    assert!(!explored && !skip);
    assert_eq!(exec.finish_run(&StatusType::Crash, &mut cond, skip), (StatusType::Crash, false));
    exec.finish_round();
    assert_eq!((exec.tmout_cnt, exec.invariable_cnt, exec.last_f), (0, 0, UNREACHABLE));
    exec.set_directed(false);
    assert!(!exec.is_directed);
    exec.has_new_path = true;
    exec.run_init();
    assert!(!exec.has_new_path);
}

#[test]
fn exits_are_classified() {
    assert_eq!(classify_exit(ChildExit::Exited(0), false, false), StatusType::Normal);
    assert_eq!(classify_exit(ChildExit::Exited(86), false, false), StatusType::Normal);
    assert_eq!(classify_exit(ChildExit::Exited(86), true, false), StatusType::Crash);
    assert_eq!(classify_exit(ChildExit::Exited(129), false, false), StatusType::Normal);
    assert_eq!(classify_exit(ChildExit::Exited(129), false, true), StatusType::Crash);
    assert_eq!(classify_exit(ChildExit::Signaled, false, false), StatusType::Crash);
    assert_eq!(classify_exit(ChildExit::TimedOut, true, true), StatusType::Normal);
    assert_eq!(classify_wait_status(0, false), StatusType::Normal);
    assert_eq!(classify_wait_status(11, false), StatusType::Crash);
    assert_eq!(classify_wait_status(86 << 8, true), StatusType::Crash);
    assert_eq!(classify_wait_status(86 << 8, false), StatusType::Normal);
    assert_eq!(classify_wait_status(0x7f, false), StatusType::Normal);
}

#[test]
fn a_reply_turns_an_ordinary_run_into_an_amplification() {
    let mut replies = UdpByteCount::new();
    replies.push(16);
    match amp_status(StatusType::Normal, 99, 16, replies) {
        StatusType::Amp(path, amp) => {
            assert_eq!(path, 99);
            assert_eq!(amp.bytes_in.payloads(), &vec![16]);
            assert_eq!(amp.bytes_out.payloads(), &vec![16]);
            assert_eq!(amp.bytes_out.l3_size() * 100 / amp.bytes_in.l7_size(), 275);
        }
        other => panic!("unexpected {:?}", other),
    }
    assert_eq!(amp_status(StatusType::Normal, 99, 16, UdpByteCount::new()), StatusType::Normal);
    assert_eq!(amp_status(StatusType::Crash, 99, 16, UdpByteCount::from_l7(5)), StatusType::Crash);
    assert_eq!(amp_status(StatusType::Timeout, 99, 16, UdpByteCount::from_l7(5)), StatusType::Timeout);
}

#[test]
fn speed_is_a_third_of_three_runs() {
    assert_eq!(count_time(0, 3_000_000), 1000);
    assert_eq!(count_time(3, 0), 1_000_000);
    assert_eq!(count_time(1, 500_000_999), 500_000);
    assert_eq!(count_time(u64::MAX, 0), u32::MAX);
    assert_eq!(count_time(20_000, 0), u32::MAX);
}

#[test]
fn observing_a_run_sets_flags_and_counts() {
    let mut shared = vec![0u8; BRANCHES_SIZE];
    shared[5] = 1;
    let mut branches = Branches::new();
    branches.load_trace(&shared);
    let mut global = GlobalBranches::new(ControlFlowGraph::new());
    let mut stats = LocalStats::new();
    let mut exec = Executor::new(false);
    let seen = exec.observe(&branches, &mut global, &mut stats, &StatusType::Normal);
    assert!(seen.has_new_path && !seen.has_good_amp);
    assert_eq!(seen.edge_num, 1);
    assert_eq!(seen.path_hash, branches.get_path_as_hash());
    assert!(exec.has_new_path);
    assert_eq!(stats.num_inputs.0, 1);
    assert!(stats.paths.contains(&seen.path_hash));
    assert!(wants_measure(&seen, &StatusType::Normal));
    assert!(!wants_measure(&seen, &StatusType::Crash));
    exec.run_init();
    let again = exec.observe(&branches, &mut global, &mut stats, &StatusType::Normal);
    assert!(!again.is_kept());
    assert!(!exec.has_new_path);
    assert_eq!(stats.num_inputs.0, 1);
    assert!(!wants_measure(&again, &StatusType::Normal));
}

#[test]
fn follow_ups_of_a_kept_run() {
    let amp = amp_status(StatusType::Normal, 1, 16, UdpByteCount::from_l7(16));
    assert!(wants_amp_cond(&amp, true, None));
    assert!(wants_amp_cond(&amp, true, Some(32)));
    assert!(!wants_amp_cond(&amp, true, Some(COND_AMP_OP)));
    assert!(!wants_amp_cond(&amp, false, None));
    assert!(!wants_amp_cond(&StatusType::Normal, true, None));
    assert!(wants_track(true, &StatusType::Normal));
    assert!(wants_track(true, &amp));
    assert!(!wants_track(false, &amp));
    assert!(!wants_track(true, &StatusType::Crash));
    assert!(unlimited_memory_differs(&StatusType::Timeout));
    assert!(!unlimited_memory_differs(&amp));
}

#[test]
fn tracked_conditions_enter_the_queue_with_the_whole_input_condition() {
    let mut depot = Depot::new(ControlFlowGraph::new());
    enqueue_tracked(&mut depot, vec![], true, 3, 10, 4);
    assert_eq!(depot.queue.len(), 0);
    enqueue_tracked(&mut depot, vec![cond_at(1, 0), cond_at(2, 0)], true, 3, 10, 4);
    assert_eq!(depot.queue.len(), 3);
    let afl = CondStmt::get_afl_cond(3, 0, 0);
    let (held, _) = depot.queue.get(&afl.base).unwrap();
    assert_eq!(held.base.op, COND_AFL_OP);
    assert_eq!(held.speed, 10);
    assert_eq!(held.base.arg1, 4);
    enqueue_tracked(&mut depot, vec![cond_at(5, 0)], false, 4, 10, 4);
    assert_eq!(depot.queue.len(), 4);
    enqueue_amp(&mut depot, 3);
    assert_eq!(depot.queue.len(), 5);
    assert!(depot.queue.contains(&CondStmt::get_amp_cond(3).base));
}

#[test]
fn conditions_are_linked_thread_by_thread() {
    let mut cfg = ControlFlowGraph::new();
    cfg.add_target(3);
    let conds = vec![cond_at(1, 100), cond_at(7, 200), cond_at(2, 100), cond_at(8, 200), cond_at(3, 100)];
    assert_eq!(thread_ids(&conds), vec![100, 200]);
    let out = link_conds(&mut cfg, conds, &vec![]);
    assert_eq!(out.len(), 5);
    assert!(cfg.has_edge((1, 2)));
    assert!(cfg.has_edge((2, 3)));
    assert!(cfg.has_edge((7, 8)));
    assert!(!cfg.has_edge((1, 7)));
    assert!(!cfg.has_edge((7, 2)));
    assert!(out[4].is_target);
    assert!(!out[0].is_target);
    assert_eq!(cfg.score_for_cmp(1), 2);
}

#[test]
fn an_indirect_call_yields_a_condition_with_the_dominators_offsets() {
    let mut cfg = ControlFlowGraph::new();
    cfg.add_callsite_dominator(500, 1);
    let mut dominator = cond_at(1, 0);
    dominator.offsets = vec![TagSeg { begin: 0, end: 2, sign: false }];
    let mut callee = cond_at(2, 0);
    callee.base.last_callsite = 500;
    callee.offsets = vec![TagSeg { begin: 5, end: 6, sign: false }];
    callee.variables = vec![0xAA, 0xBB, 0xCC];
    let buf = vec![10u8, 11, 12, 13, 14, 15, 16];
    let out = link_conds(&mut cfg, vec![dominator, callee], &buf);
    assert_eq!(out.len(), 3);
    assert_eq!(cfg.callsite_of((1, 2)), Some(500));
    assert_eq!(cfg.get_magic_bytes((1, 2)), vec![(0, 10), (1, 11)]);
    let fixed = &out[2];
    assert_eq!(fixed.base.cmpid, 2);
    assert_eq!(
        fixed.offsets,
        vec![TagSeg { begin: 5, end: 6, sign: false }, TagSeg { begin: 0, end: 2, sign: false }]
    );
    // The last probe byte is left alone.
    assert_eq!(fixed.variables, vec![10, 11, 0xCC]);
    assert_eq!(out[1].variables, vec![0xAA, 0xBB, 0xCC]);
    assert_eq!(out[1].offsets.len(), 1);
}

#[test]
fn environment_of_the_target() {
    let setup = EnvSetup {
        branches_id: 11,
        cond_id: 22,
        listen_sem_id: 33,
        enable_listen_ready: true,
        ld_library: String::from("/opt/lib"),
        early_termination: EarlyTermination::Full,
    };
    let envs = target_envs(&setup);
    let find = |name: &str| envs.iter().find(|e| e.0 == name).map(|e| e.1.clone());
    assert_eq!(envs.len(), 7);
    assert_eq!(find("ANGORA_BRANCHES_SHM_ID"), Some(String::from("11")));
    assert_eq!(find("ANGORA_COND_STMT_SHM_ID"), Some(String::from("22")));
    assert_eq!(find("ANGORA_LISTEN_SEM_ID"), Some(String::from("33")));
    assert_eq!(find("LD_LIBRARY_PATH"), Some(String::from("/opt/lib")));
    assert_eq!(find("ANGORA_EARLY_TERMINATION"), Some(String::from("full")));
    assert!(find("ASAN_OPTIONS").is_some());
    assert!(find("MSAN_OPTIONS").unwrap().contains("exit_code=86"));
    assert_eq!(find("ANGORA_TRACK_FILE_PATH"), None);
    let quiet = EnvSetup { enable_listen_ready: false, early_termination: EarlyTermination::Off, ..setup };
    let envs = target_envs(&quiet);
    assert_eq!(envs.len(), 6);
    assert!(envs.iter().all(|e| e.0 != "ANGORA_LISTEN_SEM_ID"));
    assert_eq!(envs[5].1, "none");
    assert_eq!(track_env("/tmp/track", 12), (String::from("ANGORA_TRACK_FILE_PATH"), String::from("/tmp/track_12")));
    assert_eq!(signed_decimal(-1), "-1");
    assert_eq!(signed_decimal(i32::MIN), "-2147483648");
    assert_eq!(signed_decimal(0), "0");
    assert_eq!(targets_file(&b"/lib/x.so".to_vec()), b"/lib/x.so.targets.json".to_vec());
    assert_eq!(track_limit(1000), 12000);
    assert_eq!(track_limit(u64::MAX), u64::MAX);
}

#[test]
fn early_termination_fires_after_the_input_was_read() {
    assert!(EarlyTermination::Full.fires(true, true));
    assert!(EarlyTermination::Full.fires(false, true));
    assert!(!EarlyTermination::Full.fires(false, false));
    assert!(EarlyTermination::Static.fires(true, true));
    assert!(!EarlyTermination::Static.fires(false, true));
    assert!(EarlyTermination::Dynamic.fires(false, true));
    assert!(!EarlyTermination::Dynamic.fires(true, true));
    assert!(!EarlyTermination::Off.fires(true, true));
    assert_eq!(EarlyTermination::default(), EarlyTermination::Full);
    assert_eq!(EarlyTermination::Static.name(), "static");
    assert_eq!(EarlyTermination::Dynamic.name(), "dynamic");
}
