use ampfuzz::byte_count::{AmpByteCount, UdpByteCount};
use ampfuzz::cond_stmt::CondStmt;
use ampfuzz::cond_stmt_base::CondStmtBase;
use ampfuzz::defs::{COND_AFL_OP, COND_DONE_ST};
use ampfuzz::depot::queue::CondQueue;
use ampfuzz::fuzz_type::{FuzzType, FUZZ_TYPE_NUM};
use ampfuzz::stats::chart::{extend_paths, merge_hashmaps, should_stop, ChartStats, SearchStats, Stop};
use ampfuzz::stats::counter::Counter;
use ampfuzz::stats::fuzz::FuzzStats;
use ampfuzz::keys::{path_keys, path_members};
use ampfuzz::stats::local::LocalStats;
use ampfuzz::status_type::StatusType;
use std::collections::{HashMap, HashSet};

fn amp(request: usize, reply: usize) -> AmpByteCount {
    AmpByteCount { bytes_in: UdpByteCount::from_l7(request), bytes_out: UdpByteCount::from_l7(reply) }
}

fn cond(cmpid: u32, op: u32) -> CondStmt {
    let mut base = CondStmtBase::default();
    base.cmpid = cmpid;
    base.op = op;
    CondStmt::from(base)
}

#[test]
fn counters_stop_at_the_top() {
    let mut c = Counter::new();
    c.count();
    c.count();
    assert_eq!(c.get(), 2);
    c.add(Counter(40));
    assert_eq!(c.0, 42);
    c.add(Counter(usize::MAX));
    assert_eq!(c.0, usize::MAX);
    c.count();
    assert_eq!(c.0, usize::MAX);
    assert_eq!(Counter::default().0, 0);
}

#[test]
fn strategy_records() {
    let mut stats = FuzzStats::new();
    assert_eq!(stats.0.len(), FUZZ_TYPE_NUM);
    stats.count(&cond(1, 32));
    stats.count(&cond(2, 32));
    stats.count(&cond(3, COND_AFL_OP));
    assert_eq!(stats.get(FuzzType::ExploreFuzz.index()).num_conds.0, 2);
    assert_eq!(stats.get(FuzzType::AFLFuzz.index()).num_conds.0, 1);
    stats.get_mut(FuzzType::AFLFuzz.index()).num_exec.0 = 9;
    assert!(!stats.may_be_model_failure());
    for i in 0..4 {
        stats.count(&cond(10 + i, COND_AFL_OP));
    }
    // 2 + 1 < 5
    assert!(stats.may_be_model_failure());
    assert_eq!(
        stats.mini_log(),
        vec!["2", "0", "0", "0", "0", "0", "0", "0", "5", "9", "0", "0", "0", "0"]
    );
    stats.clear();
    assert_eq!(stats.get(FuzzType::AFLFuzz.index()).num_conds.0, 0);
    assert_eq!(stats.get(FuzzType::AFLFuzz.index()).num_exec.0, 9);
    assert!(!stats.may_be_model_failure());
}

#[test]
fn short_log_header() {
    let hdr = FuzzStats::new().mini_log_hdr();
    assert_eq!(hdr.len(), 2 * FUZZ_TYPE_NUM);
    assert_eq!(hdr[0], "EXPLORE conds");
    assert_eq!(hdr[1], "EXPLORE execs");
    assert_eq!(hdr[8], "AFL conds");
    assert_eq!(hdr[11], "AMP execs");
    assert_eq!(hdr[13], "OTHER execs");
    let chart = ChartStats::new().mini_log_hdr();
    assert_eq!(chart.len(), 14 + 2 * FUZZ_TYPE_NUM);
    assert_eq!(chart[0], "secs");
    assert_eq!(chart[12], "amps");
    assert_eq!(chart[13], "current_type");
    assert_eq!(chart[14], "EXPLORE conds");
}

#[test]
fn a_worker_counts_what_it_keeps() {
    let mut stats = LocalStats::new();
    stats.find_new(&StatusType::Normal, 1);
    stats.find_new(&StatusType::Timeout, 2);
    stats.find_new(&StatusType::Crash, 2);
    stats.find_new(&StatusType::Crash, 3);
    stats.find_new(&StatusType::Skip, 4);
    assert_eq!((stats.num_inputs.0, stats.num_hangs.0, stats.num_crashes.0, stats.num_amps.0), (1, 1, 2, 0));
    assert_eq!(stats.paths.len(), 4);
    stats.find_new(&StatusType::Amp(9, amp(50, 100)), 9);
    stats.find_new(&StatusType::Amp(9, amp(50, 1000)), 9);
    stats.find_new(&StatusType::Amp(9, amp(50, 500)), 9);
    assert_eq!(stats.num_amps.0, 3);
    assert_eq!(stats.path_amplification.len(), 1);
    assert_eq!(stats.path_amplification.get(&9).unwrap().bytes_out.l7_size(), 1000);
    assert_eq!(stats.best_amp.bytes_out.l7_size(), 1000);
    assert_eq!(stats.paths.len(), 5);
    stats.num_exec_round.count();
    stats.clear();
    assert_eq!((stats.num_inputs.0, stats.num_hangs.0, stats.num_crashes.0, stats.num_amps.0), (0, 0, 0, 0));
    assert!(stats.path_amplification.is_empty());
    assert_eq!(stats.best_amp.bytes_out.len(), 0);
    assert_eq!(stats.paths.len(), 5);
    assert_eq!(stats.num_exec_round.0, 1);
    stats.register(&cond(1, COND_AFL_OP));
    assert_eq!(stats.fuzz_type, FuzzType::AFLFuzz);
    assert_eq!(stats.num_exec_round.0, 0);
}

#[test]
fn two_amp_events_on_one_path() {
    // Two seeds with the same edges and replies of 100 and 1000 bytes to a 50-byte request.
    let mut stats = LocalStats::new();
    stats.find_new(&StatusType::Amp(7, amp(50, 100)), 7);
    stats.find_new(&StatusType::Amp(7, amp(50, 1000)), 7);
    assert_eq!(stats.num_amps.0, 2);
    assert_eq!(stats.path_amplification.len(), 1);
    assert_eq!(stats.path_amplification.get(&7).unwrap().bytes_out.payloads(), &vec![1000]);
    assert_eq!(stats.best_amp.bytes_out.payloads(), &vec![1000]);
}

#[test]
fn tables_are_merged_by_factor() {
    let mut a: HashMap<u64, AmpByteCount> = HashMap::new();
    a.insert(1, amp(50, 100));
    a.insert(2, amp(50, 900));
    let mut b: HashMap<u64, AmpByteCount> = HashMap::new();
    b.insert(2, amp(50, 100));
    b.insert(1, amp(50, 900));
    b.insert(3, amp(50, 5));
    merge_hashmaps(&mut a, &b);
    assert_eq!(a.len(), 3);
    assert_eq!(a.get(&1).unwrap().bytes_out.l7_size(), 900);
    assert_eq!(a.get(&2).unwrap().bytes_out.l7_size(), 900);
    assert_eq!(a.get(&3).unwrap().bytes_out.l7_size(), 5);
    let mut keys = path_keys(&a);
    keys.sort();
    assert_eq!(keys, vec![1, 2, 3]);
    let mut paths: HashSet<u64> = [1, 2].into_iter().collect();
    let more: HashSet<u64> = [2, 3].into_iter().collect();
    extend_paths(&mut paths, &more);
    let mut members = path_members(&paths);
    members.sort();
    assert_eq!(members, vec![1, 2, 3]);
}

#[test]
fn the_chart_takes_in_what_workers_report() {
    let mut chart = ChartStats::new();
    let mut local = LocalStats::new();
    local.register(&cond(1, 32));
    local.num_exec.add(Counter(10));
    local.find_new(&StatusType::Normal, 1);
    local.find_new(&StatusType::Amp(9, amp(50, 100)), 9);
    local.track_time = 500;
    chart.sync_from_local(&local, 1000);
    let mut second = LocalStats::new();
    second.register(&cond(1, COND_AFL_OP));
    second.num_exec.add(Counter(5));
    second.find_new(&StatusType::Amp(9, amp(50, 1000)), 9);
    second.find_new(&StatusType::Crash, 3);
    chart.sync_from_local(&second, 2000);
    assert_eq!(chart.num_exec.0, 15);
    assert_eq!(chart.num_inputs.0, 1);
    assert_eq!(chart.num_crashes.0, 1);
    assert_eq!(chart.num_amps.0, 2);
    assert_eq!(chart.track_time, 500);
    assert_eq!(chart.paths.len(), 3);
    assert_eq!(chart.path_amplification.len(), 1);
    assert_eq!(chart.path_amplification.get(&9).unwrap().bytes_out.l7_size(), 1000);
    assert_eq!(chart.best_amp.bytes_out.l7_size(), 1000);
    let explore = chart.fuzz.get(FuzzType::ExploreFuzz.index());
    assert_eq!((explore.num_exec.0, explore.num_inputs.0, explore.num_amps.0, explore.time), (10, 1, 1, 1000));
    assert_eq!(explore.best_amp.bytes_out.l7_size(), 100);
    let afl = chart.fuzz.get(FuzzType::AFLFuzz.index());
    assert_eq!((afl.num_exec.0, afl.num_crashes.0, afl.num_amps.0, afl.time), (5, 1, 1, 2000));
    chart.finish_round();
    chart.finish_round();
    chart.register(&cond(1, COND_AFL_OP));
    let row = chart.mini_log(12, "0.5", "20.88", "[]");
    assert_eq!(row.len(), 14 + 2 * FUZZ_TYPE_NUM);
    assert_eq!(
        &row[..14],
        &["12", "15", "2", "0.5", "1", "0", "1", "0", "2", "3", "1", "20.88", "[]", "AFL"]
    );
    assert_eq!(row[15], "10");
}

#[test]
fn the_queue_is_counted_by_strategy() {
    let mut queue = CondQueue::new();
    let mut a = cond(1, 32);
    a.fuzz_times = 3;
    a.is_consistent = false;
    let mut b = cond(2, 32);
    b.fuzz_times = 9;
    b.base.condition = COND_DONE_ST;
    let mut c = cond(3, COND_AFL_OP);
    c.fuzz_times = 4;
    c.is_consistent = false;
    queue.add_entry(a, 0);
    queue.add_entry(b, 0);
    queue.add_entry(c, 0);
    let mut chart = ChartStats::new();
    chart.fuzz.get_mut(0).num_conds.0 = 77;
    chart.iter_pq(&queue);
    assert_eq!(chart.get_explore_num(), 2);
    assert_eq!(chart.fuzz.get(FuzzType::AFLFuzz.index()).num_conds.0, 1);
    assert_eq!(chart.fuzz.get(FuzzType::OtherFuzz.index()).num_conds.0, 0);
    assert_eq!(chart.max_rounds.0, 9);
    assert_eq!(chart.search.num_inconsistent.0, 1);
    assert_eq!(chart.search.num_done.0, 1);
    assert_eq!(chart.search.num_undesirable.0, 0);
    assert!(!chart.search.multiple_inconsist());
    let mut many = SearchStats::new();
    many.num_inconsistent.0 = 16;
    assert!(many.multiple_inconsist());
    chart.iter_pq(&CondQueue::new());
    assert_eq!(chart.get_explore_num(), 0);
    assert_eq!(chart.max_rounds.0, 0);
}

#[test]
fn fuzzing_stops_when_nothing_is_left_to_explore() {
    assert_eq!(should_stop(false, 0, 0), None);
    assert_eq!(should_stop(true, 0, 5), Some(Stop::NoConstraint));
    assert_eq!(should_stop(true, 5, 5), Some(Stop::Solved));
    assert_eq!(should_stop(true, 4, 5), None);
}
