use ampfuzz::cond_stmt::{CondState, CondStmt};
use ampfuzz::cond_stmt_base::CondStmtBase;
use ampfuzz::defs::COND_LEN_OP;
use ampfuzz::tag::TagSeg;
use ampfuzz::track::codec::{
    get_log_data, read_cond, read_msg, serialize, write_cond, write_msg, LogError,
};
use ampfuzz::track::filter::filter_cond_list;
use ampfuzz::track::fparser::{
    get_offsets_and_variables, load_track_data, read_and_parse, write_as_ule,
};
use ampfuzz::track::log_data::{LogData, LogMsg};
use ampfuzz::track::wire::{read_bytes, read_seg_list, read_u32, read_u64};
use std::collections::HashMap;

fn sample_cond() -> CondStmtBase {
    CondStmtBase {
        cmpid: 0x0102_0304,
        thread_id: -5,
        context: 7,
        last_callsite: 9,
        order: 0x0001_0002,
        belong: 3,
        condition: 1,
        level: 2,
        op: 32,
        size: 4,
        lb1: 11,
        lb2: 0,
        arg1: 0x1122_3344_5566_7788,
        arg2: 42,
    }
}

fn same_msg(a: &LogMsg, b: &LogMsg) -> bool {
    match (a, b) {
        (LogMsg::Tag { lb: l1, tag: t1 }, LogMsg::Tag { lb: l2, tag: t2 }) => l1 == l2 && t1 == t2,
        (LogMsg::MagicBytes { i: i1, bytes: b1 }, LogMsg::MagicBytes { i: i2, bytes: b2 }) => i1 == i2 && b1 == b2,
        (LogMsg::Cond { cond: c1 }, LogMsg::Cond { cond: c2 }) => {
            c1 == c2
                && c1.thread_id == c2.thread_id
                && c1.last_callsite == c2.last_callsite
                && c1.belong == c2.belong
                && c1.condition == c2.condition
                && c1.level == c2.level
                && c1.size == c2.size
                && c1.lb1 == c2.lb1
                && c1.lb2 == c2.lb2
                && c1.arg1 == c2.arg1
                && c1.arg2 == c2.arg2
        }
        (LogMsg::Load { path: p1 }, LogMsg::Load { path: p2 }) => p1 == p2,
        _ => false,
    }
}

fn each_kind() -> Vec<LogMsg> {
    vec![
        LogMsg::Tag {
            lb: 11,
            tag: vec![TagSeg { begin: 0, end: 4, sign: true }, TagSeg { begin: 8, end: 9, sign: false }],
        },
        LogMsg::Cond { cond: sample_cond() },
        LogMsg::MagicBytes { i: 1, bytes: (vec![1, 2, 3], vec![]) },
        LogMsg::Load { path: b"/usr/lib/libfoo.so".to_vec() },
    ]
}

#[test]
fn each_record_kind_round_trips() {
    for msg in each_kind().iter() {
        let bytes = serialize(msg);
        let (back, next) = read_msg(&bytes, 0).unwrap();
        assert_eq!(next, bytes.len());
        assert!(same_msg(msg, &back));
    }
}

#[test]
fn a_whole_log_round_trips() {
    let msgs = each_kind();
    let mut log = Vec::new();
    for msg in msgs.iter() {
        write_msg(&mut log, msg);
    }
    let data = get_log_data(&log).unwrap();
    assert_eq!(data.cond_list.len(), 1);
    assert_eq!(data.cond_list[0].arg1, 0x1122_3344_5566_7788);
    assert_eq!(data.cond_list[0].thread_id, -5);
    assert_eq!(
        data.tags.get(&11),
        Some(&vec![TagSeg { begin: 0, end: 4, sign: true }, TagSeg { begin: 8, end: 9, sign: false }])
    );
    assert_eq!(data.magic_bytes.get(&0), Some(&(vec![1, 2, 3], vec![])));
    assert_eq!(data.load_paths, vec![b"/usr/lib/libfoo.so".to_vec()]);
}

#[test]
fn records_are_laid_out_as_the_fixed_encoder_does() {
    let c = sample_cond();
    let expected = bincode::serialize(&(
        2u32,
        (c.cmpid, c.thread_id, c.context, c.last_callsite, c.order, c.belong, c.condition),
        (c.level, c.op, c.size, c.lb1, c.lb2, c.arg1, c.arg2),
    ))
    .unwrap();
    assert_eq!(serialize(&LogMsg::Cond { cond: c }), expected);
    assert_eq!(expected.len(), 4 + 64);

    let tag = bincode::serialize(&(0u32, 11u32, vec![(0u32, 4u32, true), (8u32, 9u32, false)])).unwrap();
    assert_eq!(
        serialize(&LogMsg::Tag {
            lb: 11,
            tag: vec![TagSeg { begin: 0, end: 4, sign: true }, TagSeg { begin: 8, end: 9, sign: false }],
        }),
        tag
    );

    let magic = bincode::serialize(&(1u32, 7u64, (vec![1u8, 2, 3], vec![9u8]))).unwrap();
    assert_eq!(serialize(&LogMsg::MagicBytes { i: 7, bytes: (vec![1, 2, 3], vec![9]) }), magic);

    let load = bincode::serialize(&(3u32, b"/lib/x.so".to_vec())).unwrap();
    assert_eq!(serialize(&LogMsg::Load { path: b"/lib/x.so".to_vec() }), load);
}

#[test]
fn primitives_are_little_endian() {
    assert_eq!(read_u32(&[0x78, 0x56, 0x34, 0x12, 0xff], 0), Some((0x1234_5678, 4)));
    assert_eq!(read_u32(&[0, 0x78, 0x56, 0x34, 0x12], 1), Some((0x1234_5678, 5)));
    assert_eq!(read_u32(&[1, 2, 3], 0), None);
    assert_eq!(read_u32(&[1, 2, 3, 4], 9), None);
    assert_eq!(read_u64(&[1, 0, 0, 0, 0, 0, 0, 0x80], 0), Some((0x8000_0000_0000_0001, 8)));
    assert_eq!(read_bytes(&[2, 0, 0, 0, 0, 0, 0, 0, 7, 8, 9], 0), Some((vec![7, 8], 10)));
    assert_eq!(read_bytes(&[3, 0, 0, 0, 0, 0, 0, 0, 7, 8], 0), None);
    assert_eq!(read_bytes(&[0xff; 8], 0), None);
    let mut segs = vec![1, 0, 0, 0, 0, 0, 0, 0];
    segs.extend_from_slice(&[1, 0, 0, 0, 2, 0, 0, 0, 1]);
    assert_eq!(read_seg_list(&segs, 0), Some((vec![TagSeg { begin: 1, end: 2, sign: true }], 17)));
    segs[16] = 2;
    assert_eq!(read_seg_list(&segs, 0), None);
    assert_eq!(read_seg_list(&[0xff; 8], 0), None);
}

#[test]
fn a_condition_takes_sixty_four_bytes() {
    let mut out = vec![0xEE];
    write_cond(&mut out, &sample_cond());
    assert_eq!(out.len(), 65);
    assert_eq!(&out[1..5], &[0x04, 0x03, 0x02, 0x01]);
    assert_eq!(&out[5..9], &[0xFB, 0xFF, 0xFF, 0xFF]);
    let (back, next) = read_cond(&out, 1).unwrap();
    assert_eq!(next, 65);
    assert_eq!(back.thread_id, -5);
    assert_eq!(back.arg2, 42);
    assert!(read_cond(&out, 2).is_none());
}

#[test]
fn parsing_stops_at_the_first_malformed_record() {
    let mut log = Vec::new();
    write_msg(&mut log, &LogMsg::Cond { cond: sample_cond() });
    let good = log.len();
    write_msg(&mut log, &LogMsg::Cond { cond: sample_cond() });
    assert_eq!(get_log_data(&log).unwrap().cond_list.len(), 2);
    // A log cut in the middle of the second record yields the first.
    assert_eq!(get_log_data(&log[..good + 10]).unwrap().cond_list.len(), 1);
    // An unknown kind ends the log.
    let mut bad = log[..good].to_vec();
    bad.extend_from_slice(&[9, 0, 0, 0]);
    write_msg(&mut bad, &LogMsg::Cond { cond: sample_cond() });
    assert_eq!(get_log_data(&bad).unwrap().cond_list.len(), 1);
    // A path with a zero byte is no path.
    let mut zero = log[..good].to_vec();
    write_msg(&mut zero, &LogMsg::Load { path: vec![b'a', 0, b'b'] });
    let data = get_log_data(&zero).unwrap();
    assert_eq!(data.cond_list.len(), 1);
    assert!(data.load_paths.is_empty());
    assert_eq!(get_log_data(&[]).err(), Some(LogError::Empty));
    assert_eq!(get_log_data(&[1, 2, 3]).unwrap().cond_list.len(), 0);
}

#[test]
fn later_records_replace_and_paths_are_listed_once() {
    let mut data = LogData::new();
    data.record(LogMsg::Tag { lb: 1, tag: vec![TagSeg { begin: 0, end: 1, sign: false }] });
    data.record(LogMsg::Tag { lb: 1, tag: vec![] });
    assert_eq!(data.tags.get(&1), Some(&vec![]));
    data.record(LogMsg::Load { path: b"a".to_vec() });
    data.record(LogMsg::Load { path: b"b".to_vec() });
    data.record(LogMsg::Load { path: b"a".to_vec() });
    assert_eq!(data.load_paths, vec![b"a".to_vec(), b"b".to_vec()]);
    data.record(LogMsg::MagicBytes { i: 0, bytes: (vec![1], vec![2]) });
    assert!(data.magic_bytes.is_empty());
    data.record(LogMsg::MagicBytes { i: 3, bytes: (vec![1], vec![2]) });
    assert_eq!(data.magic_bytes.get(&2), Some(&(vec![1], vec![2])));
}

#[test]
fn constants_are_written_lowest_byte_first() {
    assert_eq!(write_as_ule(0x1122_3344_5566_7788, 4), vec![0x88, 0x77, 0x66, 0x55]);
    assert_eq!(write_as_ule(0x0102, 2), vec![0x02, 0x01]);
    assert_eq!(write_as_ule(0xAB, 1), vec![0xAB]);
    assert_eq!(write_as_ule(7, 0), vec![]);
    assert_eq!(write_as_ule(1, 8), vec![1, 0, 0, 0, 0, 0, 0, 0]);
    assert_eq!(write_as_ule(1, 100), vec![1, 0, 0, 0, 0, 0, 0, 0]);
}

fn tags() -> HashMap<u32, Vec<TagSeg>> {
    let mut m = HashMap::new();
    m.insert(1, vec![TagSeg { begin: 0, end: 1, sign: false }]);
    m.insert(2, vec![TagSeg { begin: 4, end: 6, sign: false }, TagSeg { begin: 8, end: 9, sign: false }]);
    m
}

#[test]
fn the_operand_with_fewer_ranges_leads() {
    let mut base = sample_cond();
    base.lb1 = 1;
    base.lb2 = 2;
    base.size = 2;
    base.arg1 = 0x0A0B;
    base.arg2 = 0x0C0D;
    let mut cond = CondStmt::from(base);
    get_offsets_and_variables(&tags(), &mut cond, None);
    assert_eq!(cond.offsets, vec![TagSeg { begin: 0, end: 1, sign: false }]);
    assert_eq!(cond.offsets_opt.len(), 2);
    assert_eq!(cond.variables, vec![0x0D, 0x0C]);

    base.lb1 = 2;
    base.lb2 = 1;
    let mut cond = CondStmt::from(base);
    get_offsets_and_variables(&tags(), &mut cond, None);
    assert_eq!(cond.offsets, vec![TagSeg { begin: 0, end: 1, sign: false }]);
    assert_eq!(cond.offsets_opt.len(), 2);
    assert_eq!(cond.variables, vec![0x0B, 0x0A]);

    base.lb1 = 2;
    base.lb2 = 0;
    let mut cond = CondStmt::from(base);
    let magic = (vec![1u8, 2], vec![3u8]);
    get_offsets_and_variables(&tags(), &mut cond, Some(&magic));
    assert_eq!(cond.offsets.len(), 2);
    assert!(cond.offsets_opt.is_empty());
    assert_eq!(cond.variables, vec![3, 1, 2]);

    base.lb1 = 0;
    base.lb2 = 2;
    let mut cond = CondStmt::from(base);
    get_offsets_and_variables(&tags(), &mut cond, Some(&magic));
    assert_eq!(cond.offsets.len(), 2);
    assert_eq!(cond.variables, vec![1, 2, 3]);
}

#[test]
fn records_become_conditions() {
    let mut data = LogData::new();
    data.record(LogMsg::Tag { lb: 1, tag: vec![TagSeg { begin: 0, end: 1, sign: false }] });
    let mut tainted = sample_cond();
    tainted.lb1 = 1;
    tainted.lb2 = 0;
    tainted.size = 1;
    tainted.arg2 = 0x41;
    let mut exploit = sample_cond();
    exploit.op = 0x4001;
    exploit.cmpid = 2;
    let mut len = sample_cond();
    len.op = COND_LEN_OP;
    len.cmpid = 3;
    data.record(LogMsg::Cond { cond: tainted });
    data.record(LogMsg::Cond { cond: exploit });
    data.record(LogMsg::Cond { cond: len });
    data.record(LogMsg::MagicBytes { i: 1, bytes: (vec![b'G'], vec![b'E']) });
    let without = read_and_parse(&data, false);
    assert_eq!(without.len(), 2);
    assert_eq!(without[0].variables, vec![b'E', b'G']);
    assert_eq!(without[0].offsets.len(), 1);
    assert!(without[1].offsets.is_empty());
    assert_eq!(read_and_parse(&data, true).len(), 3);
}

#[test]
fn only_useful_conditions_are_kept_once() {
    let mut a = CondStmt::from(sample_cond());
    a.offsets = vec![TagSeg { begin: 0, end: 1, sign: false }];
    let mut untainted = CondStmt::from(sample_cond());
    untainted.base.cmpid = 50;
    let mut len = a.clone();
    len.base.op = COND_LEN_OP;
    let mut dup = a.clone();
    dup.speed = 99;
    let mut other = a.clone();
    other.base.order = 77;
    let mut list = vec![untainted, a, len, dup, other];
    filter_cond_list(&mut list);
    assert_eq!(list.len(), 2);
    assert_eq!(list[0].speed, 0);
    assert_eq!(list[1].base.order, 77);
}

#[test]
fn a_log_becomes_the_conditions_of_its_input() {
    let mut log = Vec::new();
    write_msg(&mut log, &LogMsg::Tag { lb: 11, tag: vec![TagSeg { begin: 2, end: 3, sign: false }] });
    write_msg(&mut log, &LogMsg::Cond { cond: sample_cond() });
    write_msg(&mut log, &LogMsg::Cond { cond: sample_cond() });
    write_msg(&mut log, &LogMsg::Load { path: b"/lib/x.so".to_vec() });
    let (conds, paths) = load_track_data(&log, 5, 777, true);
    assert_eq!(conds.len(), 1);
    assert_eq!(conds[0].base.belong, 5);
    assert_eq!(conds[0].speed, 777);
    assert_eq!(conds[0].state, CondState::OneByte);
    assert_eq!(conds[0].variables, vec![42, 0, 0, 0]);
    assert_eq!(paths, vec![b"/lib/x.so".to_vec()]);
    let (none, no_paths) = load_track_data(&[], 5, 777, true);
    assert!(none.is_empty());
    assert!(no_paths.is_empty());
}
