use ampfuzz::cond_stmt_base::CondStmtBase;
use ampfuzz::defs::{COND_DONE_ST, COND_FALSE_ST, COND_FN_OP, COND_SIGN_MASK, COND_SW_OP};
use ampfuzz::runtime::logger::Logger;
use ampfuzz::runtime::records::{cmp_record, fn_cond, infer_eq_sign, switch_conds, CmpSite, SwitchSite};
use ampfuzz::tag::TagSeg;
use ampfuzz::track::log_data::LogMsg;

fn site() -> SwitchSite {
    SwitchSite {
        site: 40,
        thread_id: 1,
        context: 2,
        last_callsite: 0,
        size: 4,
        label: 9,
        signed: false,
        condition: 2,
    }
}

#[test]
fn a_switch_yields_one_record_for_each_case() {
    let records = switch_conds(&site(), &vec![1, 2, 5]);
    assert_eq!(records.len(), 3);
    assert_eq!(records[0].order, 0);
    assert_eq!(records[1].order, 1 << 16);
    assert_eq!(records[2].order, 2 << 16);
    assert_eq!(records[0].condition, COND_FALSE_ST);
    assert_eq!(records[1].condition, COND_DONE_ST);
    assert_eq!(records[2].condition, COND_FALSE_ST);
    for (record, arg) in records.iter().zip([1u64, 2, 5]) {
        assert_eq!(record.arg2, arg);
        assert_eq!(record.arg1, 2);
        assert_eq!(record.op, COND_SW_OP);
        assert_eq!(record.cmpid, 40);
        assert_eq!(record.lb1, 9);
        assert_eq!(record.lb2, 0);
    }
    let signed = SwitchSite { signed: true, ..site() };
    assert_eq!(switch_conds(&signed, &vec![1])[0].op, COND_SW_OP | COND_SIGN_MASK);
    let untainted = SwitchSite { label: 0, ..site() };
    assert!(switch_conds(&untainted, &vec![1, 2, 5]).is_empty());
}

#[test]
fn the_records_of_a_switch_are_numbered_and_written() {
    let mut logger = Logger::new();
    let mut written = Vec::new();
    for record in switch_conds(&site(), &vec![1, 2, 5]) {
        written.extend(logger.save(record, vec![TagSeg { begin: 0, end: 4, sign: false }], vec![]));
    }
    // One tag and three conditions.
    assert_eq!(written.len(), 4);
    let conds: Vec<CondStmtBase> = written
        .iter()
        .filter_map(|m| match m {
            LogMsg::Cond { cond } => Some(*cond),
            _ => None,
        })
        .collect();
    assert_eq!(conds.len(), 3);
    assert_eq!(conds[0].order, 1);
    assert_eq!(conds[1].order, (1 << 16) + 1);
    assert_eq!(conds[2].order, (2 << 16) + 1);
    assert_eq!(conds[1].arg2, 2);
    assert_eq!(conds[1].condition, COND_DONE_ST);
    assert_eq!(logger.data.cond_list.len(), 3);
}

#[test]
fn visits_of_a_site_are_counted() {
    let mut logger = Logger::new();
    let mut cond = CondStmtBase::default();
    cond.cmpid = 5;
    cond.context = 6;
    cond.op = 32;
    cond.lb1 = 1;
    let mut first = cond;
    logger.update_order(&mut first);
    assert_eq!(first.order, 1);
    let mut second = cond;
    logger.update_order(&mut second);
    assert_eq!(second.order, 2);
    let mut elsewhere = cond;
    elsewhere.context = 7;
    logger.update_order(&mut elsewhere);
    assert_eq!(elsewhere.order, 1);
    let mut case = cond;
    case.order = 3 << 16;
    logger.update_order(&mut case);
    assert_eq!(case.order, (3 << 16) + 2);
}

#[test]
fn records_past_the_order_limit_are_not_written() {
    let mut logger = Logger::new();
    let mut cond = CondStmtBase::default();
    cond.cmpid = 5;
    cond.op = 32;
    cond.lb1 = 1;
    let mut written = 0;
    for _ in 0..20 {
        written += logger.save(cond, vec![], vec![]).iter().filter(|m| matches!(m, LogMsg::Cond { .. })).count();
    }
    assert_eq!(written, 16);
    assert_eq!(logger.data.cond_list.len(), 16);
    let untainted = CondStmtBase::default();
    assert!(logger.save(untainted, vec![], vec![]).is_empty());
}

#[test]
fn tags_are_written_once() {
    let mut logger = Logger::new();
    let mut cond = CondStmtBase::default();
    cond.op = 32;
    cond.lb1 = 1;
    cond.lb2 = 2;
    let tag1 = vec![TagSeg { begin: 0, end: 1, sign: false }];
    let tag2 = vec![TagSeg { begin: 1, end: 2, sign: true }];
    let first = logger.save(cond, tag1.clone(), tag2.clone());
    assert_eq!(first.len(), 3);
    assert!(matches!(&first[0], LogMsg::Tag { lb: 1, .. }));
    assert!(matches!(&first[1], LogMsg::Tag { lb: 2, .. }));
    assert!(matches!(&first[2], LogMsg::Cond { .. }));
    let second = logger.save(cond, tag1, tag2);
    assert_eq!(second.len(), 1);
    assert_eq!(logger.data.tags.len(), 2);
    assert!(logger.save_tag(0, vec![]).is_none());
    assert!(logger.save_tag(1, vec![]).is_none());
    assert!(logger.save_tag(3, vec![]).is_some());
}

#[test]
fn probe_bytes_and_libraries() {
    let mut logger = Logger::new();
    assert!(logger.save_magic_bytes((vec![1], vec![2])).is_none());
    let mut cond = CondStmtBase::default();
    cond.op = COND_FN_OP;
    cond.lb1 = 1;
    logger.save(cond, vec![], vec![]);
    match logger.save_magic_bytes((vec![1], vec![2])) {
        Some(LogMsg::MagicBytes { i, bytes }) => {
            assert_eq!(i, 1);
            assert_eq!(bytes, (vec![1], vec![2]));
        }
        other => panic!("unexpected {:?}", other),
    }
    assert_eq!(logger.data.magic_bytes.get(&0), Some(&(vec![1], vec![2])));
    assert!(logger.save_load(b"/lib/a.so".to_vec()).is_some());
    assert!(logger.save_load(b"/lib/a.so".to_vec()).is_none());
    assert!(logger.save_load(b"/lib/b.so".to_vec()).is_some());
}

#[test]
fn a_compared_string_yields_a_record_for_its_tainted_side() {
    assert_eq!(fn_cond(1, 2, 3, 4, 0, 0, 5, 6), None);
    let first = fn_cond(1, 2, 3, 4, 9, 8, 5, 6).unwrap();
    assert_eq!((first.lb1, first.lb2, first.size), (9, 0, 6));
    assert_eq!(first.op, COND_FN_OP);
    let second = fn_cond(1, 2, 3, 4, 0, 8, 5, 6).unwrap();
    assert_eq!((second.lb1, second.lb2, second.size), (0, 8, 5));
    assert_eq!((second.cmpid, second.thread_id, second.context, second.last_callsite), (1, 2, 3, 4));
}

#[test]
fn an_equality_on_a_signed_operand_is_signed() {
    assert_eq!(infer_eq_sign(32, 1, 0, true, false), 32 | COND_SIGN_MASK);
    assert_eq!(infer_eq_sign(32, 0, 1, true, false), 32);
    assert_eq!(infer_eq_sign(32, 0, 1, false, true), 32 | COND_SIGN_MASK);
    assert_eq!(infer_eq_sign(33, 1, 1, true, true), 33);
    assert_eq!(infer_eq_sign(32, 1, 1, false, false), 32);
}

#[test]
fn a_comparison_yields_a_record_where_it_is_tainted() {
    let at = CmpSite {
        site: 1,
        thread_id: 2,
        context: 3,
        last_callsite: 4,
        condition: 1,
        op: 36,
        size: 4,
        lb1: 0,
        lb2: 0,
        arg1: 10,
        arg2: 20,
    };
    assert_eq!(cmp_record(&at), None);
    let record = cmp_record(&CmpSite { lb2: 7, ..at }).unwrap();
    assert_eq!((record.cmpid, record.thread_id, record.context, record.last_callsite), (1, 2, 3, 4));
    assert_eq!((record.condition, record.op, record.size, record.lb1, record.lb2), (1, 36, 4, 0, 7));
    assert_eq!((record.arg1, record.arg2, record.order, record.belong, record.level), (10, 20, 0, 0, 0));
}
