use ampfuzz::cond_stmt::{CondState, CondStmt};
use ampfuzz::cond_stmt_base::CondStmtBase;
use ampfuzz::defs::{
    COND_AFL_OP, COND_AMP_OP, COND_BOOL_MASK, COND_DONE_ST, COND_FALSE_ST, COND_FN_OP,
    COND_ICMP_EQ_OP, COND_LEN_OP, COND_SIGN_MASK, COND_SW_OP, COND_TRUE_ST,
};
use ampfuzz::fuzz_type::{get_fuzz_type_name, FuzzType, FUZZ_TYPE_NUM};
use ampfuzz::tag::TagSeg;

fn base_with_op(op: u32) -> CondStmtBase {
    let mut b = CondStmtBase::default();
    b.op = op;
    b
}

#[test]
fn flip_condition_swaps_false_and_true() {
    let mut b = CondStmtBase::default();
    assert_eq!(b.condition, COND_FALSE_ST);
    b.flip_condition();
    assert_eq!(b.condition, COND_TRUE_ST);
    b.flip_condition();
    assert_eq!(b.condition, COND_FALSE_ST);
}

#[test]
fn flip_condition_keeps_done() {
    let mut b = CondStmtBase::default();
    b.condition = COND_DONE_ST;
    b.flip_condition();
    assert_eq!(b.condition, COND_DONE_ST);
    assert!(b.is_done());
    b.condition = 7;
    b.flip_condition();
    assert_eq!(b.condition, COND_FALSE_ST);
}

#[test]
fn base_equality_is_identity() {
    let mut a = CondStmtBase::default();
    let mut b = CondStmtBase::default();
    a.cmpid = 3;
    b.cmpid = 3;
    a.arg1 = 10;
    b.arg1 = 99;
    b.condition = COND_TRUE_ST;
    assert!(a == b);
    b.order = 1;
    assert!(a != b);
    b.order = 0;
    b.op = 1;
    assert!(a != b);
}

#[test]
fn op_predicates() {
    assert!(base_with_op(COND_ICMP_EQ_OP).is_explore());
    assert!(base_with_op(0x3FFF).is_explore());
    assert!(!base_with_op(0x4000).is_explore());
    assert!(base_with_op(0x4000).is_exploitable());
    assert!(base_with_op(0x4FFF).is_exploitable());
    assert!(!base_with_op(0x5000).is_exploitable());
    assert!(base_with_op(COND_AFL_OP).is_afl());
    assert!(base_with_op(38).is_signed());
    assert!(base_with_op(41).is_signed());
    assert!(!base_with_op(37).is_signed());
    assert!(base_with_op(COND_ICMP_EQ_OP | COND_SIGN_MASK).is_signed());
    assert!(base_with_op(15).is_float());
    assert!(!base_with_op(16).is_float());
    assert!(base_with_op(COND_SW_OP).is_switch());
    assert!(base_with_op(COND_SW_OP | COND_SIGN_MASK).is_switch());
    let mut b = base_with_op(COND_ICMP_EQ_OP);
    b.arg1 = 1;
    b.arg2 = 0;
    assert!(b.may_be_bool());
    b.arg2 = 2;
    assert!(!b.may_be_bool());
}

#[test]
fn mark_as_done_finishes_and_clears() {
    let mut cond = CondStmt::new();
    cond.offsets = vec![TagSeg { begin: 0, end: 4, sign: false }];
    cond.offsets_opt = vec![TagSeg { begin: 4, end: 8, sign: true }];
    cond.variables = vec![1, 2, 3];
    assert!(cond.is_tainted());
    assert!(!cond.is_done());
    cond.mark_as_done();
    assert!(cond.is_done());
    assert!(cond.offsets.is_empty());
    assert!(cond.offsets_opt.is_empty());
    assert!(cond.variables.is_empty());
    assert!(cond.is_discarded());
    assert_eq!(cond.base.condition, COND_DONE_ST);
    cond.base.flip_condition();
    assert!(cond.is_done());
}

#[test]
fn fresh_condition() {
    let cond = CondStmt::new();
    assert!(cond.is_desirable);
    assert!(cond.is_consistent);
    assert!(!cond.is_target);
    assert_eq!(cond.fuzz_times, 0);
    assert_eq!(cond.state, CondState::Initial);
    assert!(cond.state.is_initial());
    assert!(!cond.is_first_time());
    assert!(!cond.is_discarded());
    assert!(CondState::OneByte.is_initial());
    assert!(!CondState::Det.is_initial());
}

#[test]
fn fuzz_type_by_operation() {
    assert_eq!(CondStmt::from(base_with_op(COND_AFL_OP)).get_fuzz_type(), FuzzType::AFLFuzz);
    assert_eq!(CondStmt::from(base_with_op(COND_LEN_OP)).get_fuzz_type(), FuzzType::LenFuzz);
    assert_eq!(CondStmt::from(base_with_op(COND_FN_OP)).get_fuzz_type(), FuzzType::CmpFnFuzz);
    assert_eq!(CondStmt::from(base_with_op(COND_AMP_OP)).get_fuzz_type(), FuzzType::AmpFuzz);
    assert_eq!(CondStmt::from(base_with_op(32)).get_fuzz_type(), FuzzType::ExploreFuzz);
    assert_eq!(CondStmt::from(base_with_op(0x4001)).get_fuzz_type(), FuzzType::ExploitFuzz);
    assert_eq!(CondStmt::from(base_with_op(0x9000)).get_fuzz_type(), FuzzType::OtherFuzz);
    assert_eq!(FuzzType::OtherFuzz.index(), FUZZ_TYPE_NUM - 1);
    assert_eq!(get_fuzz_type_name(FuzzType::AmpFuzz.index()), "Amp");
    assert_eq!(get_fuzz_type_name(0), "Explore");
    assert_eq!(get_fuzz_type_name(99), "Other");
}

#[test]
fn synthetic_conditions() {
    let afl = CondStmt::get_afl_cond(7, 1234, 55);
    assert_eq!(afl.base.op, COND_AFL_OP);
    assert_eq!(afl.base.cmpid, 7);
    assert_eq!(afl.base.belong, 7);
    assert_eq!(afl.base.arg1, 55);
    assert_eq!(afl.speed, 1234);
    let amp = CondStmt::get_amp_cond(9);
    assert_eq!(amp.base.op, COND_AMP_OP);
    assert_eq!(amp.base.cmpid, 9);
    assert_eq!(amp.base.belong, 9);
    assert_eq!(amp.speed, 0);
}

#[test]
fn is_bool_by_mask_or_by_values() {
    let mut cond = CondStmt::from(base_with_op(COND_ICMP_EQ_OP | COND_BOOL_MASK));
    assert!(cond.is_bool());
    cond.base.op = COND_ICMP_EQ_OP;
    cond.base.arg1 = 1;
    assert!(!cond.is_bool());
    cond.is_desirable = false;
    assert!(cond.is_bool());
}

#[test]
fn clone_keeps_everything() {
    let mut cond = CondStmt::get_afl_cond(3, 9, 2);
    cond.variables = vec![9, 8];
    cond.offsets = vec![TagSeg { begin: 1, end: 2, sign: true }];
    cond.to_timeout();
    let copy = cond.clone();
    assert_eq!(copy.variables, vec![9, 8]);
    assert_eq!(copy.offsets, vec![TagSeg { begin: 1, end: 2, sign: true }]);
    assert_eq!(copy.state, CondState::Timeout);
    assert!(copy == cond);
    assert_eq!(TagSeg { begin: 5, end: 9, sign: false }.len(), 4);
    assert_eq!(TagSeg { begin: 9, end: 5, sign: false }.len(), 0);
}
