//! The records that a comparison, a switch and a compared pair of strings
//! yield.
use vstd::prelude::*;
use crate::cond_stmt_base::CondStmtBase;
use crate::defs::{
    COND_DONE_ST, COND_FALSE_ST, COND_FN_OP, COND_ICMP_EQ_OP, COND_SIGN_MASK, COND_SW_OP,
};

verus! {

/// The order of the `i`-th case of a switch: the cases are `1 << 16` apart,
/// within 32 bits.
pub open spec fn case_order(i: int) -> u32 {
    ((i * 0x1_0000) % 0x1_0000_0000) as u32
}

fn order_of_case(i: usize) -> (order: u32)
    ensures
        order == case_order(i as int),
{
    let low: u64 = (i as u64) % 0x1_0000;
    assert((i * 0x1_0000) % 0x1_0000_0000 == ((i as int) % 0x1_0000) * 0x1_0000) by (nonlinear_arith);
    (low * 0x1_0000) as u32
}

/// What the instrumentation reports of a switch.
#[derive(Debug, Clone, Copy, PartialEq, Eq, Structural)]
pub struct SwitchSite {
    pub site: u32,
    pub thread_id: i32,
    pub context: u32,
    pub last_callsite: u32,
    pub size: u32,
    /// The taint label of the value switched on.
    pub label: u32,
    /// The value was read as a signed one.
    pub signed: bool,
    /// The value switched on.
    pub condition: u64,
}

/// The operation of a switch record: signed where the value is.
pub open spec fn switch_op(signed: bool) -> u32 {
    if signed {
        COND_SW_OP | COND_SIGN_MASK
    } else {
        COND_SW_OP
    }
}

/// The record of the `i`-th case, with the value `arg` of the case: the
/// case that the value switched on takes is finished from the start.
pub open spec fn case_record(at: SwitchSite, i: int, arg: u64) -> CondStmtBase {
    CondStmtBase {
        cmpid: at.site,
        thread_id: at.thread_id,
        context: at.context,
        last_callsite: at.last_callsite,
        order: case_order(i),
        belong: 0,
        condition: if arg == at.condition {
            COND_DONE_ST
        } else {
            COND_FALSE_ST
        },
        level: 0,
        op: switch_op(at.signed),
        size: at.size,
        lb1: at.label,
        lb2: 0,
        arg1: at.condition,
        arg2: arg,
    }
}

/// The records of a switch, one for each case; none for a value without
/// taint.
pub open spec fn switch_records(at: SwitchSite, args: Seq<u64>) -> Seq<CondStmtBase> {
    if at.label == 0 {
        Seq::empty()
    } else {
        Seq::new(args.len(), |i: int| case_record(at, i, args[i]))
    }
}

/// The records of a switch, one for each case.
pub fn switch_conds(at: &SwitchSite, args: &Vec<u64>) -> (records: Vec<CondStmtBase>)
    ensures
        records@ == switch_records(*at, args@),
{
    let mut records: Vec<CondStmtBase> = Vec::new();
    if at.label == 0 {
        return records;
    }
    let op: u32 = if at.signed {
        COND_SW_OP | COND_SIGN_MASK
    } else {
        COND_SW_OP
    };
    let mut i: usize = 0;
    while i < args.len()
        invariant
            i <= args.len(),
            at.label != 0,
            op == switch_op(at.signed),
            records@.len() == i,
            forall|k: int| 0 <= k < i ==> records@[k] == case_record(*at, k, args@[k]),
        decreases args.len() - i,
    {
        let arg = args[i];
        records.push(
            CondStmtBase {
                cmpid: at.site,
                thread_id: at.thread_id,
                context: at.context,
                last_callsite: at.last_callsite,
                order: order_of_case(i),
                belong: 0,
                condition: if arg == at.condition {
                    COND_DONE_ST
                } else {
                    COND_FALSE_ST
                },
                level: 0,
                op,
                size: at.size,
                lb1: at.label,
                lb2: 0,
                arg1: at.condition,
                arg2: arg,
            },
        );
        i = i + 1;
    }
    proof {
        assert(records@ =~= switch_records(*at, args@));
    }
    records
}

/// The record of a comparison that a library function made on two
/// strings with the taint labels `lb1` and `lb2` and the lengths `len1`
/// and `len2`: it carries the label of the first tainted operand and the
/// length of the other one. None where neither is tainted.
pub open spec fn fn_record(
    site: u32,
    thread_id: i32,
    context: u32,
    last_callsite: u32,
    lb1: u32,
    lb2: u32,
    len1: u32,
    len2: u32,
) -> Option<CondStmtBase> {
    if lb1 == 0 && lb2 == 0 {
        None
    } else {
        Some(
            CondStmtBase {
                cmpid: site,
                thread_id,
                context,
                last_callsite,
                order: 0,
                belong: 0,
                condition: COND_FALSE_ST,
                level: 0,
                op: COND_FN_OP,
                size: if lb1 > 0 {
                    len2
                } else {
                    len1
                },
                lb1: if lb1 > 0 {
                    lb1
                } else {
                    0
                },
                lb2: if lb1 > 0 {
                    0
                } else {
                    lb2
                },
                arg1: 0,
                arg2: 0,
            },
        )
    }
}

/// The record of a comparison that a library function made.
pub fn fn_cond(
    site: u32,
    thread_id: i32,
    context: u32,
    last_callsite: u32,
    lb1: u32,
    lb2: u32,
    len1: u32,
    len2: u32,
) -> (record: Option<CondStmtBase>)
    ensures
        record == fn_record(site, thread_id, context, last_callsite, lb1, lb2, len1, len2),
{
    if lb1 == 0 && lb2 == 0 {
        return None;
    }
    let mut cond = CondStmtBase {
        cmpid: site,
        thread_id,
        context,
        last_callsite,
        order: 0,
        belong: 0,
        condition: COND_FALSE_ST,
        level: 0,
        op: COND_FN_OP,
        size: 0,
        lb1: 0,
        lb2: 0,
        arg1: 0,
        arg2: 0,
    };
    if lb1 > 0 {
        cond.lb1 = lb1;
        cond.size = len2;
    } else {
        cond.lb2 = lb2;
        cond.size = len1;
    }
    Some(cond)
}

/// The operation of a comparison once the signs of its operands are known:
/// an equality on an operand that was read as a signed value is marked as
/// signed.
pub open spec fn with_sign(op: u32, first_signed: bool, second_signed: bool) -> u32 {
    if op == COND_ICMP_EQ_OP && (first_signed || second_signed) {
        op | COND_SIGN_MASK
    } else {
        op
    }
}

/// The operation of a comparison once the signs of its operands are known.
/// An operand without taint counts as unsigned.
pub fn infer_eq_sign(op: u32, lb1: u32, lb2: u32, first_signed: bool, second_signed: bool) -> (r:
    u32)
    ensures
        r == with_sign(op, lb1 > 0 && first_signed, lb2 > 0 && second_signed),
{
    if op == COND_ICMP_EQ_OP && ((lb1 > 0 && first_signed) || (lb2 > 0 && second_signed)) {
        op | COND_SIGN_MASK
    } else {
        op
    }
}

/// What the instrumentation reports of a comparison.
#[derive(Debug, Clone, Copy, PartialEq, Eq, Structural)]
pub struct CmpSite {
    pub site: u32,
    pub thread_id: i32,
    pub context: u32,
    pub last_callsite: u32,
    pub condition: u32,
    pub op: u32,
    pub size: u32,
    pub lb1: u32,
    pub lb2: u32,
    pub arg1: u64,
    pub arg2: u64,
}

/// The record of a comparison; none where neither operand is tainted.
pub fn cmp_record(at: &CmpSite) -> (record: Option<CondStmtBase>)
    ensures
        record == (if at.lb1 == 0 && at.lb2 == 0 {
            None
        } else {
            Some(
                CondStmtBase {
                    cmpid: at.site,
                    thread_id: at.thread_id,
                    context: at.context,
                    last_callsite: at.last_callsite,
                    order: 0,
                    belong: 0,
                    condition: at.condition,
                    level: 0,
                    op: at.op,
                    size: at.size,
                    lb1: at.lb1,
                    lb2: at.lb2,
                    arg1: at.arg1,
                    arg2: at.arg2,
                },
            )
        }),
{
    if at.lb1 == 0 && at.lb2 == 0 {
        return None;
    }
    Some(
        CondStmtBase {
            cmpid: at.site,
            thread_id: at.thread_id,
            context: at.context,
            last_callsite: at.last_callsite,
            order: 0,
            belong: 0,
            condition: at.condition,
            level: 0,
            op: at.op,
            size: at.size,
            lb1: at.lb1,
            lb2: at.lb2,
            arg1: at.arg1,
            arg2: at.arg2,
        },
    )
}

} // verus!
