//! What a strategy works on.
use vstd::prelude::*;
use crate::cond_stmt::CondStmt;

verus! {

/// The condition that a strategy works on, and the input that reached it.
pub struct SearchHandler {
    pub cond: CondStmt,
    pub buf: Vec<u8>,
}

impl SearchHandler {
    pub fn new(cond: CondStmt, buf: Vec<u8>) -> (handler: Self)
        ensures
            handler.cond@ == cond@,
            handler.buf@ == buf@,
    {
        SearchHandler { cond, buf }
    }
}

} // verus!
