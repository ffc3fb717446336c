//! The strategies a condition can be handed to.
use vstd::prelude::*;
use vstd::string::StringExecFns;

verus! {

/// Which strategy works on a condition.
#[derive(Debug, Clone, Copy, PartialEq, Eq, Structural)]
pub enum FuzzType {
    ExploreFuzz,
    ExploitFuzz,
    CmpFnFuzz,
    LenFuzz,
    AFLFuzz,
    AmpFuzz,
    OtherFuzz,
}

/// Number of strategies.
pub const FUZZ_TYPE_NUM: usize = 7;

impl FuzzType {
    /// Position of the strategy in per-strategy tables.
    pub open spec fn spec_index(self) -> nat {
        match self {
            FuzzType::ExploreFuzz => 0,
            FuzzType::ExploitFuzz => 1,
            FuzzType::CmpFnFuzz => 2,
            FuzzType::LenFuzz => 3,
            FuzzType::AFLFuzz => 4,
            FuzzType::AmpFuzz => 5,
            FuzzType::OtherFuzz => 6,
        }
    }

    /// Position of the strategy in per-strategy tables.
    pub fn index(&self) -> (i: usize)
        ensures
            i == self.spec_index(),
            i < FUZZ_TYPE_NUM,
    {
        match self {
            FuzzType::ExploreFuzz => 0,
            FuzzType::ExploitFuzz => 1,
            FuzzType::CmpFnFuzz => 2,
            FuzzType::LenFuzz => 3,
            FuzzType::AFLFuzz => 4,
            FuzzType::AmpFuzz => 5,
            FuzzType::OtherFuzz => 6,
        }
    }
}

impl Default for FuzzType {
    fn default() -> (t: Self)
        ensures
            t == FuzzType::OtherFuzz,
    {
        FuzzType::OtherFuzz
    }
}

/// Display name of the strategy at position `i`; the last name stands for
/// every position past the table.
pub open spec fn fuzz_type_name(i: nat) -> Seq<char> {
    if i == 0 {
        "Explore"@
    } else if i == 1 {
        "Exploit"@
    } else if i == 2 {
        "CmpFn"@
    } else if i == 3 {
        "Len"@
    } else if i == 4 {
        "AFL"@
    } else if i == 5 {
        "Amp"@
    } else {
        "Other"@
    }
}

/// Upper-case display name of the strategy at position `i`.
pub open spec fn fuzz_type_label(i: nat) -> Seq<char> {
    if i == 0 {
        "EXPLORE"@
    } else if i == 1 {
        "EXPLOIT"@
    } else if i == 2 {
        "CMPFN"@
    } else if i == 3 {
        "LEN"@
    } else if i == 4 {
        "AFL"@
    } else if i == 5 {
        "AMP"@
    } else {
        "OTHER"@
    }
}

/// Display name of the strategy at position `i`.
pub fn get_fuzz_type_name(i: usize) -> (name: String)
    ensures
        name@ == fuzz_type_name(i as nat),
{
    if i == 0 {
        String::from_str("Explore")
    } else if i == 1 {
        String::from_str("Exploit")
    } else if i == 2 {
        String::from_str("CmpFn")
    } else if i == 3 {
        String::from_str("Len")
    } else if i == 4 {
        String::from_str("AFL")
    } else if i == 5 {
        String::from_str("Amp")
    } else {
        String::from_str("Other")
    }
}

/// Upper-case display name of the strategy at position `i`.
pub fn get_fuzz_type_label(i: usize) -> (name: String)
    ensures
        name@ == fuzz_type_label(i as nat),
{
    if i == 0 {
        String::from_str("EXPLORE")
    } else if i == 1 {
        String::from_str("EXPLOIT")
    } else if i == 2 {
        String::from_str("CMPFN")
    } else if i == 3 {
        String::from_str("LEN")
    } else if i == 4 {
        String::from_str("AFL")
    } else if i == 5 {
        String::from_str("AMP")
    } else {
        String::from_str("OTHER")
    }
}

} // verus!
