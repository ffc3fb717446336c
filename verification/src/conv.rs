//! Conversions between integer widths, each with its meaning stated.
use vstd::prelude::*;

verus! {

/// The low 32 bits of a machine word.
pub open spec fn low32_of(x: usize) -> u32 {
    ((x as int) % 0x1_0000_0000) as u32
}

/// A machine word as a 64-bit number.
pub open spec fn wide64_of(x: usize) -> u64 {
    x as u64
}

/// The low 32 bits of a machine word.
pub fn low32(x: usize) -> (r: u32)
    ensures
        r == (x as int) % 0x1_0000_0000,
        r == low32_of(x),
{
    let wide: u64 = x as u64;
    (wide % 0x1_0000_0000u64) as u32
}

/// A machine word as a 64-bit number.
pub fn wide64(x: usize) -> (r: u64)
    ensures
        r == x,
        r == wide64_of(x),
{
    x as u64
}

/// A 32-bit number as a 128-bit number.
pub fn wide128(x: u32) -> (r: u128)
    ensures
        r == x,
{
    x as u128
}

/// The 32 bits of a signed number, read as an unsigned one.
pub open spec fn bits_of(t: i32) -> u32 {
    if t >= 0 {
        t as u32
    } else {
        (t + 0x1_0000_0000) as u32
    }
}

/// The signed number whose 32 bits are those of `x`.
pub open spec fn signed_of(x: u32) -> i32 {
    if x < 0x8000_0000 {
        x as i32
    } else {
        (x - 0x1_0000_0000) as i32
    }
}

/// The 32 bits of a signed number, read as an unsigned one.
pub fn to_bits(t: i32) -> (x: u32)
    ensures
        x == bits_of(t),
        signed_of(x) == t,
{
    if t >= 0 {
        t as u32
    } else {
        ((t as i64) + 0x1_0000_0000i64) as u32
    }
}

/// The signed number whose 32 bits are those of `x`.
pub fn to_signed(x: u32) -> (t: i32)
    ensures
        t == signed_of(x),
        bits_of(t) == x,
{
    if x < 0x8000_0000 {
        x as i32
    } else {
        ((x as i64) - 0x1_0000_0000i64) as i32
    }
}

/// A 64-bit number as a machine word, where it fits one.
pub fn to_word(x: u64) -> (r: Option<usize>)
    ensures
        match r {
            Some(w) => w == x,
            None => x > usize::MAX,
        },
{
    if x > usize::MAX as u64 {
        None
    } else {
        Some(x as usize)
    }
}

/// The value of a machine word.
pub open spec fn int_of(x: usize) -> int {
    x as int
}

/// The first `n` elements of a sequence.
pub open spec fn upto<T>(s: Seq<T>, n: usize) -> Seq<T> {
    s.take(n as int)
}

/// The element of a sequence at position `i`.
pub open spec fn nth<T>(s: Seq<T>, i: usize) -> T {
    s[i as int]
}

} // verus!
