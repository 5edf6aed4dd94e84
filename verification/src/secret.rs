//! Secret-shared values.
//!
//! A secret value supports addition, an equality test, a conditional select
//! and an explicit opening, and nothing else: the fields are private to this
//! module, so code elsewhere cannot branch on what a secret holds.

use vstd::prelude::*;

verus! {

/// A secret truth value, the outcome of a test on secrets.
#[derive(Clone, Copy)]
pub struct Sbool {
    bit: bool,
}

/// A secret signed 8-bit integer.
#[derive(Clone, Copy)]
pub struct Sbi8 {
    value: i8,
}

/// A secret signed 32-bit integer.
#[derive(Clone, Copy)]
pub struct Sbi32 {
    value: i32,
}

/// The 32-bit two's complement value that `x` is congruent to.
pub open spec fn wrap32(x: int) -> int {
    let m = x % 0x1_0000_0000;
    if m >= 0x8000_0000 {
        m - 0x1_0000_0000
    } else {
        m
    }
}

impl Sbool {
    /// The truth value that is shared.
    pub closed spec fn view(&self) -> bool {
        self.bit
    }
}

impl Sbi8 {
    /// The plaintext that is shared.
    pub closed spec fn view(&self) -> i8 {
        self.value
    }

    /// Shares a public constant.
    pub fn from(value: i8) -> (s: Sbi8)
        ensures
            s@ == value,
    {
        Sbi8 { value }
    }

    /// Secret equality test.
    pub fn equals(&self, other: &Sbi8) -> (b: Sbool)
        ensures
            b@ == (self@ == other@),
    {
        Sbool { bit: self.value == other.value }
    }

    /// Opens the value to everyone.
    pub fn declassify(self) -> (value: i8)
        ensures
            value == self@,
    {
        self.value
    }
}

impl Sbi32 {
    /// The plaintext that is shared.
    pub closed spec fn view(&self) -> i32 {
        self.value
    }

    /// Shares a public constant.
    pub fn from(value: i32) -> (s: Sbi32)
        ensures
            s@ == value,
    {
        Sbi32 { value }
    }

    /// Addition of two secrets in 32-bit two's complement.
    pub fn wrapping_add(self, rhs: Sbi32) -> (sum: Sbi32)
        ensures
            sum@ == wrap32(self@ + rhs@),
    {
        proof {
            lemma_wrap32_of_i32_sum(self.value, rhs.value);
        }
        Sbi32 { value: self.value.wrapping_add(rhs.value) }
    }

    /// Secret equality test.
    pub fn equals(&self, other: &Sbi32) -> (b: Sbool)
        ensures
            b@ == (self@ == other@),
    {
        Sbool { bit: self.value == other.value }
    }

    /// Conditional select: `when_true` if `test` holds, else `when_false`.
    pub fn select(test: Sbool, when_true: Sbi32, when_false: Sbi32) -> (chosen: Sbi32)
        ensures
            chosen@ == if test@ { when_true@ } else { when_false@ },
    {
        if test.bit {
            when_true
        } else {
            when_false
        }
    }

    /// Opens the value to everyone.
    pub fn declassify(self) -> (value: i32)
        ensures
            value == self@,
    {
        self.value
    }
}

/// `wrap32` is the identity on the range of `i32`.
pub proof fn lemma_wrap32_in_range(x: int)
    requires
        i32::MIN <= x <= i32::MAX,
    ensures
        wrap32(x) == x,
{
    if x >= 0 {
        vstd::arithmetic::div_mod::lemma_small_mod(x as nat, 0x1_0000_0000);
    } else {
        vstd::arithmetic::div_mod::lemma_small_mod((x + 0x1_0000_0000) as nat, 0x1_0000_0000);
        vstd::arithmetic::div_mod::lemma_mod_multiples_vanish(-1, x + 0x1_0000_0000, 0x1_0000_0000);
    }
}

/// Wrapping addition of two `i32` is `wrap32` of their mathematical sum.
pub proof fn lemma_wrap32_of_i32_sum(a: i32, b: i32)
    ensures
        a.wrapping_add(b) == wrap32(a + b),
{
    let s = a + b;
    if s > i32::MAX {
        lemma_wrap32_in_range(s - 0x1_0000_0000);
        vstd::arithmetic::div_mod::lemma_mod_multiples_vanish(1, s - 0x1_0000_0000, 0x1_0000_0000);
    } else if s < i32::MIN {
        lemma_wrap32_in_range(s + 0x1_0000_0000);
        vstd::arithmetic::div_mod::lemma_mod_multiples_vanish(-1, s + 0x1_0000_0000, 0x1_0000_0000);
    } else {
        lemma_wrap32_in_range(s);
    }
}

/// Wrapping an intermediate sum does not change the wrapped total.
pub proof fn lemma_wrap32_absorbs(acc: int, x: int)
    ensures
        wrap32(wrap32(acc) + x) == wrap32(acc + x),
{
    vstd::arithmetic::div_mod::lemma_add_mod_noop(acc, x, 0x1_0000_0000);
    vstd::arithmetic::div_mod::lemma_add_mod_noop(wrap32(acc), x, 0x1_0000_0000);
    vstd::arithmetic::div_mod::lemma_mod_twice(acc, 0x1_0000_0000);
    if acc % 0x1_0000_0000 >= 0x8000_0000 {
        vstd::arithmetic::div_mod::lemma_mod_multiples_vanish(-1, acc % 0x1_0000_0000, 0x1_0000_0000);
    }
}

} // verus!
