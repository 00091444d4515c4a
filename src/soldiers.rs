//! The three record kinds and the value that each contributes.
use vstd::prelude::*;

verus! {

/// A man contributes `strength * stamina`.
#[derive(Clone, Copy, Debug, PartialEq, Eq, Structural)]
pub struct Man {
    pub strength: u32,
    pub stamina: u32,
}

/// An elf contributes `age * magic * 2`.
#[derive(Clone, Copy, Debug, PartialEq, Eq, Structural)]
pub struct Elf {
    pub age: u32,
    pub magic: u32,
}

/// A dwarf contributes `will * 10`.
#[derive(Clone, Copy, Debug, PartialEq, Eq, Structural)]
pub struct Dwarf {
    pub will: u32,
}

pub open spec fn man_value(m: Man) -> int {
    m.strength as int * m.stamina as int
}

pub open spec fn elf_value(e: Elf) -> int {
    e.age as int * e.magic as int * 2
}

pub open spec fn dwarf_value(d: Dwarf) -> int {
    d.will as int * 10
}

/// The record every new man starts as.
pub open spec fn unit_man() -> Man {
    Man { strength: 1, stamina: 1 }
}

pub open spec fn unit_elf() -> Elf {
    Elf { age: 1, magic: 1 }
}

pub open spec fn unit_dwarf() -> Dwarf {
    Dwarf { will: 1 }
}

/// Sum of `w` over the elements of `s`.
pub open spec fn weighted_sum<T>(s: Seq<T>, w: spec_fn(T) -> int) -> int
    decreases s.len(),
{
    if s.len() == 0 {
        0
    } else {
        weighted_sum(s.drop_last(), w) + w(s.last())
    }
}

pub open spec fn man_weight() -> spec_fn(Man) -> int {
    |m: Man| man_value(m)
}

pub open spec fn elf_weight() -> spec_fn(Elf) -> int {
    |e: Elf| elf_value(e)
}

pub open spec fn dwarf_weight() -> spec_fn(Dwarf) -> int {
    |d: Dwarf| dwarf_value(d)
}

pub open spec fn men_total(s: Seq<Man>) -> int {
    weighted_sum(s, man_weight())
}

pub open spec fn elves_total(s: Seq<Elf>) -> int {
    weighted_sum(s, elf_weight())
}

pub open spec fn dwarves_total(s: Seq<Dwarf>) -> int {
    weighted_sum(s, dwarf_weight())
}

/// Extending a prefix by one element adds that element's weight.
pub proof fn lemma_weighted_sum_step<T>(s: Seq<T>, w: spec_fn(T) -> int, i: int)
    requires
        0 <= i < s.len(),
    ensures
        weighted_sum(s.take(i + 1), w) == weighted_sum(s.take(i), w) + w(s[i]),
{
    assert(s.take(i + 1).drop_last() =~= s.take(i));
}

/// With weights that are never negative, a longer prefix never sums to less.
pub proof fn lemma_weighted_sum_prefix<T>(s: Seq<T>, w: spec_fn(T) -> int, i: int, j: int)
    requires
        0 <= i <= j <= s.len(),
        forall|x: T| #[trigger] w(x) >= 0,
    ensures
        weighted_sum(s.take(i), w) <= weighted_sum(s.take(j), w),
    decreases j - i,
{
    if i < j {
        lemma_weighted_sum_step(s, w, j - 1);
        lemma_weighted_sum_prefix(s, w, i, j - 1);
    }
}

/// `k` copies of `x`.
pub open spec fn copies<T>(x: T, k: nat) -> Seq<T> {
    Seq::new(k, |_i: int| x)
}

/// A sequence of `k` copies of `x` sums to `k * w(x)`.
pub proof fn lemma_weighted_sum_uniform<T>(x: T, k: nat, w: spec_fn(T) -> int)
    ensures
        weighted_sum(copies(x, k), w) == k * w(x),
    decreases k,
{
    if k > 0 {
        let s = copies(x, k);
        assert(s.drop_last() =~= copies(x, (k - 1) as nat));
        assert(s.last() == x);
        lemma_weighted_sum_uniform(x, (k - 1) as nat, w);
        assert(k * w(x) == (k - 1) * w(x) + w(x)) by (nonlinear_arith);
        assert(weighted_sum(s, w) == weighted_sum(s.drop_last(), w) + w(s.last()));
    } else {
        assert(copies(x, k).len() == 0);
    }
}

} // verus!
