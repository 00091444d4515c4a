//! An army built once, of `soldiers / 3` unit records of each kind.
use vstd::prelude::*;
use crate::soldiers::{
    copies, dwarf_weight, dwarves_total, elf_weight, elves_total, lemma_weighted_sum_prefix,
    lemma_weighted_sum_step, lemma_weighted_sum_uniform, man_weight, men_total, unit_dwarf,
    unit_elf, unit_man, Dwarf, Elf, Man,
};

verus! {

/// Size of the army that `value_fixed_army` builds.
pub const SOLDIERS: usize = 30_000_000;

/// Value that an army of `SOLDIERS` unit records must have.
pub const EXPECTED_VALUE: u32 = 130_000_000;

pub struct Army {
    pub men: Vec<Man>,
    pub elves: Vec<Elf>,
    pub dwarves: Vec<Dwarf>,
}

/// Total value of all records of all kinds.
pub open spec fn army_value(men: Seq<Man>, elves: Seq<Elf>, dwarves: Seq<Dwarf>) -> int {
    men_total(men) + elves_total(elves) + dwarves_total(dwarves)
}

/// Of a uniform army of `k` unit records per kind, each triple (one man, one
/// elf, one dwarf) is worth 1 + 2 + 10, so the army is worth `13 * k`.
pub proof fn lemma_uniform_army_value(soldiers: nat)
    requires
        soldiers % 3 == 0,
    ensures
        army_value(
            copies(unit_man(), soldiers / 3),
            copies(unit_elf(), soldiers / 3),
            copies(unit_dwarf(), soldiers / 3),
        ) == 13 * (soldiers / 3),
{
    lemma_army_value_of_copies(soldiers / 3);
}

proof fn lemma_army_value_of_copies(k: nat)
    ensures
        army_value(copies(unit_man(), k), copies(unit_elf(), k), copies(unit_dwarf(), k)) == 13 * k,
{
    lemma_weighted_sum_uniform(unit_man(), k, man_weight());
    lemma_weighted_sum_uniform(unit_elf(), k, elf_weight());
    lemma_weighted_sum_uniform(unit_dwarf(), k, dwarf_weight());
    let (wm, we, wd) = (man_weight()(unit_man()), elf_weight()(unit_elf()), dwarf_weight()(unit_dwarf()));
    assert(k * wm + k * we + k * wd == 13 * k) by (nonlinear_arith)
        requires wm == 1, we == 2, wd == 10;
}

fn unit_records<T: Copy>(x: T, k: usize) -> (r: Vec<T>)
    ensures
        r@ == copies(x, k as nat),
{
    let mut v: Vec<T> = Vec::with_capacity(k);
    let mut i: usize = 0;
    while i < k
        invariant
            i <= k,
            v@ == copies(x, i as nat),
        decreases k - i,
    {
        v.push(x);
        i = i + 1;
        assert(v@ =~= copies(x, i as nat));
    }
    v
}

impl Army {
    /// An army of `soldiers / 3` unit records of each kind; the remainder of
    /// the division gets no record.
    pub fn new(soldiers: usize) -> (a: Army)
        ensures
            a.men@ == copies(unit_man(), (soldiers / 3) as nat),
            a.elves@ == copies(unit_elf(), (soldiers / 3) as nat),
            a.dwarves@ == copies(unit_dwarf(), (soldiers / 3) as nat),
    {
        let k = soldiers / 3;
        Army {
            men: unit_records(Man { strength: 1, stamina: 1 }, k),
            elves: unit_records(Elf { age: 1, magic: 1 }, k),
            dwarves: unit_records(Dwarf { will: 1 }, k),
        }
    }

    /// Sum of `strength * stamina` over the men, `age * magic * 2` over the
    /// elves and `will * 10` over the dwarves.
    pub fn value_army(&self) -> (r: u32)
        requires
            army_value(self.men@, self.elves@, self.dwarves@) <= u32::MAX,
        ensures
            r == army_value(self.men@, self.elves@, self.dwarves@),
    {
        let ghost total = army_value(self.men@, self.elves@, self.dwarves@);
        proof {
            assert(self.men@.take(self.men@.len() as int) =~= self.men@);
            assert(self.elves@.take(self.elves@.len() as int) =~= self.elves@);
            assert(self.dwarves@.take(self.dwarves@.len() as int) =~= self.dwarves@);
            lemma_weighted_sum_prefix(self.elves@, elf_weight(), 0, self.elves@.len() as int);
            lemma_weighted_sum_prefix(self.dwarves@, dwarf_weight(), 0, self.dwarves@.len() as int);
        }
        let mut sum: u32 = 0;
        let mut i: usize = 0;
        while i < self.men.len()
            invariant
                i <= self.men@.len(),
                total == army_value(self.men@, self.elves@, self.dwarves@),
                total <= u32::MAX,
                self.men@.take(self.men@.len() as int) == self.men@,
                sum == men_total(self.men@.take(i as int)),
                elves_total(self.elves@) >= 0,
                dwarves_total(self.dwarves@) >= 0,
            decreases self.men@.len() - i,
        {
            proof {
                lemma_weighted_sum_step(self.men@, man_weight(), i as int);
                lemma_weighted_sum_prefix(self.men@, man_weight(), i + 1, self.men@.len() as int);
            }
            sum = sum + self.men[i].strength * self.men[i].stamina;
            i = i + 1;
        }
        let ghost men_sum = sum as int;
        let mut i: usize = 0;
        while i < self.elves.len()
            invariant
                i <= self.elves@.len(),
                total == army_value(self.men@, self.elves@, self.dwarves@),
                total <= u32::MAX,
                men_sum == men_total(self.men@),
                self.elves@.take(self.elves@.len() as int) == self.elves@,
                sum == men_sum + elves_total(self.elves@.take(i as int)),
                dwarves_total(self.dwarves@) >= 0,
            decreases self.elves@.len() - i,
        {
            proof {
                lemma_weighted_sum_step(self.elves@, elf_weight(), i as int);
                lemma_weighted_sum_prefix(self.elves@, elf_weight(), i + 1, self.elves@.len() as int);
            }
            let a = self.elves[i].age;
            let m = self.elves[i].magic;
            assert(a * m <= a * m * 2) by (nonlinear_arith);
            sum = sum + a * m * 2;
            i = i + 1;
        }
        let ghost elves_sum = sum as int;
        let mut i: usize = 0;
        while i < self.dwarves.len()
            invariant
                i <= self.dwarves@.len(),
                total == army_value(self.men@, self.elves@, self.dwarves@),
                total <= u32::MAX,
                elves_sum == men_total(self.men@) + elves_total(self.elves@),
                self.dwarves@.take(self.dwarves@.len() as int) == self.dwarves@,
                sum == elves_sum + dwarves_total(self.dwarves@.take(i as int)),
            decreases self.dwarves@.len() - i,
        {
            proof {
                lemma_weighted_sum_step(self.dwarves@, dwarf_weight(), i as int);
                lemma_weighted_sum_prefix(self.dwarves@, dwarf_weight(), i + 1, self.dwarves@.len() as int);
            }
            sum = sum + self.dwarves[i].will * 10;
            i = i + 1;
        }
        sum
    }
}

/// Builds an army of `SOLDIERS` unit records and values it: the result is
/// always `EXPECTED_VALUE`.
pub fn value_fixed_army() -> (r: u32)
    ensures
        r == EXPECTED_VALUE,
{
    let army = Army::new(SOLDIERS);
    proof {
        lemma_uniform_army_value(SOLDIERS as nat);
    }
    army.value_army()
}

} // verus!
