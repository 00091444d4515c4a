//! One trial on buffers that are reused from trial to trial.
use vstd::prelude::*;
use crate::soldiers::{
    copies, dwarf_weight, dwarves_total, elf_weight, elves_total, lemma_weighted_sum_prefix,
    lemma_weighted_sum_step, lemma_weighted_sum_uniform, man_weight, men_total, unit_dwarf,
    unit_elf, unit_man, Dwarf, Elf, Man,
};

verus! {

/// `s` brought to length `n`: cut short, or extended with copies of `fill`.
pub open spec fn resized<T>(s: Seq<T>, n: nat, fill: T) -> Seq<T> {
    if n <= s.len() {
        s.take(n as int)
    } else {
        s + copies(fill, (n - s.len()) as nat)
    }
}

/// What a trial of size `n` sums, given the buffers it starts from: one kind
/// only, chosen by `n % 3`, over the first `n` records of that kind.
pub open spec fn trial_value(men: Seq<Man>, elves: Seq<Elf>, dwarves: Seq<Dwarf>, n: nat) -> int {
    if n % 3 == 0 {
        men_total(resized(men, n, unit_man()))
    } else if n % 3 == 1 {
        elves_total(resized(elves, n, unit_elf()))
    } else {
        dwarves_total(resized(dwarves, n, unit_dwarf()))
    }
}

/// Sum of the first `i` records of the kind that a trial of size `n` reads.
pub open spec fn partial_trial_value(
    men: Seq<Man>,
    elves: Seq<Elf>,
    dwarves: Seq<Dwarf>,
    n: nat,
    i: int,
) -> int {
    if n % 3 == 0 {
        men_total(men.take(i))
    } else if n % 3 == 1 {
        elves_total(elves.take(i))
    } else {
        dwarves_total(dwarves.take(i))
    }
}

/// Runs one trial: resizes the three buffers to `n` records (new slots hold
/// unit records), sums `n` records of the kind picked by `n % 3`, and leaves
/// the three buffers empty.
pub fn value_army(men: &mut Vec<Man>, elves: &mut Vec<Elf>, dwarves: &mut Vec<Dwarf>, n: usize) -> (r: u32)
    requires
        trial_value(old(men)@, old(elves)@, old(dwarves)@, n as nat) <= u32::MAX,
    ensures
        r == trial_value(old(men)@, old(elves)@, old(dwarves)@, n as nat),
        final(men)@.len() == 0,
        final(elves)@.len() == 0,
        final(dwarves)@.len() == 0,
{
    men.resize(n, Man { strength: 1, stamina: 1 });
    elves.resize(n, Elf { age: 1, magic: 1 });
    dwarves.resize(n, Dwarf { will: 1 });
    proof {
        assert(men@ =~= resized(old(men)@, n as nat, unit_man()));
        assert(elves@ =~= resized(old(elves)@, n as nat, unit_elf()));
        assert(dwarves@ =~= resized(old(dwarves)@, n as nat, unit_dwarf()));
        assert(men@.take(n as int) =~= men@);
        assert(elves@.take(n as int) =~= elves@);
        assert(dwarves@.take(n as int) =~= dwarves@);
    }
    let ghost total = trial_value(old(men)@, old(elves)@, old(dwarves)@, n as nat);
    let mut sum: u32 = 0;
    let mut i: usize = 0;
    while i < n
        invariant
            i <= n,
            men@.len() == n,
            elves@.len() == n,
            dwarves@.len() == n,
            total == partial_trial_value(men@, elves@, dwarves@, n as nat, n as int),
            total <= u32::MAX,
            sum == partial_trial_value(men@, elves@, dwarves@, n as nat, i as int),
        decreases n - i,
    {
        proof {
            lemma_weighted_sum_step(men@, man_weight(), i as int);
            lemma_weighted_sum_step(elves@, elf_weight(), i as int);
            lemma_weighted_sum_step(dwarves@, dwarf_weight(), i as int);
            lemma_weighted_sum_prefix(men@, man_weight(), i + 1, n as int);
            lemma_weighted_sum_prefix(elves@, elf_weight(), i + 1, n as int);
            lemma_weighted_sum_prefix(dwarves@, dwarf_weight(), i + 1, n as int);
        }
        let add: u32 = if n % 3 == 0 {
            men[i].strength * men[i].stamina
        } else if n % 3 == 1 {
            let a = elves[i].age;
            let m = elves[i].magic;
            assert(a * m <= a * m * 2) by (nonlinear_arith);
            a * m * 2
        } else {
            dwarves[i].will * 10
        };
        sum = sum + add;
        i = i + 1;
    }
    men.clear();
    elves.clear();
    dwarves.clear();
    sum
}

/// What a trial of size `n` sums when it starts from empty buffers.
pub open spec fn unit_trial_value(n: nat) -> nat {
    if n % 3 == 0 {
        n
    } else if n % 3 == 1 {
        2 * n
    } else {
        10 * n
    }
}

/// Sum of `m` trials of size `n`, each starting from empty buffers.
pub open spec fn trials_total(n: nat, m: nat) -> nat {
    m * unit_trial_value(n)
}

/// A trial on empty buffers reads `n` unit records, each worth 1, 2 or 10
/// depending on the kind that `n % 3` picks.
pub proof fn lemma_trial_from_empty(n: nat)
    ensures
        trial_value(Seq::empty(), Seq::empty(), Seq::empty(), n) == unit_trial_value(n),
{
    assert(resized(Seq::<Man>::empty(), n, unit_man()) =~= copies(unit_man(), n));
    assert(resized(Seq::<Elf>::empty(), n, unit_elf()) =~= copies(unit_elf(), n));
    assert(resized(Seq::<Dwarf>::empty(), n, unit_dwarf()) =~= copies(unit_dwarf(), n));
    lemma_weighted_sum_uniform(unit_man(), n, man_weight());
    lemma_weighted_sum_uniform(unit_elf(), n, elf_weight());
    lemma_weighted_sum_uniform(unit_dwarf(), n, dwarf_weight());
    let (wm, we, wd) = (man_weight()(unit_man()), elf_weight()(unit_elf()), dwarf_weight()(unit_dwarf()));
    assert(n * wm == n && n * we == 2 * n && n * wd == 10 * n) by (nonlinear_arith)
        requires wm == 1, we == 2, wd == 10;
}

/// Trials of size zero sum to zero, however many of them run.
pub proof fn lemma_empty_trials(m: nat)
    ensures
        trial_value(Seq::empty(), Seq::empty(), Seq::empty(), 0) == 0,
        trials_total(0, m) == 0,
{
    lemma_trial_from_empty(0);
}

/// A trial of size three reads three unit men: it sums to 3, and `m` of them to `3 * m`.
pub proof fn lemma_trials_of_three(m: nat)
    ensures
        trial_value(Seq::empty(), Seq::empty(), Seq::empty(), 3) == 3,
        trials_total(3, m) == 3 * m,
{
    lemma_trial_from_empty(3);
}

/// A trial of size four reads four unit elves: it sums to 8, and `m` of them to `8 * m`.
pub proof fn lemma_trials_of_four(m: nat)
    ensures
        trial_value(Seq::empty(), Seq::empty(), Seq::empty(), 4) == 8,
        trials_total(4, m) == 8 * m,
{
    lemma_trial_from_empty(4);
    assert(m * 8 == 8 * m) by (nonlinear_arith);
}

/// A trial of size five reads five unit dwarves: it sums to 50, and `m` of them to `50 * m`.
pub proof fn lemma_trials_of_five(m: nat)
    ensures
        trial_value(Seq::empty(), Seq::empty(), Seq::empty(), 5) == 50,
        trials_total(5, m) == 50 * m,
{
    lemma_trial_from_empty(5);
    assert(m * 50 == 50 * m) by (nonlinear_arith);
}

/// The value of one trial of size `n` on empty buffers, if it fits in a `u32`.
pub fn unit_trial(n: usize) -> (r: Option<u32>)
    ensures
        r == (if unit_trial_value(n as nat) <= u32::MAX {
            Some(unit_trial_value(n as nat) as u32)
        } else {
            None::<u32>
        }),
{
    let max: usize = u32::MAX as usize;
    if n % 3 == 0 {
        if n <= max {
            Some(n as u32)
        } else {
            None
        }
    } else if n % 3 == 1 {
        if n <= max / 2 {
            Some(n as u32 * 2)
        } else {
            None
        }
    } else {
        if n <= max / 10 {
            Some(n as u32 * 10)
        } else {
            None
        }
    }
}

/// Runs `m` trials of size `n` on three buffers reserved once for `n`
/// records and reused by every trial, and adds up the trial values.
/// Returns `None` where that total does not fit in a `u32`.
pub fn run_trials(n: usize, m: usize) -> (r: Option<u32>)
    ensures
        r == (if trials_total(n as nat, m as nat) <= u32::MAX {
            Some(trials_total(n as nat, m as nat) as u32)
        } else {
            None::<u32>
        }),
{
    let per_trial: u32 = match unit_trial(n) {
        Some(v) => v,
        None => {
            // Not even one trial fits: only an empty run has a total.
            if m == 0 {
                return Some(0);
            } else {
                assert(m * unit_trial_value(n as nat) >= unit_trial_value(n as nat))
                    by (nonlinear_arith)
                    requires m >= 1;
                return None;
            }
        },
    };
    let mut men: Vec<Man> = Vec::with_capacity(n);
    let mut elves: Vec<Elf> = Vec::with_capacity(n);
    let mut dwarves: Vec<Dwarf> = Vec::with_capacity(n);
    let ghost t = unit_trial_value(n as nat);
    let mut total: u32 = 0;
    let mut i: usize = 0;
    while i < m
        invariant
            i <= m,
            t == unit_trial_value(n as nat),
            per_trial == t,
            total == i * t,
            men@.len() == 0,
            elves@.len() == 0,
            dwarves@.len() == 0,
        decreases m - i,
    {
        if total > u32::MAX - per_trial {
            assert(m * t >= (i + 1) * t) by (nonlinear_arith)
                requires m >= i + 1, t >= 0;
            assert((i + 1) * t == i * t + t) by (nonlinear_arith);
            return None;
        }
        proof {
            lemma_trial_from_empty(n as nat);
            assert(men@ =~= Seq::<Man>::empty());
            assert(elves@ =~= Seq::<Elf>::empty());
            assert(dwarves@ =~= Seq::<Dwarf>::empty());
        }
        let got = value_army(&mut men, &mut elves, &mut dwarves, n);
        assert((i + 1) * t == i * t + t) by (nonlinear_arith);
        total = total + got;
        i = i + 1;
    }
    Some(total)
}

} // verus!
