use army_bench::{value_fixed_army, Army, Dwarf, Elf, Man, EXPECTED_VALUE, SOLDIERS};

#[test]
fn fixed_army_has_expected_value() {
    assert_eq!(SOLDIERS, 30_000_000);
    assert_eq!(EXPECTED_VALUE, 130_000_000);
    assert_eq!(value_fixed_army(), 130_000_000);
}

#[test]
fn uniform_army_value_is_thirteen_per_triple() {
    assert_eq!(Army::new(0).value_army(), 0);
    assert_eq!(Army::new(3).value_army(), 13);
    assert_eq!(Army::new(3000).value_army(), 13000);
}

#[test]
fn new_army_drops_the_remainder() {
    let army = Army::new(7);
    assert_eq!(army.men.len(), 2);
    assert_eq!(army.elves.len(), 2);
    assert_eq!(army.dwarves.len(), 2);
    assert_eq!(army.value_army(), 26);
    assert_eq!(Army::new(2).value_army(), 0);
}

#[test]
fn new_army_holds_unit_records() {
    let army = Army::new(6);
    assert!(army.men.iter().all(|m| *m == Man { strength: 1, stamina: 1 }));
    assert!(army.elves.iter().all(|e| *e == Elf { age: 1, magic: 1 }));
    assert!(army.dwarves.iter().all(|d| *d == Dwarf { will: 1 }));
}

#[test]
fn army_value_weighs_each_kind() {
    let army = Army {
        men: vec![Man { strength: 3, stamina: 4 }],
        elves: vec![Elf { age: 5, magic: 6 }, Elf { age: 1, magic: 1 }],
        dwarves: vec![Dwarf { will: 7 }],
    };
    // 3*4 + (5*6*2 + 1*1*2) + 7*10
    assert_eq!(army.value_army(), 12 + 62 + 70);
}
