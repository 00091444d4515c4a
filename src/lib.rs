//! Weighted valuation of an army made of three kinds of soldiers: men, elves
//! and dwarves. An army is either built once at a fixed size (`army`) or
//! rebuilt trial after trial in buffers that are reused (`trial`).

pub mod args;
pub mod army;
pub mod soldiers;
pub mod trial;

pub use args::{check_arg_count, ArgsError, ARG_COUNT, USAGE_EXIT_STATUS};
pub use army::{value_fixed_army, Army, EXPECTED_VALUE, SOLDIERS};
pub use soldiers::{Dwarf, Elf, Man};
pub use trial::{run_trials, unit_trial, value_army};
