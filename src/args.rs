//! The command line takes exactly two arguments: the trial size and the
//! number of trials.
use vstd::prelude::*;

verus! {

/// Exit status of a run with the wrong number of arguments.
pub const USAGE_EXIT_STATUS: i32 = -1;

/// Number of arguments a run takes, the program's name not counted.
pub const ARG_COUNT: usize = 2;

#[derive(Clone, Copy, Debug, PartialEq, Eq, Structural)]
pub enum ArgsError {
    WrongCount,
}

impl ArgsError {
    /// The status the process ends with.
    pub fn exit_status(&self) -> (r: i32)
        ensures
            r == USAGE_EXIT_STATUS,
    {
        USAGE_EXIT_STATUS
    }

    /// The line shown to the user.
    pub fn message(&self) -> (r: &'static str)
        ensures
            r@ == "Must have two args"@,
    {
        proof {
            reveal_strlit("Must have two args");
        }
        "Must have two args"
    }
}

/// Decides, from the number of arguments alone (the program's name not
/// counted), whether a run goes on to parse them and compute.
pub fn check_arg_count(count: usize) -> (r: Result<(), ArgsError>)
    ensures
        r == (if count == ARG_COUNT { Ok::<(), ArgsError>(()) } else { Err(ArgsError::WrongCount) }),
{
    if count == ARG_COUNT {
        Ok(())
    } else {
        Err(ArgsError::WrongCount)
    }
}

} // verus!
