use army_bench::{check_arg_count, ArgsError, USAGE_EXIT_STATUS};

#[test]
fn two_arguments_are_accepted() {
    assert_eq!(check_arg_count(2), Ok(()));
}

#[test]
fn other_argument_counts_are_refused() {
    for count in [0usize, 1, 3, 4] {
        let err = check_arg_count(count).unwrap_err();
        assert_eq!(err, ArgsError::WrongCount);
        assert_eq!(err.exit_status(), -1);
        assert_eq!(err.exit_status(), USAGE_EXIT_STATUS);
        assert_eq!(err.message(), "Must have two args");
    }
}
