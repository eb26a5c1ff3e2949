use rsgenetic::sim::message::{
    count_error, decimal_string, empty_population_error, participants_error,
};

#[test]
fn numerals_are_decimal() {
    assert_eq!(decimal_string(0), "0");
    assert_eq!(decimal_string(7), "7");
    assert_eq!(decimal_string(10), "10");
    assert_eq!(decimal_string(120), "120");
    assert_eq!(decimal_string(9_999), "9999");
    assert_eq!(decimal_string(1_000_000), "1000000");
    assert_eq!(decimal_string(usize::MAX), format!("{}", usize::MAX));
}

#[test]
fn count_error_names_the_count() {
    assert_eq!(
        count_error(5),
        "Invalid parameter `count`: 5. Should be larger than zero, a multiple of two and less \
         than half the population size."
    );
}

#[test]
fn participants_error_names_the_participants() {
    assert_eq!(
        participants_error(100),
        "Invalid parameter `participants`: 100. Should be larger than one and less than the \
         population size."
    );
}

#[test]
fn empty_population_error_is_worded() {
    assert_eq!(
        empty_population_error(),
        "Tried to run a simulator without a population, or the population was empty."
    );
}
