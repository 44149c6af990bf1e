use ical_filter::config::{with_default, EnvError, EnvErrorKind, VarFailure};

#[test]
fn default_stands_in_for_a_variable_that_is_not_set() {
    let absent: Result<u16, EnvError> =
        Err(EnvError("ADDRESS", EnvErrorKind::Env(VarFailure::NotPresent)));
    assert!(matches!(with_default(absent, 8080), Ok(8080)));
}

#[test]
fn value_that_is_set_wins_over_the_default() {
    let set: Result<u16, EnvError> = Ok(9000);
    assert!(matches!(with_default(set, 8080), Ok(9000)));
}

#[test]
fn unusable_variable_stays_an_error() {
    let garbled: Result<u16, EnvError> = Err(EnvError("ADDRESS", EnvErrorKind::Parse));
    assert!(matches!(
        with_default(garbled, 8080),
        Err(EnvError("ADDRESS", EnvErrorKind::Parse))
    ));
    let binary: Result<u16, EnvError> =
        Err(EnvError("ADDRESS", EnvErrorKind::Env(VarFailure::NotUnicode)));
    assert!(matches!(
        with_default(binary, 8080),
        Err(EnvError("ADDRESS", EnvErrorKind::Env(VarFailure::NotUnicode)))
    ));
}
