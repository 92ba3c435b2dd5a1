use lemmatizer::error::CoreError;

#[test]
fn each_error_describes_itself() {
    assert_eq!(CoreError::LaunchFailure.describe(), "failed to start the analyzer process");
    assert_eq!(
        CoreError::ProcessTerminatedEarly.describe(),
        "the analyzer process exited unexpectedly"
    );
    assert_eq!(
        CoreError::InvalidConfiguration.describe(),
        "the analyzer artifact could not be located"
    );
}

#[test]
fn errors_compare_by_kind() {
    assert_eq!(CoreError::LaunchFailure, CoreError::LaunchFailure);
    assert_ne!(CoreError::LaunchFailure, CoreError::ProcessTerminatedEarly);
}
