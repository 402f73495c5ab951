use gram::description::diff;
use gram::github::Repository;
use gram::settings::GramSettings;

fn repository(description: Option<&str>) -> Repository {
    Repository { description: description.map(|d| d.to_owned()), ..Repository::default() }
}

fn settings(description: Option<&str>) -> GramSettings {
    GramSettings { description: description.map(|d| d.to_owned()), ..GramSettings::default() }
}

#[test]
fn it_should_error_if_settings_and_repo_have_different_description() {
    // arrange
    let repo = repository(Some("something"));
    let settings = settings(Some("test"));

    // act
    let result = diff(repo, settings);

    // assert
    assert!(result.is_err(), "expected an error");
    let err = result.err();
    assert!(err.is_some());
    assert_eq!(
        format!("{}", err.unwrap()),
        "Current description [something] does not match expected description [test]"
    );
}

#[test]
fn descriptions_that_are_the_same_agree() {
    assert!(diff(repository(Some("same")), settings(Some("same"))).is_ok());
    assert!(diff(repository(None), settings(None)).is_ok());
    assert!(diff(repository(Some("")), settings(Some(""))).is_ok());
}

#[test]
fn a_description_that_is_not_declared_is_never_reported() {
    assert_eq!(diff(repository(Some("x")), settings(None)), Ok(()));
    assert_eq!(diff(repository(Some("")), settings(None)), Ok(()));
    assert_eq!(diff(repository(Some("something")), settings(None)), Ok(()));
    assert_eq!(diff(repository(None), settings(None)), Ok(()));
}

#[test]
fn a_missing_description_is_reported_as_missing() {
    assert_eq!(
        diff(repository(None), settings(Some("test"))).err().unwrap(),
        "Current description has no value, expected description [test]"
    );
    assert_eq!(
        diff(repository(None), settings(Some(""))).err().unwrap(),
        "Current description has no value, expected description []"
    );
}

#[test]
fn a_missing_description_is_told_apart_from_one_that_reads_null() {
    let missing = diff(repository(None), settings(Some("test"))).err().unwrap();
    let null = diff(repository(Some("null")), settings(Some("test"))).err().unwrap();
    assert_eq!(null, "Current description [null] does not match expected description [test]");
    assert_ne!(missing, null);
}

#[test]
fn an_empty_description_is_not_a_missing_one() {
    assert_eq!(
        diff(repository(Some("")), settings(Some("x"))).err().unwrap(),
        "Current description [] does not match expected description [x]"
    );
    assert!(diff(repository(None), settings(Some(""))).is_err());
    assert!(diff(repository(Some("")), settings(Some(""))).is_ok());
}
