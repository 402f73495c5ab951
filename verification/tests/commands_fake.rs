use gram::commands::{ConfigError, Diff, FileReader};
use gram::github::{Branch, GithubClient, Repository, TransportError};
use gram::settings::{GramSettings, Options};
use std::path::PathBuf;

/// A client that answers with `error` if there is one, else with `result`;
/// an answer that is no repository cannot be understood and fails too.
struct FakeGithub<'a> {
    error: Option<String>,
    result: Option<&'a Repository>,
}

impl<'a> GithubClient for FakeGithub<'a> {
    fn repository(&self, _: &str, _: &str) -> Result<Repository, TransportError> {
        if self.error.is_some() {
            Err(TransportError::Failed { message: self.error.clone().unwrap() })
        } else {
            match self.result {
                Some(repo) => Ok(repo.clone()),
                None => Err(TransportError::Failed { message: "error".to_owned() }),
            }
        }
    }

    fn protected_branches(&self, _: &str, _: &str) -> Result<Vec<Branch>, TransportError> {
        if self.error.is_some() {
            Err(TransportError::Failed { message: self.error.clone().unwrap() })
        } else {
            Ok(Vec::new())
        }
    }
}

struct FakeFileReader<'a> {
    error: bool,
    settings: &'a GramSettings,
}

impl<'a> FakeFileReader<'a> {
    fn read_to_string(&self) -> Result<String, ConfigError> {
        if self.error {
            Err(ConfigError { message: "".to_owned() })
        } else {
            Ok("".to_owned())
        }
    }
}

impl<'a> FileReader for FakeFileReader<'a> {
    fn read_settings(&self, _: &PathBuf) -> Result<GramSettings, ConfigError> {
        Ok(self.settings.clone())
    }
}

static SETTINGS_DESCRIPTION: &'static str = "description";
static REPO_DESCRIPTION: &'static str = "different";

fn opposing_settings_and_repo() -> (GramSettings, Repository) {
    let settings = GramSettings {
        description: Some(SETTINGS_DESCRIPTION.to_owned()),
        options: Some(Options {
            delete_branch_on_merge: Some(true),
            allow_rebase_merge: Some(true),
            allow_squash_merge: Some(true),
            allow_merge_commit: Some(false),
        }),
        protected: None,
    };
    let repo = Repository {
        description: Some(REPO_DESCRIPTION.to_owned()),
        allow_merge_commit: true,
        allow_squash_merge: false,
        allow_rebase_merge: false,
        delete_branch_on_merge: false,
    };
    (settings, repo)
}

fn passing_reader<'a>(settings: &'a GramSettings) -> FakeFileReader<'a> {
    FakeFileReader { error: false, settings }
}

fn default_diff() -> Diff {
    Diff { owner: "".to_owned(), repo: "".to_owned(), settings_file: PathBuf::new().to_owned() }
}

fn setup_diff_error_test() -> (GramSettings, Repository, Vec<String>) {
    // arrange
    let (settings, repo) = opposing_settings_and_repo();
    let diff = default_diff();
    let github = FakeGithub { error: None, result: Some(&repo) };
    // act
    let result = diff.handle(passing_reader(&settings), github);

    // assert
    assert!(result.is_err());
    let err = format!("{}", result.err().unwrap().message());
    let err = err.trim();
    let diffs = err.split("\n").skip(1).map(|s| s.to_owned()).collect::<Vec<String>>();
    (settings, repo, diffs)
}

#[test]
fn diff_diff_error_for_differing_settings_should_contain_a_line_per_failed_setting() {
    let (settings, repo, diffs) = setup_diff_error_test();
    let options = settings.options.unwrap();
    let description_err = format!(
        "[description]: expected [{}] got [{}]",
        SETTINGS_DESCRIPTION, REPO_DESCRIPTION
    );
    let allow_merge_commit_error = format!(
        "[options.allow-merge-commit]: expected [{}] got [{}]",
        options.allow_merge_commit.clone().unwrap(),
        repo.allow_merge_commit
    );
    let allow_rebase_merge_err = format!(
        "[options.allow-rebase-merge]: expected [{}] got [{}]",
        options.allow_rebase_merge.clone().unwrap(),
        repo.allow_rebase_merge
    );
    let allow_squash_merge_error = format!(
        "[options.allow-squash-merge]: expected [{}] got [{}]",
        options.allow_squash_merge.clone().unwrap(),
        repo.allow_squash_merge
    );

    assert_eq!(description_err, diffs[0]);
    assert_eq!(allow_merge_commit_error, diffs[1]);
    assert_eq!(allow_rebase_merge_err, diffs[2]);
    assert_eq!(allow_squash_merge_error, diffs[3]);
}

#[test]
fn diff_diff_should_error_with_differences_if_repo_and_settings_differ() {
    // arrange
    let mut settings = GramSettings::default();
    settings.description = Some("blah".to_owned());
    let reader = FakeFileReader { error: false, settings: &settings };
    let mut repo = Repository::default();
    repo.description = Some("different".to_owned());
    let github = FakeGithub { error: None, result: Some(&repo) };
    let diff = Diff {
        owner: "".to_owned(),
        repo: "".to_owned(),
        settings_file: PathBuf::new().to_owned(),
    };

    // act
    let result = diff.handle(reader, github);

    // assert
    println!("{:#?}", result);
    assert!(result.is_err());
    assert!(format!("{}", result.err().unwrap().message())
        .contains("Actual settings differ from expected!"));
}

#[test]
fn diff_diff_should_error_if_get_for_repo_fails() {
    // arrange
    let reader = FakeFileReader { error: false, settings: &GramSettings::default() };
    let github = FakeGithub { error: None, result: None };

    let diff = Diff {
        owner: "".to_owned(),
        repo: "".to_owned(),
        settings_file: PathBuf::new().to_owned(),
    };

    // act
    let result = diff.handle(reader, github);

    // assert
    assert!(result.is_err());
}

#[test]
fn diff_diff_should_error_if_reading_settings_file_fails() {
    // arrange
    let failing_reader = FakeFileReader { error: true, settings: &GramSettings::default() };
    let diff = Diff { owner: "".to_owned(), repo: "".to_owned(), settings_file: PathBuf::new() };

    let github = FakeGithub { error: Some("".to_owned()), result: None };

    // act
    assert!(failing_reader.read_to_string().is_err());
    let result = diff.handle(failing_reader, github);

    // assert
    assert!(result.is_err());
}
