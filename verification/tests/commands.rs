use gram::commands::{
    ConfigError, Diff, FileReader, GramError, GramOpt, GramOptCommand, SettingsCmd,
};
use gram::github::{Branch, GithubClient, Repository, TransportError};
use gram::settings::{GramSettings, Options};
use std::path::PathBuf;

struct SucceedingClient {
    repo: Repository,
}

struct FailingClient {
    err: String,
}

impl GithubClient for SucceedingClient {
    fn repository(&self, _: &str, _: &str) -> Result<Repository, TransportError> {
        Ok(self.repo.clone())
    }

    fn protected_branches(&self, _: &str, _: &str) -> Result<Vec<Branch>, TransportError> {
        Ok(Vec::new())
    }
}

impl GithubClient for FailingClient {
    fn repository(&self, _: &str, _: &str) -> Result<Repository, TransportError> {
        Err(TransportError::Failed { message: self.err.clone() })
    }

    fn protected_branches(&self, _: &str, _: &str) -> Result<Vec<Branch>, TransportError> {
        Err(TransportError::Failed { message: self.err.clone() })
    }
}

struct SucceedingFileReader<'a> {
    settings: &'a GramSettings,
}

struct FailingFileReader {}

impl<'a> FileReader for SucceedingFileReader<'a> {
    fn read_settings(&self, _: &PathBuf) -> Result<GramSettings, ConfigError> {
        Ok(self.settings.clone())
    }
}

impl FileReader for FailingFileReader {
    fn read_settings(&self, _settings_location: &PathBuf) -> Result<GramSettings, ConfigError> {
        Err(ConfigError { message: "".to_owned() })
    }
}

static SETTINGS_DESCRIPTION: &'static str = "description";
static REPO_DESCRIPTION: &'static str = "different";

fn opposing_settings_and_repo() -> (GramSettings, Repository) {
    let settings = GramSettings {
        description: Some(SETTINGS_DESCRIPTION.to_owned()),
        options: Some(Options {
            delete_branch_on_merge: Some(true),
            allow_rebase_merge: Some(true),
            allow_squash_merge: Some(true),
            allow_merge_commit: Some(false),
        }),
        protected: None,
    };
    let repo = Repository {
        description: Some(REPO_DESCRIPTION.to_owned()),
        allow_merge_commit: true,
        allow_squash_merge: false,
        allow_rebase_merge: false,
        delete_branch_on_merge: false,
    };
    (settings, repo)
}

fn default_diff() -> Diff {
    Diff { owner: "".to_owned(), repo: "".to_owned(), settings_file: PathBuf::new().to_owned() }
}

fn setup_diff_error_test() -> (GramSettings, Repository, Vec<String>) {
    // arrange
    let (settings, repo) = opposing_settings_and_repo();
    let diff = default_diff();
    let github = SucceedingClient { repo: repo.clone() };

    // act
    let result = diff.handle(SucceedingFileReader { settings: &settings }, github);

    // assert
    assert!(result.is_err());
    let err = format!("{}", result.err().unwrap().message());
    let err = err.trim();
    let diffs = err.split("\n").skip(1).map(|s| s.to_owned()).collect::<Vec<String>>();
    (settings, repo, diffs)
}

#[test]
fn mod_diff_error_for_differing_settings_should_contain_a_line_per_failed_setting() {
    let (settings, repo, diffs) = setup_diff_error_test();
    let options = settings.options.unwrap();
    let description_err = format!(
        "[description]: expected [{}] got [{}]",
        SETTINGS_DESCRIPTION, REPO_DESCRIPTION
    );
    let allow_merge_commit_error = format!(
        "[options.allow-merge-commit]: expected [{}] got [{}]",
        options.allow_merge_commit.clone().unwrap(),
        repo.allow_merge_commit
    );
    let allow_rebase_merge_err = format!(
        "[options.allow-rebase-merge]: expected [{}] got [{}]",
        options.allow_rebase_merge.clone().unwrap(),
        repo.allow_rebase_merge
    );
    let allow_squash_merge_error = format!(
        "[options.allow-squash-merge]: expected [{}] got [{}]",
        options.allow_squash_merge.clone().unwrap(),
        repo.allow_squash_merge
    );

    assert_eq!(description_err, diffs[0]);
    assert_eq!(allow_merge_commit_error, diffs[1]);
    assert_eq!(allow_rebase_merge_err, diffs[2]);
    assert_eq!(allow_squash_merge_error, diffs[3]);
}

#[test]
fn mod_diff_should_error_with_differences_if_repo_and_settings_differ() {
    // arrange
    let mut settings = GramSettings::default();
    settings.description = Some("blah".to_owned());
    let reader = SucceedingFileReader { settings: &settings };
    let mut repo = Repository::default();
    repo.description = Some("different".to_owned());
    let github = SucceedingClient { repo };
    let diff = Diff {
        owner: "".to_owned(),
        repo: "".to_owned(),
        settings_file: PathBuf::new().to_owned(),
    };

    // act
    let result = diff.handle(reader, github);

    // assert
    println!("{:#?}", result);
    assert!(result.is_err());
    assert!(format!("{}", result.err().unwrap().message())
        .contains("Actual settings differ from expected!"));
}

#[test]
fn mod_diff_should_error_if_get_for_repo_fails() {
    // arrange
    let reader = SucceedingFileReader { settings: &GramSettings::default() };
    let github = FailingClient { err: "error".to_owned() };
    let diff = Diff {
        owner: "".to_owned(),
        repo: "".to_owned(),
        settings_file: PathBuf::new().to_owned(),
    };

    // act
    let result = diff.handle(reader, github);

    // assert
    assert!(result.is_err());
}

#[test]
fn mod_diff_should_error_if_reading_settings_file_fails() {
    // arrange
    let failing_reader = FailingFileReader {};
    let diff = Diff { owner: "".to_owned(), repo: "".to_owned(), settings_file: PathBuf::new() };
    let github = SucceedingClient { repo: Repository::default() };

    // act
    let result = diff.handle(failing_reader, github);

    // assert
    println!("{:#?}", result);
    assert!(result.is_err());
}

#[test]
fn handle_reports_the_fifth_toggle_last() {
    let (_, _, diffs) = setup_diff_error_test();
    assert_eq!(diffs.len(), 5);
    assert_eq!("[options.delete-branch-on-merge]: expected [true] got [false]", diffs[4]);
}

#[test]
fn handle_succeeds_when_the_repository_meets_the_settings() {
    let settings = GramSettings {
        description: Some("same".to_owned()),
        options: Some(Options { allow_squash_merge: Some(false), ..Options::default() }),
        protected: None,
    };
    let mut repo = Repository::default();
    repo.description = Some("same".to_owned());
    let result = default_diff().handle(
        SucceedingFileReader { settings: &settings },
        SucceedingClient { repo },
    );
    assert!(result.is_ok());
}

#[test]
fn handle_tells_the_kinds_of_failure_apart() {
    let unreadable =
        default_diff().handle(FailingFileReader {}, FailingClient { err: "error".to_owned() });
    assert!(matches!(unreadable, Err(GramError::Config(_))));

    let unreachable = default_diff().handle(
        SucceedingFileReader { settings: &GramSettings::default() },
        FailingClient { err: "error".to_owned() },
    );
    match unreachable {
        Err(GramError::Transport(error)) => assert_eq!(error.message(), "error"),
        other => panic!("expected a transport error, got {:?}", other),
    }

    let (settings, repo) = opposing_settings_and_repo();
    let differing = default_diff()
        .handle(SucceedingFileReader { settings: &settings }, SucceedingClient { repo });
    match differing {
        Err(GramError::Discrepancy(lines)) => assert_eq!(lines.len(), 5),
        other => panic!("expected discrepancies, got {:?}", other),
    }
}

#[test]
fn message_of_discrepancies_is_the_banner_and_a_line_each() {
    let error = GramError::Discrepancy(vec!["first".to_owned(), "second".to_owned()]);
    assert_eq!(error.message(), "Actual settings differ from expected!\nfirst\nsecond\n");
    let none = GramError::Discrepancy(Vec::new());
    assert_eq!(none.message(), "Actual settings differ from expected!\n");
}

#[test]
fn message_of_other_errors_is_their_own() {
    let config = GramError::Config(ConfigError { message: "no such file".to_owned() });
    assert_eq!(config.message(), "no such file");
    let transport =
        GramError::Transport(TransportError::Unauthorized { url: "/repos/o/r".to_owned() });
    assert_eq!(
        transport.message(),
        "Encountered a http status of 401 when calling GET on url /repos/o/r. Is your token correct?"
    );
}

#[test]
fn verdict_is_well_only_on_an_empty_report() {
    assert!(Diff::verdict(Vec::new()).is_ok());
    match Diff::verdict(vec!["line".to_owned()]) {
        Err(GramError::Discrepancy(lines)) => assert_eq!(lines, vec!["line".to_owned()]),
        other => panic!("expected discrepancies, got {:?}", other),
    }
}

#[test]
fn conclude_hands_on_the_error_of_the_retrieval() {
    let outcome = Diff::conclude(
        &GramSettings::default(),
        Err(TransportError::Failed { message: "down".to_owned() }),
    );
    match outcome {
        Err(GramError::Transport(error)) => assert_eq!(error.message(), "down"),
        other => panic!("expected a transport error, got {:?}", other),
    }
}

#[test]
fn handle_internal_carries_out_the_diff() {
    let (settings, repo) = opposing_settings_and_repo();
    let opt = GramOpt {
        token: "token".to_owned(),
        command: GramOptCommand::Settings { cmd: SettingsCmd::Diff(default_diff()) },
    };
    let result =
        opt.handle_internal(SucceedingClient { repo }, SucceedingFileReader { settings: &settings });
    assert!(matches!(result, Err(GramError::Discrepancy(_))));
}
