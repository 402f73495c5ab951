//! The commands: what is asked for, and how a comparison ends.

use crate::differ::{diff, diff_lines, differing_keys};
use crate::flatten::{flatten, flatten_spec};
use crate::github::{GithubClient, TransportError};
use crate::retrieve::{Retrieve, RetrieveSettings, joins_answers};
use crate::settings::{GramSettings, SettingsView};
use crate::text::line_order;
use std::path::PathBuf;
use vstd::prelude::*;
use vstd::relations::sorted_by;

verus! {

/// `std::path::PathBuf`, a path in the file system. Nothing is claimed of
/// what such a value holds: a command carries it, unread, to the reader.
#[verifier::external_type_specification]
#[verifier::external_body]
pub struct ExPathBuf(std::path::PathBuf);

/// The settings file could not be read or understood.
#[derive(Clone, Debug)]
pub struct ConfigError {
    pub message: String,
}

/// A source of the settings that a repository should have. Nothing is
/// promised of what it returns.
pub trait FileReader {
    /// The settings declared in the file at `settings_location`, or why
    /// they could not be had.
    fn read_settings(&self, settings_location: &PathBuf) -> Result<GramSettings, ConfigError>;
}

/// Compares the settings declared in a file with those a repository has.
/// Only settings that the file declares are compared.
#[derive(Debug)]
pub struct Diff {
    /// The owner of the repository.
    pub owner: String,
    /// The name of the repository.
    pub repo: String,
    /// Path to the settings file.
    pub settings_file: PathBuf,
}

/// The settings subcommands.
#[derive(Debug)]
pub enum SettingsCmd {
    /// Compare declared settings with actual ones.
    Diff(Diff),
}

/// The commands.
#[derive(Debug)]
pub enum GramOptCommand {
    /// Work on repository settings.
    Settings { cmd: SettingsCmd },
}

/// A command together with the token to present to the host.
#[derive(Debug)]
pub struct GramOpt {
    /// The token to authenticate with.
    pub token: String,
    /// The command to carry out.
    pub command: GramOptCommand,
}

/// Why a command did not succeed.
#[derive(Clone, Debug)]
pub enum GramError {
    /// The declared settings could not be had.
    Config(ConfigError),
    /// The actual settings could not be read.
    Transport(TransportError),
    /// The actual settings are not the declared ones: the lines that say
    /// how, in lexicographic order.
    Discrepancy(Vec<String>),
}

/// The first line of the message that reports discrepancies.
pub const BANNER: &'static str = "Actual settings differ from expected!";

/// The lines one after another, each followed by a line break.
pub open spec fn lines_text(lines: Seq<Seq<char>>) -> Seq<char>
    decreases lines.len(),
{
    if lines.len() == 0 {
        Seq::empty()
    } else {
        lines_text(lines.drop_last()) + lines.last() + "\n"@
    }
}

/// The message that reports discrepancies: the banner on a line of its
/// own, then each line of the report on a line of its own.
pub open spec fn discrepancy_message(lines: Seq<Seq<char>>) -> Seq<char> {
    BANNER@ + "\n"@ + lines_text(lines)
}

impl GramError {
    /// What the error says: a failure to have the declared or the actual
    /// settings in its own words, discrepancies as the banner and the
    /// report.
    pub open spec fn message_spec(self) -> Seq<char> {
        match self {
            GramError::Config(error) => error.message@,
            GramError::Transport(error) => error.message_spec(),
            GramError::Discrepancy(lines) => discrepancy_message(lines.deep_view()),
        }
    }

    /// What the error says.
    pub fn message(&self) -> (text: String)
        ensures
            text@ == self.message_spec(),
    {
        match self {
            GramError::Config(error) => error.message.clone(),
            GramError::Transport(error) => error.message(),
            GramError::Discrepancy(lines) => {
                let mut text = String::from_str(BANNER);
                text.append("\n");
                let ghost all = lines.deep_view();
                let mut i: usize = 0;
                proof {
                    assert(all.take(0) =~= Seq::<Seq<char>>::empty());
                    assert(text@ =~= BANNER@ + "\n"@ + lines_text(all.take(0)));
                }
                while i < lines.len()
                    invariant
                        i <= lines@.len(),
                        all == lines.deep_view(),
                        text@ == BANNER@ + "\n"@ + lines_text(all.take(i as int)),
                    decreases lines@.len() - i,
                {
                    proof {
                        let next = all.take(i + 1);
                        assert(next.drop_last() =~= all.take(i as int));
                        assert(next.last() == lines@[i as int]@);
                    }
                    text.append(lines[i].as_str());
                    text.append("\n");
                    i += 1;
                    proof {
                        assert(text@ =~= BANNER@ + "\n"@ + lines_text(all.take(i as int)));
                    }
                }
                proof {
                    assert(all.take(i as int) =~= all);
                }
                text
            },
        }
    }
}

/// Whether `outcome` is how a comparison ends on the declared settings
/// `configured` and what the retrieval of the actual ones gave: with the
/// retrieval's error where it failed; else well where the report is
/// empty, and with the report where it is not.
pub open spec fn conclude_spec(
    configured: SettingsView,
    retrieved: Result<GramSettings, TransportError>,
    outcome: Result<(), GramError>,
) -> bool {
    match retrieved {
        Err(error) => outcome == Err::<(), GramError>(GramError::Transport(error)),
        Ok(actual) => {
            let report = diff_lines(flatten_spec(configured), flatten_spec(actual@));
            match outcome {
                Ok(_) => report.len() == 0,
                Err(GramError::Discrepancy(lines)) => report.len() > 0 && lines.deep_view()
                    == report,
                Err(_) => false,
            }
        },
    }
}

/// Whether `outcome` is how `diff` can end with `reader` and `github`:
/// with the reader's error where an answer of the reader is one, and
/// else as the comparison ends on the settings that the reader answered
/// and on the join of what `github` answers for the repository.
pub open spec fn handled<F: FileReader, G: GithubClient>(
    diff: Diff,
    reader: &F,
    github: &G,
    outcome: Result<(), GramError>,
) -> bool {
    exists|read: Result<GramSettings, ConfigError>|
        #![trigger call_ensures(F::read_settings, (reader, &diff.settings_file), read)]
        {
            &&& call_ensures(F::read_settings, (reader, &diff.settings_file), read)
            &&& match read {
                Err(error) => outcome == Err::<(), GramError>(GramError::Config(error)),
                Ok(configured) => exists|
                    owner: &str,
                    repo: &str,
                    retrieved: Result<GramSettings, TransportError>,
                |
                    #![trigger joins_answers(github, owner, repo, retrieved)]
                    {
                        &&& owner@ == diff.owner@
                        &&& repo@ == diff.repo@
                        &&& joins_answers(github, owner, repo, retrieved)
                        &&& conclude_spec(configured@, retrieved, outcome)
                    },
            }
        }
}

impl Diff {
    /// The report on `right` against what `left` declares: a line for
    /// each setting that `left` specifies and `right` has not or has
    /// otherwise, in lexicographic order.
    pub fn diff(left: &GramSettings, right: &GramSettings) -> (lines: Vec<String>)
        ensures
            lines.deep_view() == diff_lines(flatten_spec(left@), flatten_spec(right@)),
            sorted_by(lines.deep_view(), line_order()),
            lines.len() == differing_keys(flatten_spec(left@), flatten_spec(right@)).len(),
            left@ == right@ ==> lines@.len() == 0,
            flatten_spec(left@).submap_of(flatten_spec(right@)) ==> lines@.len() == 0,
    {
        let desired = flatten(left);
        let actual = flatten(right);
        diff(&desired, &actual)
    }

    /// How a comparison ends on a report: well where the report is empty,
    /// else with the report as the error.
    pub fn verdict(lines: Vec<String>) -> (outcome: Result<(), GramError>)
        ensures
            match outcome {
                Ok(_) => lines@.len() == 0,
                Err(error) => lines@.len() > 0 && error == GramError::Discrepancy(lines),
            },
    {
        if lines.is_empty() {
            Ok(())
        } else {
            Err(GramError::Discrepancy(lines))
        }
    }

    /// How a comparison ends on the declared settings and what the
    /// retrieval of the actual ones gave: with the retrieval's error
    /// where it failed; else well where the actual settings meet the
    /// declared ones, and with the report where they do not.
    pub fn conclude(
        configured: &GramSettings,
        retrieved: Result<GramSettings, TransportError>,
    ) -> (outcome: Result<(), GramError>)
        ensures
            conclude_spec(configured@, retrieved, outcome),
            outcome matches Err(GramError::Discrepancy(lines)) ==> sorted_by(
                lines.deep_view(),
                line_order(),
            ),
    {
        match retrieved {
            Err(error) => Err(GramError::Transport(error)),
            Ok(actual) => Diff::verdict(Diff::diff(configured, &actual)),
        }
    }

    /// Retrieves the actual settings of the repository and compares them
    /// with `configured`: it ends as the comparison ends on `configured`
    /// and on what the retriever answered for the repository. A report
    /// that comes back as the error has at least one line and is in
    /// lexicographic order.
    pub fn run<R: Retrieve>(&self, configured: &GramSettings, retriever: &R) -> (outcome: Result<
        (),
        GramError,
    >)
        ensures
            exists|owner: &str, repo: &str, retrieved: Result<GramSettings, TransportError>|
                #![trigger call_ensures(R::retrieve, (retriever, owner, repo), retrieved)]
                {
                    &&& owner@ == self.owner@
                    &&& repo@ == self.repo@
                    &&& call_ensures(R::retrieve, (retriever, owner, repo), retrieved)
                    &&& conclude_spec(configured@, retrieved, outcome)
                },
            outcome matches Err(GramError::Discrepancy(lines)) ==> lines@.len() > 0 && sorted_by(
                lines.deep_view(),
                line_order(),
            ),
            !(outcome matches Err(GramError::Config(_))),
    {
        let owner = self.owner.as_str();
        let repo = self.repo.as_str();
        let retrieved = retriever.retrieve(owner, repo);
        let ghost got = retrieved;
        let outcome = Diff::conclude(configured, retrieved);
        proof {
            assert(call_ensures(R::retrieve, (retriever, owner, repo), got));
            assert(conclude_spec(configured@, got, outcome));
        }
        outcome
    }

    /// Reads the declared settings, retrieves the actual ones through
    /// `github` and compares them. Fails with the reader's error where the
    /// declared settings cannot be had; with the client's where the actual
    /// ones cannot be read; and with the report where they differ.
    pub fn handle<F: FileReader, G: GithubClient>(self, reader: F, github: G) -> (outcome: Result<
        (),
        GramError,
    >)
        ensures
            handled(self, &reader, &github, outcome),
            outcome matches Err(GramError::Discrepancy(lines)) ==> lines@.len() > 0 && sorted_by(
                lines.deep_view(),
                line_order(),
            ),
    {
        let read = reader.read_settings(&self.settings_file);
        let ghost answer = read;
        match read {
            Err(error) => {
                let outcome = Err(GramError::Config(error));
                proof {
                    assert(call_ensures(
                        F::read_settings,
                        (&reader, &self.settings_file),
                        answer,
                    ));
                }
                outcome
            },
            Ok(configured) => {
                let retriever = RetrieveSettings::new(&github);
                let outcome = self.run(&configured, &retriever);
                proof {
                    let (owner, repo, retrieved) = choose|
                        owner: &str,
                        repo: &str,
                        retrieved: Result<GramSettings, TransportError>,
                    |
                        #![trigger call_ensures(
                            <RetrieveSettings<G> as Retrieve>::retrieve,
                            (&retriever, owner, repo),
                            retrieved,
                        )]
                        {
                            &&& owner@ == self.owner@
                            &&& repo@ == self.repo@
                            &&& call_ensures(
                                <RetrieveSettings<G> as Retrieve>::retrieve,
                                (&retriever, owner, repo),
                                retrieved,
                            )
                            &&& conclude_spec(configured@, retrieved, outcome)
                        };
                    assert(joins_answers(&github, owner, repo, retrieved));
                    assert(call_ensures(
                        F::read_settings,
                        (&reader, &self.settings_file),
                        answer,
                    ));
                }
                outcome
            },
        }
    }
}

impl GramOpt {
    /// Carries out the command with the given client and reader: the diff
    /// that the command holds, handled with them.
    pub fn handle_internal<G: GithubClient, F: FileReader>(self, github: G, reader: F) -> (outcome:
        Result<(), GramError>)
        ensures
            match self.command {
                GramOptCommand::Settings { cmd: SettingsCmd::Diff(diff) } => handled(
                    diff,
                    &reader,
                    &github,
                    outcome,
                ),
            },
            outcome matches Err(GramError::Discrepancy(lines)) ==> lines@.len() > 0 && sorted_by(
                lines.deep_view(),
                line_order(),
            ),
    {
        match self.command {
            GramOptCommand::Settings { cmd } => match cmd {
                SettingsCmd::Diff(diff) => diff.handle(reader, github),
            },
        }
    }
}

} // verus!
