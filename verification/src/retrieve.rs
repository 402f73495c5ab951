//! Assembles the settings a repository has from what the host returns.

use crate::github::{Branch, GithubClient, Repository, TransportError};
use crate::settings::{GramSettings, Options, ProtectedBranch, SettingsView, protected_names, text_of};
use vstd::prelude::*;

verus! {

/// The names of the branches, in order.
pub open spec fn branch_names(branches: Seq<Branch>) -> Seq<Seq<char>> {
    Seq::new(branches.len(), |i: int| branches[i].name@)
}

/// The settings that a repository and its protected branches amount to:
/// the repository's description, every toggle specified with the
/// repository's value, and the branches' names, or no protected branches
/// where there is none.
pub open spec fn assemble_spec(repository: Repository, branches: Seq<Branch>) -> SettingsView {
    SettingsView {
        description: text_of(repository.description),
        options: Some(
            Options {
                allow_squash_merge: Some(repository.allow_squash_merge),
                allow_merge_commit: Some(repository.allow_merge_commit),
                allow_rebase_merge: Some(repository.allow_rebase_merge),
                delete_branch_on_merge: Some(repository.delete_branch_on_merge),
            },
        ),
        protected: if branches.len() == 0 {
            None
        } else {
            Some(branch_names(branches))
        },
    }
}

/// What holds of settings that were assembled from the host's answers:
/// every toggle is specified, and protected branches are listed only where
/// there is at least one.
pub open spec fn is_assembled(settings: SettingsView) -> bool {
    &&& settings.options matches Some(options) && options.is_complete()
    &&& settings.protected matches Some(names) ==> names.len() > 0
}

/// The outcome of the two reads together: settings where both succeeded,
/// else the error of the first that failed, the repository's before the
/// branches'.
pub open spec fn combine_spec(
    repository: Result<Repository, TransportError>,
    branches: Result<Vec<Branch>, TransportError>,
    outcome: Result<GramSettings, TransportError>,
) -> bool {
    match (repository, branches) {
        (Ok(repository), Ok(branches)) => outcome matches Ok(settings) && settings@
            == assemble_spec(repository, branches@),
        (Err(error), _) => outcome == Err::<GramSettings, TransportError>(error),
        (Ok(_), Err(error)) => outcome == Err::<GramSettings, TransportError>(error),
    }
}

/// Assembled settings have every toggle specified and list no empty set of
/// protected branches.
pub proof fn lemma_assembled(repository: Repository, branches: Seq<Branch>)
    ensures
        is_assembled(assemble_spec(repository, branches)),
        branches.len() == 0 <==> assemble_spec(repository, branches).protected is None,
{
}

/// Assembles settings from a repository and its protected branches.
pub fn assemble(repository: Repository, branches: Vec<Branch>) -> (settings: GramSettings)
    ensures
        settings@ == assemble_spec(repository, branches@),
        is_assembled(settings@),
{
    let ghost all = branches@;
    let mut protected: Vec<ProtectedBranch> = Vec::new();
    for branch in it: branches
        invariant
            it.seq() == all,
            protected_names(protected@) == branch_names(all.take(it.index())),
    {
        let ghost before = protected@;
        protected.push(ProtectedBranch { name: branch.name });
        proof {
            assert(protected_names(protected@) =~= protected_names(before).push(branch.name@));
            assert(branch_names(all.take(it.index() + 1)) =~= branch_names(
                all.take(it.index()),
            ).push(branch.name@));
        }
    }
    proof {
        assert(all.take(all.len() as int) =~= all);
    }
    let protected = if protected.is_empty() {
        None
    } else {
        Some(protected)
    };
    GramSettings {
        description: repository.description,
        options: Some(
            Options {
                allow_squash_merge: Some(repository.allow_squash_merge),
                allow_merge_commit: Some(repository.allow_merge_commit),
                allow_rebase_merge: Some(repository.allow_rebase_merge),
                delete_branch_on_merge: Some(repository.delete_branch_on_merge),
            },
        ),
        protected,
    }
}

/// Joins the outcomes of the two reads: settings only where both
/// succeeded, and where one failed its error and no settings.
pub fn combine(
    repository: Result<Repository, TransportError>,
    branches: Result<Vec<Branch>, TransportError>,
) -> (outcome: Result<GramSettings, TransportError>)
    ensures
        combine_spec(repository, branches, outcome),
        outcome is Ok <==> repository is Ok && branches is Ok,
{
    match repository {
        Err(error) => Err(error),
        Ok(repository) => match branches {
            Err(error) => Err(error),
            Ok(branches) => Ok(assemble(repository, branches)),
        },
    }
}

/// Whether `outcome` is what reading through `client` can give for the
/// repository `repo` of `owner`. The repository is read first: where the
/// client answers that read with an error, the outcome is that error and
/// the branches are not asked for. Where it answers with a repository,
/// the outcome is the join of that answer and an answer of the client to
/// the read of the protected branches.
pub open spec fn joins_answers<C: GithubClient>(
    client: &C,
    owner: &str,
    repo: &str,
    outcome: Result<GramSettings, TransportError>,
) -> bool {
    exists|repository: Result<Repository, TransportError>|
        #![trigger call_ensures(C::repository, (client, owner, repo), repository)]
        {
            &&& call_ensures(C::repository, (client, owner, repo), repository)
            &&& match repository {
                Err(error) => outcome == Err::<GramSettings, TransportError>(error),
                Ok(_) => exists|branches: Result<Vec<Branch>, TransportError>|
                    #![trigger combine_spec(repository, branches, outcome)]
                    {
                        &&& call_ensures(
                            C::protected_branches,
                            (client, owner, repo),
                            branches,
                        )
                        &&& combine_spec(repository, branches, outcome)
                    },
            }
        }
}

/// A source of the settings that a repository has.
pub trait Retrieve {
    /// The settings of the repository `repo` of `owner`, or why they could
    /// not be read.
    fn retrieve(&self, owner: &str, repo: &str) -> Result<GramSettings, TransportError>;
}

/// Retrieves settings through a client of the host.
pub struct RetrieveSettings<'a, C> {
    client: &'a C,
}

impl<'a, C: GithubClient> RetrieveSettings<'a, C> {
    /// A retriever that reads through `client`.
    pub fn new(client: &'a C) -> (retriever: Self)
        ensures
            retriever.client() == client,
    {
        RetrieveSettings { client }
    }

    /// The client that is read through.
    pub closed spec fn client(&self) -> &'a C {
        self.client
    }
}

impl<C: GithubClient> Retrieve for RetrieveSettings<'_, C> {
    /// Reads the repository and, where that succeeded, its protected
    /// branches, and joins the two answers into settings. Fails at once
    /// with the error of the first read that failed: where the repository
    /// cannot be read, the branches are not asked for. Settings that come
    /// back have every toggle specified.
    fn retrieve(&self, owner: &str, repo: &str) -> (outcome: Result<GramSettings, TransportError>)
        ensures
            joins_answers(self.client(), owner, repo, outcome),
            outcome matches Ok(settings) ==> is_assembled(settings@),
    {
        let repository = self.client.repository(owner, repo);
        let ghost first = repository;
        match repository {
            Err(error) => {
                let outcome = Err(error);
                proof {
                    assert(call_ensures(C::repository, (self.client, owner, repo), first));
                }
                outcome
            },
            Ok(repository) => {
                let branches = self.client.protected_branches(owner, repo);
                let ghost second = branches;
                let outcome = combine(Ok(repository), branches);
                proof {
                    assert(call_ensures(C::repository, (self.client, owner, repo), first));
                    assert(combine_spec(first, second, outcome));
                }
                outcome
            },
        }
    }
}

} // verus!
