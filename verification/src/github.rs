//! What the repository host returns, and what is asked of it.

use vstd::prelude::*;

verus! {

/// The address under which the host's interface is reached.
pub const GITHUB_BASE_URL: &'static str = "https://api.github.com";

/// The status that an answer carries when the credentials were refused.
pub const UNAUTHORIZED: u16 = 401;

/// A repository as the host describes it.
#[derive(Clone, Debug)]
pub struct Repository {
    pub description: Option<String>,
    pub allow_squash_merge: bool,
    pub allow_merge_commit: bool,
    pub allow_rebase_merge: bool,
    pub delete_branch_on_merge: bool,
}

/// The status checks that a protected branch asks for.
#[derive(Clone, Debug)]
pub struct RequiredStatusChecks {
    pub contexts: Vec<String>,
}

/// The protection of a branch.
#[derive(Clone, Debug)]
pub struct Protection {
    pub enabled: bool,
    pub required_status_checks: RequiredStatusChecks,
}

/// A branch as the host describes it.
#[derive(Clone, Debug)]
pub struct Branch {
    pub name: String,
    pub protection: Protection,
}

/// Why a read from the host failed.
#[derive(Clone, Debug)]
pub enum TransportError {
    /// The host refused the credentials when `url` was read.
    Unauthorized { url: String },
    /// The read failed for another reason, which `message` gives.
    Failed { message: String },
}

/// The two reads that settings are assembled from. Nothing is promised of
/// what they return: each may fail, and succeed the next time.
pub trait GithubClient {
    /// Reads the repository `name` of `owner`.
    fn repository(&self, owner: &str, name: &str) -> Result<Repository, TransportError>;

    /// Reads the protected branches of the repository `name` of `owner`.
    fn protected_branches(&self, owner: &str, name: &str) -> Result<Vec<Branch>, TransportError>;
}

/// The path under which a repository is read.
pub open spec fn repository_path_spec(owner: Seq<char>, name: Seq<char>) -> Seq<char> {
    "/repos/"@ + owner + "/"@ + name
}

/// The path under which the protected branches of a repository are read.
pub open spec fn protected_branches_path_spec(owner: Seq<char>, name: Seq<char>) -> Seq<char> {
    repository_path_spec(owner, name) + "/branches?protected=true"@
}

/// What is said when the host refused the credentials for `url`.
pub open spec fn unauthorized_message(url: Seq<char>) -> Seq<char> {
    "Encountered a http status of 401 when calling GET on url "@ + url
        + ". Is your token correct?"@
}

/// The value of the header that carries the token.
pub open spec fn authorization_spec(token: Seq<char>) -> Seq<char> {
    "token "@ + token
}

impl TransportError {
    /// What the error says: for refused credentials the address that was
    /// read and a hint at the token, else the reason as it was given.
    pub open spec fn message_spec(self) -> Seq<char> {
        match self {
            TransportError::Unauthorized { url } => unauthorized_message(url@),
            TransportError::Failed { message } => message@,
        }
    }

    /// What the error says.
    pub fn message(&self) -> (text: String)
        ensures
            text@ == self.message_spec(),
    {
        match self {
            TransportError::Unauthorized { url } => {
                let mut text = String::from_str(
                    "Encountered a http status of 401 when calling GET on url ",
                );
                text.append(url.as_str());
                text.append(". Is your token correct?");
                text
            },
            TransportError::Failed { message } => message.clone(),
        }
    }
}

/// The path under which the repository `name` of `owner` is read.
pub fn repository_path(owner: &str, name: &str) -> (path: String)
    ensures
        path@ == repository_path_spec(owner@, name@),
{
    let mut path = String::from_str("/repos/");
    path.append(owner);
    path.append("/");
    path.append(name);
    path
}

/// The path under which the protected branches of the repository `name` of
/// `owner` are read.
pub fn protected_branches_path(owner: &str, name: &str) -> (path: String)
    ensures
        path@ == protected_branches_path_spec(owner@, name@),
{
    let mut path = repository_path(owner, name);
    path.append("/branches?protected=true");
    path
}

/// The address of `path` at the host reached under `base_url`.
pub fn request_url(base_url: &str, path: &str) -> (url: String)
    ensures
        url@ == base_url@ + path@,
{
    let mut url = String::from_str(base_url);
    url.append(path);
    url
}

/// The value of the header that carries `token`.
pub fn authorization_value(token: &str) -> (value: String)
    ensures
        value@ == authorization_spec(token@),
{
    let mut value = String::from_str("token ");
    value.append(token);
    value
}

/// Judges the status of an answer to a read of `url`: refused credentials
/// are an error that names `url`; any other status is left to the caller.
pub fn check_status(status: u16, url: &str) -> (checked: Result<(), TransportError>)
    ensures
        status == UNAUTHORIZED ==> (checked matches Err(TransportError::Unauthorized { url: named })
            && named@ == url@),
        status != UNAUTHORIZED ==> checked is Ok,
{
    if status == UNAUTHORIZED {
        Err(TransportError::Unauthorized { url: String::from_str(url) })
    } else {
        Ok(())
    }
}

impl Default for Repository {
    /// A repository without description and with every toggle off.
    fn default() -> (repository: Repository)
        ensures
            repository.description is None,
            !repository.allow_squash_merge,
            !repository.allow_merge_commit,
            !repository.allow_rebase_merge,
            !repository.delete_branch_on_merge,
    {
        Repository {
            description: None,
            allow_squash_merge: false,
            allow_merge_commit: false,
            allow_rebase_merge: false,
            delete_branch_on_merge: false,
        }
    }
}

impl Default for RequiredStatusChecks {
    /// No status checks.
    fn default() -> (checks: RequiredStatusChecks)
        ensures
            checks.contexts@.len() == 0,
    {
        RequiredStatusChecks { contexts: Vec::new() }
    }
}

impl Default for Protection {
    /// No protection.
    fn default() -> (protection: Protection)
        ensures
            !protection.enabled,
            protection.required_status_checks.contexts@.len() == 0,
    {
        Protection { enabled: false, required_status_checks: RequiredStatusChecks::default() }
    }
}

impl Default for Branch {
    /// A branch with an empty name and no protection.
    fn default() -> (branch: Branch)
        ensures
            branch.name@.len() == 0,
            !branch.protection.enabled,
            branch.protection.required_status_checks.contexts@.len() == 0,
    {
        Branch { name: String::new(), protection: Protection::default() }
    }
}

} // verus!
