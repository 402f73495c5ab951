//! The settings of a repository that can be declared, read and compared.

use vstd::prelude::*;

verus! {

/// The toggles under a repository's options. Each is optional on its own:
/// one that is `None` was not specified, which is not the same as `false`.
#[derive(Clone, Copy, Debug)]
pub struct Options {
    pub allow_squash_merge: Option<bool>,
    pub allow_merge_commit: Option<bool>,
    pub allow_rebase_merge: Option<bool>,
    pub delete_branch_on_merge: Option<bool>,
}

/// A branch under protection, by name.
#[derive(Clone, Debug)]
pub struct ProtectedBranch {
    pub name: String,
}

/// Repository settings. A field that is `None` is not specified.
#[derive(Clone, Debug)]
pub struct GramSettings {
    pub description: Option<String>,
    pub options: Option<Options>,
    pub protected: Option<Vec<ProtectedBranch>>,
}

/// What a `GramSettings` value says, with text as sequences of characters
/// and the protected branches as the sequence of their names.
pub struct SettingsView {
    pub description: Option<Seq<char>>,
    pub options: Option<Options>,
    pub protected: Option<Seq<Seq<char>>>,
}

/// The names of a list of protected branches, in order.
pub open spec fn protected_names(branches: Seq<ProtectedBranch>) -> Seq<Seq<char>> {
    Seq::new(branches.len(), |i: int| branches[i].name@)
}

/// The text of an optional string.
pub open spec fn text_of(s: Option<String>) -> Option<Seq<char>> {
    match s {
        Some(s) => Some(s@),
        None => None,
    }
}

impl View for GramSettings {
    type V = SettingsView;

    open spec fn view(&self) -> SettingsView {
        SettingsView {
            description: text_of(self.description),
            options: self.options,
            protected: match self.protected {
                Some(branches) => Some(protected_names(branches@)),
                None => None,
            },
        }
    }
}

impl Options {
    /// Options with every toggle specified.
    pub open spec fn is_complete(self) -> bool {
        &&& self.allow_squash_merge is Some
        &&& self.allow_merge_commit is Some
        &&& self.allow_rebase_merge is Some
        &&& self.delete_branch_on_merge is Some
    }
}

impl Default for Options {
    /// Options with no toggle specified.
    fn default() -> (options: Options)
        ensures
            options == (Options {
                allow_squash_merge: None,
                allow_merge_commit: None,
                allow_rebase_merge: None,
                delete_branch_on_merge: None,
            }),
    {
        Options {
            allow_squash_merge: None,
            allow_merge_commit: None,
            allow_rebase_merge: None,
            delete_branch_on_merge: None,
        }
    }
}

impl Default for GramSettings {
    /// Settings that specify nothing.
    fn default() -> (settings: GramSettings)
        ensures
            settings@ == (SettingsView { description: None, options: None, protected: None }),
    {
        GramSettings { description: None, options: None, protected: None }
    }
}

} // verus!
