//! The plainest comparison: the description alone.

use crate::github::Repository;
use crate::settings::{GramSettings, text_of};
use vstd::prelude::*;

verus! {

/// The message for a current description that is not the expected one.
pub open spec fn description_mismatch(current: Seq<char>, expected: Seq<char>) -> Seq<char> {
    "Current description ["@ + current + "] does not match expected description ["@ + expected
        + "]"@
}

/// The message for a repository that has no description where one is
/// expected.
pub open spec fn description_missing(expected: Seq<char>) -> Seq<char> {
    "Current description has no value, expected description ["@ + expected + "]"@
}

/// What is to be said of the current description against the expected
/// one: nothing where none is expected, whatever the current one is, and
/// nothing where the current one is the expected text; else that the
/// current one is missing, or that it is another text.
pub open spec fn description_complaint(
    current: Option<Seq<char>>,
    expected: Option<Seq<char>>,
) -> Option<Seq<char>> {
    match expected {
        None => None,
        Some(expected) => match current {
            None => Some(description_missing(expected)),
            Some(current) => if current == expected {
                None
            } else {
                Some(description_mismatch(current, expected))
            },
        },
    }
}

/// A missing description is told apart from any other text: the message
/// for it is the message for no mismatch, not even for a current
/// description that reads like a word for nothing.
pub proof fn lemma_missing_is_no_mismatch(expected: Seq<char>, current: Seq<char>, other: Seq<char>)
    ensures
        description_missing(expected) != description_mismatch(current, other),
{
    reveal_strlit("Current description [");
    reveal_strlit("Current description has no value, expected description [");
    let missing = description_missing(expected);
    let mismatch = description_mismatch(current, other);
    assert("Current description ["@.len() == 21);
    assert("Current description has no value, expected description ["@.len() == 56);
    assert(missing[20] == 'h');
    assert(mismatch[20] == '[');
}

/// Compares the description that a repository has with the one that the
/// settings declare. Settings that declare none are met by any
/// repository. A declared description is met by the same text; a
/// repository without description, and one with another text, each get
/// an error of their own wording.
pub fn diff(repo: Repository, settings: GramSettings) -> (outcome: Result<(), String>)
    ensures
        match outcome {
            Ok(_) => settings.description is None || text_of(repo.description) == text_of(
                settings.description,
            ),
            Err(message) => {
                &&& settings.description is Some
                &&& text_of(repo.description) != text_of(settings.description)
                &&& Some(message@) == description_complaint(
                    text_of(repo.description),
                    text_of(settings.description),
                )
            },
        },
{
    match settings.description {
        None => Ok(()),
        Some(expected) => match repo.description {
            None => {
                let mut message = String::from_str(
                    "Current description has no value, expected description [",
                );
                message.append(expected.as_str());
                message.append("]");
                Err(message)
            },
            Some(current) => if current == expected {
                Ok(())
            } else {
                let mut message = String::from_str("Current description [");
                message.append(current.as_str());
                message.append("] does not match expected description [");
                message.append(expected.as_str());
                message.append("]");
                Err(message)
            },
        },
    }
}

} // verus!
