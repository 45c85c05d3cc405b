//! Suggestions for fixing validation issues.

use vstd::prelude::*;

use crate::text::owned;

verus! {

/// A suggestion for fixing a validation issue.
#[derive(Debug, Clone)]
pub struct Suggestion {
    pub message: String,
    pub action: SuggestionAction,
}

/// Action that can be taken to fix an issue.
#[derive(Debug, Clone)]
pub enum SuggestionAction {
    /// Create a file.
    CreateFile { path: String, template: Option<String> },
    /// Rename a file.
    RenameFile { from: String, to: String },
    /// Move a file.
    MoveFile { from: String, to: String },
    /// Delete a file.
    DeleteFile { path: String },
    /// Update configuration.
    UpdateConfig { key: String, value: String },
    /// Custom command to run.
    RunCommand { command: String },
    /// No automated action available.
    Manual { instructions: String },
}

impl Suggestion {
    /// Create a suggestion to create a missing file.
    pub fn create_file(path: String, message: &str) -> (r: Self)
        ensures
            r.message@ == message@,
            r.action == (SuggestionAction::CreateFile { path, template: None }),
    {
        Suggestion { message: owned(message), action: SuggestionAction::CreateFile { path, template: None } }
    }

    /// Create a suggestion to create a file with a template.
    pub fn create_file_with_template(path: String, template: String, message: &str) -> (r: Self)
        ensures
            r.message@ == message@,
            r.action == (SuggestionAction::CreateFile { path, template: Some(template) }),
    {
        Suggestion {
            message: owned(message),
            action: SuggestionAction::CreateFile { path, template: Some(template) },
        }
    }

    /// Create a suggestion to rename a file.
    pub fn rename_file(from: String, to: String, message: &str) -> (r: Self)
        ensures
            r.message@ == message@,
            r.action == (SuggestionAction::RenameFile { from, to }),
    {
        Suggestion { message: owned(message), action: SuggestionAction::RenameFile { from, to } }
    }

    /// Create a manual suggestion.
    pub fn manual(instructions: &str) -> (r: Self)
        ensures
            r.message@ == "Manual action required"@,
            r.action matches SuggestionAction::Manual { instructions: i } && i@ == instructions@,
    {
        Suggestion {
            message: owned("Manual action required"),
            action: SuggestionAction::Manual { instructions: owned(instructions) },
        }
    }
}

/// What a suggested action says, as plain values.
pub enum ActionView {
    CreateFile { path: Seq<char>, template: Option<Seq<char>> },
    RenameFile { from: Seq<char>, to: Seq<char> },
    MoveFile { from: Seq<char>, to: Seq<char> },
    DeleteFile { path: Seq<char> },
    UpdateConfig { key: Seq<char>, value: Seq<char> },
    RunCommand { command: Seq<char> },
    Manual { instructions: Seq<char> },
}

/// What a suggestion says, as plain values.
pub struct SuggestionView {
    pub message: Seq<char>,
    pub action: ActionView,
}

impl View for SuggestionAction {
    type V = ActionView;

    open spec fn view(&self) -> ActionView {
        match self {
            SuggestionAction::CreateFile { path, template } => ActionView::CreateFile {
                path: path@,
                template: match template {
                    Some(t) => Some(t@),
                    None => None,
                },
            },
            SuggestionAction::RenameFile { from, to } => ActionView::RenameFile {
                from: from@,
                to: to@,
            },
            SuggestionAction::MoveFile { from, to } => ActionView::MoveFile { from: from@, to: to@ },
            SuggestionAction::DeleteFile { path } => ActionView::DeleteFile { path: path@ },
            SuggestionAction::UpdateConfig { key, value } => ActionView::UpdateConfig {
                key: key@,
                value: value@,
            },
            SuggestionAction::RunCommand { command } => ActionView::RunCommand { command: command@ },
            SuggestionAction::Manual { instructions } => ActionView::Manual {
                instructions: instructions@,
            },
        }
    }
}

impl View for Suggestion {
    type V = SuggestionView;

    open spec fn view(&self) -> SuggestionView {
        SuggestionView { message: self.message@, action: self.action@ }
    }
}

/// A manual suggestion with `instructions`.
pub open spec fn manual_view(instructions: Seq<char>) -> SuggestionView {
    SuggestionView {
        message: "Manual action required"@,
        action: ActionView::Manual { instructions },
    }
}

/// A suggestion to create the file at `path`.
pub open spec fn create_file_view(path: Seq<char>, message: Seq<char>) -> SuggestionView {
    SuggestionView { message, action: ActionView::CreateFile { path, template: None } }
}

/// A suggestion to rename the file at `from` to `to`.
pub open spec fn rename_file_view(from: Seq<char>, to: Seq<char>, message: Seq<char>) -> SuggestionView {
    SuggestionView { message, action: ActionView::RenameFile { from, to } }
}

} // verus!
