//! Errors of the wallet forms: a message for the user, or a failure to launch `cast`.

use vstd::prelude::*;

use crate::text::concat;

verus! {

/// What went wrong while preparing or launching a `cast` command.
#[derive(Debug)]
pub enum AppError {
    /// The form's input is missing or invalid; the text is shown to the user as is.
    Message(String),
    /// A terminal operation failed; `context` names it and `detail` is the system's report.
    Io { context: String, detail: String },
    /// The `cast` process could not be started; `command` is the command line that was tried.
    CommandLaunch { command: String, detail: String },
}

impl AppError {
    /// An error that carries only a message.
    pub fn message(message: String) -> (r: AppError)
        ensures
            r == AppError::Message(message),
    {
        AppError::Message(message)
    }

    /// A failed terminal operation.
    pub fn io(context: String, detail: String) -> (r: AppError)
        ensures
            r == (AppError::Io { context, detail }),
    {
        AppError::Io { context, detail }
    }

    /// A failure to start `command`.
    pub fn command_launch(command: String, detail: String) -> (r: AppError)
        ensures
            r == (AppError::CommandLaunch { command, detail }),
    {
        AppError::CommandLaunch { command, detail }
    }

    /// The text shown to the user for this error.
    pub open spec fn spec_text(&self) -> Seq<char> {
        match self {
            AppError::Message(m) => m@,
            AppError::Io { context, detail } => context@ + ": "@ + detail@,
            AppError::CommandLaunch { command, detail } => "failed to launch "@ + command@ + ": "@
                + detail@,
        }
    }

    /// The text shown to the user for this error.
    pub fn text(&self) -> (r: String)
        ensures
            r@ == self.spec_text(),
    {
        match self {
            AppError::Message(m) => m.clone(),
            AppError::Io { context, detail } => {
                let mut r = concat(context.as_str(), ": ");
                r.append(detail.as_str());
                r
            },
            AppError::CommandLaunch { command, detail } => {
                let mut r = concat("failed to launch ", command.as_str());
                r.append(": ");
                r.append(detail.as_str());
                r
            },
        }
    }
}

} // verus!
