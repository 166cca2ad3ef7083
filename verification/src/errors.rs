//! Error taxonomy of the engine.
//!
//! Each error carries a machine-checkable kind (the variant) and a
//! human-readable reason. Bulk imports recover from per-entry
//! validation failures; every other error propagates to the caller.

use vstd::prelude::*;

verus! {

#[derive(Debug)]
pub enum AppError {
    /// A server definition failed validation.
    McpValidation(String),
    /// A caller-supplied argument was rejected.
    InvalidInput(String),
    /// A configuration file or store was unusable.
    Config(String),
    /// The durable store reported a failure.
    Database(String),
    /// The store's schema version cannot be handled by this build.
    Schema(String),
    /// A structurally well-formed but implausible backup was refused.
    ImportValidation(String),
    /// A live file could not be parsed.
    Parse(String),
    /// A general failure with a plain message.
    Message(String),
    /// A failure with a message in two languages: (key, chinese, english).
    Localized(String, String, String),
}

impl AppError {
    /// The reason text; the English one for localized errors.
    pub fn message(&self) -> (r: String)
        ensures
            r@ == self.message_spec(),
    {
        match self {
            AppError::McpValidation(s) => s.clone(),
            AppError::InvalidInput(s) => s.clone(),
            AppError::Config(s) => s.clone(),
            AppError::Database(s) => s.clone(),
            AppError::Schema(s) => s.clone(),
            AppError::ImportValidation(s) => s.clone(),
            AppError::Parse(s) => s.clone(),
            AppError::Message(s) => s.clone(),
            AppError::Localized(_, _, en) => en.clone(),
        }
    }

    pub open spec fn message_spec(self) -> Seq<char> {
        match self {
            AppError::McpValidation(s) => s@,
            AppError::InvalidInput(s) => s@,
            AppError::Config(s) => s@,
            AppError::Database(s) => s@,
            AppError::Schema(s) => s@,
            AppError::ImportValidation(s) => s@,
            AppError::Parse(s) => s@,
            AppError::Message(s) => s@,
            AppError::Localized(_, _, en) => en@,
        }
    }
}

} // verus!
