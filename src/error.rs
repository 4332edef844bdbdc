use vstd::prelude::*;

verus! {

/// Errors surfaced by the library; each carries a human readable detail.
#[derive(Debug, Clone)]
pub enum AppError {
    /// Malformed or missing manifest.
    Manifest(String),
    /// A skill name that breaks the naming rules.
    Skill(String),
    /// A filesystem failure.
    Io(String),
    /// Malformed JSON.
    Serialization(String),
    /// Remote, subprocess and other operational failures, conflicts, missing keys.
    System(String),
}

impl AppError {
    /// The prefix that `message` puts before the detail of each variant.
    pub open spec fn spec_prefix(&self) -> Seq<char> {
        match self {
            AppError::Manifest(_) => "manifest error: "@,
            AppError::Skill(_) => "skill error: "@,
            AppError::Io(_) => "I/O error: "@,
            AppError::Serialization(_) => "serialization error: "@,
            AppError::System(_) => "system error: "@,
        }
    }

    pub open spec fn spec_detail(&self) -> Seq<char> {
        match self {
            AppError::Manifest(d) => d@,
            AppError::Skill(d) => d@,
            AppError::Io(d) => d@,
            AppError::Serialization(d) => d@,
            AppError::System(d) => d@,
        }
    }

    /// The detail carried by the error.
    pub fn detail(&self) -> (r: &String)
        ensures
            r@ == self.spec_detail(),
    {
        match self {
            AppError::Manifest(d) => d,
            AppError::Skill(d) => d,
            AppError::Io(d) => d,
            AppError::Serialization(d) => d,
            AppError::System(d) => d,
        }
    }

    /// The message shown to the user: the category, then the detail.
    pub fn message(&self) -> (r: String)
        ensures
            r@ == self.spec_prefix() + self.spec_detail(),
    {
        let prefix = match self {
            AppError::Manifest(_) => "manifest error: ",
            AppError::Skill(_) => "skill error: ",
            AppError::Io(_) => "I/O error: ",
            AppError::Serialization(_) => "serialization error: ",
            AppError::System(_) => "system error: ",
        };
        String::from_str(prefix).concat(self.detail().as_str())
    }
}

} // verus!
