use vstd::prelude::*;
use vstd::string::*;

verus! {

/// Why an input was refused before anything was done with it.
#[derive(Clone, Copy, Debug, PartialEq, Eq, Structural)]
pub enum ValidationError {
    /// A recipe cannot be stored under an empty name.
    EmptyName,
    /// A recipe of that name exists already.
    DuplicateName,
    /// The recipe is stored at the requested location already.
    RenameNotNeeded,
    /// The coordinate lies in none of the grid regions.
    NotOnGrid,
    /// The name of a stored recipe has no first character.
    NoLeadingChar,
}

/// What can go wrong during a tick or a storage operation.
#[derive(Clone, Copy, Debug, PartialEq, Eq, Structural)]
pub enum Failure {
    /// An input did not pass validation.
    Validation(ValidationError),
    /// The file system refused to create, remove, move, read or write.
    Storage,
    /// A call into the input driver failed.
    Driver,
    /// A stored click sequence is malformed.
    Serialization,
}

impl ValidationError {
    /// The text shown to the user for this error.
    pub open spec fn spec_message(self) -> Seq<char> {
        match self {
            ValidationError::EmptyName => "cannot save with empty name"@,
            ValidationError::DuplicateName => "a recipe with this name already exists"@,
            ValidationError::RenameNotNeeded => "rename not needed"@,
            ValidationError::NotOnGrid => "not on a grid"@,
            ValidationError::NoLeadingChar => "failed to extract first characters from files"@,
        }
    }

    /// The text shown to the user for this error.
    pub fn message(&self) -> (text: String)
        ensures
            text@ == self.spec_message(),
    {
        match self {
            ValidationError::EmptyName => String::from_str("cannot save with empty name"),
            ValidationError::DuplicateName => String::from_str(
                "a recipe with this name already exists",
            ),
            ValidationError::RenameNotNeeded => String::from_str("rename not needed"),
            ValidationError::NotOnGrid => String::from_str("not on a grid"),
            ValidationError::NoLeadingChar => String::from_str(
                "failed to extract first characters from files",
            ),
        }
    }
}

impl Failure {
    /// The text shown to the user for this error.
    pub open spec fn spec_message(self) -> Seq<char> {
        match self {
            Failure::Validation(e) => e.spec_message(),
            Failure::Storage => "storage operation failed"@,
            Failure::Driver => "input driver call failed"@,
            Failure::Serialization => "malformed click sequence"@,
        }
    }

    /// The text shown to the user for this error.
    pub fn message(&self) -> (text: String)
        ensures
            text@ == self.spec_message(),
    {
        match self {
            Failure::Validation(e) => e.message(),
            Failure::Storage => String::from_str("storage operation failed"),
            Failure::Driver => String::from_str("input driver call failed"),
            Failure::Serialization => String::from_str("malformed click sequence"),
        }
    }
}

} // verus!
