//! Errors the fantasy server reports to its clients.
use vstd::prelude::*;

verus! {

/// A team that breaks one of its league's limits.
#[derive(Debug, Clone)]
pub struct InvalidTeamError {
    pub description: String,
}

impl InvalidTeamError {
    /// The text shown for the error: `Invalid team: ` and the description.
    pub fn to_string(&self) -> (s: String)
        ensures
            s@ == "Invalid team: "@ + self.description@,
    {
        String::from_str("Invalid team: ").concat(self.description.as_str())
    }
}

/// A request whose input cannot be served.
#[derive(Debug, Clone)]
pub struct InvalidInputError<'a> {
    pub description: &'a str,
}

impl<'a> InvalidInputError<'a> {
    /// The text shown for the error: `Invalid input: ` and the description.
    pub fn to_string(&self) -> (s: String)
        ensures
            s@ == "Invalid input: "@ + self.description@,
    {
        String::from_str("Invalid input: ").concat(self.description)
    }
}

/// Any other failure, with a fixed description.
#[derive(Debug, Clone)]
pub struct CustomError<'a> {
    pub description: &'a str,
}

impl<'a> CustomError<'a> {
    /// The text shown for the error: `Error: ` and the description.
    pub fn to_string(&self) -> (s: String)
        ensures
            s@ == "Error: "@ + self.description@,
    {
        String::from_str("Error: ").concat(self.description)
    }
}

/// No player was left that a draft choice could take.
#[derive(Debug, Clone, Copy, PartialEq, Eq, Structural)]
pub struct NoValidPicksError {}

impl NoValidPicksError {
    /// The text shown for the error.
    pub fn to_string(&self) -> (s: String)
        ensures
            s@ == "No valid picks to choose from"@,
    {
        String::from_str("No valid picks to choose from")
    }
}

} // verus!
