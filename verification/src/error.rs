//! Inputs that the library refuses.

use vstd::prelude::*;
use vstd::string::*;

verus! {

/// An input that is refused before anything is asked of the filesystem or
/// of a child process.
#[derive(Clone, Copy, Debug, PartialEq, Eq, Structural)]
pub enum InvalidInput {
    /// The list of CPU cores is empty.
    EmptyCpuList,
    /// The cgroup name is not a single safe path segment.
    UnsafeName,
}

impl InvalidInput {
    /// The text that describes the error to a user.
    pub open spec fn message_text(self) -> Seq<char> {
        match self {
            InvalidInput::EmptyCpuList => "CPU list cannot be empty"@,
            InvalidInput::UnsafeName => "cgroup name must be a single path segment"@,
        }
    }

    /// Describes the error to a user.
    pub fn message(&self) -> (text: String)
        ensures
            text@ == self.message_text(),
    {
        match self {
            InvalidInput::EmptyCpuList => String::from_str("CPU list cannot be empty"),
            InvalidInput::UnsafeName => String::from_str(
                "cgroup name must be a single path segment",
            ),
        }
    }
}

} // verus!
