//! Why a patch is refused or fails.

use vstd::prelude::*;
use vstd::string::*;

use crate::value::Abstract;

verus! {

/// What a patch error says beside its message.
#[derive(Clone, Debug, Eq, PartialEq)]
pub enum PatchErrorData {
    Empty,
    /// The path that the error is about.
    Path { path: String },
    /// The edit that the error is about.
    Edit { path: String, edit_index: usize },
    /// The digest that was expected, and the one that was found.
    Digest { path: String, expected_digest: String, actual_digest: String },
    /// The path was expected to be absent.
    Absence { path: String },
}

/// The content of the data of a patch error.
pub enum PatchErrorDataAbs {
    Empty,
    Path { path: Seq<char> },
    Edit { path: Seq<char>, edit_index: int },
    Digest { path: Seq<char>, expected_digest: Seq<char>, actual_digest: Seq<char> },
    Absence { path: Seq<char> },
}

impl PatchErrorData {
    pub open spec fn view(&self) -> PatchErrorDataAbs {
        match self {
            PatchErrorData::Empty => PatchErrorDataAbs::Empty,
            PatchErrorData::Path { path } => PatchErrorDataAbs::Path { path: path@ },
            PatchErrorData::Edit { path, edit_index } => PatchErrorDataAbs::Edit {
                path: path@,
                edit_index: *edit_index as int,
            },
            PatchErrorData::Digest { path, expected_digest, actual_digest } => {
                PatchErrorDataAbs::Digest {
                    path: path@,
                    expected_digest: expected_digest@,
                    actual_digest: actual_digest@,
                }
            },
            PatchErrorData::Absence { path } => PatchErrorDataAbs::Absence { path: path@ },
        }
    }
}

/// Why a patch is refused or fails: a code, a message and data.
#[derive(Clone, Debug, Eq, PartialEq)]
pub struct PatchError {
    pub code: &'static str,
    pub message: String,
    pub data: PatchErrorData,
}

/// The content of a patch error.
pub struct PatchErrorAbs {
    pub code: &'static str,
    pub message: Seq<char>,
    pub data: PatchErrorDataAbs,
}

/// A patch that cannot be applied as it stands.
pub open spec fn invalid_patch(message: Seq<char>) -> PatchErrorAbs {
    PatchErrorAbs { code: "invalid_patch", message, data: PatchErrorDataAbs::Empty }
}

/// A patch that cannot be applied at a path.
pub open spec fn invalid_at(path: Seq<char>, message: Seq<char>) -> PatchErrorAbs {
    PatchErrorAbs { code: "invalid_patch", message, data: PatchErrorDataAbs::Path { path } }
}

/// An edit that cannot be applied.
pub open spec fn invalid_edit(path: Seq<char>, edit_index: int, message: Seq<char>) -> PatchErrorAbs {
    PatchErrorAbs {
        code: "invalid_patch",
        message,
        data: PatchErrorDataAbs::Edit { path, edit_index },
    }
}

/// A file that does not exist.
pub open spec fn missing_file(path: Seq<char>) -> PatchErrorAbs {
    PatchErrorAbs {
        code: "not_found",
        message: "repository file or parent was not found: "@ + path,
        data: PatchErrorDataAbs::Path { path },
    }
}

/// A file that has other content than the patch expects.
pub open spec fn changed_file(
    path: Seq<char>,
    expected: Seq<char>,
    actual: Seq<char>,
) -> PatchErrorAbs {
    PatchErrorAbs {
        code: "conflict",
        message: "content digest changed for `"@ + path + "`"@,
        data: PatchErrorDataAbs::Digest {
            path,
            expected_digest: expected,
            actual_digest: actual,
        },
    }
}

/// A destination that exists already.
pub open spec fn present_file(path: Seq<char>) -> PatchErrorAbs {
    PatchErrorAbs {
        code: "conflict",
        message: "expected destination to be absent: "@ + path,
        data: PatchErrorDataAbs::Absence { path },
    }
}

/// A failure that left the workspace as it was.
pub open spec fn failed_patch(message: Seq<char>) -> PatchErrorAbs {
    PatchErrorAbs { code: "execution_failed", message, data: PatchErrorDataAbs::Empty }
}

/// A failure after which the state of the workspace is not known.
pub open spec fn unknown_outcome(message: Seq<char>) -> PatchErrorAbs {
    PatchErrorAbs { code: "outcome_unknown", message, data: PatchErrorDataAbs::Empty }
}

impl PatchError {
    pub open spec fn view(&self) -> PatchErrorAbs {
        PatchErrorAbs { code: self.code, message: self.message@, data: self.data@ }
    }

    pub fn invalid(message: String) -> (r: PatchError)
        ensures
            r@ == invalid_patch(message@),
    {
        PatchError { code: "invalid_patch", message, data: PatchErrorData::Empty }
    }

    pub fn invalid_at(path: &str, edit_index: Option<usize>, message: String) -> (r: PatchError)
        ensures
            r@ == match edit_index {
                Some(index) => invalid_edit(path@, index as int, message@),
                None => invalid_at(path@, message@),
            },
    {
        let data: PatchErrorData = match edit_index {
            Some(edit_index) => PatchErrorData::Edit { path: path.to_owned(), edit_index },
            None => PatchErrorData::Path { path: path.to_owned() },
        };
        PatchError { code: "invalid_patch", message, data }
    }

    pub fn not_found(path: &str) -> (r: PatchError)
        ensures
            r@ == missing_file(path@),
    {
        PatchError {
            code: "not_found",
            message: "repository file or parent was not found: ".to_owned().concat(path),
            data: PatchErrorData::Path { path: path.to_owned() },
        }
    }

    pub fn conflict(path: &str, expected: &str, actual: &str) -> (r: PatchError)
        ensures
            r@ == changed_file(path@, expected@, actual@),
    {
        PatchError {
            code: "conflict",
            message: "content digest changed for `".to_owned().concat(path).concat("`"),
            data: PatchErrorData::Digest {
                path: path.to_owned(),
                expected_digest: expected.to_owned(),
                actual_digest: actual.to_owned(),
            },
        }
    }

    pub fn conflict_absence(path: &str) -> (r: PatchError)
        ensures
            r@ == present_file(path@),
    {
        PatchError {
            code: "conflict",
            message: "expected destination to be absent: ".to_owned().concat(path),
            data: PatchErrorData::Absence { path: path.to_owned() },
        }
    }

    pub fn terminal(message: String) -> (r: PatchError)
        ensures
            r@ == failed_patch(message@),
    {
        PatchError { code: "execution_failed", message, data: PatchErrorData::Empty }
    }

    pub fn outcome_unknown(message: String) -> (r: PatchError)
        ensures
            r@ == unknown_outcome(message@),
    {
        PatchError { code: "outcome_unknown", message, data: PatchErrorData::Empty }
    }

    pub fn to_string(&self) -> (r: String)
        ensures
            r@ == self.code@ + ": "@ + self.message@,
    {
        self.code.to_owned().concat(": ").concat(self.message.as_str())
    }
}

} // verus!
