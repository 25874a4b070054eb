//! The ways in which a command can fail.

use vstd::prelude::*;

verus! {

/// Why a command did not complete. `F` is the storage service's own account
/// of a failure, which is handed on as it came.
#[derive(Debug, PartialEq, Eq)]
pub enum ActionError<F> {
    /// The command asked for the shared root while shared access was not
    /// granted.
    PermissionDenied,
    /// The path names no file: it is empty or ends in a separator.
    FileNameMissing,
    /// The directory tree holds no directory of this name where the path
    /// asks for one.
    NotFound(String),
    /// The metadata text is not well-formed.
    DecodeError,
    /// The storage service refused or failed to create the file.
    StorageError(F),
}

/// A failure as plain values.
pub ghost enum ActionErrorView<F> {
    PermissionDenied,
    FileNameMissing,
    NotFound(Seq<char>),
    DecodeError,
    StorageError(F),
}

impl<F> View for ActionError<F> {
    type V = ActionErrorView<F>;

    open spec fn view(&self) -> ActionErrorView<F> {
        match *self {
            ActionError::PermissionDenied => ActionErrorView::PermissionDenied,
            ActionError::FileNameMissing => ActionErrorView::FileNameMissing,
            ActionError::NotFound(segment) => ActionErrorView::NotFound(segment@),
            ActionError::DecodeError => ActionErrorView::DecodeError,
            ActionError::StorageError(fault) => ActionErrorView::StorageError(fault),
        }
    }
}

} // verus!
