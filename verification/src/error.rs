//! What is reported when a placeholder is written in a way that cannot be rewritten.

use crate::special::Special;
use crate::syntax::{TypePath, TypePathView};
use vstd::prelude::*;

verus! {

/// The kind of mistake in the use of a placeholder.
#[derive(Debug, Clone, Copy, PartialEq, Eq, Structural)]
pub enum ErrorKind {
    /// The placeholder has an element type where it takes none, has none where it
    /// takes one, or has angle brackets that do not hold exactly one argument.
    ArityError,
    /// A path that ends in the name of a placeholder has more than one segment, a
    /// qualified-self prefix or arguments in parentheses.
    ShapeError,
    /// The argument of the placeholder is a lifetime, a constant or anything else
    /// that is not a type.
    TypeKindError,
}

/// A mistake in the use of a placeholder, with the place where it was found.
#[derive(Debug, PartialEq, Eq)]
pub struct Error {
    pub kind: ErrorKind,
    /// The placeholder that the path is named after.
    pub special: Special,
    /// The path as it stands in the function that was to be rewritten.
    pub type_path: TypePath,
}

/// The view of an [`Error`].
pub struct ErrorView {
    pub kind: ErrorKind,
    pub special: Special,
    pub type_path: TypePathView,
}

impl View for Error {
    type V = ErrorView;

    open spec fn view(&self) -> ErrorView {
        ErrorView { kind: self.kind, special: self.special, type_path: self.type_path@ }
    }
}

impl Clone for Error {
    fn clone(&self) -> (copy: Self)
        ensures
            copy@ == self@,
    {
        Error { kind: self.kind, special: self.special, type_path: self.type_path.clone() }
    }
}

} // verus!
