//! The failures of the export pipeline and of the walkers.
use vstd::prelude::*;

verus! {

/// What went wrong.
#[derive(Clone, Copy, Debug, PartialEq, Eq, Structural)]
pub enum ErrorKind {
    /// An instance names a cell that the model does not hold.
    UnresolvedReference,
    /// The outline layer of the top cell holds no shape, or more than one.
    AmbiguousBoundary,
    /// The model has no outline layer.
    MissingBoundaryLayer,
    /// A shape, or the end style of a path, that the GDS format cannot express.
    UnrepresentableGeometry,
    /// The cell that an instance refers to has no bounding box.
    EmptyBoundingBox,
    /// The grid of a snap is zero or negative.
    InvalidGridTolerance,
    /// A structure reference names a structure that the rename table lacks.
    MissingRenameEntry,
}

/// A failure: its kind and the name of the cell, structure or reference at
/// which it was found (empty where there is none).
#[derive(Clone, Debug, PartialEq, Eq)]
pub struct Error {
    pub kind: ErrorKind,
    pub name: String,
}

/// The mathematical value of an [`Error`].
pub struct ErrorView {
    pub kind: ErrorKind,
    pub name: Seq<char>,
}

impl View for Error {
    type V = ErrorView;

    open spec fn view(&self) -> ErrorView {
        ErrorView { kind: self.kind, name: self.name@ }
    }
}

impl Error {
    /// An error of the given kind at the given name.
    pub fn new(kind: ErrorKind, name: &str) -> (e: Error)
        ensures
            e@ == (ErrorView { kind, name: name@ }),
    {
        Error { kind, name: name.to_owned() }
    }
}

} // verus!
