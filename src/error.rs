use vstd::prelude::*;

verus! {

/// What went wrong in building or solving a layout.
#[derive(Clone, Copy, Debug, PartialEq, Eq, Structural)]
pub enum LayoutErrorKind {
    /// No fresh key could be minted for a new item.
    DuplicateKey,
    /// Fixed and percent sizes plus padding leave no room on the main axis.
    MarginOverrun,
    /// A grid with no cells or a zero ratio.
    DegenerateGrid,
    /// A frame, or a result, outside the coordinate range.
    OutOfRange,
}

/// An error of a layout, with a message for people.
#[derive(Debug)]
pub struct LayoutError {
    pub kind: LayoutErrorKind,
    pub message: String,
}

impl LayoutError {
    pub fn error(kind: LayoutErrorKind, message: &str) -> (r: LayoutError)
        ensures
            r.kind == kind,
            r.message@ == message@,
    {
        LayoutError { kind, message: message.to_owned() }
    }

    pub fn kind(&self) -> (r: LayoutErrorKind)
        ensures
            r == self.kind,
    {
        self.kind
    }
}

} // verus!
