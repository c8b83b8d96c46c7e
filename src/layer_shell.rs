use vstd::prelude::*;

verus! {

/// A layer surface's requested size in surface-local pixels; a zero side lets
/// the compositor choose that side from the anchors.
#[derive(Debug, Clone, Copy, PartialEq, Eq, Structural)]
pub struct Size {
    pub width: u32,
    pub height: u32,
}

/// The margins of a layer surface from its anchored edges.
#[derive(Debug, Clone, Copy, PartialEq, Eq, Structural)]
pub struct Margin {
    pub left: i32,
    pub right: i32,
    pub top: i32,
    pub bottom: i32,
}

/// The size a new layer surface asks for: the one given, or zero by zero to
/// leave both sides to the compositor.
pub fn requested_size(size: Option<Size>) -> (r: Size)
    ensures
        r == (match size {
            Some(s) => s,
            None => Size { width: 0, height: 0 },
        }),
{
    match size {
        Some(s) => s,
        None => Size { width: 0, height: 0 },
    }
}

} // verus!
