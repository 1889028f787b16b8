use vstd::prelude::*;

verus! {

/// Four per-edge pixel counts. Used both for a measured transparent border
/// and for an amount of padding to apply.
#[derive(Debug)]
pub struct Padding {
    pub top: u32,
    pub bottom: u32,
    pub left: u32,
    pub right: u32,
}

impl Padding {
    pub fn new(top: u32, bottom: u32, left: u32, right: u32) -> (r: Padding)
        ensures
            r.top == top && r.bottom == bottom && r.left == left && r.right == right,
    {
        Padding { top, bottom, left, right }
    }
}

} // verus!
