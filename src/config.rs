use vstd::prelude::*;

verus! {

/// Default grid length: three cells per row and per column.
pub fn default_three() -> (r: usize)
    ensures
        r == 3,
{
    3
}

/// Default buffer size and thread count.
pub fn default_eight() -> (r: usize)
    ensures
        r == 8,
{
    8
}

/// Default side of one thumbnail, in pixels.
pub fn default_size() -> (r: usize)
    ensures
        r == 96,
{
    96
}

} // verus!
