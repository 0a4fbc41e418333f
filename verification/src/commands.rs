//! Checks on the requests the shelf's item list sends.
use vstd::prelude::*;

verus! {

/// A request to move the item at `from` to `to`: carried out only when both
/// positions are non-negative, then as positions counted from 0.
pub fn reorder_request(from: i32, to: i32) -> (r: Option<(usize, usize)>)
    ensures
        from >= 0 && to >= 0 ==> r == Some((from as usize, to as usize)),
        from < 0 || to < 0 ==> r is None,
{
    if from >= 0 && to >= 0 {
        Some((from as usize, to as usize))
    } else {
        None
    }
}

/// A request to drag the file at `path` out of the window with handle `hwnd`:
/// the list of paths to drag, or nothing when the window has no handle yet (0).
pub fn drag_out_request(hwnd: isize, path: &str) -> (r: Option<Vec<String>>)
    ensures
        hwnd == 0 ==> r is None,
        hwnd != 0 ==> (r matches Some(v) && v@.len() == 1 && v@[0]@ == path@),
{
    if hwnd != 0 {
        let mut v: Vec<String> = Vec::new();
        v.push(path.to_owned());
        Some(v)
    } else {
        None
    }
}

} // verus!
