//! The three push buttons.
//!
//! Waiting for an edge and reading the lines is the caller's part. What a
//! wake-up means is decided here: the line whose edge ended the wait counts
//! as pressed, and so does every line that reads high right afterwards, so
//! that two buttons held together are seen together.

use vstd::prelude::*;

verus! {

/// One of the three button lines.
#[derive(Clone, Copy, Debug, PartialEq, Eq, Structural)]
pub enum Line {
    F1,
    F2,
    F3,
}

/// Position of a line in a snapshot.
pub open spec fn line_index(line: Line) -> int {
    match line {
        Line::F1 => 0,
        Line::F2 => 1,
        Line::F3 => 2,
    }
}

/// The snapshot after an edge on `fired`, from the levels of the three lines
/// read after the wake-up.
pub fn pressed(fired: Line, levels: [u8; 3]) -> (snapshot: [bool; 3])
    ensures
        forall|k: int|
            0 <= k < 3 ==> #[trigger] snapshot[k] == (levels[k] == 1 || line_index(fired) == k),
{
    [
        levels[0] == 1 || matches!(fired, Line::F1),
        levels[1] == 1 || matches!(fired, Line::F2),
        levels[2] == 1 || matches!(fired, Line::F3),
    ]
}

} // verus!
