//! Integer arithmetic of the square grid that a client lays over its window.

use vstd::prelude::*;

verus! {

/// Edge length of one grid square, in logical pixels.
pub const SQUARE_SIZE: u32 = 96;

/// The least odd number that is not below `value`.
pub open spec fn spec_keep_uneven(value: nat) -> nat {
    if value % 2 == 0 {
        value + 1
    } else {
        value
    }
}

/// How many whole squares are needed to cover `parameter` pixels.
pub open spec fn spec_squares_to_cover(parameter: nat) -> nat {
    if parameter % (SQUARE_SIZE as nat) == 0 {
        parameter / (SQUARE_SIZE as nat)
    } else {
        parameter / (SQUARE_SIZE as nat) + 1
    }
}

/// The six vertex indices of the two triangles of square number `index`,
/// where every square owns `offset` consecutive vertices.
pub open spec fn spec_indices_for_index(index: nat, offset: nat) -> Seq<nat> {
    let i = index * offset;
    seq![i, i + 1, i + 3, i + 1, i + 2, i + 3]
}

/// Returns `value` if it is odd and `value + 1` otherwise, so that a grid of
/// that many squares has a middle square.
pub fn keep_uneven(value: u32) -> (result: u32)
    ensures
        result == spec_keep_uneven(value as nat),
        result % 2 == 1,
        value <= result <= value + 1,
{
    if value % 2 == 0 {
        value + 1
    } else {
        value
    }
}

/// Number of squares laid along a window edge of `parameter` pixels: enough
/// to cover the edge, and one more where that count is even.
pub fn number_of_squares(parameter: u32) -> (result: u32)
    ensures
        result == spec_keep_uneven(spec_squares_to_cover(parameter as nat)),
        result % 2 == 1,
        result * SQUARE_SIZE >= parameter,
{
    let whole: u32 = parameter / SQUARE_SIZE;
    let covering: u32 = if parameter % SQUARE_SIZE == 0 {
        whole
    } else {
        whole + 1
    };
    keep_uneven(covering)
}

/// Index buffer entries for square number `index`: two triangles over the
/// square's four vertices, the first of which is vertex `index * offset`.
pub fn indices_for_index(index: u16, offset: u16) -> (result: Vec<u16>)
    requires
        index * offset + 3 <= u16::MAX,
    ensures
        result@.len() == 6,
        result@.map_values(|v: u16| v as nat) == spec_indices_for_index(
            index as nat,
            offset as nat,
        ),
{
    let i: u16 = index * offset;
    let mut result: Vec<u16> = Vec::new();
    result.push(i);
    result.push(i + 1);
    result.push(i + 3);
    result.push(i + 1);
    result.push(i + 2);
    result.push(i + 3);
    proof {
        assert(result@.map_values(|v: u16| v as nat) =~= spec_indices_for_index(
            index as nat,
            offset as nat,
        ));
    }
    result
}

/// The least odd number above `value`.
pub open spec fn spec_next_highest_uneven_number(value: nat) -> nat {
    if value % 2 == 0 {
        value + 3
    } else {
        value + 2
    }
}

/// The odd number that follows the least odd number not below `value`: a
/// grid of that many squares reaches one square beyond the window on either
/// side.
pub fn next_highest_uneven_number(value: u32) -> (result: u32)
    requires
        value + 3 <= u32::MAX,
    ensures
        result == spec_next_highest_uneven_number(value as nat),
        result % 2 == 1,
        result == spec_keep_uneven(value as nat) + 2,
{
    if value % 2 == 0 {
        value + 3
    } else {
        value + 2
    }
}

/// Index of the first square of a grid of `square_count` squares that is
/// centred on square zero: minus half the count, rounded towards zero.
pub fn grid_range_start(square_count: u32) -> (result: i32)
    ensures
        result == -((square_count as int) / 2),
{
    let half: u32 = square_count / 2;
    -(half as i32)
}

/// Index one beyond the last square of a grid of `square_count` squares
/// that is centred on square zero: half the count, rounded down, plus one.
/// With `grid_range_start` it bounds exactly `square_count` squares where
/// the count is odd.
pub fn grid_range_end(square_count: u32) -> (result: i32)
    requires
        square_count / 2 < i32::MAX,
    ensures
        result == (square_count as int) / 2 + 1,
        square_count % 2 == 1 ==> result + (square_count as int) / 2 == square_count,
{
    let half: u32 = square_count / 2;
    half as i32 + 1
}

} // verus!
