//! Frames of the 5x5 LED matrix and the operations the animations build on.
//!
//! A frame is a plain array of rows. Contracts speak of its [`grid`]: a
//! sequence of five rows of five brightness values.

use vstd::prelude::*;

verus! {

/// Rows and columns of the matrix.
pub const SIDE: usize = 5;

/// One brightness value per LED, row by row: 0 is off, 255 is full brightness.
pub type Frame = [[u8; SIDE]; SIDE];

/// The mathematical view of a frame: `grid(f)[r][c]` is the brightness of the
/// LED in row `r`, column `c`.
pub open spec fn grid(frame: Frame) -> Seq<Seq<u8>> {
    Seq::new(5, |r: int| Seq::new(5, |c: int| frame[r][c]))
}

/// A grid has the shape of the matrix: five rows of five cells.
pub open spec fn is_matrix(g: Seq<Seq<u8>>) -> bool {
    &&& g.len() == 5
    &&& forall|r: int| 0 <= r < 5 ==> (#[trigger] g[r]).len() == 5
}

/// Every cell of a mask is 0 or 1.
pub open spec fn is_bit_mask(g: Seq<Seq<u8>>) -> bool {
    forall|r: int, c: int| 0 <= r < 5 && 0 <= c < 5 ==> #[trigger] g[r][c] <= 1
}

/// The grid with every LED off.
pub open spec fn blank_grid() -> Seq<Seq<u8>> {
    Seq::new(5, |r: int| Seq::new(5, |c: int| 0u8))
}

/// A bit mask with its lit cells set to `level`.
pub open spec fn scaled_grid(mask: Seq<Seq<u8>>, level: u8) -> Seq<Seq<u8>> {
    Seq::new(5, |r: int| Seq::new(5, |c: int| (mask[r][c] * level) as u8))
}

/// The grid moved down by one row: row `r` of `g` becomes row `r + 1`, and
/// the last row wraps round to the top.
pub open spec fn rotated_down(g: Seq<Seq<u8>>) -> Seq<Seq<u8>> {
    Seq::new(5, |r: int| g[(r + 4) % 5])
}

/// `rotated_down` applied `times` times.
pub open spec fn rotated_down_by(g: Seq<Seq<u8>>, times: nat) -> Seq<Seq<u8>>
    decreases times,
{
    if times == 0 {
        g
    } else {
        rotated_down(rotated_down_by(g, (times - 1) as nat))
    }
}

/// The grid of a frame always has the shape of the matrix.
pub proof fn lemma_grid_is_matrix(frame: Frame)
    ensures
        is_matrix(grid(frame)),
{
}

/// Two frames with the same grid are the same frame.
pub proof fn lemma_grid_determines_frame(a: Frame, b: Frame)
    requires
        grid(a) == grid(b),
    ensures
        a == b,
{
    assert forall|r: int| 0 <= r < 5 implies a[r] == b[r] by {
        assert forall|c: int| 0 <= c < 5 implies a[r][c] == b[r][c] by {
            assert(grid(a)[r][c] == a[r][c]);
            assert(grid(b)[r][c] == b[r][c]);
        }
        assert(a[r] =~= b[r]);
    }
    assert(a =~= b);
}

/// Every brightness value of every frame lies between 0 and 255.
pub proof fn lemma_cells_in_range(frame: Frame)
    ensures
        forall|r: int, c: int|
            0 <= r < 5 && 0 <= c < 5 ==> 0 <= #[trigger] grid(frame)[r][c] <= 255,
{
}

/// Every cell of a scaled bit mask is either off or at `level`.
pub proof fn lemma_scaled_cells(mask: Seq<Seq<u8>>, level: u8, row: int, column: int)
    requires
        is_bit_mask(mask),
        0 <= row < 5,
        0 <= column < 5,
    ensures
        scaled_grid(mask, level)[row][column] == (if mask[row][column] == 0 {
            0
        } else {
            level
        }),
{
    assert(mask[row][column] <= 1);
}

/// A frame with every LED off.
pub fn blank_frame() -> (frame: Frame)
    ensures
        grid(frame) == blank_grid(),
{
    let frame: Frame = [[0u8; 5]; 5];
    assert(grid(frame) =~~= blank_grid());
    frame
}

/// Multiplies every cell of a bit mask by `level`.
pub fn scale_mask(mask: &Frame, level: u8) -> (frame: Frame)
    requires
        is_bit_mask(grid(*mask)),
    ensures
        grid(frame) == scaled_grid(grid(*mask), level),
{
    let mut frame: Frame = [[0u8; 5]; 5];
    let mut r: usize = 0;
    while r < 5
        invariant
            r <= 5,
            is_bit_mask(grid(*mask)),
            forall|i: int, j: int|
                0 <= i < r && 0 <= j < 5 ==> frame[i][j] == mask[i][j] * level,
        decreases 5 - r,
    {
        let mut c: usize = 0;
        while c < 5
            invariant
                r < 5,
                c <= 5,
                is_bit_mask(grid(*mask)),
                forall|i: int, j: int|
                    0 <= i < r && 0 <= j < 5 ==> frame[i][j] == mask[i][j] * level,
                forall|j: int| 0 <= j < c ==> frame[r as int][j] == mask[r as int][j] * level,
            decreases 5 - c,
        {
            let bit: u8 = mask[r][c];
            assert(bit <= 1) by {
                assert(grid(*mask)[r as int][c as int] == bit);
            }
            assert(bit * level <= 255) by (nonlinear_arith)
                requires
                    bit <= 1,
                    level <= 255,
            ;
            frame[r][c] = bit * level;
            c += 1;
        }
        r += 1;
    }
    assert(grid(frame) =~~= scaled_grid(grid(*mask), level));
    frame
}

/// Moves every row of the frame down by one; the last row becomes the first.
pub fn rotate_rows_down(frame: &Frame) -> (rotated: Frame)
    ensures
        grid(rotated) == rotated_down(grid(*frame)),
{
    let rotated: Frame = [frame[4], frame[0], frame[1], frame[2], frame[3]];
    assert(grid(rotated) =~~= rotated_down(grid(*frame)));
    rotated
}

/// After `times` rotations row `r` holds what was row `r - times`, counted
/// round the five rows.
pub proof fn lemma_rotated_down_by_rows(g: Seq<Seq<u8>>, times: nat)
    requires
        g.len() == 5,
    ensures
        rotated_down_by(g, times).len() == 5,
        forall|r: int|
            0 <= r < 5 ==> #[trigger] rotated_down_by(g, times)[r] == g[(r + 4 * times) % 5],
    decreases times,
{
    if times > 0 {
        lemma_rotated_down_by_rows(g, (times - 1) as nat);
        let before = rotated_down_by(g, (times - 1) as nat);
        assert forall|r: int| 0 <= r < 5 implies #[trigger] rotated_down_by(g, times)[r] == g[(r
            + 4 * times) % 5] by {
            let p = (r + 4) % 5;
            assert(rotated_down(before)[r] == before[p]);
            assert(before[p] == g[(p + 4 * (times - 1)) % 5]);
            assert((p + 4 * (times - 1)) % 5 == (r + 4 * times) % 5);
        }
    }
}

/// Five rotations bring every row back to where it started.
pub proof fn lemma_five_rotations_restore(g: Seq<Seq<u8>>)
    requires
        g.len() == 5,
    ensures
        rotated_down_by(g, 5) == g,
{
    lemma_rotated_down_by_rows(g, 5);
    assert(rotated_down_by(g, 5) =~= g);
}

/// Rotating five times more changes nothing.
pub proof fn lemma_rotation_period(g: Seq<Seq<u8>>, times: nat)
    requires
        g.len() == 5,
    ensures
        rotated_down_by(g, times + 5) == rotated_down_by(g, times),
{
    lemma_rotated_down_by_rows(g, times);
    lemma_rotated_down_by_rows(g, times + 5);
    assert forall|r: int| 0 <= r < 5 implies rotated_down_by(g, times + 5)[r] == rotated_down_by(
        g,
        times,
    )[r] by {
        assert((r + 4 * (times + 5)) % 5 == (r + 4 * times) % 5);
    }
    assert(rotated_down_by(g, times + 5) =~= rotated_down_by(g, times));
}

} // verus!
