use vstd::prelude::*;

use crate::config::ConfigError;

verus! {

/// The lattice cell `(column, row)` of every body of a `width` by `height`
/// grid, row after row: cell `row * width + column` holds `(column, row)`.
pub open spec fn grid_cells(width: nat, height: nat) -> Seq<(usize, usize)> {
    Seq::new(width * height, |k: int| ((k % width as int) as usize, (k / width as int) as usize))
}

/// Lays out a `width` by `height` lattice, row after row. The result depends on
/// the two dimensions alone, so two calls with the same dimensions give the same
/// cells in the same order. Refused when the grid is empty or its size does not
/// fit in `usize`.
pub fn grid_layout(width: usize, height: usize) -> (r: Result<Vec<(usize, usize)>, ConfigError>)
    ensures
        (width == 0 || height == 0) <==> r == Err::<Vec<(usize, usize)>, ConfigError>(
            ConfigError::NoBodies,
        ),
        (width > 0 && height > 0 && width * height > usize::MAX) <==> r == Err::<
            Vec<(usize, usize)>,
            ConfigError,
        >(ConfigError::TooManyBodies),
        (width > 0 && height > 0 && width * height <= usize::MAX) ==> r is Ok,
        r is Ok ==> r->Ok_0@ == grid_cells(width as nat, height as nat),
{
    if width == 0 || height == 0 {
        return Err(ConfigError::NoBodies);
    }
    let total = match width.checked_mul(height) {
        Some(t) => t,
        None => {
            return Err(ConfigError::TooManyBodies);
        },
    };
    let mut cells: Vec<(usize, usize)> = Vec::new();
    let mut row: usize = 0;
    while row < height
        invariant
            0 < width,
            total == width * height,
            row <= height,
            cells.len() == row * width,
            forall|k: int| 0 <= k < cells.len() ==> #[trigger] cells[k] == (
                (k % width as int) as usize,
                (k / width as int) as usize,
            ),
        decreases height - row,
    {
        let mut col: usize = 0;
        while col < width
            invariant
                0 < width,
                total == width * height,
                row < height,
                col <= width,
                cells.len() == row * width + col,
                forall|k: int| 0 <= k < cells.len() ==> #[trigger] cells[k] == (
                    (k % width as int) as usize,
                    (k / width as int) as usize,
                ),
            decreases width - col,
        {
            proof {
                let k = row * width + col;
                assert(k < width * height) by (nonlinear_arith)
                    requires
                        row < height,
                        col < width,
                        k == row * width + col,
                ;
                assert(k % width as int == col && k / width as int == row) by (nonlinear_arith)
                    requires
                        0 <= col < width,
                        k == row * width + col,
                ;
            }
            cells.push((col, row));
            col += 1;
        }
        proof {
            assert((row + 1) * width == row * width + width) by (nonlinear_arith);
        }
        row += 1;
    }
    assert(height * width == width * height) by (nonlinear_arith);
    assert(cells@ =~= grid_cells(width as nat, height as nat));
    Ok(cells)
}

} // verus!
