use vstd::prelude::*;
use crate::grid::Grid;
use crate::grid::GridView;

verus! {

/// The fill of a tile: one color for live cells, one for dead ones.
/// Which concrete colors those are is the presentation layer's choice.
#[derive(Clone, Copy, Debug, PartialEq, Eq, Structural)]
pub enum TileColor {
    Alive,
    Dead,
}

/// One drawable rectangle, derived from one cell.
///
/// Screen space puts the origin at the viewport center, so a cell's
/// center can sit on a half-pixel boundary. To keep the coordinates
/// exact they are stored doubled: `center_x2` is twice the center's x
/// coordinate in pixels, `center_y2` twice its y. The rectangle is
/// `size` pixels wide and high.
#[derive(Clone, Copy, Debug, PartialEq, Eq, Structural)]
pub struct Tile {
    pub center_x2: i64,
    pub center_y2: i64,
    pub size: u32,
    pub color: TileColor,
}

/// The tile for cell `(row, col)` of a grid: centered (in doubled pixel
/// coordinates) so that the whole grid of `width * cell_size` by
/// `height * cell_size` pixels is centered on the origin, one cell wide
/// and high, and colored after the cell's state.
pub open spec fn spec_tile(v: GridView, row: int, col: int) -> Tile {
    Tile {
        center_x2: (2 * col * v.cell_size - (v.width * v.cell_size - v.cell_size)) as i64,
        center_y2: (2 * row * v.cell_size - (v.height * v.cell_size - v.cell_size)) as i64,
        size: v.cell_size as u32,
        color: if v.cells[row][col] {
            TileColor::Alive
        } else {
            TileColor::Dead
        },
    }
}

/// The first `k` entries of a row-major tile sequence are the right
/// tiles for `v`: entry `i` belongs to cell `(i / width, i % width)`.
pub open spec fn tiles_prefix_ok(tiles: Seq<Tile>, v: GridView, k: int) -> bool {
    forall|i: int|
        0 <= i < k ==> #[trigger] tiles[i] == spec_tile(
            v,
            i / (v.width as int),
            i % (v.width as int),
        )
}

/// Maps every cell of the grid to its tile, row-major: the tile at index
/// `row * width + col` belongs to cell `(row, col)`, and there is exactly
/// one tile per cell. The grid is only read; the tiles are rebuilt fresh
/// on every call.
#[verifier::loop_isolation(false)]
pub fn tiles_for(grid: &Grid) -> (tiles: Vec<Tile>)
    requires
        grid.wf(),
    ensures
        tiles@.len() == grid@.height * grid@.width,
        tiles_prefix_ok(tiles@, grid@, tiles@.len() as int),
        forall|r: int, c: int|
            0 <= r < grid@.height && 0 <= c < grid@.width ==> #[trigger] tiles@[r * (
            grid@.width as int) + c] == spec_tile(grid@, r, c),
{
    let (width, height) = grid.dimensions();
    let size = grid.cell_size();
    let mut tiles: Vec<Tile> = Vec::new();
    let mut r: u32 = 0;
    while r < height
        invariant
            r <= height,
            tiles@.len() == r * (width as int),
            tiles_prefix_ok(tiles@, grid@, tiles@.len() as int),
        decreases height - r,
    {
        let mut c: u32 = 0;
        while c < width
            invariant
                c <= width,
                tiles@.len() == r * (width as int) + c,
                tiles_prefix_ok(tiles@, grid@, tiles@.len() as int),
            decreases width - c,
        {
            proof {
                assert((r as int) * (width as int) + (c as int) < (height as int) * (
                width as int)) by (nonlinear_arith)
                    requires
                        r < height,
                        c < width,
                ;
                assert((c as int) * (size as int) < (width as int) * (size as int))
                    by (nonlinear_arith)
                    requires
                        c < width,
                        size >= 1,
                ;
                assert((r as int) * (size as int) < (height as int) * (size as int))
                    by (nonlinear_arith)
                    requires
                        r < height,
                        size >= 1,
                ;
                assert((2 * (c as int)) * (size as int) == 2 * ((c as int) * (size as int)))
                    by (nonlinear_arith);
                assert((2 * (r as int)) * (size as int) == 2 * ((r as int) * (size as int)))
                    by (nonlinear_arith);
            }
            let alive = grid.is_alive(r as usize, c as usize);
            let x2: i64 = 2 * (c as i64) * (size as i64) - ((width as i64) * (size as i64) - (
            size as i64));
            let y2: i64 = 2 * (r as i64) * (size as i64) - ((height as i64) * (size as i64) - (
            size as i64));
            let tile = Tile {
                center_x2: x2,
                center_y2: y2,
                size,
                color: if alive {
                    TileColor::Alive
                } else {
                    TileColor::Dead
                },
            };
            proof {
                vstd::arithmetic::div_mod::lemma_fundamental_div_mod_converse(
                    (r as int) * (width as int) + (c as int),
                    width as int,
                    r as int,
                    c as int,
                );
                assert(tile == spec_tile(grid@, r as int, c as int));
            }
            tiles.push(tile);
            c = c + 1;
        }
        proof {
            assert((r + 1) * (width as int) == r * (width as int) + width) by (nonlinear_arith);
        }
        r = r + 1;
    }
    proof {
        assert forall|row: int, col: int|
            0 <= row < grid@.height && 0 <= col < grid@.width implies #[trigger] tiles@[row * (
        grid@.width as int) + col] == spec_tile(grid@, row, col) by {
            vstd::arithmetic::div_mod::lemma_fundamental_div_mod_converse(
                row * (grid@.width as int) + col,
                grid@.width as int,
                row,
                col,
            );
            assert(row * (grid@.width as int) + col < (grid@.height as int) * (grid@.width as int))
                by (nonlinear_arith)
                requires
                    0 <= row < grid@.height,
                    0 <= col < grid@.width,
            ;
        }
    }
    tiles
}

} // verus!
