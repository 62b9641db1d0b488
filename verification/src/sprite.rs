use vstd::prelude::*;

verus! {

/// Whether the pixel in column `col` of a sprite row is set. Column 0 is the
/// most significant bit of the byte.
pub open spec fn bit_at(byte: u8, col: int) -> bool {
    (byte >> ((7 - col) as u8)) & 1u8 == 1u8
}

/// Whether the sprite has a set pixel in row `row`, column `col`.
pub open spec fn sprite_bit(sprite: Seq<u8>, row: int, col: int) -> bool {
    &&& 0 <= row < sprite.len()
    &&& 0 <= col < 8
    &&& bit_at(sprite[row], col)
}

/// The sprite row that falls on display row `cell / 64` when the sprite's
/// first row is drawn at display row `vy`, rows wrapping modulo 32.
pub open spec fn row_under(vy: int, cell: int) -> int {
    (cell / 64 - vy) % 32
}

/// The sprite column that falls on display column `cell % 64` when the
/// sprite's first column is drawn at display column `vx`, columns wrapping
/// modulo 64.
pub open spec fn col_under(vx: int, cell: int) -> int {
    (cell % 64 - vx) % 64
}

/// Whether drawing the sprite at `(vx, vy)` toggles the display cell with
/// index `cell`: a set pixel of the sprite falls on it.
pub open spec fn covers(sprite: Seq<u8>, vx: int, vy: int, cell: int) -> bool {
    sprite_bit(sprite, row_under(vy, cell), col_under(vx, cell))
}

/// The index of the display cell on which the pixel `(row, col)` of a sprite
/// drawn at `(vx, vy)` falls.
pub open spec fn cell_of(vx: int, vy: int, row: int, col: int) -> int {
    ((vy + row) % 32) * 64 + (vx + col) % 64
}

/// A display cell after a toggle.
pub open spec fn toggled(cell: u8) -> u8 {
    if cell == 0 {
        1
    } else {
        0
    }
}

/// The display after the sprite was XORed onto it at `(vx, vy)`.
pub open spec fn draw(display: Seq<u8>, sprite: Seq<u8>, vx: int, vy: int) -> Seq<u8> {
    Seq::new(
        display.len(),
        |k: int|
            if covers(sprite, vx, vy, k) {
                toggled(display[k])
            } else {
                display[k]
            },
    )
}

/// Whether drawing the sprite at `(vx, vy)` turns a lit cell dark.
pub open spec fn collides(display: Seq<u8>, sprite: Seq<u8>, vx: int, vy: int) -> bool {
    exists|k: int| 0 <= k < display.len() && #[trigger] covers(sprite, vx, vy, k) && display[k] != 0
}

/// Whether a pixel of the sprite that is drawn before the pixel `(row, col)`
/// falls on the cell, pixels being drawn row by row and, in a row, from the
/// left.
pub open spec fn covers_before(
    sprite: Seq<u8>,
    vx: int,
    vy: int,
    cell: int,
    row: int,
    col: int,
) -> bool {
    let r = row_under(vy, cell);
    let c = col_under(vx, cell);
    covers(sprite, vx, vy, cell) && (r < row || (r == row && c < col))
}

/// Coordinates wrap around the edges of the display: the pixel `(row, col)`
/// of a sprite drawn at `(vx, vy)` falls on the cell in row
/// `(vy + row) % 32` and column `(vx + col) % 64`, and on no other.
pub proof fn lemma_cell_of(vx: int, vy: int, row: int, col: int, cell: int)
    requires
        0 <= row < 32,
        0 <= col < 64,
        0 <= cell < 2048,
    ensures
        0 <= cell_of(vx, vy, row, col) < 2048,
        (row_under(vy, cell) == row && col_under(vx, cell) == col) <==> cell == cell_of(
            vx,
            vy,
            row,
            col,
        ),
{
}

} // verus!
