use vstd::prelude::*;

verus! {

/// Bytes in one RGBA frame of the display: four for each of the 2048 cells.
pub const FRAME_BYTES: usize = 8192;

/// Least number of milliseconds between two cycles, for sixty cycles a
/// second.
pub const FRAME_INTERVAL_MS: u64 = 16;

/// The colour channel value of a display cell: black for a dark cell, white
/// for a lit one.
pub open spec fn shade(cell: u8) -> u8 {
    if cell == 0 {
        0
    } else {
        255
    }
}

/// The RGBA byte at position `at` of the frame that shows `display`: the three
/// colour channels of a pixel hold the shade of its cell, and the fourth,
/// alpha, is opaque.
pub open spec fn frame_byte(display: Seq<u8>, at: int) -> u8 {
    if at % 4 == 3 {
        255
    } else {
        shade(display[at / 4])
    }
}

/// Paints the display into an RGBA frame, cell `k` at bytes `4 * k .. 4 * k + 4`.
/// Bytes of the frame past the first 8192 are left alone.
pub fn paint(display: &[u8; 2048], frame: &mut [u8])
    requires
        old(frame)@.len() >= 8192,
    ensures
        final(frame)@.len() == old(frame)@.len(),
        forall|at: int| 0 <= at < 8192 ==> final(frame)@[at] == frame_byte(display@, at),
        forall|at: int| 8192 <= at < old(frame)@.len() ==> final(frame)@[at] == old(frame)@[at],
{
    let mut idx: usize = 0;
    while idx < 2048
        invariant
            idx <= 2048,
            frame@.len() == old(frame)@.len(),
            frame@.len() >= 8192,
            forall|at: int| 0 <= at < 4 * idx ==> frame@[at] == frame_byte(display@, at),
            forall|at: int| 8192 <= at < frame@.len() ==> frame@[at] == old(frame)@[at],
        decreases 2048 - idx,
    {
        let fi = idx * 4;
        let rgb: u8 = if display[idx] == 0 {
            0
        } else {
            255
        };
        frame[fi] = rgb;
        frame[fi + 1] = rgb;
        frame[fi + 2] = rgb;
        frame[fi + 3] = 255;
        idx += 1;
    }
}

/// Whether the next cycle is due: more than sixteen milliseconds have passed
/// from `then` to `now`, both in milliseconds on one clock.
pub fn frame_due(now: u64, then: u64) -> (due: bool)
    ensures
        due == (now - then > 16),
{
    now > then && now - then > FRAME_INTERVAL_MS
}

} // verus!
