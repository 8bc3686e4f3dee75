use vstd::prelude::*;

verus! {

/// How many cells of a volume bar of `height` rows are filled for a volume in
/// 0..=100: the volume's share of the height, rounded half-up, capped at the
/// height.
pub open spec fn spec_filled_cells(volume: int, height: int) -> int {
    let f = (volume * height + 50) / 100;
    if f <= height {
        f
    } else {
        height
    }
}

/// Compute the filled portion of a channel's volume bar.
pub fn filled_cells(volume: u8, height: u16) -> (r: u16)
    ensures
        r as int == spec_filled_cells(volume as int, height as int),
{
    proof {
        assert(volume as int * height as int <= 255 * 65535) by (nonlinear_arith)
            requires
                volume <= 255,
                height <= 65535,
        ;
    }
    let f = (volume as u32 * height as u32 + 50) / 100;
    let f = if f <= height as u32 {
        f
    } else {
        height as u32
    };
    f as u16
}

} // verus!
