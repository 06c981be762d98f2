//! Made-up concentrations, for running without a device.

use vstd::prelude::*;
use crate::machine::{mock_ppm, MOCK_FLOOR_PPM, MOCK_SPAN_PPM};

verus! {

/// Draws one byte with `rand::random::<u8>`, from the generator that rand
/// keeps for the thread. Nothing is claimed of the byte: any may come.
/// rand itself panics where the system gives the generator no seed.
#[verifier::external_body]
pub(crate) fn random_byte() -> u8 {
    rand::random::<u8>()
}

/// The concentration that a mock sensor makes of the byte `draw`: the
/// floor of the band plus the byte's remainder by the band's width.
pub fn synthetic_ppm(draw: u8) -> (ppm: u32)
    ensures
        ppm == mock_ppm(draw),
        MOCK_FLOOR_PPM <= ppm < MOCK_FLOOR_PPM + MOCK_SPAN_PPM,
{
    MOCK_FLOOR_PPM + (draw % (MOCK_SPAN_PPM as u8)) as u32
}

} // verus!
