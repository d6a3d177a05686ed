//! Canonical samples and conversion from raw integer encodings.
//!
//! A canonical sample is a fixed-point `i32`: `SAMPLE_SCALE` stands for an
//! amplitude of 1.0, `-SAMPLE_SCALE` for -1.0. A 16-bit signed sample `s`
//! denotes the amplitude `s / 32768`, so its canonical value is
//! `s * (SAMPLE_SCALE / 32768)`, which is exact.

use vstd::prelude::*;

verus! {

/// The canonical fixed-point value that stands for an amplitude of 1.0.
pub const SAMPLE_SCALE: i32 = 0x0100_0000;

/// Canonical value of one 16-bit signed sample: `s / 32768` in fixed point.
pub open spec fn canonical_of_i16(s: i16) -> i32 {
    (s * 512) as i32
}

/// Convert one 16-bit signed sample to its canonical fixed-point value.
pub fn convert_i16(s: i16) -> (r: i32)
    ensures
        r == canonical_of_i16(s),
{
    (s as i32) * 512
}

/// Convert a buffer of 16-bit signed samples to canonical fixed point,
/// in order. Every 16-bit sample converts exactly, so none is skipped.
pub fn convert_i16_buffer(raw: &Vec<i16>) -> (out: Vec<i32>)
    ensures
        out@ == Seq::new(raw@.len(), |i: int| canonical_of_i16(raw@[i])),
{
    let mut out: Vec<i32> = Vec::new();
    let mut i: usize = 0;
    while i < raw.len()
        invariant
            i <= raw@.len(),
            out@ =~= Seq::new(i as nat, |j: int| canonical_of_i16(raw@[j])),
        decreases raw@.len() - i,
    {
        out.push(convert_i16(raw[i]));
        i = i + 1;
    }
    proof {
        assert(out@ =~= Seq::new(raw@.len(), |i: int| canonical_of_i16(raw@[i])));
    }
    out
}

} // verus!
