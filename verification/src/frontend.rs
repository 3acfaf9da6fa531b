//! What a front end computes around the console: window pixels and the verdict
//! of a test ROM.

use vstd::prelude::*;

use crate::cpu::{Halt, RunStop};

verus! {

/// A pixel as a window wants it: red, green and blue from bit 16 down, without
/// alpha.
#[verifier::allow_in_spec]
pub fn pixel_0rgb(r: u8, g: u8, b: u8) -> u32
    returns
        (r * 0x1_0000 + g * 0x100 + b) as u32,
{
    r as u32 * 0x1_0000 + g as u32 * 0x100 + b as u32
}

/// Converts a picture of four bytes per pixel to window pixels, as far as both
/// reach.
pub fn rgba_to_0rgb(rgba: &[u8], out: &mut [u32])
    ensures
        final(out)@ == Seq::new(
            old(out)@.len(),
            |i: int|
                if i < rgba@.len() / 4 {
                    pixel_0rgb(rgba@[i * 4], rgba@[i * 4 + 1], rgba@[i * 4 + 2])
                } else {
                    old(out)@[i]
                },
        ),
{
    let len: usize = rgba.len();
    let pixels: usize = len / 4;
    let mut i: usize = 0;
    while i < pixels && i < out.len()
        invariant
            len == rgba@.len(),
            pixels == len / 4,
            i <= pixels,
            i <= out@.len(),
            out@.len() == old(out)@.len(),
            forall|k: int|
                0 <= k < out@.len() ==> #[trigger] out@[k] == if k < i {
                    pixel_0rgb(rgba@[k * 4], rgba@[k * 4 + 1], rgba@[k * 4 + 2])
                } else {
                    old(out)@[k]
                },
        decreases pixels - i,
    {
        out[i] = pixel_0rgb(rgba[i * 4], rgba[i * 4 + 1], rgba[i * 4 + 2]);
        i = i + 1;
    }
}

/// The verdict of a test ROM. Such a ROM ends in a branch to itself and leaves
/// the number of the failed test in `r12`, or zero.
#[derive(Debug, Clone, Copy, PartialEq, Eq, Structural)]
pub enum Verdict {
    /// All tests passed.
    Passed {
        /// Address of the final branch.
        pc: u32,
    },
    /// A test failed.
    Failed {
        /// Its number.
        test: u32,
        /// Address of the final branch.
        pc: u32,
    },
    /// The run ended elsewhere.
    Undecided,
}

/// The verdict of a run of a test ROM.
#[verifier::allow_in_spec]
pub fn verdict(stop: RunStop, r12: u32) -> Verdict
    returns
        (match stop {
            RunStop::Halted(Halt::InfiniteLoop { pc, .. }) => if r12 == 0 {
                Verdict::Passed { pc }
            } else {
                Verdict::Failed { test: r12, pc }
            },
            _ => Verdict::Undecided,
        }),
{
    match stop {
        RunStop::Halted(Halt::InfiniteLoop { pc, .. }) => {
            if r12 == 0 {
                Verdict::Passed { pc }
            } else {
                Verdict::Failed { test: r12, pc }
            }
        },
        _ => Verdict::Undecided,
    }
}

} // verus!
