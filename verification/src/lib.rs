//! Core of a service that trims inaudible gaps out of video files.
//!
//! The library owns the job lifecycle: parsing the encoder's analysis and
//! progress output, deriving the audible intervals and the filter script,
//! driving each job's status machine, and deciding which finished jobs and
//! stale files a periodic sweep removes. All I/O (process spawning, the HTTP
//! surface, the filesystem) lives outside the library and hands it plain
//! values.

use vstd::prelude::*;

pub mod analysis;
pub mod avg;
pub mod buildcfg;
pub mod config;
pub mod ffmpeg;
pub mod manager;
pub mod probe;
pub mod shared;
pub mod task;
pub mod templates;
pub mod upload;
pub mod text;
pub mod video;
pub mod waveform;
pub mod yc;

verus! {

/// Scale of the fixed-point progress values: one unit is a millionth.
pub const PROGRESS_UNIT: u64 = 1_000_000;

/// Progress of a finished encode, in millionths.
pub open spec fn full_progress() -> u64 {
    1_000_000
}

/// Compute the progress of an encode, in millionths of the expected output
/// playtime, clamped so that a value past the end reads as complete.
pub fn progress_millionths(out_time_us: u64, playtime_us: u64) -> (r: u64)
    requires
        playtime_us > 0,
    ensures
        r == spec_progress(out_time_us as int, playtime_us as int),
        r <= full_progress(),
{
    if out_time_us >= playtime_us {
        1_000_000
    } else {
        let wide: u128 = (out_time_us as u128) * 1_000_000u128;
        let q: u128 = wide / (playtime_us as u128);
        proof {
            vstd::arithmetic::mul::lemma_mul_strict_inequality(
                out_time_us as int,
                playtime_us as int,
                1_000_000,
            );
            vstd::arithmetic::div_mod::lemma_multiply_divide_lt(
                out_time_us as int * 1_000_000,
                playtime_us as int,
                1_000_000,
            );
        }
        q as u64
    }
}

/// What `progress_millionths` returns: the scaled quotient, clamped to 1.0.
pub open spec fn spec_progress(out_time_us: int, playtime_us: int) -> int {
    if out_time_us >= playtime_us {
        1_000_000
    } else {
        out_time_us * 1_000_000 / playtime_us
    }
}

} // verus!
