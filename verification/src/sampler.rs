//! The CPU sampling protocol.
//!
//! Instantaneous CPU usage is only meaningful as a delta over elapsed
//! wall-clock time, so one sample takes two provider readings: a baseline
//! refresh, a blocking wait for the configured interval (zero is permitted,
//! it merely yields a noisy reading), and a second refresh whose per-core
//! and global percentages cover the work done strictly within that window.
//! The refreshes and the wait are operating-system calls and belong to the
//! embedding program; this module fixes the one decision of the protocol:
//! the reported sample is the post-wait reading and nothing else, so the
//! baseline can never leak into the output.

use vstd::prelude::*;

use crate::normalize::cpu_value;
use crate::records::{CpuReading, CpuSample};

verus! {

/// The sample that one two-point measurement yields: the post-wait reading,
/// annotated with the physical core count where the platform exposes it.
pub open spec fn spec_sample(
    baseline: CpuReading,
    post: CpuReading,
    physical_core_count: Option<u64>,
) -> CpuSample {
    CpuSample { physical_core_count, reading: post }
}

/// Close one sampling window: consume the baseline reading and the
/// post-wait reading, and report the post-wait one.
pub fn sample_cpu(baseline: CpuReading, post: CpuReading, physical_core_count: Option<u64>) -> (r:
    CpuSample)
    ensures
        r == spec_sample(baseline, post, physical_core_count),
{
    let _discarded = baseline;
    CpuSample { physical_core_count, reading: post }
}

/// Law: the usage a sample reports is a deterministic function of the
/// post-wait reading alone. Two samplings that read the same post-wait
/// values yield the same sample and the same rendered payload, whatever
/// their baselines were and however much wall-clock time passed outside the
/// window.
pub proof fn law_sample_window_independence(
    b1: CpuReading,
    b2: CpuReading,
    post: CpuReading,
    physical_core_count: Option<u64>,
)
    ensures
        spec_sample(b1, post, physical_core_count) == spec_sample(b2, post, physical_core_count),
        cpu_value(spec_sample(b1, post, physical_core_count)) == cpu_value(
            spec_sample(b2, post, physical_core_count),
        ),
{
}

} // verus!
