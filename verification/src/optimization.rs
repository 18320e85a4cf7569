//! Optimization governor: maps memory usage to a 0-100 urgency score
//! (in hundredths of a point), selects one of three optimization tiers,
//! and produces structured result records for every optimization path.

use vstd::prelude::*;
use vstd::arithmetic::div_mod::{
    lemma_div_is_ordered,
    lemma_div_multiples_vanish,
    lemma_div_nonincreasing,
    lemma_div_pos_is_pos,
};
use crate::MAX_APP_MEMORY_MB;
use crate::GPU_OFFLOAD_THRESHOLD_MB;
use crate::gpu::GpuContext;
use crate::gpu::GpuState;
use crate::gpu::OFFLOAD_BLOCK_BYTES;
use crate::gpu::active_offload_count;
use crate::gpu::compress_and_offload_memory;
use crate::gpu::clear_offloaded_data;
use crate::gpu::increment_optimization_count;

verus! {

/// GPU memory the simulation reports as in use, in megabytes.
pub const SIMULATED_GPU_MEMORY_MB: u64 = 512;

/// Host platform, as far as the synthetic acceleration figures care.
/// The caller supplies it; the governor's control logic never reads it.
#[derive(Clone, Copy, Debug, PartialEq, Eq, Structural)]
pub enum Platform {
    MacOs,
    Windows,
    Linux,
    Other,
}

/// Result record of one optimization, acceleration or benchmark pass.
/// `performance_gain` is in hundredths of a percent; `memory_saved_mb`
/// in megabytes; `execution_time_ms` is the wall-clock time the caller
/// measured around the pass and is never negative.
#[derive(Clone, Debug)]
pub struct GpuAccelerationResult {
    pub success: bool,
    pub performance_gain: u64,
    pub execution_time_ms: u64,
    pub memory_saved_mb: u64,
    pub used_gpu: bool,
    pub error_message: Option<String>,
    pub timestamp: u64,
    pub message: String,
    pub details: String,
}

/// Snapshot of the governor's memory bookkeeping. `optimization_score`
/// is in hundredths of a point on a 0-100 scale; sizes are megabytes.
#[derive(Clone, Copy, Debug, PartialEq, Eq, Structural)]
pub struct GpuMemoryStats {
    pub app_memory_mb: u64,
    pub gpu_memory_mb: u64,
    pub cpu_memory_mb: u64,
    pub total_offloaded_mb: u64,
    pub optimization_score: u64,
    pub last_optimization: u64,
    pub active_offloads: u32,
}

/// Urgency of optimizing at the given usage, in hundredths of a point:
/// 0 at or below the hard cap, rising linearly to 50.00 at the soft
/// threshold, then linearly beyond it, saturating at 100.00.
pub open spec fn urgency_spec(usage: int) -> int {
    let cap = MAX_APP_MEMORY_MB as int;
    let threshold = GPU_OFFLOAD_THRESHOLD_MB as int;
    if usage <= cap {
        0
    } else if usage <= threshold {
        (usage - cap) * 5000 / (threshold - cap)
    } else {
        let raw = 5000 + (usage - threshold) * 5000 / threshold;
        if raw >= 10000 {
            10000
        } else {
            raw
        }
    }
}

/// Megabytes the standard tier reports saved: the measured drop, or a
/// fixed fallback of 5 when no drop was measured.
pub open spec fn manual_saved_mb(start_mb: u64, end_mb: u64) -> int {
    if start_mb > end_mb {
        start_mb - end_mb
    } else {
        5
    }
}

/// Standard tier's gain in hundredths of a percent: saved over start,
/// or a fixed fallback of 25% on a degenerate start measurement.
pub open spec fn manual_gain_centi(start_mb: u64, end_mb: u64) -> int {
    if start_mb == 0 {
        2500
    } else {
        manual_saved_mb(start_mb, end_mb) * 10000 / (start_mb as int)
    }
}

/// Megabytes the advanced tier reports saved: the measured drop, or a
/// fixed fallback of 15 when no drop was measured.
pub open spec fn advanced_saved_mb(start_mb: u64, end_mb: u64) -> int {
    if start_mb > end_mb {
        start_mb - end_mb
    } else {
        15
    }
}

/// Advanced tier's gain in hundredths of a percent: 20% plus half the
/// reduction ratio `(start - end) / start` — negative when memory grew
/// during the pass, so the gain then falls below 20% — capped at 80%,
/// clamped at zero only because the record's gain field is unsigned,
/// or a fixed fallback of 35% on a degenerate start measurement.
pub open spec fn advanced_gain_centi(start_mb: u64, end_mb: u64) -> int {
    if start_mb == 0 {
        3500
    } else {
        let raw = 2000 + (start_mb - end_mb) * 5000 / (start_mb as int);
        if raw >= 8000 {
            8000
        } else if raw <= 0 {
            0
        } else {
            raw
        }
    }
}

/// Megabytes a cleanup pass reports saved: the measured drop, or a
/// fixed fallback of 10 when no drop was measured.
pub open spec fn cleanup_saved_mb(start_mb: u64, end_mb: u64) -> int {
    if start_mb > end_mb {
        start_mb - end_mb
    } else {
        10
    }
}

/// Synthetic acceleration multiplier for a platform, in hundredths
/// (100 is no speedup).
pub open spec fn acceleration_multiplier_centi(p: Platform) -> int {
    match p {
        Platform::MacOs => 250,
        Platform::Windows => 320,
        Platform::Linux => 280,
        Platform::Other => 100,
    }
}

/// Synthetic benchmark multiplier for a platform, in hundredths.
pub open spec fn benchmark_multiplier_centi(p: Platform) -> int {
    match p {
        Platform::MacOs => 230,
        Platform::Windows => 300,
        Platform::Linux => 270,
        Platform::Other => 100,
    }
}

/// Whether a platform's synthetic benchmark succeeds.
pub open spec fn benchmark_succeeds(p: Platform) -> bool {
    !(p is Other)
}

/// Whether usage is over the soft offload threshold.
pub fn is_memory_over_threshold(usage_mb: u64) -> (r: bool)
    ensures
        r == (usage_mb > GPU_OFFLOAD_THRESHOLD_MB),
{
    usage_mb > GPU_OFFLOAD_THRESHOLD_MB
}

/// Computes the urgency score for the given usage, in hundredths of a
/// point on the 0-100 scale.
pub fn calculate_optimization_urgency(usage_mb: u64) -> (r: u64)
    ensures
        r == urgency_spec(usage_mb as int),
{
    let cap = MAX_APP_MEMORY_MB;
    let threshold = GPU_OFFLOAD_THRESHOLD_MB;
    if usage_mb <= cap {
        0
    } else if usage_mb <= threshold {
        (usage_mb - cap) * 5000 / (threshold - cap)
    } else if usage_mb - threshold >= threshold {
        proof {
            lemma_div_is_ordered(
                (threshold as int) * 5000,
                (usage_mb - threshold) as int * 5000,
                threshold as int,
            );
            lemma_div_multiples_vanish(5000, threshold as int);
        }
        10000
    } else {
        proof {
            lemma_div_is_ordered(
                (usage_mb - threshold) as int * 5000,
                (threshold as int - 1) * 5000,
                threshold as int,
            );
        }
        5000 + (usage_mb - threshold) * 5000 / threshold
    }
}

/// The urgency score never leaves the 0-100 scale.
pub proof fn lemma_urgency_bounds(usage: int)
    ensures
        0 <= urgency_spec(usage) <= 10000,
{
    let cap = MAX_APP_MEMORY_MB as int;
    let threshold = GPU_OFFLOAD_THRESHOLD_MB as int;
    if usage <= cap {
    } else if usage <= threshold {
        lemma_div_pos_is_pos((usage - cap) * 5000, threshold - cap);
        lemma_div_is_ordered((usage - cap) * 5000, (threshold - cap) * 5000, threshold - cap);
        lemma_div_multiples_vanish(5000, threshold - cap);
    } else {
        lemma_div_pos_is_pos((usage - threshold) * 5000, threshold);
    }
}

/// The urgency score is exactly 0 at the hard cap and exactly 50.00 at
/// the soft threshold.
pub proof fn lemma_urgency_at_bounds()
    ensures
        urgency_spec(MAX_APP_MEMORY_MB as int) == 0,
        urgency_spec(GPU_OFFLOAD_THRESHOLD_MB as int) == 5000,
{
    let cap = MAX_APP_MEMORY_MB as int;
    let threshold = GPU_OFFLOAD_THRESHOLD_MB as int;
    lemma_div_multiples_vanish(5000, threshold - cap);
}

/// The urgency score saturates: from twice the soft threshold upward it
/// is exactly 100.00.
pub proof fn lemma_urgency_saturates(usage: int)
    requires
        usage >= 2 * GPU_OFFLOAD_THRESHOLD_MB,
    ensures
        urgency_spec(usage) == 10000,
{
    let threshold = GPU_OFFLOAD_THRESHOLD_MB as int;
    lemma_div_is_ordered(threshold * 5000, (usage - threshold) * 5000, threshold);
    lemma_div_multiples_vanish(5000, threshold);
}

/// How one automatic offload pass changes the governor's shared state:
/// one representative block enters the cache under the next key, the
/// byte counter grows by its size, and the lifecycle flags keep their
/// values.
pub open spec fn offload_step_rel(pre: GpuState, post: GpuState, now_ms: u64) -> bool {
    &&& post.entries.len() == pre.entries.len() + 1
    &&& post.entries == pre.entries.push(post.entries.last())
    &&& post.entries.last().size_bytes == OFFLOAD_BLOCK_BYTES
    &&& post.entries.last().created_at == now_ms
    &&& post.total_offloaded == pre.total_offloaded + OFFLOAD_BLOCK_BYTES
    &&& post.next_key == pre.next_key + 1
    &&& post.initialized == pre.initialized
    &&& post.monitoring_active == pre.monitoring_active
}

/// An automatic optimization pass: the offload step, plus one tick of
/// the optimization counter exactly when the measurements show a drop.
pub open spec fn automatic_optimize_rel(
    pre: GpuState,
    post: GpuState,
    start_mb: u64,
    end_mb: u64,
    now_ms: u64,
) -> bool {
    &&& offload_step_rel(pre, post, now_ms)
    &&& post.optimization_count == pre.optimization_count + (if start_mb > end_mb {
        1int
    } else {
        0int
    })
}

/// What the light tier's result record holds: a fixed small saving,
/// a fixed 10% gain, and no GPU involvement.
pub open spec fn light_record_ok(r: GpuAccelerationResult, elapsed_ms: u64, now_ms: u64) -> bool {
    &&& r.success
    &&& r.performance_gain == 1000
    &&& r.memory_saved_mb == 3
    &&& !r.used_gpu
    &&& r.error_message is None
    &&& r.execution_time_ms == elapsed_ms
    &&& r.timestamp == now_ms
    &&& r.message@ == "light optimization complete"@
}

/// What the standard tier's result record holds for the given
/// before/after measurements.
pub open spec fn manual_record_ok(
    r: GpuAccelerationResult,
    start_mb: u64,
    end_mb: u64,
    elapsed_ms: u64,
    now_ms: u64,
) -> bool {
    &&& r.success
    &&& r.performance_gain == manual_gain_centi(start_mb, end_mb)
    &&& r.memory_saved_mb == manual_saved_mb(start_mb, end_mb)
    &&& r.used_gpu
    &&& r.error_message is None
    &&& r.execution_time_ms == elapsed_ms
    &&& r.timestamp == now_ms
    &&& r.message@ == "memory optimization complete"@
}

/// What the advanced tier's result record holds for the given
/// before/after measurements.
pub open spec fn advanced_record_ok(
    r: GpuAccelerationResult,
    start_mb: u64,
    end_mb: u64,
    elapsed_ms: u64,
    now_ms: u64,
) -> bool {
    &&& r.success
    &&& r.performance_gain == advanced_gain_centi(start_mb, end_mb)
    &&& r.memory_saved_mb == advanced_saved_mb(start_mb, end_mb)
    &&& r.used_gpu
    &&& r.error_message is None
    &&& r.execution_time_ms == elapsed_ms
    &&& r.timestamp == now_ms
    &&& r.message@ == "advanced memory optimization complete"@
}

/// The urgency score is monotonically non-decreasing in usage.
pub proof fn lemma_urgency_monotone(u1: int, u2: int)
    requires
        u1 <= u2,
    ensures
        urgency_spec(u1) <= urgency_spec(u2),
{
    let cap = MAX_APP_MEMORY_MB as int;
    let threshold = GPU_OFFLOAD_THRESHOLD_MB as int;
    lemma_urgency_bounds(u1);
    lemma_urgency_bounds(u2);
    if u1 <= cap {
    } else if u2 <= threshold {
        // both in the middle band
        lemma_div_is_ordered((u1 - cap) * 5000, (u2 - cap) * 5000, threshold - cap);
    } else if u1 <= threshold {
        // u1 in the middle band, u2 above it
        lemma_div_is_ordered((u1 - cap) * 5000, (threshold - cap) * 5000, threshold - cap);
        lemma_div_multiples_vanish(5000, threshold - cap);
        lemma_div_pos_is_pos((u2 - threshold) * 5000, threshold);
    } else {
        // both above the threshold
        lemma_div_is_ordered((u1 - threshold) * 5000, (u2 - threshold) * 5000, threshold);
    }
}

/// Runs one automatic optimization pass: moves a representative block
/// into the offload cache and, when the before/after measurements show
/// a drop, counts the pass as an optimization. Always succeeds.
pub fn perform_automatic_memory_optimization(
    ctx: &mut GpuContext,
    start_mb: u64,
    end_mb: u64,
    now_ms: u64,
) -> (optimized: bool)
    requires
        old(ctx).wf(),
        old(ctx).total_offloaded() + OFFLOAD_BLOCK_BYTES <= u64::MAX,
        old(ctx).next_key() < u64::MAX,
        old(ctx).optimization_count() < u64::MAX,
    ensures
        optimized,
        final(ctx).wf(),
        automatic_optimize_rel(old(ctx).state(), final(ctx).state(), start_mb, end_mb, now_ms),
{
    let optimized = compress_and_offload_memory(ctx, now_ms);
    if start_mb > end_mb {
        increment_optimization_count(ctx);
    }
    optimized
}

/// Light tier: no cache mutation, a fixed small synthetic saving, and
/// no GPU involvement.
pub fn perform_light_optimization(elapsed_ms: u64, now_ms: u64) -> (r: GpuAccelerationResult)
    ensures
        light_record_ok(r, elapsed_ms, now_ms),
{
    GpuAccelerationResult {
        success: true,
        performance_gain: 1000,
        execution_time_ms: elapsed_ms,
        memory_saved_mb: 3,
        used_gpu: false,
        error_message: None,
        timestamp: now_ms,
        message: "light optimization complete".to_owned(),
        details: "cpu-side cleanup of transient buffers".to_owned(),
    }
}

/// Computes `saved * 10000 / start`, the gain of a pass in hundredths
/// of a percent; with `saved` either the measured drop or a small
/// fallback, the quotient always fits a `u64`.
fn gain_quotient(saved_mb: u64, start_mb: u64) -> (r: u64)
    requires
        start_mb > 0,
        saved_mb <= start_mb || saved_mb <= 15,
    ensures
        r == saved_mb * 10000 / (start_mb as int),
{
    proof {
        if saved_mb <= start_mb {
            lemma_div_is_ordered(
                saved_mb as int * 10000,
                start_mb as int * 10000,
                start_mb as int,
            );
            lemma_div_multiples_vanish(10000, start_mb as int);
        } else {
            lemma_div_nonincreasing(saved_mb as int * 10000, start_mb as int);
        }
    }
    let q: u128 = (saved_mb as u128) * 10000 / (start_mb as u128);
    q as u64
}

/// Standard tier: runs one automatic optimization pass and reports the
/// measured saving (or its fallback) and the gain relative to the
/// starting measurement (or its fallback when the start is degenerate).
pub fn perform_manual_optimization(
    ctx: &mut GpuContext,
    start_mb: u64,
    end_mb: u64,
    elapsed_ms: u64,
    now_ms: u64,
) -> (r: GpuAccelerationResult)
    requires
        old(ctx).wf(),
        old(ctx).total_offloaded() + OFFLOAD_BLOCK_BYTES <= u64::MAX,
        old(ctx).next_key() < u64::MAX,
        old(ctx).optimization_count() < u64::MAX,
    ensures
        final(ctx).wf(),
        automatic_optimize_rel(old(ctx).state(), final(ctx).state(), start_mb, end_mb, now_ms),
        manual_record_ok(r, start_mb, end_mb, elapsed_ms, now_ms),
{
    perform_automatic_memory_optimization(ctx, start_mb, end_mb, now_ms);

    let memory_saved: u64 = if start_mb > end_mb {
        start_mb - end_mb
    } else {
        5
    };
    let performance_gain: u64 = if start_mb > 0 {
        gain_quotient(memory_saved, start_mb)
    } else {
        2500
    };

    GpuAccelerationResult {
        success: true,
        performance_gain,
        execution_time_ms: elapsed_ms,
        memory_saved_mb: memory_saved,
        used_gpu: true,
        error_message: None,
        timestamp: now_ms,
        message: "memory optimization complete".to_owned(),
        details: "one representative block offloaded to the cache".to_owned(),
    }
}

/// Euclidean division of a negated non-negative value: `(-y) / s` is
/// the negated ceiling of `y / s`.
proof fn lemma_neg_div_is_neg_ceil(y: int, s: int)
    requires
        y >= 0,
        s > 0,
    ensures
        (-y) / s == -((y + s - 1) / s),
{
    vstd::arithmetic::div_mod::lemma_fundamental_div_mod(y, s);
    let q = y / s;
    let r = y % s;
    if r == 0 {
        lemma_div_multiples_vanish(-q, s);
        assert(-y == s * (-q)) by (nonlinear_arith)
            requires y == s * q + r && r == 0;
        vstd::arithmetic::div_mod::lemma_div_multiples_vanish_fancy(q, s - 1, s);
        assert(y + s - 1 == s * q + (s - 1));
    } else {
        vstd::arithmetic::div_mod::lemma_div_multiples_vanish_fancy(-q - 1, s - r, s);
        assert(s * (-q - 1) + (s - r) == -y) by (nonlinear_arith)
            requires y == s * q + r;
        vstd::arithmetic::div_mod::lemma_div_multiples_vanish_fancy(q + 1, r - 1, s);
        assert(s * (q + 1) + (r - 1) == y + s - 1) by (nonlinear_arith)
            requires y == s * q + r;
    }
}

/// Advanced tier: a fixed three-stage sequence — basic cleanup, cache
/// offload, compression pass — reporting the measured saving (or its
/// fallback) and a gain of 20% plus half the reduction ratio, capped
/// at 80% and clamped at zero.
pub fn advanced_memory_optimization(
    ctx: &mut GpuContext,
    start_mb: u64,
    end_mb: u64,
    elapsed_ms: u64,
    now_ms: u64,
) -> (r: GpuAccelerationResult)
    requires
        old(ctx).wf(),
        old(ctx).total_offloaded() + OFFLOAD_BLOCK_BYTES <= u64::MAX,
        old(ctx).next_key() < u64::MAX,
    ensures
        final(ctx).wf(),
        offload_step_rel(old(ctx).state(), final(ctx).state(), now_ms),
        final(ctx).optimization_count() == old(ctx).optimization_count(),
        advanced_record_ok(r, start_mb, end_mb, elapsed_ms, now_ms),
{
    // Stage 1, basic cleanup, and stage 3, the compression pass, touch
    // only process-local scratch memory; stage 2 moves a block into the
    // offload cache.
    compress_and_offload_memory(ctx, now_ms);

    let memory_saved: u64 = if start_mb > end_mb {
        start_mb - end_mb
    } else {
        15
    };
    let performance_gain: u64 = if start_mb == 0 {
        3500
    } else if start_mb > end_mb {
        proof {
            lemma_div_is_ordered(
                (start_mb - end_mb) as int * 5000,
                start_mb as int * 5000,
                start_mb as int,
            );
            lemma_div_multiples_vanish(5000, start_mb as int);
        }
        let bonus_wide: u128 = ((start_mb - end_mb) as u128) * 5000 / (start_mb as u128);
        let bonus = bonus_wide as u64;
        if 2000 + bonus >= 8000 {
            8000
        } else {
            2000 + bonus
        }
    } else {
        // memory grew (or held): the reduction ratio is non-positive,
        // and Euclidean division floors it, so the deficit below 20%
        // is the ceiling of the grown share
        proof {
            lemma_neg_div_is_neg_ceil((end_mb - start_mb) as int * 5000, start_mb as int);
        }
        let grown: u128 = ((end_mb - start_mb) as u128) * 5000;
        let deficit = (grown + start_mb as u128 - 1) / (start_mb as u128);
        if deficit >= 2000 {
            0
        } else {
            2000 - (deficit as u64)
        }
    };

    GpuAccelerationResult {
        success: true,
        performance_gain,
        execution_time_ms: elapsed_ms,
        memory_saved_mb: memory_saved,
        used_gpu: true,
        error_message: None,
        timestamp: now_ms,
        message: "advanced memory optimization complete".to_owned(),
        details: "basic cleanup, cache offload and compression pass".to_owned(),
    }
}

/// Adaptive path: selects the tier by the urgency of the given usage —
/// light below 25.00, standard from 25.00 up to 75.00, advanced from
/// 75.00 — and returns that tier's result record.
pub fn adaptive_optimization(
    ctx: &mut GpuContext,
    usage_mb: u64,
    start_mb: u64,
    end_mb: u64,
    elapsed_ms: u64,
    now_ms: u64,
) -> (r: GpuAccelerationResult)
    requires
        old(ctx).wf(),
        urgency_spec(usage_mb as int) >= 2500 ==> {
            &&& old(ctx).total_offloaded() + OFFLOAD_BLOCK_BYTES <= u64::MAX
            &&& old(ctx).next_key() < u64::MAX
        },
        2500 <= urgency_spec(usage_mb as int) < 7500 ==> old(ctx).optimization_count()
            < u64::MAX,
    ensures
        final(ctx).wf(),
        urgency_spec(usage_mb as int) < 2500 ==> {
            &&& *final(ctx) == *old(ctx)
            &&& light_record_ok(r, elapsed_ms, now_ms)
        },
        2500 <= urgency_spec(usage_mb as int) < 7500 ==> {
            &&& automatic_optimize_rel(
                old(ctx).state(),
                final(ctx).state(),
                start_mb,
                end_mb,
                now_ms,
            )
            &&& manual_record_ok(r, start_mb, end_mb, elapsed_ms, now_ms)
        },
        urgency_spec(usage_mb as int) >= 7500 ==> {
            &&& offload_step_rel(old(ctx).state(), final(ctx).state(), now_ms)
            &&& final(ctx).optimization_count() == old(ctx).optimization_count()
            &&& advanced_record_ok(r, start_mb, end_mb, elapsed_ms, now_ms)
        },
{
    let urgency = calculate_optimization_urgency(usage_mb);
    if urgency < 2500 {
        perform_light_optimization(elapsed_ms, now_ms)
    } else if urgency < 7500 {
        perform_manual_optimization(ctx, start_mb, end_mb, elapsed_ms, now_ms)
    } else {
        advanced_memory_optimization(ctx, start_mb, end_mb, elapsed_ms, now_ms)
    }
}

/// Empties the offload cache, zeroes the offloaded-byte counter, and
/// reports the measured saving (or a fixed fallback of 10 MB) with a
/// fixed 15% gain.
pub fn cleanup_gpu_memory(
    ctx: &mut GpuContext,
    start_mb: u64,
    end_mb: u64,
    elapsed_ms: u64,
    now_ms: u64,
) -> (r: GpuAccelerationResult)
    ensures
        final(ctx).wf(),
        final(ctx).entries() == Seq::<crate::gpu::OffloadedData>::empty(),
        final(ctx).total_offloaded() == 0,
        final(ctx).next_key() == old(ctx).next_key(),
        final(ctx).optimization_count() == old(ctx).optimization_count(),
        final(ctx).initialized() == old(ctx).initialized(),
        final(ctx).monitoring_active() == old(ctx).monitoring_active(),
        r.success,
        r.performance_gain == 1500,
        r.memory_saved_mb == cleanup_saved_mb(start_mb, end_mb),
        r.used_gpu,
        r.error_message is None,
        r.execution_time_ms == elapsed_ms,
        r.timestamp == now_ms,
        r.message@ == "memory cleanup complete"@,
{
    clear_offloaded_data(ctx);

    let memory_saved: u64 = if start_mb > end_mb {
        start_mb - end_mb
    } else {
        10
    };

    GpuAccelerationResult {
        success: true,
        performance_gain: 1500,
        execution_time_ms: elapsed_ms,
        memory_saved_mb: memory_saved,
        used_gpu: true,
        error_message: None,
        timestamp: now_ms,
        message: "memory cleanup complete".to_owned(),
        details: "offload cache emptied and byte counter zeroed".to_owned(),
    }
}

struct AccelerationOutcome {
    success: bool,
    multiplier_centi: u64,
}

/// Synthetic platform-specific acceleration figures; no real kernels
/// run anywhere in the governor.
fn simulate_gpu_acceleration(platform: Platform) -> (r: AccelerationOutcome)
    ensures
        r.multiplier_centi == acceleration_multiplier_centi(platform),
        r.success == !(platform is Other),
{
    match platform {
        Platform::MacOs => AccelerationOutcome { success: true, multiplier_centi: 250 },
        Platform::Windows => AccelerationOutcome { success: true, multiplier_centi: 320 },
        Platform::Linux => AccelerationOutcome { success: true, multiplier_centi: 280 },
        Platform::Other => AccelerationOutcome { success: false, multiplier_centi: 100 },
    }
}

struct BenchmarkOutcome {
    success: bool,
    multiplier_centi: u64,
}

/// Synthetic platform-specific benchmark figures.
fn execute_gpu_benchmark(platform: Platform) -> (r: BenchmarkOutcome)
    ensures
        r.multiplier_centi == benchmark_multiplier_centi(platform),
        r.success == benchmark_succeeds(platform),
{
    match platform {
        Platform::MacOs => BenchmarkOutcome { success: true, multiplier_centi: 230 },
        Platform::Windows => BenchmarkOutcome { success: true, multiplier_centi: 300 },
        Platform::Linux => BenchmarkOutcome { success: true, multiplier_centi: 270 },
        Platform::Other => BenchmarkOutcome { success: false, multiplier_centi: 100 },
    }
}

/// Reports a synthetic acceleration run for the given platform: the
/// gain is the platform's multiplier over baseline, as hundredths of a
/// percent, with a fixed small saving.
pub fn run_acceleration_task(platform: Platform, elapsed_ms: u64, now_ms: u64) -> (r:
    GpuAccelerationResult)
    ensures
        r.success,
        r.performance_gain == (acceleration_multiplier_centi(platform) - 100) * 100,
        r.memory_saved_mb == 5,
        r.used_gpu,
        r.error_message is None,
        r.execution_time_ms == elapsed_ms,
        r.timestamp == now_ms,
        r.message@ == "gpu acceleration complete"@,
{
    let outcome = simulate_gpu_acceleration(platform);
    GpuAccelerationResult {
        success: true,
        performance_gain: (outcome.multiplier_centi - 100) * 100,
        execution_time_ms: elapsed_ms,
        memory_saved_mb: 5,
        used_gpu: true,
        error_message: None,
        timestamp: now_ms,
        message: "gpu acceleration complete".to_owned(),
        details: "synthetic platform acceleration figures".to_owned(),
    }
}

/// Reports a synthetic benchmark run for the given platform; the run
/// fails exactly on a platform without synthetic figures, and then
/// carries an error message.
pub fn run_benchmark(platform: Platform, elapsed_ms: u64, now_ms: u64) -> (r:
    GpuAccelerationResult)
    ensures
        r.success == benchmark_succeeds(platform),
        r.performance_gain == (benchmark_multiplier_centi(platform) - 100) * 100,
        r.memory_saved_mb == 0,
        r.used_gpu,
        r.success <==> r.error_message is None,
        r.execution_time_ms == elapsed_ms,
        r.timestamp == now_ms,
        r.message@ == "gpu benchmark complete"@,
{
    let outcome = execute_gpu_benchmark(platform);
    let error_message: Option<String> = if outcome.success {
        None
    } else {
        Some("benchmark failed".to_owned())
    };
    GpuAccelerationResult {
        success: outcome.success,
        performance_gain: (outcome.multiplier_centi - 100) * 100,
        execution_time_ms: elapsed_ms,
        memory_saved_mb: 0,
        used_gpu: true,
        error_message,
        timestamp: now_ms,
        message: "gpu benchmark complete".to_owned(),
        details: "synthetic platform benchmark figures".to_owned(),
    }
}

/// Reports fixed synthetic profiling scores (75, 80 and 85 on the
/// 0-100 scale for CPU, memory and GPU) and their mean as the gain.
pub fn profile_system_performance(elapsed_ms: u64, now_ms: u64) -> (r: GpuAccelerationResult)
    ensures
        r.success,
        r.performance_gain == 8000,
        r.memory_saved_mb == 0,
        r.used_gpu,
        r.error_message is None,
        r.execution_time_ms == elapsed_ms,
        r.timestamp == now_ms,
        r.message@ == "system performance profile complete"@,
{
    let cpu_score: u64 = 7500;
    let memory_score: u64 = 8000;
    let gpu_score: u64 = 8500;
    let overall = (cpu_score + memory_score + gpu_score) / 3;
    GpuAccelerationResult {
        success: true,
        performance_gain: overall,
        execution_time_ms: elapsed_ms,
        memory_saved_mb: 0,
        used_gpu: true,
        error_message: None,
        timestamp: now_ms,
        message: "system performance profile complete".to_owned(),
        details: "synthetic cpu, memory and gpu scores".to_owned(),
    }
}

/// Snapshot of the governor's memory bookkeeping for the given
/// application usage: the simulated GPU share, the CPU remainder, the
/// offloaded total in whole megabytes, and a 0-100 score (in
/// hundredths) of how far usage sits under the hard cap.
pub fn get_memory_statistics(ctx: &GpuContext, app_memory_mb: u64, now_s: u64) -> (r:
    GpuMemoryStats)
    requires
        ctx.entries().len() <= u32::MAX,
    ensures
        r.app_memory_mb == app_memory_mb,
        r.gpu_memory_mb == SIMULATED_GPU_MEMORY_MB,
        r.cpu_memory_mb == if app_memory_mb > SIMULATED_GPU_MEMORY_MB {
            app_memory_mb - SIMULATED_GPU_MEMORY_MB
        } else {
            0int
        },
        r.total_offloaded_mb == ctx.total_offloaded() as int / (1024int * 1024int),
        r.optimization_score == if app_memory_mb == 0 {
            10000int
        } else if MAX_APP_MEMORY_MB * 10000 / (app_memory_mb as int) >= 10000 {
            10000int
        } else {
            MAX_APP_MEMORY_MB * 10000 / (app_memory_mb as int)
        },
        r.last_optimization == now_s,
        r.active_offloads == ctx.entries().len(),
{
    let cpu_memory_mb = if app_memory_mb > SIMULATED_GPU_MEMORY_MB {
        app_memory_mb - SIMULATED_GPU_MEMORY_MB
    } else {
        0
    };
    let total_offloaded_mb = crate::gpu::get_total_offloaded_memory(ctx) / (1024 * 1024);
    let optimization_score = if app_memory_mb == 0 {
        10000
    } else {
        let s = MAX_APP_MEMORY_MB * 10000 / app_memory_mb;
        if s >= 10000 {
            10000
        } else {
            s
        }
    };
    GpuMemoryStats {
        app_memory_mb,
        gpu_memory_mb: SIMULATED_GPU_MEMORY_MB,
        cpu_memory_mb,
        total_offloaded_mb,
        optimization_score,
        last_optimization: now_s,
        active_offloads: active_offload_count(ctx) as u32,
    }
}

/// Whether the background monitor loop should run another poll.
pub fn monitor_should_continue(ctx: &GpuContext) -> (r: bool)
    ensures
        r == ctx.monitoring_active(),
{
    crate::gpu::monitoring_is_active(ctx)
}

/// One poll of the background monitor loop: when the sampled usage
/// exceeds the hard cap, runs the automatic optimization pass;
/// otherwise leaves the state untouched. A second measurement taken
/// after the pass decides whether the pass counts as an optimization.
pub fn monitor_tick(ctx: &mut GpuContext, usage_mb: u64, end_mb: u64, now_ms: u64) -> (optimized:
    bool)
    requires
        old(ctx).wf(),
        usage_mb > MAX_APP_MEMORY_MB ==> {
            &&& old(ctx).total_offloaded() + OFFLOAD_BLOCK_BYTES <= u64::MAX
            &&& old(ctx).next_key() < u64::MAX
            &&& old(ctx).optimization_count() < u64::MAX
        },
    ensures
        final(ctx).wf(),
        optimized == (usage_mb > MAX_APP_MEMORY_MB),
        !optimized ==> *final(ctx) == *old(ctx),
        optimized ==> automatic_optimize_rel(
            old(ctx).state(),
            final(ctx).state(),
            usage_mb,
            end_mb,
            now_ms,
        ),
{
    if usage_mb > MAX_APP_MEMORY_MB {
        perform_automatic_memory_optimization(ctx, usage_mb, end_mb, now_ms);
        true
    } else {
        false
    }
}

} // verus!
