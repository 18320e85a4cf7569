//! Offload cache and shared governor state: a keyed store of deferred
//! payloads, the process-wide offloaded-byte and optimization counters,
//! and the background monitor's lifecycle flags.

use vstd::prelude::*;

verus! {

/// Size in bytes of the representative block that an automatic
/// optimization pass moves into the offload cache.
pub const OFFLOAD_BLOCK_BYTES: usize = 10 * 1024 * 1024;

/// Priority given to the representative block of an automatic
/// optimization pass (mid-scale on 0-255).
pub const OFFLOAD_BLOCK_PRIORITY: u8 = 128;

/// One deferred payload held by the offload cache. `size_bytes` always
/// equals the payload's length; `created_at` is in milliseconds since
/// the epoch, supplied by the caller; keys are synthesized by the cache
/// and never reused.
#[derive(Debug)]
pub struct OffloadedData {
    pub key: u64,
    pub data: Vec<u8>,
    pub size_bytes: u64,
    pub created_at: u64,
    pub access_count: u64,
    pub priority: u8,
}

/// The governor's shared state: lifecycle flags of the background
/// monitor, the offload cache, and the process-wide counters that the
/// monitor loop and caller-initiated optimizations both touch.
pub struct GpuContext {
    initialized: bool,
    monitoring_active: bool,
    total_offloaded: u64,
    optimization_count: u64,
    next_key: u64,
    entries: Vec<OffloadedData>,
}

/// Sum of the entries' sizes in bytes, as an unbounded integer.
pub open spec fn sum_sizes(s: Seq<OffloadedData>) -> int
    decreases s.len(),
{
    if s.len() == 0 {
        0
    } else {
        sum_sizes(s.drop_last()) + s.last().size_bytes
    }
}

/// Sum of the entries' access counts, as an unbounded integer.
pub open spec fn sum_access(s: Seq<OffloadedData>) -> int
    decreases s.len(),
{
    if s.len() == 0 {
        0
    } else {
        sum_access(s.drop_last()) + s.last().access_count
    }
}

/// Whether an entry's age in whole seconds exceeds the given bound.
pub open spec fn entry_expired(e: OffloadedData, max_age_seconds: u64, now_ms: u64) -> bool {
    e.created_at < now_ms && (now_ms - e.created_at) / 1000 > max_age_seconds
}

/// The entries that an eviction pass with the given bound keeps, in
/// their original order.
pub open spec fn live_entries(s: Seq<OffloadedData>, max_age_seconds: u64, now_ms: u64) -> Seq<
    OffloadedData,
>
    decreases s.len(),
{
    if s.len() == 0 {
        Seq::empty()
    } else {
        let rest = live_entries(s.drop_last(), max_age_seconds, now_ms);
        if entry_expired(s.last(), max_age_seconds, now_ms) {
            rest
        } else {
            rest.push(s.last())
        }
    }
}

proof fn lemma_sum_sizes_nonneg(s: Seq<OffloadedData>)
    ensures
        0 <= sum_sizes(s),
    decreases s.len(),
{
    if s.len() > 0 {
        lemma_sum_sizes_nonneg(s.drop_last());
    }
}

/// Peeling the first entry off a non-empty sequence splits its size sum.
proof fn lemma_sum_sizes_first(s: Seq<OffloadedData>)
    requires
        s.len() > 0,
    ensures
        sum_sizes(s) == s[0].size_bytes + sum_sizes(s.drop_first()),
    decreases s.len(),
{
    if s.len() == 1 {
        assert(s.drop_first() =~= s.drop_last());
    } else {
        lemma_sum_sizes_first(s.drop_last());
        assert(s.drop_last().drop_first() =~= s.drop_first().drop_last());
        assert(s.drop_first().last() == s.last());
    }
}

proof fn lemma_sum_access_bound(s: Seq<OffloadedData>)
    ensures
        0 <= sum_access(s) <= s.len() * (u64::MAX as int),
    decreases s.len(),
{
    if s.len() > 0 {
        lemma_sum_access_bound(s.drop_last());
        assert((s.len() - 1) * (u64::MAX as int) + u64::MAX == s.len() * (u64::MAX as int))
            by (nonlinear_arith);
    }
}

/// Sum of the access counts of the first `i + 1` entries extends the
/// sum over the first `i`.
proof fn lemma_sum_access_take_step(s: Seq<OffloadedData>, i: int)
    requires
        0 <= i < s.len(),
    ensures
        sum_access(s.take(i + 1)) == sum_access(s.take(i)) + s[i].access_count,
{
    assert(s.take(i + 1).drop_last() =~= s.take(i));
    assert(s.take(i + 1).last() == s[i]);
}

/// Mathematical view of the governor's shared state.
#[verifier::ext_equal]
pub struct GpuState {
    pub initialized: bool,
    pub monitoring_active: bool,
    pub total_offloaded: u64,
    pub optimization_count: u64,
    pub next_key: u64,
    pub entries: Seq<OffloadedData>,
}

impl GpuState {
    /// State after an (idempotent) start of the monitor subsystem.
    pub open spec fn start_model(self) -> GpuState {
        if self.initialized {
            self
        } else {
            GpuState { initialized: true, monitoring_active: true, ..self }
        }
    }

    /// State after an (idempotent) stop of the monitor subsystem:
    /// flags cleared, the cache emptied, the byte counter zeroed.
    pub open spec fn stop_model(self) -> GpuState {
        if !self.initialized {
            self
        } else {
            GpuState {
                initialized: false,
                monitoring_active: false,
                total_offloaded: 0,
                entries: Seq::empty(),
                ..self
            }
        }
    }
}

impl GpuContext {
    /// Mathematical view of this state.
    pub closed spec fn state(self) -> GpuState {
        GpuState {
            initialized: self.initialized,
            monitoring_active: self.monitoring_active,
            total_offloaded: self.total_offloaded,
            optimization_count: self.optimization_count,
            next_key: self.next_key,
            entries: self.entries@,
        }
    }

    /// Whether the monitor subsystem has been started.
    pub open spec fn initialized(self) -> bool {
        self.state().initialized
    }

    /// Whether the background monitor loop should keep polling.
    pub open spec fn monitoring_active(self) -> bool {
        self.state().monitoring_active
    }

    /// The process-wide offloaded-byte counter.
    pub open spec fn total_offloaded(self) -> u64 {
        self.state().total_offloaded
    }

    /// How many optimization passes have saved memory so far.
    pub open spec fn optimization_count(self) -> u64 {
        self.state().optimization_count
    }

    /// The key the next offloaded entry will receive.
    pub open spec fn next_key(self) -> u64 {
        self.state().next_key
    }

    /// The live cache entries, oldest first.
    pub open spec fn entries(self) -> Seq<OffloadedData> {
        self.state().entries
    }

    /// Cache invariant: the byte counter equals the sum of the live
    /// entries' sizes, keys grow strictly with insertion order and stay
    /// below the next synthesized key, and every entry's recorded size
    /// is its payload's length.
    pub open spec fn wf(self) -> bool {
        &&& self.total_offloaded() == sum_sizes(self.entries())
        &&& forall|i: int, j: int|
            0 <= i < j < self.entries().len() ==> self.entries()[i].key < self.entries()[j].key
        &&& forall|i: int|
            0 <= i < self.entries().len() ==> self.entries()[i].key < self.next_key()
        &&& forall|i: int|
            0 <= i < self.entries().len() ==> self.entries()[i].size_bytes
                == self.entries()[i].data@.len()
    }

    /// Creates the shared state: monitor stopped, cache empty, both
    /// counters zero.
    pub fn new() -> (r: GpuContext)
        ensures
            r.wf(),
            !r.initialized(),
            !r.monitoring_active(),
            r.total_offloaded() == 0,
            r.optimization_count() == 0,
            r.entries() == Seq::<OffloadedData>::empty(),
            r.next_key() == 0,
    {
        GpuContext {
            initialized: false,
            monitoring_active: false,
            total_offloaded: 0,
            optimization_count: 0,
            next_key: 0,
            entries: Vec::new(),
        }
    }
}

/// Reads the process-wide offloaded-byte counter.
pub fn get_total_offloaded_memory(ctx: &GpuContext) -> (r: u64)
    ensures
        r == ctx.total_offloaded(),
{
    ctx.total_offloaded
}

/// Adds `bytes` to the offloaded-byte counter and returns its previous
/// value.
pub fn add_offloaded_memory(ctx: &mut GpuContext, bytes: u64) -> (prev: u64)
    requires
        old(ctx).total_offloaded() + bytes <= u64::MAX,
    ensures
        prev == old(ctx).total_offloaded(),
        final(ctx).total_offloaded() == old(ctx).total_offloaded() + bytes,
        final(ctx).entries() == old(ctx).entries(),
        final(ctx).next_key() == old(ctx).next_key(),
        final(ctx).initialized() == old(ctx).initialized(),
        final(ctx).monitoring_active() == old(ctx).monitoring_active(),
        final(ctx).optimization_count() == old(ctx).optimization_count(),
{
    let prev = ctx.total_offloaded;
    ctx.total_offloaded = ctx.total_offloaded + bytes;
    prev
}

/// Zeroes the offloaded-byte counter, leaving the cache untouched.
pub fn reset_offloaded_memory(ctx: &mut GpuContext)
    ensures
        final(ctx).total_offloaded() == 0,
        final(ctx).entries() == old(ctx).entries(),
        final(ctx).next_key() == old(ctx).next_key(),
        final(ctx).initialized() == old(ctx).initialized(),
        final(ctx).monitoring_active() == old(ctx).monitoring_active(),
        final(ctx).optimization_count() == old(ctx).optimization_count(),
{
    ctx.total_offloaded = 0;
}

/// Bumps the optimization-invocation counter and returns its previous
/// value.
pub fn increment_optimization_count(ctx: &mut GpuContext) -> (prev: u64)
    requires
        old(ctx).optimization_count() < u64::MAX,
    ensures
        prev == old(ctx).optimization_count(),
        final(ctx).optimization_count() == old(ctx).optimization_count() + 1,
        final(ctx).entries() == old(ctx).entries(),
        final(ctx).next_key() == old(ctx).next_key(),
        final(ctx).total_offloaded() == old(ctx).total_offloaded(),
        final(ctx).initialized() == old(ctx).initialized(),
        final(ctx).monitoring_active() == old(ctx).monitoring_active(),
{
    let prev = ctx.optimization_count;
    ctx.optimization_count = ctx.optimization_count + 1;
    prev
}

/// Whether the monitor subsystem has been started.
pub fn monitor_is_initialized(ctx: &GpuContext) -> (r: bool)
    ensures
        r == ctx.initialized(),
{
    ctx.initialized
}

/// Whether the background monitor loop should keep polling.
pub fn monitoring_is_active(ctx: &GpuContext) -> (r: bool)
    ensures
        r == ctx.monitoring_active(),
{
    ctx.monitoring_active
}

/// Number of live entries in the offload cache.
pub fn active_offload_count(ctx: &GpuContext) -> (n: usize)
    ensures
        n == ctx.entries().len(),
{
    ctx.entries.len()
}

/// How many optimization passes have been counted so far.
pub fn get_optimization_count(ctx: &GpuContext) -> (r: u64)
    ensures
        r == ctx.optimization_count(),
{
    ctx.optimization_count
}

/// The key the next offloaded entry will receive.
pub fn next_offload_key(ctx: &GpuContext) -> (r: u64)
    ensures
        r == ctx.next_key(),
{
    ctx.next_key
}

/// Stores a payload in the offload cache under a fresh key and adds its
/// size to the offloaded-byte counter; always succeeds.
pub fn offload(ctx: &mut GpuContext, data: Vec<u8>, priority: u8, now_ms: u64) -> (success: bool)
    requires
        old(ctx).wf(),
        old(ctx).total_offloaded() + data@.len() <= u64::MAX,
        old(ctx).next_key() < u64::MAX,
    ensures
        success,
        final(ctx).wf(),
        final(ctx).entries() == old(ctx).entries().push(
            OffloadedData {
                key: old(ctx).next_key(),
                data,
                size_bytes: data@.len() as u64,
                created_at: now_ms,
                access_count: 0,
                priority,
            },
        ),
        final(ctx).total_offloaded() == old(ctx).total_offloaded() + data@.len(),
        final(ctx).next_key() == old(ctx).next_key() + 1,
        final(ctx).optimization_count() == old(ctx).optimization_count(),
        final(ctx).initialized() == old(ctx).initialized(),
        final(ctx).monitoring_active() == old(ctx).monitoring_active(),
{
    let size: u64 = data.len() as u64;
    let entry = OffloadedData {
        key: ctx.next_key,
        data,
        size_bytes: size,
        created_at: now_ms,
        access_count: 0,
        priority,
    };
    ctx.entries.push(entry);
    ctx.next_key = ctx.next_key + 1;
    ctx.total_offloaded = ctx.total_offloaded + size;
    proof {
        assert(ctx.entries@.drop_last() =~= old(ctx).entries());
        assert(ctx.entries@.last() == entry);
    }
    true
}

/// Builds an all-zero block of the given length.
fn zero_block(len: usize) -> (v: Vec<u8>)
    ensures
        v@.len() == len,
{
    let mut v: Vec<u8> = Vec::new();
    let mut i: usize = 0;
    while i < len
        invariant
            v@.len() == i,
            i <= len,
        decreases len - i,
    {
        v.push(0u8);
        i = i + 1;
    }
    v
}

/// Moves a representative block into the offload cache, standing in for
/// application memory that an optimization pass compresses away.
pub fn compress_and_offload_memory(ctx: &mut GpuContext, now_ms: u64) -> (success: bool)
    requires
        old(ctx).wf(),
        old(ctx).total_offloaded() + OFFLOAD_BLOCK_BYTES <= u64::MAX,
        old(ctx).next_key() < u64::MAX,
    ensures
        success,
        final(ctx).wf(),
        final(ctx).entries().len() == old(ctx).entries().len() + 1,
        final(ctx).entries() == old(ctx).entries().push(final(ctx).entries().last()),
        final(ctx).entries().last().key == old(ctx).next_key(),
        final(ctx).entries().last().data@.len() == OFFLOAD_BLOCK_BYTES,
        final(ctx).entries().last().size_bytes == OFFLOAD_BLOCK_BYTES,
        final(ctx).entries().last().created_at == now_ms,
        final(ctx).entries().last().access_count == 0,
        final(ctx).entries().last().priority == OFFLOAD_BLOCK_PRIORITY,
        final(ctx).total_offloaded() == old(ctx).total_offloaded() + OFFLOAD_BLOCK_BYTES,
        final(ctx).next_key() == old(ctx).next_key() + 1,
        final(ctx).optimization_count() == old(ctx).optimization_count(),
        final(ctx).initialized() == old(ctx).initialized(),
        final(ctx).monitoring_active() == old(ctx).monitoring_active(),
{
    let block = zero_block(OFFLOAD_BLOCK_BYTES);
    offload(ctx, block, OFFLOAD_BLOCK_PRIORITY, now_ms)
}

/// Empties the offload cache and zeroes the offloaded-byte counter.
pub fn clear_offloaded_data(ctx: &mut GpuContext)
    ensures
        final(ctx).wf(),
        final(ctx).entries() == Seq::<OffloadedData>::empty(),
        final(ctx).total_offloaded() == 0,
        final(ctx).next_key() == old(ctx).next_key(),
        final(ctx).optimization_count() == old(ctx).optimization_count(),
        final(ctx).initialized() == old(ctx).initialized(),
        final(ctx).monitoring_active() == old(ctx).monitoring_active(),
{
    ctx.entries.clear();
    ctx.total_offloaded = 0;
}

/// Removes every cache entry older than `max_age_seconds`, decrements
/// the offloaded-byte counter by the removed sizes (never below zero,
/// guarding against an externally zeroed counter), and returns how many
/// entries were removed.
#[verifier::loop_isolation(false)]
pub fn cleanup_old_offloads(ctx: &mut GpuContext, max_age_seconds: u64, now_ms: u64) -> (removed:
    usize)
    ensures
        final(ctx).entries() == live_entries(old(ctx).entries(), max_age_seconds, now_ms),
        removed == old(ctx).entries().len() - final(ctx).entries().len(),
        final(ctx).total_offloaded() <= old(ctx).total_offloaded(),
        old(ctx).wf() ==> final(ctx).wf(),
        final(ctx).next_key() == old(ctx).next_key(),
        final(ctx).optimization_count() == old(ctx).optimization_count(),
        final(ctx).initialized() == old(ctx).initialized(),
        final(ctx).monitoring_active() == old(ctx).monitoring_active(),
{
    let ghost all = ctx.entries@;
    let ghost wf0 = ctx.wf();
    let n0 = ctx.entries.len();
    let mut kept: Vec<OffloadedData> = Vec::new();
    let mut removed: usize = 0;
    let ghost mut i: int = 0;

    while ctx.entries.len() > 0
        invariant
            all.len() == n0,
            0 <= i <= all.len(),
            ctx.entries@ == all.skip(i),
            kept@ == live_entries(all.take(i), max_age_seconds, now_ms),
            kept@.len() + removed == i,
            ctx.total_offloaded <= old(ctx).total_offloaded(),
            ctx.next_key == old(ctx).next_key(),
            ctx.optimization_count == old(ctx).optimization_count(),
            ctx.initialized == old(ctx).initialized(),
            ctx.monitoring_active == old(ctx).monitoring_active(),
            wf0 ==> ctx.total_offloaded == sum_sizes(kept@) + sum_sizes(ctx.entries@),
            wf0 ==> forall|a: int, b: int|
                0 <= a < b < kept@.len() ==> kept@[a].key < kept@[b].key,
            wf0 ==> forall|a: int, b: int|
                0 <= a < kept@.len() && 0 <= b < ctx.entries@.len() ==> kept@[a].key
                    < ctx.entries@[b].key,
            wf0 ==> forall|a: int| 0 <= a < kept@.len() ==> kept@[a].key < ctx.next_key,
            wf0 ==> forall|a: int|
                0 <= a < kept@.len() ==> kept@[a].size_bytes == kept@[a].data@.len(),
        decreases ctx.entries.len(),
    {
        proof {
            if wf0 {
                lemma_sum_sizes_first(all.skip(i));
            }
            assert(all.skip(i).drop_first() =~= all.skip(i + 1));
            assert(all.take(i + 1).drop_last() =~= all.take(i));
            assert(all.take(i + 1).last() == all[i]);
        }
        let ghost kept0 = kept@;
        let e = ctx.entries.remove(0);
        proof {
            assert(removed < all.len());
        }
        let expired = e.created_at < now_ms && (now_ms - e.created_at) / 1000 > max_age_seconds;
        if expired {
            removed = removed + 1;
            if ctx.total_offloaded >= e.size_bytes {
                ctx.total_offloaded = ctx.total_offloaded - e.size_bytes;
            }
            proof {
                if wf0 {
                    lemma_sum_sizes_nonneg(kept@);
                    lemma_sum_sizes_nonneg(all.skip(i + 1));
                }
            }
        } else {
            kept.push(e);
            proof {
                assert(kept@.drop_last() =~= kept0);
                assert(kept@.last() == all[i]);
            }
        }
        proof {
            i = i + 1;
        }
    }

    proof {
        assert(all.take(i) =~= all);
        if wf0 {
            lemma_sum_sizes_nonneg(kept@);
        }
    }
    ctx.entries = kept;
    removed
}

/// Reports the cache's entry count, its total size in whole megabytes,
/// and the integer-truncated mean access count (zero when empty).
#[verifier::loop_isolation(false)]
pub fn get_offload_statistics(ctx: &GpuContext) -> (r: (usize, u64, u64))
    requires
        ctx.wf(),
    ensures
        r.0 == ctx.entries().len(),
        r.1 == ctx.total_offloaded() as int / (1024int * 1024int),
        r.2 == if ctx.entries().len() > 0 {
            sum_access(ctx.entries()) / ctx.entries().len() as int
        } else {
            0
        },
{
    let count = ctx.entries.len();
    let total_size_mb = ctx.total_offloaded / (1024 * 1024);
    if count == 0 {
        return (count, total_size_mb, 0);
    }

    let mut acc: u128 = 0;
    let mut i: usize = 0;
    while i < count
        invariant
            0 <= i <= count,
            acc == sum_access(ctx.entries@.take(i as int)),
            acc <= i * (u64::MAX as int),
        decreases count - i,
    {
        proof {
            lemma_sum_access_take_step(ctx.entries@, i as int);
            assert(i * (u64::MAX as int) + u64::MAX == (i + 1) * (u64::MAX as int))
                by (nonlinear_arith);
        }
        acc = acc + ctx.entries[i].access_count as u128;
        i = i + 1;
    }
    proof {
        assert(ctx.entries@.take(count as int) =~= ctx.entries@);
        vstd::arithmetic::div_mod::lemma_div_is_ordered(
            acc as int,
            count * (u64::MAX as int),
            count as int,
        );
        vstd::arithmetic::div_mod::lemma_div_multiples_vanish(u64::MAX as int, count as int);
    }
    let avg = (acc / (count as u128)) as u64;
    (count, total_size_mb, avg)
}

/// Starts the monitor subsystem: marks it initialized and tells the
/// background loop to keep polling. A second start while already
/// running changes nothing.
pub fn initialize_memory_monitoring(ctx: &mut GpuContext)
    ensures
        final(ctx).state() == old(ctx).state().start_model(),
        final(ctx).initialized(),
        old(ctx).initialized() ==> *final(ctx) == *old(ctx),
        !old(ctx).initialized() ==> final(ctx).monitoring_active(),
        final(ctx).entries() == old(ctx).entries(),
        final(ctx).total_offloaded() == old(ctx).total_offloaded(),
        final(ctx).next_key() == old(ctx).next_key(),
        final(ctx).optimization_count() == old(ctx).optimization_count(),
        old(ctx).wf() ==> final(ctx).wf(),
{
    if ctx.initialized {
        return ;
    }
    ctx.monitoring_active = true;
    ctx.initialized = true;
    proof {
        assert(ctx.state() =~= old(ctx).state().start_model());
    }
}

/// Stops the monitor subsystem: tells the background loop to exit,
/// empties the offload cache, and zeroes the offloaded-byte counter. A
/// second stop while already stopped changes nothing.
pub fn cleanup_memory_monitoring(ctx: &mut GpuContext)
    ensures
        final(ctx).state() == old(ctx).state().stop_model(),
        !final(ctx).initialized(),
        !old(ctx).initialized() ==> *final(ctx) == *old(ctx),
        old(ctx).initialized() ==> {
            &&& !final(ctx).monitoring_active()
            &&& final(ctx).entries() == Seq::<OffloadedData>::empty()
            &&& final(ctx).total_offloaded() == 0
        },
        final(ctx).next_key() == old(ctx).next_key(),
        final(ctx).optimization_count() == old(ctx).optimization_count(),
        old(ctx).wf() ==> final(ctx).wf(),
{
    if !ctx.initialized {
        return ;
    }
    ctx.monitoring_active = false;
    ctx.entries.clear();
    ctx.total_offloaded = 0;
    ctx.initialized = false;
    proof {
        assert(ctx.state() =~= old(ctx).state().stop_model());
    }
}

/// Starts the whole governor subsystem; same transition as starting the
/// monitor.
pub fn initialize_gpu_system(ctx: &mut GpuContext)
    ensures
        final(ctx).state() == old(ctx).state().start_model(),
        final(ctx).initialized(),
        old(ctx).initialized() ==> *final(ctx) == *old(ctx),
        old(ctx).wf() ==> final(ctx).wf(),
{
    initialize_memory_monitoring(ctx);
}

/// Stops the whole governor subsystem; same transition as stopping the
/// monitor.
pub fn cleanup_gpu_system(ctx: &mut GpuContext)
    ensures
        final(ctx).state() == old(ctx).state().stop_model(),
        !final(ctx).initialized(),
        !old(ctx).initialized() ==> *final(ctx) == *old(ctx),
        old(ctx).wf() ==> final(ctx).wf(),
{
    cleanup_memory_monitoring(ctx);
}

/// Starting the monitor twice in succession leaves the same state as
/// starting it once.
pub proof fn lemma_start_idempotent(s: GpuState)
    ensures
        s.start_model().start_model() == s.start_model(),
{
}

/// Stopping the monitor twice in succession leaves the same state as
/// stopping it once; the second stop is a no-op.
pub proof fn lemma_stop_idempotent(s: GpuState)
    ensures
        s.stop_model().stop_model() == s.stop_model(),
{
}

/// As long as only the cache's own operations touch it, the
/// process-wide offloaded-byte counter equals the sum of the live
/// entries' sizes.
pub proof fn lemma_counter_matches_live_bytes(c: &GpuContext)
    requires
        c.wf(),
    ensures
        c.total_offloaded() == sum_sizes(c.entries()),
{
}

} // verus!
