use vstd::prelude::*;
use crate::context::{abandoned_from, Context, DirectContext, GrContextBase, GrDirectContext, RCHandle};
use crate::gl_interface::{function_address, gl_entry_points, platform_gl_valid, table_valid, Interface};
use crate::native::{
    context_updated, lemma_locked_only_bytes, lemma_prefix_bytes, lemma_purge_pass_bytes, lemma_unlocked_bytes_bounded,
    lemma_recent_only_bytes, lemma_purge_pass_keeps_locked, lemma_wf_update, lemma_first_unlocked, lemma_remove_bytes, lemma_purge_to_fit, lemma_purge_to_fit_len, lemma_locked_only_from, lemma_recent_only_len, lemma_purge_pass_from, lemma_drawn_from_trans, drawn_from, purge_to_fit, within_limits, locked_only, purge_pass, recent_only, total_bytes, unlocked_bytes, Backend, CacheEntry, ContextKind, ContextObject,
    NativeHeap,
};

verus! {

/// How many resources, and how many bytes in all, a cache may retain.
#[derive(Clone, Copy, PartialEq, Eq, Debug, Structural)]
pub struct ResourceCacheLimits {
    pub max_resources: usize,
    pub max_resource_bytes: usize,
}

/// What a cache holds at one moment.
#[derive(Clone, Copy, PartialEq, Eq, Debug, Structural)]
pub struct ResourceCacheUsage {
    pub resource_count: usize,
    pub resource_bytes: usize,
}

/// Options a direct context is made with.
#[derive(Clone, Copy, PartialEq, Eq, Debug, Structural)]
pub struct ContextOptions {
    /// A byte limit for the resource cache in place of the default.
    pub resource_cache_limit_override: Option<usize>,
}

/// The device handles a host hands over to make a Vulkan context; 0 is
/// the null handle.
#[derive(Clone, Copy, PartialEq, Eq, Debug, Structural)]
pub struct VkBackendContext {
    pub instance: u64,
    pub physical_device: u64,
    pub device: u64,
    pub queue: u64,
    pub graphics_queue_index: u32,
}

/// The device handles a host hands over to make a Direct3D context; 0 is
/// the null handle.
#[derive(Clone, Copy, PartialEq, Eq, Debug, Structural)]
pub struct D3DBackendContext {
    pub adapter: u64,
    pub device: u64,
    pub queue: u64,
}

pub const DEFAULT_MAX_RESOURCES: usize = 8192;

pub const DEFAULT_MAX_RESOURCE_BYTES: usize = 268435456;

/// Every backend state bit.
pub const ALL_BACKEND_STATE: u32 = 0xFFFF_FFFF;

/// The GL backend state bit of texture bindings.
pub const GL_TEXTURE_BINDING_STATE: u32 = 8;

/// The cache's byte limit for a context made with `options`.
pub open spec fn initial_byte_limit(options: Option<&ContextOptions>) -> usize {
    match options {
        Some(o) => match o.resource_cache_limit_override {
            Some(b) => b,
            None => DEFAULT_MAX_RESOURCE_BYTES,
        },
        None => DEFAULT_MAX_RESOURCE_BYTES,
    }
}

/// A freshly made direct context object.
pub open spec fn fresh_direct(o: ContextObject, backend: Backend, options: Option<&ContextOptions>, interface: Option<usize>) -> bool {
    &&& o.ref_cnt == 1
    &&& o.kind == ContextKind::Direct
    &&& o.backend == backend
    &&& !o.abandoned
    &&& !o.oomed
    &&& o.max_resources == DEFAULT_MAX_RESOURCES
    &&& o.max_resource_bytes == initial_byte_limit(options)
    &&& o.resources@.len() == 0
    &&& o.pending_work == 0
    &&& o.in_flight_work == 0
    &&& o.dirty_state == 0
    &&& o.interface == interface
}

/// What making a GL context does to the interfaces: a context that was
/// made keeps the reference it was given; an interface that was refused
/// loses the reference it came with; where none was given, the platform's
/// interface may be added, and no other changes.
pub open spec fn interfaces_after_gl(old: &NativeHeap, new: &NativeHeap, interface: Option<Interface>, made: bool) -> bool {
    match interface {
        Some(i) => if made {
            new.interfaces@ == old.interfaces@
        } else {
            &&& new.interfaces@.len() == old.interfaces@.len()
            &&& new.interfaces@[i.slot()].ref_cnt == old.interfaces@[i.slot()].ref_cnt - 1
            &&& forall|j: int| 0 <= j < old.interfaces@.len() && j != i.slot() ==> new.interfaces@[j] == old.interfaces@[j]
        },
        None => {
            &&& old.interfaces@.len() <= new.interfaces@.len()
            &&& forall|j: int| 0 <= j < old.interfaces@.len() ==> new.interfaces@[j] == old.interfaces@[j]
        },
    }
}

/// The limits a context object's cache holds.
pub open spec fn cache_limits_of(o: ContextObject) -> ResourceCacheLimits {
    ResourceCacheLimits { max_resources: o.max_resources, max_resource_bytes: o.max_resource_bytes }
}

/// The context object with its cache limits replaced.
pub open spec fn with_limits(o: ContextObject, limits: ResourceCacheLimits) -> ContextObject {
    ContextObject { max_resources: limits.max_resources, max_resource_bytes: limits.max_resource_bytes, ..o }
}

/// What this crate's purge leaves: all unlocked entries go where no byte
/// count is given; else, oldest first, those that fit in `bytes` in all,
/// scratch entries first where `prefer_scratch`.
spec fn purged(s: Seq<CacheEntry>, bytes: Option<usize>, prefer_scratch: bool) -> Seq<CacheEntry> {
    match bytes {
        None => locked_only(s),
        Some(b) => if prefer_scratch {
            let (kept, left) = purge_pass(s, b as nat, true);
            purge_pass(kept, left, false).0
        } else {
            purge_pass(s, b as nat, false).0
        },
    }
}

/// What any purge of unlocked entries may leave of the cache `old`: only
/// unlocked entries leave, and the locked ones stay in order; with no byte
/// count every unlocked entry goes; with one, no more than that many bytes
/// go.
pub open spec fn purge_outcome(old: Seq<CacheEntry>, new: Seq<CacheEntry>, bytes: Option<usize>) -> bool {
    match bytes {
        None => new == locked_only(old),
        Some(n) => {
            &&& locked_only(new) == locked_only(old)
            &&& drawn_from(new, old)
            &&& new.len() <= old.len()
            &&& total_bytes(new) <= total_bytes(old)
            &&& total_bytes(old) <= total_bytes(new) + n
        },
    }
}

/// `a + b`, held at `u64::MAX`.
pub open spec fn sat_add(a: u64, b: u64) -> u64 {
    if a + b > u64::MAX {
        u64::MAX
    } else {
        (a + b) as u64
    }
}

spec fn cache_of(heap: &NativeHeap, i: int) -> Seq<CacheEntry> {
    heap.contexts@[i].resources@
}

/// The context object with its cache replaced by `entries`.
pub open spec fn with_resources(n: ContextObject, o: ContextObject, entries: Seq<CacheEntry>) -> bool {
    &&& n == (ContextObject { resources: n.resources, ..o })
    &&& n.resources@ == entries
}

fn keep_locked(s: &Vec<CacheEntry>) -> (r: Vec<CacheEntry>)
    ensures
        r@ == locked_only(s@),
{
    let mut kept: Vec<CacheEntry> = Vec::new();
    let mut k: usize = 0;
    assert(s@.subrange(0, 0) =~= Seq::<CacheEntry>::empty());
    while k < s.len()
        invariant
            k <= s@.len(),
            kept@ == locked_only(s@.subrange(0, k as int)),
        decreases s@.len() - k,
    {
        assert(s@.subrange(0, k + 1).drop_last() =~= s@.subrange(0, k as int));
        if s[k].locked {
            kept.push(s[k]);
        }
        k = k + 1;
    }
    assert(s@.subrange(0, s@.len() as int) =~= s@);
    kept
}

fn keep_recent(s: &Vec<CacheEntry>, now_ms: u64, not_used_ms: u64) -> (r: Vec<CacheEntry>)
    ensures
        r@ == recent_only(s@, now_ms, not_used_ms),
{
    let mut kept: Vec<CacheEntry> = Vec::new();
    let mut k: usize = 0;
    assert(s@.subrange(0, 0) =~= Seq::<CacheEntry>::empty());
    while k < s.len()
        invariant
            k <= s@.len(),
            kept@ == recent_only(s@.subrange(0, k as int), now_ms, not_used_ms),
        decreases s@.len() - k,
    {
        assert(s@.subrange(0, k + 1).drop_last() =~= s@.subrange(0, k as int));
        let e = s[k];
        let is_stale = !e.locked && now_ms >= not_used_ms && e.last_used_ms < now_ms - not_used_ms;
        if !is_stale {
            kept.push(e);
        }
        k = k + 1;
    }
    assert(s@.subrange(0, s@.len() as int) =~= s@);
    kept
}

fn fit_cache(v: &mut Vec<CacheEntry>, used: usize, max_count: usize, max_bytes: usize)
    requires
        used == total_bytes(old(v)@),
    ensures
        final(v)@ == purge_to_fit(old(v)@, max_count, max_bytes),
{
    let mut used = used;
    while !(v.len() <= max_count && used <= max_bytes)
        invariant
            used == total_bytes(v@),
            purge_to_fit(v@, max_count, max_bytes) == purge_to_fit(old(v)@, max_count, max_bytes),
        decreases v@.len(),
    {
        let mut k: usize = 0;
        while k < v.len() && v[k].locked
            invariant
                k <= v@.len(),
                forall|j: int| 0 <= j < k ==> (#[trigger] v@[j]).locked,
            decreases v@.len() - k,
        {
            k = k + 1;
        }
        proof {
            lemma_first_unlocked(v@, k as int);
        }
        if k == v.len() {
            return;
        }
        proof {
            lemma_remove_bytes(v@, k as int);
        }
        let e = v.remove(k);
        used = used - e.bytes;
    }
}

fn purge_pass_exec(s: &Vec<CacheEntry>, budget: usize, scratch_only: bool) -> (r: (Vec<CacheEntry>, usize))
    ensures
        r.0@ == purge_pass(s@, budget as nat, scratch_only).0,
        r.1 as nat == purge_pass(s@, budget as nat, scratch_only).1,
{
    let mut kept: Vec<CacheEntry> = Vec::new();
    let mut left: usize = budget;
    let mut k: usize = 0;
    assert(s@.subrange(0, 0) =~= Seq::<CacheEntry>::empty());
    while k < s.len()
        invariant
            k <= s@.len(),
            kept@ == purge_pass(s@.subrange(0, k as int), budget as nat, scratch_only).0,
            left as nat == purge_pass(s@.subrange(0, k as int), budget as nat, scratch_only).1,
        decreases s@.len() - k,
    {
        assert(s@.subrange(0, k + 1).drop_last() =~= s@.subrange(0, k as int));
        let e = s[k];
        if !e.locked && (e.scratch || !scratch_only) && e.bytes <= left {
            left = left - e.bytes;
        } else {
            kept.push(e);
        }
        k = k + 1;
    }
    assert(s@.subrange(0, s@.len() as int) =~= s@);
    (kept, left)
}

fn sum_bytes(s: &Vec<CacheEntry>, unlocked: bool) -> (r: usize)
    requires
        total_bytes(s@) <= usize::MAX,
    ensures
        r == if unlocked { unlocked_bytes(s@) } else { total_bytes(s@) },
{
    let mut sum: usize = 0;
    let mut k: usize = 0;
    while k < s.len()
        invariant
            k <= s@.len(),
            total_bytes(s@) <= usize::MAX,
            sum == if unlocked { unlocked_bytes(s@.subrange(0, k as int)) } else { total_bytes(s@.subrange(0, k as int)) },
        decreases s@.len() - k,
    {
        assert(s@.subrange(0, k + 1).drop_last() =~= s@.subrange(0, k as int));
        proof {
            lemma_prefix_bytes(s@, k + 1);
            lemma_unlocked_bytes_bounded(s@);
        }
        if !unlocked || !s[k].locked {
            sum = sum + s[k].bytes;
        }
        k = k + 1;
    }
    assert(s@.subrange(0, s@.len() as int) =~= s@);
    sum
}

/// Setting the cache limits and reading them back gives the limits set.
pub proof fn lemma_limits_round_trip(o: ContextObject, limits: ResourceCacheLimits, n: ContextObject)
    requires
        n == (ContextObject { resources: n.resources, ..with_limits(o, limits) }),
    ensures
        cache_limits_of(n) == limits,
{
}

/// Once a byte limit below the cache's size is set, purging every unlocked
/// entry leaves no more bytes than the larger of the limit and the bytes
/// of the locked entries, which cannot be purged.
pub proof fn lemma_purge_all_within_limit(o: ContextObject, max_resource_bytes: usize)
    requires
        total_bytes(o.resources@) > max_resource_bytes,
    ensures
        ({
            let n = ContextObject { max_resource_bytes, ..o };
            let left = total_bytes(locked_only(n.resources@));
            &&& left <= vstd::math::max(n.max_resource_bytes as int, total_bytes(locked_only(n.resources@)) as int)
            &&& left == total_bytes(locked_only(o.resources@))
        }),
{
}

proof fn lemma_purge_within_budget(s: Seq<CacheEntry>, bytes_to_purge: usize, prefer_scratch: bool)
    ensures
        total_bytes(s) <= total_bytes(purged(s, Some(bytes_to_purge), prefer_scratch)) + bytes_to_purge,
        total_bytes(purged(s, Some(bytes_to_purge), prefer_scratch)) <= total_bytes(s),
        locked_only(purged(s, Some(bytes_to_purge), prefer_scratch)) == locked_only(s),
        purge_outcome(s, purged(s, Some(bytes_to_purge), prefer_scratch), Some(bytes_to_purge)),
{
    let b = bytes_to_purge as nat;
    lemma_purge_pass_bytes(s, b, prefer_scratch);
    lemma_purge_pass_keeps_locked(s, b, prefer_scratch);
    lemma_purge_pass_from(s, b, prefer_scratch);
    if prefer_scratch {
        let (kept, left) = purge_pass(s, b, true);
        lemma_purge_pass_bytes(kept, left, false);
        lemma_purge_pass_keeps_locked(kept, left, false);
        lemma_purge_pass_from(kept, left, false);
        lemma_drawn_from_trans(purge_pass(kept, left, false).0, kept, s);
    }
}

fn fresh_object(backend: Backend, options: Option<&ContextOptions>, interface: Option<usize>) -> (r: ContextObject)
    ensures
        fresh_direct(r, backend, options, interface),
        r.wf(),
{
    let max_resource_bytes = match options {
        Some(o) => match o.resource_cache_limit_override {
            Some(b) => b,
            None => DEFAULT_MAX_RESOURCE_BYTES,
        },
        None => DEFAULT_MAX_RESOURCE_BYTES,
    };
    let r = ContextObject {
        ref_cnt: 1,
        kind: ContextKind::Direct,
        backend,
        abandoned: false,
        oomed: false,
        max_resources: DEFAULT_MAX_RESOURCES,
        max_resource_bytes,
        resources: Vec::new(),
        pending_work: 0,
        in_flight_work: 0,
        dirty_state: 0,
        interface,
    };
    assert(total_bytes(r.resources@) == 0);
    r
}

impl RCHandle<GrDirectContext> {
    /// Makes a GL context over `interface`, or over the platform's own
    /// interface where none is given. An interface that does not validate
    /// is refused: the call then returns `None` and gives the reference up.
    /// The context keeps the interface's reference.
    pub fn new_gl(heap: &mut NativeHeap, interface: Option<Interface>, options: Option<&ContextOptions>) -> (r: Option<DirectContext>)
        requires
            old(heap).wf(),
            interface matches Some(i) ==> i.interface_in(old(heap)),
        ensures
            final(heap).wf(),
            r.is_some() <==> match interface {
                Some(i) => table_valid(i.interface_object(old(heap)).functions@),
                None => platform_gl_valid(old(heap).platform_gl@),
            },
            r.is_none() ==> final(heap).contexts@ == old(heap).contexts@,
            r matches Some(c) ==> {
                &&& c.held_in(final(heap))
                &&& c.slot() == old(heap).contexts@.len()
                &&& final(heap).contexts@.len() == old(heap).contexts@.len() + 1
                &&& forall|j: int| 0 <= j < old(heap).contexts@.len() ==> final(heap).contexts@[j] == old(heap).contexts@[j]
                &&& fresh_direct(
                    c.object(final(heap)),
                    Backend::OpenGL,
                    options,
                    c.object(final(heap)).interface,
                )
                &&& c.object(final(heap)).interface matches Some(s) && (interface matches Some(i) ==> s == i.slot())
                    && final(heap).live_interface(s as int)
            },
            interfaces_after_gl(old(heap), final(heap), interface, r.is_some()),
            final(heap).platform_gl@ == old(heap).platform_gl@,
    {
        let iface = match interface {
            Some(i) => i,
            None => match Interface::new_native(heap) {
                Some(i) => {
                    proof {
                        let t = i.interface_object(heap).functions@;
                        let p = old(heap).platform_gl@;
                        assert(table_valid(t) <==> platform_gl_valid(p)) by {
                            if table_valid(t) {
                                assert forall|k: int| 0 <= k < gl_entry_points().len() implies function_address(p, #[trigger] gl_entry_points()[k]) != 0 by {
                                    assert(t[k].address != 0);
                                }
                            }
                            if platform_gl_valid(p) {
                                assert forall|k: int| 0 <= k < t.len() implies (#[trigger] t[k]).address != 0 by {
                                    assert(function_address(p, gl_entry_points()[k]) != 0);
                                }
                            }
                        }
                    }
                    i
                },
                None => {
                    return None;
                },
            },
        };
        if !iface.validate(heap) {
            iface.release(heap);
            return None;
        }
        let obj = fresh_object(Backend::OpenGL, options, Some(iface.index()));
        let index = heap.place_context(obj);
        Some(RCHandle::with_level(index, GrDirectContext))
    }

    /// Makes a Vulkan context over the host's device handles; `None` where
    /// one of the instance, physical device, device or queue is null.
    pub fn new_vulkan(heap: &mut NativeHeap, backend_context: &VkBackendContext, options: Option<&ContextOptions>) -> (r:
        Option<DirectContext>)
        requires
            old(heap).wf(),
        ensures
            final(heap).wf(),
            r.is_some() <==> (backend_context.instance != 0 && backend_context.physical_device != 0
                && backend_context.device != 0 && backend_context.queue != 0),
            r.is_none() ==> final(heap).contexts@ == old(heap).contexts@,
            r matches Some(c) ==> {
                &&& c.held_in(final(heap))
                &&& c.slot() == old(heap).contexts@.len()
                &&& final(heap).contexts@.len() == old(heap).contexts@.len() + 1
                &&& forall|j: int| 0 <= j < old(heap).contexts@.len() ==> final(heap).contexts@[j] == old(heap).contexts@[j]
                &&& fresh_direct(c.object(final(heap)), Backend::Vulkan, options, None)
            },
            final(heap).interfaces@ == old(heap).interfaces@,
            final(heap).platform_gl@ == old(heap).platform_gl@,
    {
        if backend_context.instance == 0 || backend_context.physical_device == 0 || backend_context.device == 0
            || backend_context.queue == 0 {
            return None;
        }
        let obj = fresh_object(Backend::Vulkan, options, None);
        let index = heap.place_context(obj);
        Some(RCHandle::with_level(index, GrDirectContext))
    }

    /// Makes a Metal context over the host's device and queue handles;
    /// `None` where either is null. The handles must outlive the context.
    pub fn new_metal(heap: &mut NativeHeap, device: u64, queue: u64, options: Option<&ContextOptions>) -> (r: Option<DirectContext>)
        requires
            old(heap).wf(),
        ensures
            final(heap).wf(),
            r.is_some() <==> (device != 0 && queue != 0),
            r.is_none() ==> final(heap).contexts@ == old(heap).contexts@,
            r matches Some(c) ==> {
                &&& c.held_in(final(heap))
                &&& c.slot() == old(heap).contexts@.len()
                &&& final(heap).contexts@.len() == old(heap).contexts@.len() + 1
                &&& forall|j: int| 0 <= j < old(heap).contexts@.len() ==> final(heap).contexts@[j] == old(heap).contexts@[j]
                &&& fresh_direct(c.object(final(heap)), Backend::Metal, options, None)
            },
            final(heap).interfaces@ == old(heap).interfaces@,
            final(heap).platform_gl@ == old(heap).platform_gl@,
    {
        if device == 0 || queue == 0 {
            return None;
        }
        let obj = fresh_object(Backend::Metal, options, None);
        let index = heap.place_context(obj);
        Some(RCHandle::with_level(index, GrDirectContext))
    }

    /// Makes a Direct3D context over the host's adapter, device and queue;
    /// `None` where one of them is null.
    pub fn new_d3d(heap: &mut NativeHeap, backend_context: &D3DBackendContext, options: Option<&ContextOptions>) -> (r:
        Option<DirectContext>)
        requires
            old(heap).wf(),
        ensures
            final(heap).wf(),
            r.is_some() <==> (backend_context.adapter != 0 && backend_context.device != 0 && backend_context.queue != 0),
            r.is_none() ==> final(heap).contexts@ == old(heap).contexts@,
            r matches Some(c) ==> {
                &&& c.held_in(final(heap))
                &&& c.slot() == old(heap).contexts@.len()
                &&& final(heap).contexts@.len() == old(heap).contexts@.len() + 1
                &&& forall|j: int| 0 <= j < old(heap).contexts@.len() ==> final(heap).contexts@[j] == old(heap).contexts@[j]
                &&& fresh_direct(c.object(final(heap)), Backend::Direct3D, options, None)
            },
            final(heap).interfaces@ == old(heap).interfaces@,
            final(heap).platform_gl@ == old(heap).platform_gl@,
    {
        if backend_context.adapter == 0 || backend_context.device == 0 || backend_context.queue == 0 {
            return None;
        }
        let obj = fresh_object(Backend::Direct3D, options, None);
        let index = heap.place_context(obj);
        Some(RCHandle::with_level(index, GrDirectContext))
    }

    /// Marks the given backend state bits (all, where none are given) to
    /// be re-sent to the device before the next use.
    pub fn reset(&self, heap: &mut NativeHeap, backend_state: Option<u32>)
        requires
            self.held_in(old(heap)),
            old(heap).wf(),
        ensures
            final(heap).wf(),
            context_updated(old(heap), final(heap), self.slot()),
            final(heap).contexts@[self.slot()] == (ContextObject {
                dirty_state: self.object(old(heap)).dirty_state | match backend_state {
                    Some(b) => b,
                    None => ALL_BACKEND_STATE,
                },
                ..self.object(old(heap))
            }),
    {
        let bits = match backend_state {
            Some(b) => b,
            None => ALL_BACKEND_STATE,
        };
        let i = self.index();
        heap.contexts[i].dirty_state = heap.contexts[i].dirty_state | bits;
        proof {
            assert(heap.contexts@[i as int].resources == old(heap).contexts@[i as int].resources);
            assert(old(heap).contexts@[i as int].wf());
            lemma_wf_update(old(heap), heap, i as int);
        }
    }

    /// Marks the GL texture bindings to be re-sent; other backends have
    /// none, and are left as they are.
    pub fn reset_gl_texture_bindings(&self, heap: &mut NativeHeap)
        requires
            self.held_in(old(heap)),
            old(heap).wf(),
        ensures
            final(heap).wf(),
            context_updated(old(heap), final(heap), self.slot()),
            final(heap).contexts@[self.slot()] == (ContextObject {
                dirty_state: if self.object(old(heap)).backend == Backend::OpenGL {
                    self.object(old(heap)).dirty_state | GL_TEXTURE_BINDING_STATE
                } else {
                    self.object(old(heap)).dirty_state
                },
                ..self.object(old(heap))
            }),
    {
        let i = self.index();
        if heap.contexts[i].backend == Backend::OpenGL {
            heap.contexts[i].dirty_state = heap.contexts[i].dirty_state | GL_TEXTURE_BINDING_STATE;
        }
        proof {
            assert(old(heap).contexts@[i as int].wf());
            lemma_wf_update(old(heap), heap, i as int);
        }
    }

    /// Whether the engine ran out of memory since the last query; the flag
    /// is cleared.
    pub fn oomed(&self, heap: &mut NativeHeap) -> (r: bool)
        requires
            self.held_in(old(heap)),
            old(heap).wf(),
        ensures
            r == self.object(old(heap)).oomed,
            final(heap).wf(),
            context_updated(old(heap), final(heap), self.slot()),
            final(heap).contexts@[self.slot()] == (ContextObject { oomed: false, ..self.object(old(heap)) }),
    {
        let i = self.index();
        let r = heap.contexts[i].oomed;
        heap.contexts[i].oomed = false;
        proof {
            assert(old(heap).contexts@[i as int].wf());
            lemma_wf_update(old(heap), heap, i as int);
        }
        r
    }

    /// The cache's limits.
    pub fn resource_cache_limits(&self, heap: &NativeHeap) -> (r: ResourceCacheLimits)
        requires
            self.held_in(heap),
            heap.wf(),
        ensures
            r == cache_limits_of(self.object(heap)),
            r.max_resources <= i32::MAX,
    {
        proof {
            assert(heap.contexts@[self.slot()].wf());
        }
        let o = &heap.contexts[self.index()];
        ResourceCacheLimits { max_resources: o.max_resources, max_resource_bytes: o.max_resource_bytes }
    }

    /// The cache's byte limit.
    pub fn resource_cache_limit(&self, heap: &NativeHeap) -> (r: usize)
        requires
            self.held_in(heap),
        ensures
            r == self.object(heap).max_resource_bytes,
    {
        heap.contexts[self.index()].max_resource_bytes
    }

    /// How many entries, and how many bytes, the cache holds now.
    pub fn resource_cache_usage(&self, heap: &NativeHeap) -> (r: ResourceCacheUsage)
        requires
            self.held_in(heap),
            heap.wf(),
        ensures
            r.resource_count == self.object(heap).resources@.len(),
            r.resource_bytes == total_bytes(self.object(heap).resources@),
            r.resource_count <= i32::MAX,
    {
        let o = &heap.contexts[self.index()];
        assert(o.wf());
        ResourceCacheUsage { resource_count: o.resources.len(), resource_bytes: sum_bytes(&o.resources, false) }
    }

    /// How many bytes of the cache could be purged now: those of its
    /// unlocked entries.
    pub fn resource_cache_purgeable_bytes(&self, heap: &NativeHeap) -> (r: usize)
        requires
            self.held_in(heap),
            heap.wf(),
        ensures
            r == unlocked_bytes(self.object(heap).resources@),
    {
        let o = &heap.contexts[self.index()];
        assert(o.wf());
        sum_bytes(&o.resources, true)
    }

    /// Replaces both cache limits, then drops unlocked entries, oldest
    /// first, until the cache is within them or only locked entries are
    /// left. The engine counts resources in a C `int`, so the count limit
    /// must fit one.
    pub fn set_resource_cache_limits(&self, heap: &mut NativeHeap, limits: ResourceCacheLimits)
        requires
            self.held_in(old(heap)),
            limits.max_resources <= i32::MAX as usize,
            old(heap).wf(),
        ensures
            final(heap).wf(),
            context_updated(old(heap), final(heap), self.slot()),
            final(heap).contexts@[self.slot()] == (ContextObject {
                resources: final(heap).contexts@[self.slot()].resources,
                ..with_limits(self.object(old(heap)), limits)
            }),
            final(heap).contexts@[self.slot()].resources@ == purge_to_fit(
                self.object(old(heap)).resources@,
                limits.max_resources,
                limits.max_resource_bytes,
            ),
    {
        self.fit_limits(heap, limits.max_resources, limits.max_resource_bytes);
    }

    /// Replaces the cache's byte limit, then purges to fit as
    /// `set_resource_cache_limits` does.
    pub fn set_resource_cache_limit(&self, heap: &mut NativeHeap, max_resource_bytes: usize)
        requires
            self.held_in(old(heap)),
            old(heap).wf(),
        ensures
            final(heap).wf(),
            context_updated(old(heap), final(heap), self.slot()),
            final(heap).contexts@[self.slot()] == (ContextObject {
                resources: final(heap).contexts@[self.slot()].resources,
                max_resource_bytes,
                ..self.object(old(heap))
            }),
            final(heap).contexts@[self.slot()].resources@ == purge_to_fit(
                self.object(old(heap)).resources@,
                self.object(old(heap)).max_resources,
                max_resource_bytes,
            ),
    {
        let max_count = heap.contexts[self.index()].max_resources;
        proof {
            assert(old(heap).contexts@[self.slot()].wf());
        }
        self.fit_limits(heap, max_count, max_resource_bytes);
    }

    fn fit_limits(&self, heap: &mut NativeHeap, max_count: usize, max_bytes: usize)
        requires
            self.held_in(old(heap)),
            max_count <= i32::MAX as usize,
            old(heap).wf(),
        ensures
            final(heap).wf(),
            context_updated(old(heap), final(heap), self.slot()),
            final(heap).contexts@[self.slot()] == (ContextObject {
                resources: final(heap).contexts@[self.slot()].resources,
                max_resources: max_count,
                max_resource_bytes: max_bytes,
                ..self.object(old(heap))
            }),
            final(heap).contexts@[self.slot()].resources@ == purge_to_fit(self.object(old(heap)).resources@, max_count, max_bytes),
    {
        let i = self.index();
        proof {
            assert(old(heap).contexts@[i as int].wf());
            lemma_purge_to_fit(old(heap).contexts@[i as int].resources@, max_count, max_bytes);
            lemma_purge_to_fit_len(old(heap).contexts@[i as int].resources@, max_count, max_bytes);
        }
        heap.contexts[i].max_resources = max_count;
        heap.contexts[i].max_resource_bytes = max_bytes;
        let used = sum_bytes(&heap.contexts[i].resources, false);
        fit_cache(&mut heap.contexts[i].resources, used, max_count, max_bytes);
        proof {
            lemma_wf_update(old(heap), heap, i as int);
        }
    }

    /// Drops unlocked cache entries: all of them where `bytes_to_purge` is
    /// `None`; else no more than `bytes_to_purge` bytes of them, scratch
    /// entries first where `prefer_scratch_resources`. Which entries go
    /// under a byte count is the cache's own choice: the contract states
    /// only what holds of any such choice.
    pub fn purge_unlocked_resources(&self, heap: &mut NativeHeap, bytes_to_purge: Option<usize>, prefer_scratch_resources: bool)
        requires
            self.held_in(old(heap)),
            old(heap).wf(),
        ensures
            final(heap).wf(),
            context_updated(old(heap), final(heap), self.slot()),
            final(heap).contexts@[self.slot()] == (ContextObject {
                resources: final(heap).contexts@[self.slot()].resources,
                ..self.object(old(heap))
            }),
            purge_outcome(
                self.object(old(heap)).resources@,
                final(heap).contexts@[self.slot()].resources@,
                bytes_to_purge,
            ),
    {
        let i = self.index();
        let ghost s = old(heap).contexts@[i as int].resources@;
        proof {
            lemma_locked_only_from(s);
            match bytes_to_purge {
                Some(b) => lemma_purge_within_budget(s, b, prefer_scratch_resources),
                None => {},
            }
        }
        let kept = match bytes_to_purge {
            None => {
                proof {
                    lemma_locked_only_bytes(s);
                }
                keep_locked(&heap.contexts[i].resources)
            },
            Some(b) => {
                if prefer_scratch_resources {
                    let (first, left) = purge_pass_exec(&heap.contexts[i].resources, b, true);
                    proof {
                        lemma_purge_pass_bytes(s, b as nat, true);
                        lemma_purge_pass_bytes(first@, left as nat, false);
                    }
                    let (second, _) = purge_pass_exec(&first, left, false);
                    second
                } else {
                    proof {
                        lemma_purge_pass_bytes(s, b as nat, false);
                    }
                    let (kept, _) = purge_pass_exec(&heap.contexts[i].resources, b, false);
                    kept
                }
            },
        };
        heap.contexts[i].resources = kept;
        proof {
            assert(old(heap).contexts@[i as int].wf());
            lemma_wf_update(old(heap), heap, i as int);
        }
    }

    /// Drops the unlocked cache entries last used more than `not_used_ms`
    /// milliseconds before `now_ms`, the engine clock's reading. The engine
    /// takes the age as a signed 64-bit count of milliseconds.
    pub fn perform_deferred_cleanup(&self, heap: &mut NativeHeap, now_ms: u64, not_used_ms: u64)
        requires
            self.held_in(old(heap)),
            not_used_ms <= i64::MAX as u64,
            old(heap).wf(),
        ensures
            final(heap).wf(),
            context_updated(old(heap), final(heap), self.slot()),
            with_resources(
                final(heap).contexts@[self.slot()],
                self.object(old(heap)),
                recent_only(self.object(old(heap)).resources@, now_ms, not_used_ms),
            ),
    {
        let i = self.index();
        proof {
            lemma_recent_only_bytes(old(heap).contexts@[i as int].resources@, now_ms, not_used_ms);
            lemma_recent_only_len(old(heap).contexts@[i as int].resources@, now_ms, not_used_ms);
        }
        let kept = keep_recent(&heap.contexts[i].resources, now_ms, not_used_ms);
        heap.contexts[i].resources = kept;
        proof {
            assert(old(heap).contexts@[i as int].wf());
            lemma_wf_update(old(heap), heap, i as int);
        }
    }

    /// Drops every unlocked cache entry; the context stays usable.
    pub fn free_gpu_resources(&self, heap: &mut NativeHeap)
        requires
            self.held_in(old(heap)),
            old(heap).wf(),
        ensures
            final(heap).wf(),
            context_updated(old(heap), final(heap), self.slot()),
            with_resources(
                final(heap).contexts@[self.slot()],
                self.object(old(heap)),
                locked_only(self.object(old(heap)).resources@),
            ),
    {
        self.purge_unlocked_resources(heap, None, false);
    }

    /// Releases the cache's resources, then abandons the context.
    pub fn release_resources_and_abandon(&self, heap: &mut NativeHeap)
        requires
            self.held_in(old(heap)),
            old(heap).wf(),
        ensures
            final(heap).wf(),
            context_updated(old(heap), final(heap), self.slot()),
            abandoned_from(final(heap).contexts@[self.slot()], self.object(old(heap))),
    {
        self.abandon(heap);
    }

    /// Places a new entry, newest, in the cache, then drops unlocked
    /// entries, oldest first, until the cache is within its limits or only
    /// locked entries are left. Refused, with no change, where the context
    /// is abandoned; refused where the cache's size would no longer fit a
    /// `usize` or its count no longer fit the engine's C `int`, which also
    /// raises the out-of-memory flag.
    pub fn cache_resource(&self, heap: &mut NativeHeap, entry: CacheEntry) -> (r: bool)
        requires
            self.held_in(old(heap)),
            old(heap).wf(),
        ensures
            final(heap).wf(),
            context_updated(old(heap), final(heap), self.slot()),
            r == (!self.object(old(heap)).abandoned && total_bytes(self.object(old(heap)).resources@) + entry.bytes
                <= usize::MAX && self.object(old(heap)).resources@.len() < i32::MAX),
            r ==> with_resources(
                final(heap).contexts@[self.slot()],
                self.object(old(heap)),
                purge_to_fit(
                    self.object(old(heap)).resources@.push(entry),
                    self.object(old(heap)).max_resources,
                    self.object(old(heap)).max_resource_bytes,
                ),
            ),
            r ==> within_limits(
                final(heap).contexts@[self.slot()].resources@,
                self.object(old(heap)).max_resources,
                self.object(old(heap)).max_resource_bytes,
            ) || forall|j: int|
                0 <= j < final(heap).contexts@[self.slot()].resources@.len()
                    ==> (#[trigger] final(heap).contexts@[self.slot()].resources@[j]).locked,
            !r && !self.object(old(heap)).abandoned ==> final(heap).contexts@[self.slot()] == (ContextObject {
                oomed: true,
                ..self.object(old(heap))
            }),
            !r && self.object(old(heap)).abandoned ==> final(heap).contexts@ == old(heap).contexts@,
    {
        let i = self.index();
        if heap.contexts[i].abandoned {
            return false;
        }
        proof {
            assert(old(heap).contexts@[i as int].wf());
        }
        let used = sum_bytes(&heap.contexts[i].resources, false);
        if entry.bytes > usize::MAX - used || heap.contexts[i].resources.len() >= i32::MAX as usize {
            heap.contexts[i].oomed = true;
            proof {
                lemma_wf_update(old(heap), heap, i as int);
            }
            return false;
        }
        heap.contexts[i].resources.push(entry);
        let ghost pushed = heap.contexts@[i as int].resources@;
        proof {
            assert(pushed.drop_last() =~= cache_of(old(heap), i as int));
            lemma_purge_to_fit(pushed, old(heap).contexts@[i as int].max_resources, old(heap).contexts@[i as int].max_resource_bytes);
            lemma_purge_to_fit_len(pushed, old(heap).contexts@[i as int].max_resources, old(heap).contexts@[i as int].max_resource_bytes);
        }
        let max_count = heap.contexts[i].max_resources;
        let max_bytes = heap.contexts[i].max_resource_bytes;
        fit_cache(&mut heap.contexts[i].resources, used + entry.bytes, max_count, max_bytes);
        proof {
            lemma_wf_update(old(heap), heap, i as int);
        }
        true
    }

    /// Records one unit of drawing work for the next submission; an
    /// abandoned context records nothing.
    pub fn record_work(&self, heap: &mut NativeHeap)
        requires
            self.held_in(old(heap)),
            old(heap).wf(),
        ensures
            final(heap).wf(),
            context_updated(old(heap), final(heap), self.slot()),
            final(heap).contexts@[self.slot()] == (ContextObject {
                pending_work: if self.object(old(heap)).abandoned {
                    self.object(old(heap)).pending_work
                } else {
                    sat_add(self.object(old(heap)).pending_work, 1)
                },
                ..self.object(old(heap))
            }),
    {
        let i = self.index();
        if !heap.contexts[i].abandoned {
            heap.contexts[i].pending_work = heap.contexts[i].pending_work.saturating_add(1);
        }
        proof {
            assert(old(heap).contexts@[i as int].wf());
            lemma_wf_update(old(heap), heap, i as int);
        }
    }

    /// Submits the recorded work to the device. Returns `false`, with no
    /// change, where the context is abandoned. Where `sync_cpu` is
    /// `Some(true)`, waits until the device has finished all submitted work.
    pub fn submit(&self, heap: &mut NativeHeap, sync_cpu: Option<bool>) -> (r: bool)
        requires
            self.held_in(old(heap)),
            old(heap).wf(),
        ensures
            final(heap).wf(),
            context_updated(old(heap), final(heap), self.slot()),
            r == !self.object(old(heap)).abandoned,
            !r ==> final(heap).contexts@ == old(heap).contexts@,
            r ==> final(heap).contexts@[self.slot()] == (ContextObject {
                pending_work: 0,
                in_flight_work: if sync_cpu == Some(true) {
                    0
                } else {
                    sat_add(self.object(old(heap)).in_flight_work, self.object(old(heap)).pending_work)
                },
                ..self.object(old(heap))
            }),
    {
        let i = self.index();
        if heap.contexts[i].abandoned {
            return false;
        }
        let sync = match sync_cpu {
            Some(b) => b,
            None => false,
        };
        if sync {
            heap.contexts[i].in_flight_work = 0;
        } else {
            heap.contexts[i].in_flight_work = heap.contexts[i].in_flight_work.saturating_add(heap.contexts[i].pending_work);
        }
        heap.contexts[i].pending_work = 0;
        proof {
            assert(old(heap).contexts@[i as int].wf());
            lemma_wf_update(old(heap), heap, i as int);
        }
        true
    }

    /// Submits the recorded work without waiting for the device.
    pub fn flush_and_submit(&self, heap: &mut NativeHeap)
        requires
            self.held_in(old(heap)),
            old(heap).wf(),
        ensures
            final(heap).wf(),
            context_updated(old(heap), final(heap), self.slot()),
            self.object(old(heap)).abandoned ==> final(heap).contexts@ == old(heap).contexts@,
            !self.object(old(heap)).abandoned ==> final(heap).contexts@[self.slot()] == (ContextObject {
                pending_work: 0,
                in_flight_work: sat_add(self.object(old(heap)).in_flight_work, self.object(old(heap)).pending_work),
                ..self.object(old(heap))
            }),
    {
        self.submit(heap, None);
    }

    /// The same as `flush_and_submit`.
    pub fn flush(&self, heap: &mut NativeHeap)
        requires
            self.held_in(old(heap)),
            old(heap).wf(),
        ensures
            final(heap).wf(),
            context_updated(old(heap), final(heap), self.slot()),
            self.object(old(heap)).abandoned ==> final(heap).contexts@ == old(heap).contexts@,
            !self.object(old(heap)).abandoned ==> final(heap).contexts@[self.slot()] == (ContextObject {
                pending_work: 0,
                in_flight_work: sat_add(self.object(old(heap)).in_flight_work, self.object(old(heap)).pending_work),
                ..self.object(old(heap))
            }),
    {
        self.flush_and_submit(heap)
    }

    /// Polls the device without waiting: `finished` is how many units of
    /// submitted work the device reports finished, and they leave the
    /// in-flight count (which never goes below zero).
    pub fn check_async_work_completion(&self, heap: &mut NativeHeap, finished: u64)
        requires
            self.held_in(old(heap)),
            old(heap).wf(),
        ensures
            final(heap).wf(),
            context_updated(old(heap), final(heap), self.slot()),
            final(heap).contexts@[self.slot()] == (ContextObject {
                in_flight_work: if finished >= self.object(old(heap)).in_flight_work {
                    0
                } else {
                    (self.object(old(heap)).in_flight_work - finished) as u64
                },
                ..self.object(old(heap))
            }),
    {
        let i = self.index();
        let in_flight = heap.contexts[i].in_flight_work;
        heap.contexts[i].in_flight_work = if finished >= in_flight {
            0
        } else {
            in_flight - finished
        };
        proof {
            assert(old(heap).contexts@[i as int].wf());
            lemma_wf_update(old(heap), heap, i as int);
        }
    }
}

impl RCHandle<GrContextBase> {
    /// Makes a GL direct context, as `DirectContext::new_gl` with default
    /// options, and views it at the base level.
    pub fn new_gl(heap: &mut NativeHeap, interface: Option<Interface>) -> (r: Option<Context>)
        requires
            old(heap).wf(),
            interface matches Some(i) ==> i.interface_in(old(heap)),
        ensures
            final(heap).wf(),
            r.is_some() <==> match interface {
                Some(i) => table_valid(i.interface_object(old(heap)).functions@),
                None => platform_gl_valid(old(heap).platform_gl@),
            },
            r.is_none() ==> final(heap).contexts@ == old(heap).contexts@,
            r matches Some(c) ==> {
                &&& c.held_in(final(heap))
                &&& c.slot() == old(heap).contexts@.len()
                &&& final(heap).contexts@.len() == old(heap).contexts@.len() + 1
                &&& forall|j: int| 0 <= j < old(heap).contexts@.len() ==> final(heap).contexts@[j] == old(heap).contexts@[j]
                &&& fresh_direct(c.object(final(heap)), Backend::OpenGL, None, c.object(final(heap)).interface)
                &&& c.object(final(heap)).interface matches Some(s) && (interface matches Some(i) ==> s == i.slot())
                    && final(heap).live_interface(s as int)
            },
            interfaces_after_gl(old(heap), final(heap), interface, r.is_some()),
            final(heap).platform_gl@ == old(heap).platform_gl@,
    {
        match DirectContext::new_gl(heap, interface, None) {
            Some(c) => Some(c.into_base()),
            None => None,
        }
    }

    /// Makes a Vulkan direct context, as `DirectContext::new_vulkan` with
    /// default options, and views it at the base level.
    pub fn new_vulkan(heap: &mut NativeHeap, backend_context: &VkBackendContext) -> (r: Option<Context>)
        requires
            old(heap).wf(),
        ensures
            final(heap).wf(),
            r.is_some() <==> (backend_context.instance != 0 && backend_context.physical_device != 0
                && backend_context.device != 0 && backend_context.queue != 0),
            r.is_none() ==> final(heap).contexts@ == old(heap).contexts@,
            r matches Some(c) ==> {
                &&& c.held_in(final(heap))
                &&& c.slot() == old(heap).contexts@.len()
                &&& final(heap).contexts@.len() == old(heap).contexts@.len() + 1
                &&& forall|j: int| 0 <= j < old(heap).contexts@.len() ==> final(heap).contexts@[j] == old(heap).contexts@[j]
                &&& fresh_direct(c.object(final(heap)), Backend::Vulkan, None, None)
            },
            final(heap).interfaces@ == old(heap).interfaces@,
            final(heap).platform_gl@ == old(heap).platform_gl@,
    {
        match DirectContext::new_vulkan(heap, backend_context, None) {
            Some(c) => Some(c.into_base()),
            None => None,
        }
    }

    /// Makes a Metal direct context, as `DirectContext::new_metal` with
    /// default options, and views it at the base level.
    pub fn new_metal(heap: &mut NativeHeap, device: u64, queue: u64) -> (r: Option<Context>)
        requires
            old(heap).wf(),
        ensures
            final(heap).wf(),
            r.is_some() <==> (device != 0 && queue != 0),
            r.is_none() ==> final(heap).contexts@ == old(heap).contexts@,
            r matches Some(c) ==> {
                &&& c.held_in(final(heap))
                &&& c.slot() == old(heap).contexts@.len()
                &&& final(heap).contexts@.len() == old(heap).contexts@.len() + 1
                &&& forall|j: int| 0 <= j < old(heap).contexts@.len() ==> final(heap).contexts@[j] == old(heap).contexts@[j]
                &&& fresh_direct(c.object(final(heap)), Backend::Metal, None, None)
            },
            final(heap).interfaces@ == old(heap).interfaces@,
            final(heap).platform_gl@ == old(heap).platform_gl@,
    {
        match DirectContext::new_metal(heap, device, queue, None) {
            Some(c) => Some(c.into_base()),
            None => None,
        }
    }

    /// Makes a Direct3D direct context, as `DirectContext::new_d3d` with
    /// default options, and views it at the base level.
    pub fn new_d3d(heap: &mut NativeHeap, backend_context: &D3DBackendContext) -> (r: Option<Context>)
        requires
            old(heap).wf(),
        ensures
            final(heap).wf(),
            r.is_some() <==> (backend_context.adapter != 0 && backend_context.device != 0 && backend_context.queue != 0),
            r.is_none() ==> final(heap).contexts@ == old(heap).contexts@,
            r matches Some(c) ==> {
                &&& c.held_in(final(heap))
                &&& c.slot() == old(heap).contexts@.len()
                &&& final(heap).contexts@.len() == old(heap).contexts@.len() + 1
                &&& forall|j: int| 0 <= j < old(heap).contexts@.len() ==> final(heap).contexts@[j] == old(heap).contexts@[j]
                &&& fresh_direct(c.object(final(heap)), Backend::Direct3D, None, None)
            },
            final(heap).interfaces@ == old(heap).interfaces@,
            final(heap).platform_gl@ == old(heap).platform_gl@,
    {
        match DirectContext::new_d3d(heap, backend_context, None) {
            Some(c) => Some(c.into_base()),
            None => None,
        }
    }
}

} // verus!
