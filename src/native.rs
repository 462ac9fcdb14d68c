use vstd::prelude::*;

verus! {

/// The capability level that a native context object was created with.
#[derive(Clone, Copy, PartialEq, Eq, Debug, Structural)]
pub enum ContextKind {
    Base,
    Recording,
    Direct,
}

/// The device API that a direct context drives.
#[derive(Clone, Copy, PartialEq, Eq, Debug, Structural)]
pub enum Backend {
    OpenGL,
    Vulkan,
    Metal,
    Direct3D,
}

/// One entry of a context's GPU resource cache.
#[derive(Clone, Copy, PartialEq, Eq, Debug, Structural)]
pub struct CacheEntry {
    pub bytes: usize,
    /// Referenced by pending work: not eligible for purging.
    pub locked: bool,
    /// Ephemeral and reconstructable.
    pub scratch: bool,
    /// When the entry was last used, in milliseconds of the engine's clock.
    pub last_used_ms: u64,
}

/// A native context object as the engine keeps it.
pub struct ContextObject {
    pub ref_cnt: u64,
    pub kind: ContextKind,
    pub backend: Backend,
    pub abandoned: bool,
    pub oomed: bool,
    pub max_resources: usize,
    pub max_resource_bytes: usize,
    /// Cache entries, least recently used first.
    pub resources: Vec<CacheEntry>,
    /// Work recorded and not yet submitted.
    pub pending_work: u64,
    /// Work submitted to the device and not yet known to be finished.
    pub in_flight_work: u64,
    /// Backend state bits that must be re-sent to the device before use.
    pub dirty_state: u32,
    /// The GL interface the context was made with, if any.
    pub interface: Option<usize>,
}

/// One named entry point of a GL interface; address 0 stands for null.
pub struct GlFunction {
    pub name: String,
    pub address: usize,
}

/// One integer of the GL driver's state, as `glGetIntegerv` reports it.
#[derive(Clone, Copy, PartialEq, Eq, Debug, Structural)]
pub struct GlInteger {
    pub pname: u32,
    pub value: u32,
}

/// A native GL interface object: a table of function pointers.
pub struct InterfaceObject {
    pub ref_cnt: u64,
    pub functions: Vec<GlFunction>,
    pub extensions: Vec<String>,
    pub integers: Vec<GlInteger>,
}

/// The engine's heap of reference-counted native objects. Objects are
/// never moved: an object whose count dropped to zero stays as a dead slot.
pub struct NativeHeap {
    pub contexts: Vec<ContextObject>,
    pub interfaces: Vec<InterfaceObject>,
    /// The platform's own GL entry points; empty where there is no GL.
    pub platform_gl: Vec<GlFunction>,
}

/// The sum of the sizes of a sequence of cache entries.
pub open spec fn total_bytes(s: Seq<CacheEntry>) -> nat
    decreases s.len(),
{
    if s.len() == 0 {
        0
    } else {
        total_bytes(s.drop_last()) + s.last().bytes as nat
    }
}

/// The sum of the sizes of the unlocked entries.
pub open spec fn unlocked_bytes(s: Seq<CacheEntry>) -> nat
    decreases s.len(),
{
    if s.len() == 0 {
        0
    } else {
        unlocked_bytes(s.drop_last()) + if s.last().locked {
            0nat
        } else {
            s.last().bytes as nat
        }
    }
}

/// The locked entries, in order.
pub open spec fn locked_only(s: Seq<CacheEntry>) -> Seq<CacheEntry>
    decreases s.len(),
{
    if s.len() == 0 {
        s
    } else if s.last().locked {
        locked_only(s.drop_last()).push(s.last())
    } else {
        locked_only(s.drop_last())
    }
}

pub proof fn lemma_locked_only_bytes(s: Seq<CacheEntry>)
    ensures
        total_bytes(locked_only(s)) + unlocked_bytes(s) == total_bytes(s),
        total_bytes(locked_only(s)) <= total_bytes(s),
    decreases s.len(),
{
    if s.len() > 0 {
        lemma_locked_only_bytes(s.drop_last());
        if s.last().locked {
            assert(locked_only(s).drop_last() =~= locked_only(s.drop_last()));
        }
    }
}

/// An unlocked entry that was last used more than `not_used_ms` before
/// `now_ms`.
pub open spec fn stale(e: CacheEntry, now_ms: u64, not_used_ms: u64) -> bool {
    !e.locked && e.last_used_ms + not_used_ms < now_ms
}

/// The entries that are not stale, in order.
pub open spec fn recent_only(s: Seq<CacheEntry>, now_ms: u64, not_used_ms: u64) -> Seq<CacheEntry>
    decreases s.len(),
{
    if s.len() == 0 {
        s
    } else if stale(s.last(), now_ms, not_used_ms) {
        recent_only(s.drop_last(), now_ms, not_used_ms)
    } else {
        recent_only(s.drop_last(), now_ms, not_used_ms).push(s.last())
    }
}

pub proof fn lemma_recent_only_bytes(s: Seq<CacheEntry>, now_ms: u64, not_used_ms: u64)
    ensures
        total_bytes(recent_only(s, now_ms, not_used_ms)) <= total_bytes(s),
    decreases s.len(),
{
    if s.len() > 0 {
        lemma_recent_only_bytes(s.drop_last(), now_ms, not_used_ms);
        if !stale(s.last(), now_ms, not_used_ms) {
            assert(recent_only(s, now_ms, not_used_ms).drop_last() =~= recent_only(s.drop_last(), now_ms, not_used_ms));
        }
    }
}

pub proof fn lemma_unlocked_bytes_bounded(s: Seq<CacheEntry>)
    ensures
        unlocked_bytes(s) <= total_bytes(s),
    decreases s.len(),
{
    if s.len() > 0 {
        lemma_unlocked_bytes_bounded(s.drop_last());
    }
}

/// Of a prefix, the sizes sum to no more than of the whole.
pub proof fn lemma_prefix_bytes(s: Seq<CacheEntry>, k: int)
    requires
        0 <= k <= s.len(),
    ensures
        total_bytes(s.subrange(0, k)) <= total_bytes(s),
        unlocked_bytes(s.subrange(0, k)) <= unlocked_bytes(s),
    decreases s.len(),
{
    if k < s.len() {
        assert(s.drop_last().subrange(0, k) =~= s.subrange(0, k));
        lemma_prefix_bytes(s.drop_last(), k);
    } else {
        assert(s.subrange(0, k) =~= s);
    }
}

/// The result of one purge pass over `s`, oldest entry first, with a
/// budget of `budget` bytes: each unlocked entry (scratch only, where
/// `scratch_only`) that fits what is left of the budget is dropped.
/// Gives the entries kept and the budget left.
pub open spec fn purge_pass(s: Seq<CacheEntry>, budget: nat, scratch_only: bool) -> (Seq<CacheEntry>, nat)
    decreases s.len(),
{
    if s.len() == 0 {
        (s, budget)
    } else {
        let (kept, left) = purge_pass(s.drop_last(), budget, scratch_only);
        let e = s.last();
        if !e.locked && (e.scratch || !scratch_only) && e.bytes <= left {
            (kept, (left - e.bytes) as nat)
        } else {
            (kept.push(e), left)
        }
    }
}

pub proof fn lemma_purge_pass_bytes(s: Seq<CacheEntry>, budget: nat, scratch_only: bool)
    ensures
        purge_pass(s, budget, scratch_only).1 <= budget,
        total_bytes(purge_pass(s, budget, scratch_only).0) + budget == total_bytes(s) + purge_pass(s, budget, scratch_only).1,
    decreases s.len(),
{
    if s.len() > 0 {
        lemma_purge_pass_bytes(s.drop_last(), budget, scratch_only);
        let (kept, left) = purge_pass(s.drop_last(), budget, scratch_only);
        assert(kept.push(s.last()).drop_last() =~= kept);
    }
}

/// The position of the oldest unlocked entry, or -1 where every entry is
/// locked.
pub open spec fn first_unlocked(s: Seq<CacheEntry>) -> int
    decreases s.len(),
{
    if s.len() == 0 {
        -1
    } else if !s[0].locked {
        0
    } else {
        let r = first_unlocked(s.drop_first());
        if r < 0 {
            -1
        } else {
            r + 1
        }
    }
}

/// The cache holds no more than `max_count` entries and `max_bytes` bytes.
pub open spec fn within_limits(s: Seq<CacheEntry>, max_count: usize, max_bytes: usize) -> bool {
    s.len() <= max_count && total_bytes(s) <= max_bytes
}

/// The cache after dropping unlocked entries, oldest first, until it is
/// within the limits or only locked entries are left.
pub open spec fn purge_to_fit(s: Seq<CacheEntry>, max_count: usize, max_bytes: usize) -> Seq<CacheEntry>
    decreases s.len(),
{
    if within_limits(s, max_count, max_bytes) || first_unlocked(s) < 0 || first_unlocked(s) >= s.len() {
        s
    } else {
        purge_to_fit(s.remove(first_unlocked(s)), max_count, max_bytes)
    }
}

pub proof fn lemma_first_unlocked(s: Seq<CacheEntry>, k: int)
    requires
        0 <= k <= s.len(),
        forall|j: int| 0 <= j < k ==> (#[trigger] s[j]).locked,
    ensures
        k < s.len() && !s[k].locked ==> first_unlocked(s) == k,
        k == s.len() ==> first_unlocked(s) == -1,
    decreases k,
{
    if k > 0 {
        assert forall|j: int| 0 <= j < k - 1 implies (#[trigger] s.drop_first()[j]).locked by {
            assert(s.drop_first()[j] == s[j + 1]);
        }
        lemma_first_unlocked(s.drop_first(), k - 1);
    }
}

pub proof fn lemma_remove_bytes(s: Seq<CacheEntry>, k: int)
    requires
        0 <= k < s.len(),
    ensures
        total_bytes(s.remove(k)) + s[k].bytes == total_bytes(s),
    decreases s.len(),
{
    if k == s.len() - 1 {
        assert(s.remove(k) =~= s.drop_last());
    } else {
        assert(s.remove(k).drop_last() =~= s.drop_last().remove(k));
        lemma_remove_bytes(s.drop_last(), k);
    }
}

/// After purging to fit, the cache is within its limits, or holds only
/// locked entries; and it is no larger than before.
pub proof fn lemma_purge_to_fit(s: Seq<CacheEntry>, max_count: usize, max_bytes: usize)
    ensures
        within_limits(purge_to_fit(s, max_count, max_bytes), max_count, max_bytes) || forall|j: int|
            0 <= j < purge_to_fit(s, max_count, max_bytes).len() ==> (#[trigger] purge_to_fit(s, max_count, max_bytes)[j]).locked,
        total_bytes(purge_to_fit(s, max_count, max_bytes)) <= total_bytes(s),
    decreases s.len(),
{
    let k = first_unlocked(s);
    if within_limits(s, max_count, max_bytes) || k < 0 || k >= s.len() {
        if !within_limits(s, max_count, max_bytes) {
            lemma_first_unlocked_none(s);
        }
    } else {
        lemma_remove_bytes(s, k);
        lemma_purge_to_fit(s.remove(k), max_count, max_bytes);
    }
}

proof fn lemma_first_unlocked_none(s: Seq<CacheEntry>)
    ensures
        first_unlocked(s) < 0 || first_unlocked(s) >= s.len() ==> forall|j: int| 0 <= j < s.len() ==> (#[trigger] s[j]).locked,
        first_unlocked(s) < s.len(),
        first_unlocked(s) >= 0 ==> !s[first_unlocked(s)].locked,
    decreases s.len(),
{
    if s.len() > 0 {
        lemma_first_unlocked_none(s.drop_first());
        if first_unlocked(s) < 0 || first_unlocked(s) >= s.len() {
            assert forall|j: int| 0 <= j < s.len() implies (#[trigger] s[j]).locked by {
                if j > 0 {
                    assert(s[j] == s.drop_first()[j - 1]);
                }
            }
        }
    }
}

pub proof fn lemma_purge_pass_keeps_locked(s: Seq<CacheEntry>, budget: nat, scratch_only: bool)
    ensures
        locked_only(purge_pass(s, budget, scratch_only).0) == locked_only(s),
    decreases s.len(),
{
    if s.len() > 0 {
        lemma_purge_pass_keeps_locked(s.drop_last(), budget, scratch_only);
        let (kept, left) = purge_pass(s.drop_last(), budget, scratch_only);
        assert(kept.push(s.last()).drop_last() =~= kept);
    }
}

/// Every entry of `r` is an entry of `s`.
pub open spec fn drawn_from(r: Seq<CacheEntry>, s: Seq<CacheEntry>) -> bool {
    forall|j: int| 0 <= j < r.len() ==> s.contains(#[trigger] r[j])
}

proof fn lemma_drawn_from_prefix(r: Seq<CacheEntry>, s: Seq<CacheEntry>)
    requires
        s.len() > 0,
        drawn_from(r, s.drop_last()),
    ensures
        drawn_from(r, s),
        drawn_from(r.push(s.last()), s),
{
    assert forall|j: int| 0 <= j < r.len() implies s.contains(#[trigger] r[j]) by {
        let k = choose|k: int| 0 <= k < s.drop_last().len() && s.drop_last()[k] == r[j];
        assert(s[k] == r[j]);
    }
    assert forall|j: int| 0 <= j < r.push(s.last()).len() implies s.contains(#[trigger] r.push(s.last())[j]) by {
        if j < r.len() {
            assert(r.push(s.last())[j] == r[j]);
        } else {
            assert(s[s.len() - 1] == s.last());
        }
    }
}

pub proof fn lemma_locked_only_from(s: Seq<CacheEntry>)
    ensures
        locked_only(s).len() <= s.len(),
        drawn_from(locked_only(s), s),
    decreases s.len(),
{
    if s.len() > 0 {
        lemma_locked_only_from(s.drop_last());
        lemma_drawn_from_prefix(locked_only(s.drop_last()), s);
    }
}

pub proof fn lemma_recent_only_len(s: Seq<CacheEntry>, now_ms: u64, not_used_ms: u64)
    ensures
        recent_only(s, now_ms, not_used_ms).len() <= s.len(),
    decreases s.len(),
{
    if s.len() > 0 {
        lemma_recent_only_len(s.drop_last(), now_ms, not_used_ms);
    }
}

pub proof fn lemma_purge_pass_from(s: Seq<CacheEntry>, budget: nat, scratch_only: bool)
    ensures
        purge_pass(s, budget, scratch_only).0.len() <= s.len(),
        drawn_from(purge_pass(s, budget, scratch_only).0, s),
    decreases s.len(),
{
    if s.len() > 0 {
        lemma_purge_pass_from(s.drop_last(), budget, scratch_only);
        lemma_drawn_from_prefix(purge_pass(s.drop_last(), budget, scratch_only).0, s);
    }
}

pub proof fn lemma_drawn_from_trans(a: Seq<CacheEntry>, b: Seq<CacheEntry>, c: Seq<CacheEntry>)
    requires
        drawn_from(a, b),
        drawn_from(b, c),
    ensures
        drawn_from(a, c),
{
    assert forall|j: int| 0 <= j < a.len() implies c.contains(#[trigger] a[j]) by {
        let k = choose|k: int| 0 <= k < b.len() && b[k] == a[j];
        assert(c.contains(b[k]));
    }
}

pub proof fn lemma_purge_to_fit_len(s: Seq<CacheEntry>, max_count: usize, max_bytes: usize)
    ensures
        purge_to_fit(s, max_count, max_bytes).len() <= s.len(),
    decreases s.len(),
{
    let k = first_unlocked(s);
    if !(within_limits(s, max_count, max_bytes) || k < 0 || k >= s.len()) {
        lemma_purge_to_fit_len(s.remove(k), max_count, max_bytes);
    }
}

/// Only the context at slot `i` may differ between the two heaps.
pub open spec fn context_updated(old: &NativeHeap, new: &NativeHeap, i: int) -> bool {
    &&& new.contexts@.len() == old.contexts@.len()
    &&& forall|j: int| 0 <= j < old.contexts@.len() && j != i ==> new.contexts@[j] == old.contexts@[j]
    &&& new.interfaces@ == old.interfaces@
    &&& new.platform_gl@ == old.platform_gl@
}

pub proof fn lemma_wf_update(old: &NativeHeap, new: &NativeHeap, i: int)
    requires
        old.wf(),
        context_updated(old, new, i),
        0 <= i < new.contexts@.len(),
        new.contexts@[i].wf(),
    ensures
        new.wf(),
{
    assert forall|j: int| 0 <= j < new.contexts@.len() implies #[trigger] new.contexts@[j].wf() by {
        if j != i {
            assert(old.contexts@[j].wf());
        }
    }
}

impl ContextObject {
    /// The cache's entries fit the machine's size counters, and its count
    /// and count limit fit the engine's C `int`.
    pub open spec fn wf(&self) -> bool {
        &&& total_bytes(self.resources@) <= usize::MAX
        &&& self.resources@.len() <= i32::MAX
        &&& self.max_resources <= i32::MAX
    }
}

impl NativeHeap {
    pub open spec fn wf(&self) -> bool {
        forall|i: int| 0 <= i < self.contexts@.len() ==> #[trigger] self.contexts@[i].wf()
    }

    /// `i` names a context object that is still alive.
    pub open spec fn live_context(&self, i: int) -> bool {
        0 <= i < self.contexts@.len() && self.contexts@[i].ref_cnt > 0
    }

    /// `i` names a GL interface object that is still alive.
    pub open spec fn live_interface(&self, i: int) -> bool {
        0 <= i < self.interfaces@.len() && self.interfaces@[i].ref_cnt > 0
    }

    /// A heap holding no objects, over the platform's GL entry points.
    pub fn new(platform_gl: Vec<GlFunction>) -> (r: NativeHeap)
        ensures
            r.wf(),
            r.contexts@.len() == 0,
            r.interfaces@.len() == 0,
            r.platform_gl@ == platform_gl@,
    {
        NativeHeap { contexts: Vec::new(), interfaces: Vec::new(), platform_gl }
    }

    /// Places a new context object, with a count of one, and returns its slot.
    pub fn place_context(&mut self, obj: ContextObject) -> (r: usize)
        requires
            old(self).wf(),
            obj.wf(),
        ensures
            final(self).wf(),
            r == old(self).contexts@.len(),
            final(self).contexts@ == old(self).contexts@.push(obj),
            final(self).interfaces@ == old(self).interfaces@,
            final(self).platform_gl@ == old(self).platform_gl@,
    {
        let r = self.contexts.len();
        self.contexts.push(obj);
        r
    }

    /// Takes one more reference to a live context object.
    pub fn ref_context(&mut self, i: usize)
        requires
            old(self).live_context(i as int),
            old(self).contexts@[i as int].ref_cnt < u64::MAX,
        ensures
            final(self).contexts@ == old(self).contexts@.update(
                i as int,
                ContextObject { ref_cnt: (old(self).contexts@[i as int].ref_cnt + 1) as u64, ..old(self).contexts@[i as int] },
            ),
            final(self).interfaces@ == old(self).interfaces@,
            final(self).platform_gl@ == old(self).platform_gl@,
    {
        self.contexts[i].ref_cnt = self.contexts[i].ref_cnt + 1;
    }
}

} // verus!
