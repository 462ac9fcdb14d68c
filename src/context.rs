use vstd::prelude::*;
use crate::native::{total_bytes, Backend, ContextKind, ContextObject, InterfaceObject, NativeHeap};

verus! {

/// A handle that owns one reference to a native object in a `NativeHeap`.
/// The type parameter is the capability level that the handle exposes.
/// Dropping a handle gives nothing up: only `release` gives its reference
/// back, as the heap cannot be reached from `Drop`.
pub struct RCHandle<N> {
    index: usize,
    level: N,
}

/// Marker: the capability set shared by every context.
pub struct GrContextBase;

/// Marker: a context that can record work.
pub struct GrRecordingContext;

/// Marker: a context connected to a device.
pub struct GrDirectContext;

pub type Context = RCHandle<GrContextBase>;

pub type RecordingContext = RCHandle<GrRecordingContext>;

pub type DirectContext = RCHandle<GrDirectContext>;

/// A level of the context hierarchy, given by the native kinds it admits.
pub trait ContextLevel: Sized {
    spec fn admits(kind: ContextKind) -> bool;

    fn marker() -> Self;
}

impl ContextLevel for GrContextBase {
    fn marker() -> Self {
        GrContextBase
    }

    open spec fn admits(kind: ContextKind) -> bool {
        true
    }
}

impl ContextLevel for GrRecordingContext {
    fn marker() -> Self {
        GrRecordingContext
    }

    open spec fn admits(kind: ContextKind) -> bool {
        kind != ContextKind::Base
    }
}

impl ContextLevel for GrDirectContext {
    fn marker() -> Self {
        GrDirectContext
    }

    open spec fn admits(kind: ContextKind) -> bool {
        kind == ContextKind::Direct
    }
}

/// The objects after one more reference to object `i` is taken.
pub open spec fn ref_taken(objs: Seq<ContextObject>, i: int) -> Seq<ContextObject> {
    objs.update(i, ContextObject { ref_cnt: (objs[i].ref_cnt + 1) as u64, ..objs[i] })
}

/// The objects after a reference to object `i` is given up.
pub open spec fn ref_given_up(objs: Seq<ContextObject>, i: int) -> Seq<ContextObject> {
    objs.update(i, ContextObject { ref_cnt: (objs[i].ref_cnt - 1) as u64, ..objs[i] })
}

/// Taking a reference and then giving the new one up leaves every object,
/// its count included, as it was; giving it up destroys nothing.
pub proof fn lemma_clone_then_release(objs: Seq<ContextObject>, i: int)
    requires
        0 <= i < objs.len(),
        0 < objs[i].ref_cnt < u64::MAX,
    ensures
        ref_taken(objs, i)[i].ref_cnt != 1,
        ref_given_up(ref_taken(objs, i), i) == objs,
{
    assert(ref_given_up(ref_taken(objs, i), i) =~= objs);
}

/// Abandoning twice leaves the context as abandoning once does.
pub proof fn lemma_abandon_twice(o: ContextObject, once: ContextObject, twice: ContextObject)
    requires
        abandoned_from(once, o),
        abandoned_from(twice, once),
    ensures
        abandoned_from(twice, o),
        twice.resources@ == once.resources@,
        twice == (ContextObject { resources: twice.resources, ..once }),
{
    assert(twice.resources@ =~= once.resources@);
}

/// Viewing a context through handles of other levels over the same slot
/// reads the same native object, and each stays held.
pub proof fn lemma_views_agree<N: ContextLevel, M: ContextLevel>(a: RCHandle<N>, b: RCHandle<M>, heap: &NativeHeap)
    requires
        a.held_in(heap),
        b.slot() == a.slot(),
        M::admits(a.object(heap).kind),
    ensures
        b.held_in(heap),
        b.object(heap) == a.object(heap),
{
}

/// `n` is what destroying the context object `o` leaves: no references,
/// an empty cache, no interface, all else kept.
pub open spec fn destroyed_from(n: ContextObject, o: ContextObject) -> bool {
    &&& n == (ContextObject { ref_cnt: 0, resources: n.resources, interface: None, ..o })
    &&& n.resources@.len() == 0
}

/// The context object refers to a GL interface that is alive.
pub open spec fn holds_live_interface(heap: &NativeHeap, o: ContextObject) -> bool {
    match o.interface {
        Some(s) => heap.live_interface(s as int),
        None => false,
    }
}

/// The interface objects after a reference to object `s` is given up.
pub open spec fn interface_given_up(old: Seq<InterfaceObject>, new: Seq<InterfaceObject>, s: int) -> bool {
    &&& new.len() == old.len()
    &&& new[s].ref_cnt == old[s].ref_cnt - 1
    &&& new[s].functions@ == old[s].functions@
    &&& new[s].extensions@ == old[s].extensions@
    &&& new[s].integers@ == old[s].integers@
    &&& forall|j: int| 0 <= j < old.len() && j != s ==> new[j] == old[j]
}

/// `n` is what abandoning leaves of the context object `o`: marked
/// abandoned, its cache empty, all else kept.
pub open spec fn abandoned_from(n: ContextObject, o: ContextObject) -> bool {
    &&& n == (ContextObject { abandoned: true, resources: n.resources, ..o })
    &&& n.resources@.len() == 0
}

impl<N> RCHandle<N> {
    /// The heap slot of the object this handle refers to.
    pub closed spec fn slot(&self) -> int {
        self.index as int
    }

    /// The heap slot, for reading the native object directly.
    pub fn index(&self) -> (r: usize)
        ensures
            r as int == self.slot(),
    {
        self.index
    }

    pub(crate) fn with_level(index: usize, level: N) -> (r: Self)
        ensures
            r.slot() == index as int,
    {
        RCHandle { index, level }
    }
}

impl<N: ContextLevel> RCHandle<N> {
    /// The handle refers to a live context whose kind this level admits.
    pub open spec fn held_in(&self, heap: &NativeHeap) -> bool {
        &&& heap.live_context(self.slot())
        &&& N::admits(heap.contexts@[self.slot()].kind)
    }

    /// The native object behind the handle.
    pub open spec fn object(&self, heap: &NativeHeap) -> ContextObject {
        heap.contexts@[self.slot()]
    }

    /// The number of references the native object has.
    pub fn ref_count(&self, heap: &NativeHeap) -> (r: u64)
        requires
            self.held_in(heap),
        ensures
            r == self.object(heap).ref_cnt,
    {
        heap.contexts[self.index].ref_cnt
    }

    /// Takes one more reference to the same native object.
    pub fn clone_ref(&self, heap: &mut NativeHeap) -> (r: Self)
        requires
            self.held_in(old(heap)),
            self.object(old(heap)).ref_cnt < u64::MAX,
        ensures
            r.slot() == self.slot(),
            final(heap).contexts@ == ref_taken(old(heap).contexts@, self.slot()),
            final(heap).interfaces@ == old(heap).interfaces@,
            final(heap).platform_gl@ == old(heap).platform_gl@,
    {
        heap.ref_context(self.index);
        RCHandle { index: self.index, level: N::marker() }
    }

    /// Gives up this reference. When the last reference goes the native
    /// object is destroyed: its cache is emptied and the reference it held
    /// to its GL interface, if any, is given up. `r` tells whether it was.
    pub fn release(self, heap: &mut NativeHeap) -> (r: bool)
        requires
            self.held_in(old(heap)),
            old(heap).wf(),
        ensures
            final(heap).wf(),
            r == (self.object(old(heap)).ref_cnt == 1),
            final(heap).contexts@.len() == old(heap).contexts@.len(),
            r ==> destroyed_from(final(heap).contexts@[self.slot()], self.object(old(heap))),
            !r ==> final(heap).contexts@ == ref_given_up(old(heap).contexts@, self.slot()),
            forall|j: int| 0 <= j < old(heap).contexts@.len() && j != self.slot() ==> final(heap).contexts@[j] == old(heap).contexts@[j],
            r && holds_live_interface(old(heap), self.object(old(heap))) ==> interface_given_up(
                old(heap).interfaces@,
                final(heap).interfaces@,
                self.object(old(heap)).interface.unwrap() as int,
            ),
            !(r && holds_live_interface(old(heap), self.object(old(heap)))) ==> final(heap).interfaces@ == old(heap).interfaces@,
            final(heap).platform_gl@ == old(heap).platform_gl@,
    {
        let i = self.index;
        heap.contexts[i].ref_cnt = heap.contexts[i].ref_cnt - 1;
        assert(heap.contexts@[i as int].wf()) by {
            assert(old(heap).contexts@[i as int].wf());
        }
        if heap.contexts[i].ref_cnt == 0 {
            heap.contexts[i].resources = Vec::new();
            assert(total_bytes(heap.contexts@[i as int].resources@) == 0);
            if let Some(s) = heap.contexts[i].interface {
                if s < heap.interfaces.len() && heap.interfaces[s].ref_cnt > 0 {
                    heap.interfaces[s].ref_cnt = heap.interfaces[s].ref_cnt - 1;
                }
            }
            heap.contexts[i].interface = None;
            true
        } else {
            false
        }
    }

    /// Marks the context abandoned: its device connection is treated as
    /// lost and its cached resources are dropped without device calls.
    /// Abandoning an abandoned context changes nothing further.
    pub fn abandon(&self, heap: &mut NativeHeap)
        requires
            self.held_in(old(heap)),
            old(heap).wf(),
        ensures
            final(heap).wf(),
            final(heap).contexts@.len() == old(heap).contexts@.len(),
            abandoned_from(final(heap).contexts@[self.slot()], self.object(old(heap))),
            forall|j: int| 0 <= j < old(heap).contexts@.len() && j != self.slot() ==> final(heap).contexts@[j] == old(heap).contexts@[j],
            final(heap).interfaces@ == old(heap).interfaces@,
            final(heap).platform_gl@ == old(heap).platform_gl@,
    {
        let i = self.index;
        heap.contexts[i].abandoned = true;
        heap.contexts[i].resources = Vec::new();
        assert(total_bytes(heap.contexts@[i as int].resources@) == 0);
    }

    /// Whether the context has been abandoned.
    pub fn abandoned(&self, heap: &NativeHeap) -> (r: bool)
        requires
            self.held_in(heap),
        ensures
            r == self.object(heap).abandoned,
    {
        heap.contexts[self.index].abandoned
    }

    /// The device API the context drives.
    pub fn backend(&self, heap: &NativeHeap) -> (r: Backend)
        requires
            self.held_in(heap),
        ensures
            r == self.object(heap).backend,
    {
        heap.contexts[self.index].backend
    }

    /// Views the context at the base level. Always valid.
    pub fn into_base(self) -> (r: Context)
        ensures
            r.slot() == self.slot(),
    {
        RCHandle { index: self.index, level: GrContextBase }
    }

    /// Views the context at the recording level: valid for any handle
    /// whose native object records work, which the caller must know.
    pub fn into_recording(self, heap: &NativeHeap) -> (r: RecordingContext)
        requires
            self.held_in(heap),
            self.object(heap).kind != ContextKind::Base,
        ensures
            r.slot() == self.slot(),
            r.held_in(heap),
    {
        RCHandle { index: self.index, level: GrRecordingContext }
    }

    /// Views the context at the direct level: valid only where the native
    /// object is known to be a direct context.
    pub fn into_direct(self, heap: &NativeHeap) -> (r: DirectContext)
        requires
            self.held_in(heap),
            self.object(heap).kind == ContextKind::Direct,
        ensures
            r.slot() == self.slot(),
            r.held_in(heap),
    {
        RCHandle { index: self.index, level: GrDirectContext }
    }
}

} // verus!
