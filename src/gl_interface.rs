use vstd::prelude::*;
use vstd::utf8::{decode_utf8, valid_utf8};
use crate::context::RCHandle;
use crate::native::{GlFunction, GlInteger, InterfaceObject, NativeHeap};

verus! {

/// Marker: a native GL interface object.
pub struct GrGLInterface;

pub type Interface = RCHandle<GrGLInterface>;

/// The `glGetIntegerv` name of the bound framebuffer.
pub const GR_GL_FRAMEBUFFER_BINDING: u32 = 0x8CA6;

/// The entry points an interface is assembled from, in assembly order.
pub open spec fn gl_entry_points() -> Seq<Seq<char>> {
    seq![
        "glActiveTexture"@,
        "glBindFramebuffer"@,
        "glBindTexture"@,
        "glClear"@,
        "glDrawArrays"@,
        "glFinish"@,
        "glFlush"@,
        "glGetError"@,
        "glGetIntegerv"@,
        "glGetString"@,
        "glViewport"@,
    ]
}

fn gl_entry_point_names() -> (r: Vec<&'static str>)
    ensures
        r@.len() == gl_entry_points().len(),
        forall|k: int| 0 <= k < r@.len() ==> #[trigger] r@[k]@ == gl_entry_points()[k],
{
    vec![
        "glActiveTexture",
        "glBindFramebuffer",
        "glBindTexture",
        "glClear",
        "glDrawArrays",
        "glFinish",
        "glFlush",
        "glGetError",
        "glGetIntegerv",
        "glGetString",
        "glViewport",
    ]
}

/// Relies on std::str::from_utf8: `Ok` exactly when the bytes are valid
/// UTF-8, and then a `str` of those bytes, whose text they encode.
#[verifier::external_body]
fn text_of(bytes: &[u8]) -> (r: Option<&str>)
    ensures
        r.is_some() <==> valid_utf8(bytes@),
        r matches Some(t) ==> t@ == decode_utf8(bytes@),
{
    std::str::from_utf8(bytes).ok()
}

/// Answers the engine's request for the entry point whose name's bytes
/// (without the C terminator) are `name`: checks that they are text and
/// hands the text to `loadfn`. `None` exactly where they are not valid
/// UTF-8: the engine broke its protocol, and the caller fails loudly.
pub fn load_proc<F: Fn(&str) -> usize>(loadfn: &F, name: &[u8]) -> (r: Option<usize>)
    requires
        forall|s: &str| #[trigger] loadfn.requires((s,)),
    ensures
        r.is_some() <==> valid_utf8(name@),
        r matches Some(address) ==> exists|s: &str| s@ == decode_utf8(name@) && loadfn.ensures((s,), address),
{
    match text_of(name) {
        Some(t) => {
            let address = loadfn(t);
            Some(address)
        },
        None => None,
    }
}

/// The address a table gives for `name`: that of its first entry of
/// that name, or null.
pub open spec fn function_address(table: Seq<GlFunction>, name: Seq<char>) -> usize
    decreases table.len(),
{
    if table.len() == 0 {
        0
    } else if table[0].name@ == name {
        table[0].address
    } else {
        function_address(table.drop_first(), name)
    }
}

/// The table holds, in order, each entry point with the address that
/// `loadfn` returned for its name.
pub open spec fn loaded_with<F: Fn(&str) -> usize>(table: Seq<GlFunction>, loadfn: F) -> bool {
    &&& table.len() == gl_entry_points().len()
    &&& forall|k: int|
        0 <= k < table.len() ==> {
            &&& (#[trigger] table[k]).name@ == gl_entry_points()[k]
            &&& exists|s: &str| s@ == gl_entry_points()[k] && loadfn.ensures((s,), table[k].address)
        }
}

/// The table holds, in order, each entry point with the address that the
/// platform's own table gives for it.
pub open spec fn assembled_from(table: Seq<GlFunction>, platform: Seq<GlFunction>) -> bool {
    &&& table.len() == gl_entry_points().len()
    &&& forall|k: int|
        0 <= k < table.len() ==> {
            &&& (#[trigger] table[k]).name@ == gl_entry_points()[k]
            &&& table[k].address == function_address(platform, gl_entry_points()[k])
        }
}

/// The platform has GL, and every entry point has an address there.
pub open spec fn platform_gl_valid(platform: Seq<GlFunction>) -> bool {
    &&& platform.len() > 0
    &&& forall|k: int| 0 <= k < gl_entry_points().len() ==> function_address(platform, #[trigger] gl_entry_points()[k]) != 0
}

/// Every entry point of the table has a non-null address.
pub open spec fn table_valid(table: Seq<GlFunction>) -> bool {
    forall|k: int| 0 <= k < table.len() ==> (#[trigger] table[k]).address != 0
}

/// The value `glGetIntegerv` reports for `pname`: the first recorded, or 0.
pub open spec fn integer_value(ints: Seq<GlInteger>, pname: u32) -> u32
    decreases ints.len(),
{
    if ints.len() == 0 {
        0
    } else if ints[0].pname == pname {
        ints[0].value
    } else {
        integer_value(ints.drop_first(), pname)
    }
}

/// The extension list names `ext`.
pub open spec fn lists_extension(exts: Seq<String>, ext: Seq<char>) -> bool {
    exists|k: int| 0 <= k < exts.len() && (#[trigger] exts[k])@ == ext
}

fn place_interface(heap: &mut NativeHeap, functions: Vec<GlFunction>) -> (r: Interface)
    requires
        old(heap).wf(),
    ensures
        final(heap).wf(),
        r.slot() == old(heap).interfaces@.len(),
        final(heap).interfaces@.len() == old(heap).interfaces@.len() + 1,
        final(heap).interfaces@[r.slot()].ref_cnt == 1,
        final(heap).interfaces@[r.slot()].functions@ == functions@,
        final(heap).interfaces@[r.slot()].extensions@.len() == 0,
        final(heap).interfaces@[r.slot()].integers@.len() == 0,
        forall|j: int| 0 <= j < old(heap).interfaces@.len() ==> final(heap).interfaces@[j] == old(heap).interfaces@[j],
        final(heap).contexts@ == old(heap).contexts@,
        final(heap).platform_gl@ == old(heap).platform_gl@,
{
    let index = heap.interfaces.len();
    heap.interfaces.push(InterfaceObject { ref_cnt: 1, functions, extensions: Vec::new(), integers: Vec::new() });
    RCHandle::with_level(index, GrGLInterface)
}

impl RCHandle<GrGLInterface> {
    /// The handle refers to a live interface object.
    pub open spec fn interface_in(&self, heap: &NativeHeap) -> bool {
        heap.live_interface(self.slot())
    }

    pub open spec fn interface_object(&self, heap: &NativeHeap) -> InterfaceObject {
        heap.interfaces@[self.slot()]
    }

    /// Assembles an interface from the platform's own GL entry points;
    /// `None` where the platform has no GL.
    pub fn new_native(heap: &mut NativeHeap) -> (r: Option<Interface>)
        requires
            old(heap).wf(),
        ensures
            final(heap).wf(),
            r.is_none() <==> old(heap).platform_gl@.len() == 0,
            r.is_none() ==> *final(heap) == *old(heap),
            r matches Some(i) ==> {
                &&& i.interface_in(final(heap))
                &&& i.slot() == old(heap).interfaces@.len()
                &&& i.interface_object(final(heap)).ref_cnt == 1
                &&& assembled_from(i.interface_object(final(heap)).functions@, old(heap).platform_gl@)
                &&& i.interface_object(final(heap)).extensions@.len() == 0
                &&& forall|k: int|
                    0 <= k < gl_entry_points().len() ==> function_address(
                        i.interface_object(final(heap)).functions@,
                        gl_entry_points()[k],
                    ) == function_address(old(heap).platform_gl@, gl_entry_points()[k])
            },
            forall|j: int| 0 <= j < old(heap).interfaces@.len() ==> final(heap).interfaces@[j] == old(heap).interfaces@[j],
            final(heap).interfaces@.len() == old(heap).interfaces@.len() + if r.is_some() { 1int } else { 0 },
            final(heap).contexts@ == old(heap).contexts@,
            final(heap).platform_gl@ == old(heap).platform_gl@,
    {
        if heap.platform_gl.len() == 0 {
            return None;
        }
        let names = gl_entry_point_names();
        let mut functions: Vec<GlFunction> = Vec::new();
        let mut k: usize = 0;
        while k < names.len()
            invariant
                names@.len() == gl_entry_points().len(),
                forall|m: int| 0 <= m < names@.len() ==> #[trigger] names@[m]@ == gl_entry_points()[m],
                k <= names@.len(),
                functions@.len() == k,
                forall|m: int| 0 <= m < k ==> (#[trigger] functions@[m]).name@ == gl_entry_points()[m],
                forall|m: int|
                    0 <= m < k ==> (#[trigger] functions@[m]).address == function_address(
                        heap.platform_gl@,
                        gl_entry_points()[m],
                    ),
            decreases names@.len() - k,
        {
            let address = lookup_address(&heap.platform_gl, names[k]);
            functions.push(GlFunction { name: names[k].to_owned(), address });
            k = k + 1;
        }
        let r = place_interface(heap, functions);
        proof {
            let t = r.interface_object(heap).functions@;
            assert forall|k: int| 0 <= k < gl_entry_points().len() implies function_address(t, gl_entry_points()[k])
                == function_address(old(heap).platform_gl@, gl_entry_points()[k]) by {
                lemma_first_address(t, gl_entry_points()[k], k, function_address(old(heap).platform_gl@, gl_entry_points()[k]));
            }
        }
        Some(r)
    }

    /// Assembles an interface from a loader that maps an entry point's
    /// name to its address (0 for none). The loader is asked once for
    /// each entry point, in order; the native assembler never fails.
    pub fn new_load_with<F: Fn(&str) -> usize>(heap: &mut NativeHeap, loadfn: F) -> (r: Option<Interface>)
        requires
            old(heap).wf(),
            forall|s: &str| #[trigger] loadfn.requires((s,)),
        ensures
            final(heap).wf(),
            r matches Some(i) && i.interface_in(final(heap)) && i.slot() == old(heap).interfaces@.len()
                && i.interface_object(final(heap)).ref_cnt == 1
                && loaded_with(i.interface_object(final(heap)).functions@, loadfn)
                && i.interface_object(final(heap)).extensions@.len() == 0,
            forall|j: int| 0 <= j < old(heap).interfaces@.len() ==> final(heap).interfaces@[j] == old(heap).interfaces@[j],
            final(heap).contexts@ == old(heap).contexts@,
            final(heap).platform_gl@ == old(heap).platform_gl@,
    {
        let names = gl_entry_point_names();
        let mut functions: Vec<GlFunction> = Vec::new();
        let mut k: usize = 0;
        while k < names.len()
            invariant
                names@.len() == gl_entry_points().len(),
                forall|m: int| 0 <= m < names@.len() ==> #[trigger] names@[m]@ == gl_entry_points()[m],
                forall|s: &str| #[trigger] loadfn.requires((s,)),
                k <= names@.len(),
                functions@.len() == k,
                forall|m: int|
                    0 <= m < k ==> {
                        &&& (#[trigger] functions@[m]).name@ == gl_entry_points()[m]
                        &&& exists|s: &str| s@ == gl_entry_points()[m] && loadfn.ensures((s,), functions@[m].address)
                    },
            decreases names@.len() - k,
        {
            let name = names[k];
            let address = loadfn(name);
            functions.push(GlFunction { name: name.to_owned(), address });
            proof {
                assert(functions@[k as int].name@ == gl_entry_points()[k as int]);
                assert(name@ == gl_entry_points()[k as int] && loadfn.ensures((name,), functions@[k as int].address));
            }
            k = k + 1;
        }
        Some(place_interface(heap, functions))
    }

    /// Takes one more reference to the same interface object.
    pub fn clone_ref(&self, heap: &mut NativeHeap) -> (r: Interface)
        requires
            self.interface_in(old(heap)),
            self.interface_object(old(heap)).ref_cnt < u64::MAX,
        ensures
            r.slot() == self.slot(),
            final(heap).interfaces@.len() == old(heap).interfaces@.len(),
            final(heap).interfaces@[self.slot()].ref_cnt == self.interface_object(old(heap)).ref_cnt + 1,
            final(heap).interfaces@[self.slot()].functions@ == self.interface_object(old(heap)).functions@,
            final(heap).interfaces@[self.slot()].extensions@ == self.interface_object(old(heap)).extensions@,
            final(heap).interfaces@[self.slot()].integers@ == self.interface_object(old(heap)).integers@,
            forall|j: int| 0 <= j < old(heap).interfaces@.len() && j != self.slot() ==> final(heap).interfaces@[j] == old(heap).interfaces@[j],
            final(heap).contexts@ == old(heap).contexts@,
            final(heap).platform_gl@ == old(heap).platform_gl@,
    {
        let i = self.index();
        heap.interfaces[i].ref_cnt = heap.interfaces[i].ref_cnt + 1;
        RCHandle::with_level(i, GrGLInterface)
    }

    /// Gives up this reference; `r` tells whether it was the last one.
    pub fn release(self, heap: &mut NativeHeap) -> (r: bool)
        requires
            self.interface_in(old(heap)),
        ensures
            r == (self.interface_object(old(heap)).ref_cnt == 1),
            final(heap).interfaces@.len() == old(heap).interfaces@.len(),
            final(heap).interfaces@[self.slot()].ref_cnt == self.interface_object(old(heap)).ref_cnt - 1,
            final(heap).interfaces@[self.slot()].functions@ == self.interface_object(old(heap)).functions@,
            final(heap).interfaces@[self.slot()].extensions@ == self.interface_object(old(heap)).extensions@,
            final(heap).interfaces@[self.slot()].integers@ == self.interface_object(old(heap)).integers@,
            forall|j: int| 0 <= j < old(heap).interfaces@.len() && j != self.slot() ==> final(heap).interfaces@[j] == old(heap).interfaces@[j],
            final(heap).contexts@ == old(heap).contexts@,
            final(heap).platform_gl@ == old(heap).platform_gl@,
    {
        let i = self.index();
        heap.interfaces[i].ref_cnt = heap.interfaces[i].ref_cnt - 1;
        heap.interfaces[i].ref_cnt == 0
    }

    /// The address the interface holds for the entry point `name`, or 0.
    pub fn function(&self, heap: &NativeHeap, name: &str) -> (r: usize)
        requires
            self.interface_in(heap),
        ensures
            r == function_address(self.interface_object(heap).functions@, name@),
    {
        lookup_address(&heap.interfaces[self.index()].functions, name)
    }

    /// Whether every entry point has a non-null address.
    pub fn validate(&self, heap: &NativeHeap) -> (r: bool)
        requires
            self.interface_in(heap),
        ensures
            r == table_valid(self.interface_object(heap).functions@),
    {
        let table = &heap.interfaces[self.index()].functions;
        let mut k: usize = 0;
        while k < table.len()
            invariant
                k <= table@.len(),
                table@ == self.interface_object(heap).functions@,
                forall|m: int| 0 <= m < k ==> (#[trigger] table@[m]).address != 0,
            decreases table@.len() - k,
        {
            if table[k].address == 0 {
                assert(table@ == self.interface_object(heap).functions@);
                assert(table@[k as int].address == 0);
                return false;
            }
            k = k + 1;
        }
        true
    }

    /// The extensions the interface reports.
    pub fn extensions<'a>(&self, heap: &'a NativeHeap) -> (r: &'a Vec<String>)
        requires
            self.interface_in(heap),
        ensures
            r@ == self.interface_object(heap).extensions@,
    {
        &heap.interfaces[self.index()].extensions
    }

    /// Whether the interface reports the extension `extension`.
    pub fn has_extension(&self, heap: &NativeHeap, extension: &str) -> (r: bool)
        requires
            self.interface_in(heap),
        ensures
            r == lists_extension(self.interface_object(heap).extensions@, extension@),
    {
        let exts = &heap.interfaces[self.index()].extensions;
        let key = extension.to_owned();
        let mut k: usize = 0;
        while k < exts.len()
            invariant
                k <= exts@.len(),
                exts@ == self.interface_object(heap).extensions@,
                key@ == extension@,
                forall|m: int| 0 <= m < k ==> (#[trigger] exts@[m])@ != extension@,
            decreases exts@.len() - k,
        {
            if exts[k] == key {
                assert(exts@ == self.interface_object(heap).extensions@);
                assert(exts@[k as int]@ == extension@);
                return true;
            }
            k = k + 1;
        }
        false
    }

    /// Adds `extension` to the reported extensions, unless already there.
    pub fn add_extension(&self, heap: &mut NativeHeap, extension: &str)
        requires
            self.interface_in(old(heap)),
        ensures
            final(heap).contexts@ == old(heap).contexts@,
            final(heap).platform_gl@ == old(heap).platform_gl@,
            final(heap).interfaces@.len() == old(heap).interfaces@.len(),
            forall|j: int| 0 <= j < old(heap).interfaces@.len() && j != self.slot() ==> final(heap).interfaces@[j] == old(heap).interfaces@[j],
            final(heap).interfaces@[self.slot()].ref_cnt == old(heap).interfaces@[self.slot()].ref_cnt,
            final(heap).interfaces@[self.slot()].functions@ == old(heap).interfaces@[self.slot()].functions@,
            final(heap).interfaces@[self.slot()].integers@ == old(heap).interfaces@[self.slot()].integers@,
            forall|e: Seq<char>| lists_extension(final(heap).interfaces@[self.slot()].extensions@, e)
                <==> (lists_extension(old(heap).interfaces@[self.slot()].extensions@, e) || e == extension@),
    {
        if self.has_extension(heap, extension) {
            return;
        }
        let i = self.index();
        heap.interfaces[i].extensions.push(extension.to_owned());
        proof {
            let o = old(heap).interfaces@[i as int].extensions@;
            let n = heap.interfaces@[i as int].extensions@;
            assert(n == o.push(n.last()));
            assert forall|e: Seq<char>| lists_extension(n, e) <==> (lists_extension(o, e) || e == extension@) by {
                if lists_extension(o, e) {
                    let k = choose|k: int| 0 <= k < o.len() && (#[trigger] o[k])@ == e;
                    assert(n[k] == o[k]);
                }
                if e == extension@ {
                    assert(n[o.len() as int]@ == e);
                }
                if lists_extension(n, e) {
                    let k = choose|k: int| 0 <= k < n.len() && (#[trigger] n[k])@ == e;
                    if k < o.len() {
                        assert(n[k] == o[k]);
                    }
                }
            }
        }
    }

    /// Records the driver's value for `pname`, as the host's own GL calls
    /// would change it.
    pub fn set_integer_value(&self, heap: &mut NativeHeap, pname: u32, value: u32)
        requires
            self.interface_in(old(heap)),
        ensures
            final(heap).contexts@ == old(heap).contexts@,
            final(heap).platform_gl@ == old(heap).platform_gl@,
            final(heap).interfaces@.len() == old(heap).interfaces@.len(),
            forall|j: int| 0 <= j < old(heap).interfaces@.len() && j != self.slot() ==> final(heap).interfaces@[j] == old(heap).interfaces@[j],
            final(heap).interfaces@[self.slot()].ref_cnt == old(heap).interfaces@[self.slot()].ref_cnt,
            final(heap).interfaces@[self.slot()].functions@ == old(heap).interfaces@[self.slot()].functions@,
            final(heap).interfaces@[self.slot()].extensions@ == old(heap).interfaces@[self.slot()].extensions@,
            integer_value(final(heap).interfaces@[self.slot()].integers@, pname) == value,
            forall|p: u32| p != pname ==> integer_value(final(heap).interfaces@[self.slot()].integers@, p)
                == integer_value(old(heap).interfaces@[self.slot()].integers@, p),
    {
        let i = self.index();
        heap.interfaces[i].integers.insert(0, GlInteger { pname, value });
        proof {
            let n = heap.interfaces@[i as int].integers@;
            assert(n.drop_first() =~= old(heap).interfaces@[i as int].integers@);
        }
    }

    fn get_integer_value(&self, heap: &NativeHeap, pname: u32) -> (r: u32)
        requires
            self.interface_in(heap),
        ensures
            r == integer_value(self.interface_object(heap).integers@, pname),
    {
        let ints = &heap.interfaces[self.index()].integers;
        let mut k: usize = 0;
        assert(ints@.subrange(0, ints@.len() as int) =~= ints@);
        while k < ints.len()
            invariant
                k <= ints@.len(),
                ints@ == self.interface_object(heap).integers@,
                integer_value(ints@, pname) == integer_value(ints@.subrange(k as int, ints@.len() as int), pname),
            decreases ints@.len() - k,
        {
            assert(ints@.subrange(k as int, ints@.len() as int).drop_first() =~= ints@.subrange(k + 1, ints@.len() as int));
            if ints[k].pname == pname {
                assert(ints@ == self.interface_object(heap).integers@);
                assert(ints@.subrange(k as int, ints@.len() as int)[0] == ints@[k as int]);
                return ints[k].value;
            }
            k = k + 1;
        }
        0
    }

    /// The name of the framebuffer bound in the driver.
    pub fn get_framebuffer_binding(&self, heap: &NativeHeap) -> (r: u32)
        requires
            self.interface_in(heap),
        ensures
            r == integer_value(self.interface_object(heap).integers@, GR_GL_FRAMEBUFFER_BINDING),
    {
        self.get_integer_value(heap, GR_GL_FRAMEBUFFER_BINDING)
    }
}

/// The address of the first function named `name`, or 0.
fn lookup_address(table: &Vec<GlFunction>, name: &str) -> (r: usize)
    ensures
        r == function_address(table@, name@),
{
    let key = name.to_owned();
    let mut k: usize = 0;
    assert(table@.subrange(0, table@.len() as int) =~= table@);
    while k < table.len()
        invariant
            k <= table@.len(),
            key@ == name@,
            function_address(table@, name@) == function_address(table@.subrange(k as int, table@.len() as int), name@),
        decreases table@.len() - k,
    {
        assert(table@.subrange(k as int, table@.len() as int).drop_first() =~= table@.subrange(k + 1, table@.len() as int));
        if table[k].name == key {
            return table[k].address;
        }
        k = k + 1;
    }
    0
}

/// An interface assembled from a loader that knows exactly one entry
/// point gives, for that entry point, the address the loader returned.
pub proof fn lemma_loaded_address<F: Fn(&str) -> usize>(table: Seq<GlFunction>, loadfn: F, name: Seq<char>, address: usize)
    requires
        loaded_with(table, loadfn),
        gl_entry_points().contains(name),
        forall|s: &str, r: usize| #[trigger] loadfn.ensures((s,), r) ==> r == (if s@ == name { address } else { 0 }),
    ensures
        function_address(table, name) == address,
{
    let k = choose|k: int| 0 <= k < gl_entry_points().len() && gl_entry_points()[k] == name;
    assert forall|m: int| 0 <= m <= k && (#[trigger] table[m]).name@ == name implies table[m].address == address by {
        assert(table[m].name@ == gl_entry_points()[m]);
        let s = choose|s: &str| s@ == gl_entry_points()[m] && loadfn.ensures((s,), table[m].address);
    }
    lemma_first_address(table, name, k, address);
}

/// An interface assembled from a loader that returns null for every
/// name does not validate.
pub proof fn lemma_null_loader_invalid<F: Fn(&str) -> usize>(table: Seq<GlFunction>, loadfn: F)
    requires
        loaded_with(table, loadfn),
        forall|s: &str, r: usize| #[trigger] loadfn.ensures((s,), r) ==> r == 0,
    ensures
        !table_valid(table),
{
    assert(table[0].name@ == gl_entry_points()[0]);
    let s = choose|s: &str| s@ == gl_entry_points()[0] && loadfn.ensures((s,), table[0].address);
}

/// Where every entry named `name` has address `a` and entry `k` has that
/// name, the table gives `a` for `name`.
proof fn lemma_first_address(t: Seq<GlFunction>, name: Seq<char>, k: int, a: usize)
    requires
        0 <= k < t.len(),
        t[k].name@ == name,
        forall|m: int| 0 <= m <= k && (#[trigger] t[m]).name@ == name ==> t[m].address == a,
    ensures
        function_address(t, name) == a,
    decreases k,
{
    if t[0].name@ != name {
        assert forall|m: int| 0 <= m <= k - 1 && (#[trigger] t.drop_first()[m]).name@ == name implies t.drop_first()[m].address == a by {
            assert(t.drop_first()[m] == t[m + 1]);
        }
        lemma_first_address(t.drop_first(), name, k - 1, a);
    }
}

} // verus!
