use skia_safe::gl_interface::{load_proc, Interface, GR_GL_FRAMEBUFFER_BINDING};
use skia_safe::native::{GlFunction, NativeHeap};

#[test]
fn loader_address_reaches_interface() {
    let mut heap = NativeHeap::new(Vec::new());
    let i = Interface::new_load_with(&mut heap, |name: &str| if name == "glFlush" { 0xF1 } else { 0 }).unwrap();
    assert_eq!(i.function(&heap, "glFlush"), 0xF1);
    assert_eq!(i.function(&heap, "glClear"), 0);
    assert_eq!(i.function(&heap, "glNotAFunction"), 0);
    assert!(!i.validate(&heap));
}

#[test]
fn null_loader_does_not_validate() {
    let mut heap = NativeHeap::new(Vec::new());
    let i = Interface::new_load_with(&mut heap, |_: &str| 0).unwrap();
    assert!(!i.validate(&heap));
}

#[test]
fn loader_asked_for_each_entry_point() {
    let mut heap = NativeHeap::new(Vec::new());
    let i = Interface::new_load_with(&mut heap, |name: &str| name.len()).unwrap();
    assert!(i.validate(&heap));
    assert_eq!(i.function(&heap, "glGetIntegerv"), 13);
    assert_eq!(heap.interfaces[0].functions.len(), 11);
}

#[test]
fn native_interface_needs_platform() {
    let mut heap = NativeHeap::new(Vec::new());
    assert!(Interface::new_native(&mut heap).is_none());
    let platform = vec![GlFunction { name: "glFlush".to_string(), address: 77 }];
    let mut heap = NativeHeap::new(platform);
    let i = Interface::new_native(&mut heap).unwrap();
    assert_eq!(i.function(&heap, "glFlush"), 77);
    assert_eq!(i.function(&heap, "glClear"), 0);
    assert!(!i.validate(&heap));
}

#[test]
fn extensions_added_once() {
    let mut heap = NativeHeap::new(Vec::new());
    let i = Interface::new_load_with(&mut heap, |_: &str| 1).unwrap();
    assert!(!i.has_extension(&heap, "GL_KHR_debug"));
    i.add_extension(&mut heap, "GL_KHR_debug");
    i.add_extension(&mut heap, "GL_KHR_debug");
    assert!(i.has_extension(&heap, "GL_KHR_debug"));
    assert!(!i.has_extension(&heap, "GL_OES_rgb8_rgba8"));
    assert_eq!(i.extensions(&heap).len(), 1);
}

#[test]
fn framebuffer_binding_query() {
    let mut heap = NativeHeap::new(Vec::new());
    let i = Interface::new_load_with(&mut heap, |_: &str| 1).unwrap();
    assert_eq!(i.get_framebuffer_binding(&heap), 0);
    i.set_integer_value(&mut heap, GR_GL_FRAMEBUFFER_BINDING, 5);
    i.set_integer_value(&mut heap, 0x0BA2, 9);
    assert_eq!(i.get_framebuffer_binding(&heap), 5);
    i.set_integer_value(&mut heap, GR_GL_FRAMEBUFFER_BINDING, 6);
    assert_eq!(i.get_framebuffer_binding(&heap), 6);
}

#[test]
fn interface_release_counts() {
    let mut heap = NativeHeap::new(Vec::new());
    let i = Interface::new_load_with(&mut heap, |_: &str| 1).unwrap();
    let j = i.clone_ref(&mut heap);
    assert!(!j.release(&mut heap));
    assert!(i.release(&mut heap));
    assert_eq!(heap.interfaces[0].ref_cnt, 0);
}

#[test]
fn load_proc_checks_text() {
    let loader = |name: &str| if name == "glFlush" { 0xF1 } else { name.len() };
    assert_eq!(load_proc(&loader, b"glFlush"), Some(0xF1));
    assert_eq!(load_proc(&loader, "gl\u{e9}t".as_bytes()), Some(5));
    assert_eq!(load_proc(&loader, b""), Some(0));
    assert_eq!(load_proc(&loader, &[0x67, 0xC3, 0x28]), None);
    assert_eq!(load_proc(&loader, &[0xFF]), None);
}

#[test]
fn new_interfaces_start_with_one_reference() {
    let platform = vec![GlFunction { name: "glFlush".to_string(), address: 77 }];
    let mut heap = NativeHeap::new(platform);
    let i = Interface::new_native(&mut heap).unwrap();
    assert_eq!(i.index(), 0);
    assert_eq!(heap.interfaces[0].ref_cnt, 1);
    let j = Interface::new_load_with(&mut heap, |_: &str| 0).unwrap();
    assert_eq!(heap.interfaces[j.index()].ref_cnt, 1);
}
