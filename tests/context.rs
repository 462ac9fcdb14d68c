use skia_safe::context::{Context, DirectContext};
use skia_safe::direct_context::{
    ContextOptions, D3DBackendContext, ResourceCacheLimits, ResourceCacheUsage, VkBackendContext, ALL_BACKEND_STATE,
    DEFAULT_MAX_RESOURCES, DEFAULT_MAX_RESOURCE_BYTES, GL_TEXTURE_BINDING_STATE,
};
use skia_safe::gl_interface::Interface;
use skia_safe::native::{Backend, CacheEntry, GlFunction, NativeHeap};

const ENTRY_POINTS: [&str; 11] = [
    "glActiveTexture",
    "glBindFramebuffer",
    "glBindTexture",
    "glClear",
    "glDrawArrays",
    "glFinish",
    "glFlush",
    "glGetError",
    "glGetIntegerv",
    "glGetString",
    "glViewport",
];

fn full_platform() -> Vec<GlFunction> {
    ENTRY_POINTS
        .iter()
        .enumerate()
        .map(|(k, n)| GlFunction { name: n.to_string(), address: 0x1000 + k })
        .collect()
}

fn vk() -> VkBackendContext {
    VkBackendContext { instance: 1, physical_device: 2, device: 3, queue: 4, graphics_queue_index: 0 }
}

fn direct(heap: &mut NativeHeap) -> DirectContext {
    DirectContext::new_vulkan(heap, &vk(), None).expect("vulkan context")
}

fn entry(bytes: usize, locked: bool, scratch: bool) -> CacheEntry {
    CacheEntry { bytes, locked, scratch, last_used_ms: 0 }
}

#[test]
fn clone_then_release_keeps_count() {
    let mut heap = NativeHeap::new(Vec::new());
    let c = direct(&mut heap);
    assert_eq!(c.ref_count(&heap), 1);
    let d = c.clone_ref(&mut heap);
    assert_eq!(c.ref_count(&heap), 2);
    assert!(!d.release(&mut heap));
    assert_eq!(c.ref_count(&heap), 1);
    assert!(c.release(&mut heap));
    assert_eq!(heap.contexts[0].ref_cnt, 0);
}

#[test]
fn last_release_empties_cache() {
    let mut heap = NativeHeap::new(Vec::new());
    let c = direct(&mut heap);
    assert!(c.cache_resource(&mut heap, entry(10, true, false)));
    assert!(c.release(&mut heap));
    assert!(heap.contexts[0].resources.is_empty());
}

#[test]
fn limits_round_trip() {
    let mut heap = NativeHeap::new(Vec::new());
    let c = direct(&mut heap);
    assert_eq!(
        c.resource_cache_limits(&heap),
        ResourceCacheLimits { max_resources: DEFAULT_MAX_RESOURCES, max_resource_bytes: DEFAULT_MAX_RESOURCE_BYTES }
    );
    let l = ResourceCacheLimits { max_resources: 7, max_resource_bytes: 4096 };
    c.set_resource_cache_limits(&mut heap, l);
    assert_eq!(c.resource_cache_limits(&heap), l);
    assert_eq!(c.resource_cache_limit(&heap), 4096);
    c.set_resource_cache_limit(&mut heap, 100);
    assert_eq!(c.resource_cache_limits(&heap), ResourceCacheLimits { max_resources: 7, max_resource_bytes: 100 });
}

#[test]
fn limit_override_option() {
    let mut heap = NativeHeap::new(Vec::new());
    let opts = ContextOptions { resource_cache_limit_override: Some(1234) };
    let c = DirectContext::new_vulkan(&mut heap, &vk(), Some(&opts)).unwrap();
    assert_eq!(c.resource_cache_limit(&heap), 1234);
}

#[test]
fn usage_and_purgeable_bytes() {
    let mut heap = NativeHeap::new(Vec::new());
    let c = direct(&mut heap);
    assert_eq!(c.resource_cache_usage(&heap), ResourceCacheUsage { resource_count: 0, resource_bytes: 0 });
    assert!(c.cache_resource(&mut heap, entry(100, true, false)));
    assert!(c.cache_resource(&mut heap, entry(30, false, true)));
    assert!(c.cache_resource(&mut heap, entry(50, false, false)));
    assert_eq!(c.resource_cache_usage(&heap), ResourceCacheUsage { resource_count: 3, resource_bytes: 180 });
    assert_eq!(c.resource_cache_purgeable_bytes(&heap), 80);
}

#[test]
fn purge_all_after_lower_limit() {
    let mut heap = NativeHeap::new(Vec::new());
    let c = direct(&mut heap);
    assert!(c.cache_resource(&mut heap, entry(100, true, false)));
    assert!(c.cache_resource(&mut heap, entry(300, false, true)));
    assert!(c.cache_resource(&mut heap, entry(500, false, false)));
    assert_eq!(c.resource_cache_usage(&heap).resource_bytes, 900);
    c.set_resource_cache_limit(&mut heap, 200);
    // Lowering the limit purges to fit: both unlocked entries go.
    assert_eq!(c.resource_cache_usage(&heap).resource_bytes, 100);
    c.purge_unlocked_resources(&mut heap, None, false);
    let u = c.resource_cache_usage(&heap);
    assert_eq!(u, ResourceCacheUsage { resource_count: 1, resource_bytes: 100 });
    assert!(u.resource_bytes <= std::cmp::max(200, 100));
}

#[test]
fn purge_all_ignores_scratch_preference() {
    let mut heap = NativeHeap::new(Vec::new());
    let c = direct(&mut heap);
    assert!(c.cache_resource(&mut heap, entry(10, false, false)));
    assert!(c.cache_resource(&mut heap, entry(20, false, true)));
    c.purge_unlocked_resources(&mut heap, None, true);
    assert_eq!(c.resource_cache_usage(&heap).resource_count, 0);
}

#[test]
fn purge_budget_oldest_first() {
    let mut heap = NativeHeap::new(Vec::new());
    let c = direct(&mut heap);
    assert!(c.cache_resource(&mut heap, entry(40, false, false)));
    assert!(c.cache_resource(&mut heap, entry(30, false, true)));
    assert!(c.cache_resource(&mut heap, entry(20, true, false)));
    assert!(c.cache_resource(&mut heap, entry(25, false, false)));
    c.purge_unlocked_resources(&mut heap, Some(70), false);
    // 40 and 30 fit the budget; the locked 20 stays; 25 no longer fits.
    let left: Vec<usize> = heap.contexts[0].resources.iter().map(|e| e.bytes).collect();
    assert_eq!(left, vec![20, 25]);
}

#[test]
fn purge_budget_prefers_scratch() {
    let mut heap = NativeHeap::new(Vec::new());
    let c = direct(&mut heap);
    assert!(c.cache_resource(&mut heap, entry(40, false, false)));
    assert!(c.cache_resource(&mut heap, entry(30, false, true)));
    assert!(c.cache_resource(&mut heap, entry(25, false, false)));
    c.purge_unlocked_resources(&mut heap, Some(60), true);
    // Scratch 30 goes first; of the 30 bytes left, 40 does not fit, 25 does.
    let left: Vec<usize> = heap.contexts[0].resources.iter().map(|e| e.bytes).collect();
    assert_eq!(left, vec![40]);
}

#[test]
fn free_gpu_resources_keeps_locked() {
    let mut heap = NativeHeap::new(Vec::new());
    let c = direct(&mut heap);
    assert!(c.cache_resource(&mut heap, entry(5, true, false)));
    assert!(c.cache_resource(&mut heap, entry(6, false, false)));
    c.free_gpu_resources(&mut heap);
    assert_eq!(c.resource_cache_usage(&heap), ResourceCacheUsage { resource_count: 1, resource_bytes: 5 });
    assert!(!c.abandoned(&heap));
}

#[test]
fn cache_overflow_sets_oomed() {
    let mut heap = NativeHeap::new(Vec::new());
    let c = direct(&mut heap);
    assert!(c.cache_resource(&mut heap, entry(usize::MAX - 1, true, false)));
    assert!(!c.cache_resource(&mut heap, entry(2, false, false)));
    assert!(c.oomed(&mut heap));
    assert!(!c.oomed(&mut heap));
    assert_eq!(c.resource_cache_usage(&heap).resource_count, 1);
}

#[test]
fn views_read_the_same_object() {
    let mut heap = NativeHeap::new(Vec::new());
    let c = direct(&mut heap);
    let before = c.abandoned(&heap);
    let backend = c.backend(&heap);
    let r = c.into_base().into_recording(&heap);
    assert_eq!(r.abandoned(&heap), before);
    assert_eq!(r.backend(&heap), backend);
    assert_eq!(r.backend(&heap), Backend::Vulkan);
    let d = r.into_base().into_direct(&heap);
    assert_eq!(d.resource_cache_limit(&heap), DEFAULT_MAX_RESOURCE_BYTES);
}

#[test]
fn abandon_twice_same_as_once() {
    let mut heap = NativeHeap::new(Vec::new());
    let c = direct(&mut heap);
    assert!(c.cache_resource(&mut heap, entry(8, true, false)));
    c.abandon(&mut heap);
    assert!(c.abandoned(&heap));
    let once = (c.resource_cache_usage(&heap), c.resource_cache_limits(&heap), c.ref_count(&heap));
    c.abandon(&mut heap);
    assert!(c.abandoned(&heap));
    let twice = (c.resource_cache_usage(&heap), c.resource_cache_limits(&heap), c.ref_count(&heap));
    assert_eq!(once, twice);
    assert_eq!(once.0.resource_count, 0);
}

#[test]
fn abandoned_context_refuses_work() {
    let mut heap = NativeHeap::new(Vec::new());
    let c = direct(&mut heap);
    c.release_resources_and_abandon(&mut heap);
    assert!(c.abandoned(&heap));
    assert!(!c.submit(&mut heap, Some(true)));
    assert!(!c.cache_resource(&mut heap, entry(1, false, false)));
    c.record_work(&mut heap);
    assert_eq!(heap.contexts[0].pending_work, 0);
}

#[test]
fn submit_and_poll() {
    let mut heap = NativeHeap::new(Vec::new());
    let c = direct(&mut heap);
    c.record_work(&mut heap);
    c.record_work(&mut heap);
    assert_eq!(heap.contexts[0].pending_work, 2);
    c.flush_and_submit(&mut heap);
    assert_eq!(heap.contexts[0].pending_work, 0);
    assert_eq!(heap.contexts[0].in_flight_work, 2);
    c.record_work(&mut heap);
    c.flush(&mut heap);
    assert_eq!(heap.contexts[0].in_flight_work, 3);
    c.check_async_work_completion(&mut heap, 1);
    assert_eq!(heap.contexts[0].in_flight_work, 2);
    c.check_async_work_completion(&mut heap, 5);
    assert_eq!(heap.contexts[0].in_flight_work, 0);
    c.record_work(&mut heap);
    assert!(c.submit(&mut heap, None));
    assert_eq!(heap.contexts[0].in_flight_work, 1);
    c.record_work(&mut heap);
    assert!(c.submit(&mut heap, Some(true)));
    assert_eq!(heap.contexts[0].in_flight_work, 0);
    assert_eq!(heap.contexts[0].pending_work, 0);
}

#[test]
fn reset_marks_state() {
    let mut heap = NativeHeap::new(full_platform());
    let c = DirectContext::new_gl(&mut heap, None, None).unwrap();
    c.reset(&mut heap, Some(2));
    assert_eq!(heap.contexts[0].dirty_state, 2);
    c.reset_gl_texture_bindings(&mut heap);
    assert_eq!(heap.contexts[0].dirty_state, 2 | GL_TEXTURE_BINDING_STATE);
    c.reset(&mut heap, None);
    assert_eq!(heap.contexts[0].dirty_state, ALL_BACKEND_STATE);
    let v = direct(&mut heap);
    v.reset_gl_texture_bindings(&mut heap);
    assert_eq!(heap.contexts[1].dirty_state, 0);
}

#[test]
fn vulkan_null_handles_fail() {
    let mut heap = NativeHeap::new(Vec::new());
    let mut b = vk();
    b.queue = 0;
    assert!(DirectContext::new_vulkan(&mut heap, &b, None).is_none());
    assert!(Context::new_vulkan(&mut heap, &b).is_none());
    assert!(heap.contexts.is_empty());
    let c = Context::new_vulkan(&mut heap, &vk()).unwrap();
    assert_eq!(c.backend(&heap), Backend::Vulkan);
}

#[test]
fn gl_context_over_platform() {
    let mut heap = NativeHeap::new(Vec::new());
    assert!(DirectContext::new_gl(&mut heap, None, None).is_none());
    let mut heap = NativeHeap::new(full_platform());
    let c = Context::new_gl(&mut heap, None).unwrap();
    assert_eq!(c.backend(&heap), Backend::OpenGL);
    assert_eq!(heap.contexts[0].interface, Some(0));
}

#[test]
fn gl_context_refuses_invalid_interface() {
    let mut heap = NativeHeap::new(Vec::new());
    let i = Interface::new_load_with(&mut heap, |_: &str| 0).unwrap();
    let j = i.clone_ref(&mut heap);
    assert_eq!(heap.interfaces[0].ref_cnt, 2);
    assert!(DirectContext::new_gl(&mut heap, Some(j), None).is_none());
    assert_eq!(heap.interfaces[0].ref_cnt, 1);
    assert!(heap.contexts.is_empty());
}

#[test]
fn gl_context_over_loaded_interface() {
    let mut heap = NativeHeap::new(Vec::new());
    let i = Interface::new_load_with(&mut heap, |name: &str| name.len()).unwrap();
    assert!(i.validate(&heap));
    let c = DirectContext::new_gl(&mut heap, Some(i), None).unwrap();
    assert_eq!(heap.contexts[c.index()].interface, Some(0));
}

#[test]
fn metal_needs_device_and_queue() {
    let mut heap = NativeHeap::new(Vec::new());
    assert!(DirectContext::new_metal(&mut heap, 0, 9, None).is_none());
    assert!(Context::new_metal(&mut heap, 9, 0).is_none());
    let c = Context::new_metal(&mut heap, 9, 9).unwrap();
    assert_eq!(c.backend(&heap), Backend::Metal);
    assert_eq!(heap.contexts.len(), 1);
}

#[test]
fn d3d_needs_all_handles() {
    let mut heap = NativeHeap::new(Vec::new());
    let bad = D3DBackendContext { adapter: 1, device: 0, queue: 3 };
    assert!(DirectContext::new_d3d(&mut heap, &bad, None).is_none());
    assert!(Context::new_d3d(&mut heap, &bad).is_none());
    let good = D3DBackendContext { adapter: 1, device: 2, queue: 3 };
    let c = DirectContext::new_d3d(&mut heap, &good, None).unwrap();
    assert_eq!(c.backend(&heap), Backend::Direct3D);
    assert_eq!(c.resource_cache_limit(&heap), DEFAULT_MAX_RESOURCE_BYTES);
}

#[test]
fn deferred_cleanup_drops_stale_unlocked() {
    let mut heap = NativeHeap::new(Vec::new());
    let c = direct(&mut heap);
    let at = |bytes: usize, locked: bool, last_used_ms: u64| CacheEntry { bytes, locked, scratch: false, last_used_ms };
    assert!(c.cache_resource(&mut heap, at(1, false, 100)));
    assert!(c.cache_resource(&mut heap, at(2, true, 100)));
    assert!(c.cache_resource(&mut heap, at(4, false, 900)));
    assert!(c.cache_resource(&mut heap, at(8, false, 500)));
    c.perform_deferred_cleanup(&mut heap, 1000, 500);
    // Unused for more than 500 ms before 1000: only the unlocked entry of 100.
    let left: Vec<usize> = heap.contexts[0].resources.iter().map(|e| e.bytes).collect();
    assert_eq!(left, vec![2, 4, 8]);
    c.perform_deferred_cleanup(&mut heap, 100, 500);
    assert_eq!(c.resource_cache_usage(&heap).resource_count, 3);
    c.perform_deferred_cleanup(&mut heap, 1000, 0);
    assert_eq!(c.resource_cache_usage(&heap), ResourceCacheUsage { resource_count: 1, resource_bytes: 2 });
}

#[test]
fn cache_stays_within_zero_byte_limit() {
    let mut heap = NativeHeap::new(Vec::new());
    let opts = ContextOptions { resource_cache_limit_override: Some(0) };
    let c = DirectContext::new_vulkan(&mut heap, &vk(), Some(&opts)).unwrap();
    assert!(c.cache_resource(&mut heap, entry(1, false, false)));
    assert_eq!(c.resource_cache_usage(&heap), ResourceCacheUsage { resource_count: 0, resource_bytes: 0 });
    assert!(c.cache_resource(&mut heap, entry(3, true, false)));
    assert_eq!(c.resource_cache_usage(&heap), ResourceCacheUsage { resource_count: 1, resource_bytes: 3 });
}

#[test]
fn cache_drops_oldest_unlocked_to_fit() {
    let mut heap = NativeHeap::new(Vec::new());
    let c = direct(&mut heap);
    c.set_resource_cache_limits(&mut heap, ResourceCacheLimits { max_resources: 2, max_resource_bytes: 100 });
    assert!(c.cache_resource(&mut heap, entry(10, true, false)));
    assert!(c.cache_resource(&mut heap, entry(20, false, false)));
    assert!(c.cache_resource(&mut heap, entry(30, false, false)));
    // Three entries exceed the count limit: the oldest unlocked one goes.
    let left: Vec<usize> = heap.contexts[0].resources.iter().map(|e| e.bytes).collect();
    assert_eq!(left, vec![10, 30]);
    c.set_resource_cache_limits(&mut heap, ResourceCacheLimits { max_resources: 5, max_resource_bytes: 50 });
    assert!(c.cache_resource(&mut heap, entry(25, false, false)));
    let left: Vec<usize> = heap.contexts[0].resources.iter().map(|e| e.bytes).collect();
    assert_eq!(left, vec![10, 25]);
}

#[test]
fn gl_context_keeps_interface_reference() {
    let mut heap = NativeHeap::new(Vec::new());
    let i = Interface::new_load_with(&mut heap, |name: &str| name.len()).unwrap();
    assert_eq!(heap.interfaces[0].ref_cnt, 1);
    let c = DirectContext::new_gl(&mut heap, Some(i), None).unwrap();
    assert_eq!(heap.interfaces[0].ref_cnt, 1);
    let d = c.clone_ref(&mut heap);
    assert!(!c.release(&mut heap));
    assert_eq!(heap.interfaces[0].ref_cnt, 1);
    assert!(d.release(&mut heap));
    assert_eq!(heap.interfaces[0].ref_cnt, 0);
    assert_eq!(heap.contexts[0].interface, None);
}

#[test]
fn lowering_count_limit_purges_oldest_unlocked() {
    let mut heap = NativeHeap::new(Vec::new());
    let c = direct(&mut heap);
    assert!(c.cache_resource(&mut heap, entry(1, false, false)));
    assert!(c.cache_resource(&mut heap, entry(2, true, false)));
    assert!(c.cache_resource(&mut heap, entry(3, false, false)));
    c.set_resource_cache_limits(&mut heap, ResourceCacheLimits { max_resources: 1, max_resource_bytes: 1000 });
    let left: Vec<usize> = heap.contexts[0].resources.iter().map(|e| e.bytes).collect();
    assert_eq!(left, vec![2]);
    assert_eq!(c.resource_cache_limits(&heap), ResourceCacheLimits { max_resources: 1, max_resource_bytes: 1000 });
}
