use pluggable_device::device::{
    allocation_size, byte_of_pattern, copy_bytes, fill_bytes, AllocatorStats, Device,
    DeviceBackend, DeviceIdentity, DeviceMemoryBase, Event, EventStatus, Platform, Stream, Timer,
    BYTES_IN_USE, DEVICE_NAME, DEVICE_PAYLOAD, DEVICE_TYPE, FREE_MEMORY, NO_ORDINAL, NULL,
    OUT_OF_RANGE_MESSAGE, TOTAL_MEMORY,
};
use pluggable_device::status::{Status, TF_OK, TF_OUT_OF_RANGE};

fn backend() -> DeviceBackend {
    DeviceBackend::new(DeviceIdentity::standard())
}

fn device() -> Device {
    Device { device_handle: Some("magic".to_owned()), ordinal: 0 }
}

fn stream() -> Stream {
    Stream { stream_handle: Some("magic".to_owned()) }
}

fn stale() -> Status {
    Status { code: 2, message: "left over".to_owned() }
}

fn out_of_range() -> Status {
    Status { code: TF_OUT_OF_RANGE, message: OUT_OF_RANGE_MESSAGE.to_owned() }
}

#[test]
fn the_standard_identity_is_the_fake_cpu_device() {
    let identity = DeviceIdentity::standard();
    assert_eq!(identity.name(), "FAKE_CPU_DEVICE\0");
    assert_eq!(identity.device_type(), "MY_DEVICE\0");
    assert_eq!(identity.name(), DEVICE_NAME);
    assert_eq!(identity.device_type(), DEVICE_TYPE);
    let other = DeviceIdentity::new("A\0", "B\0");
    assert_eq!((other.name(), other.device_type()), ("A\0", "B\0"));
}

#[test]
fn the_platform_takes_the_identity_of_the_backend() {
    let mut platform = Platform { name: "", type_: "" };
    let mut status = stale();
    backend().init_plugin(&mut platform, &mut status);
    assert_eq!(platform, Platform { name: "FAKE_CPU_DEVICE\0", type_: "MY_DEVICE\0" });
    assert_eq!(status, Status::new());
    let other = DeviceBackend::new(DeviceIdentity::new("A\0", "B\0"));
    other.init_plugin(&mut platform, &mut status);
    assert_eq!(platform, Platform { name: "A\0", type_: "B\0" });
}

#[test]
fn there_is_one_device() {
    let platform = Platform { name: DEVICE_NAME, type_: DEVICE_TYPE };
    let mut count = 0;
    let mut status = stale();
    backend().get_device_count(&platform, &mut count, &mut status);
    assert_eq!(count, 1);
    assert_eq!(status, Status::new());
}

#[test]
fn a_device_has_its_handle_from_create_to_destroy() {
    let platform = Platform { name: DEVICE_NAME, type_: DEVICE_TYPE };
    let mut device = Device { device_handle: None, ordinal: NO_ORDINAL };
    let mut status = stale();
    backend().create_device(&platform, 3, &mut device, &mut status);
    assert_eq!(device, Device { device_handle: Some("magic".to_owned()), ordinal: 3 });
    assert_eq!(DEVICE_PAYLOAD, "magic");
    assert_eq!(status, Status::new());
    backend().destroy_device(&platform, &mut device);
    assert_eq!(device, Device { device_handle: None, ordinal: -1 });
    backend().destroy_device(&platform, &mut device);
    assert_eq!(device, Device { device_handle: None, ordinal: -1 });
}

#[test]
fn allocate_then_deallocate_clears_the_region() {
    let mut region = DeviceMemoryBase::new();
    assert_eq!(region, DeviceMemoryBase { opaque: NULL, size: 0 });
    backend().allocate(&device(), 16, 0, 0x1000, &mut region);
    assert_eq!(region, DeviceMemoryBase { opaque: 0x1000, size: 16 });
    let released = backend().deallocate(&device(), &mut region);
    assert_eq!(released, 0x1000);
    assert_eq!(region, DeviceMemoryBase { opaque: 0, size: 0 });
    assert_eq!(NULL, 0);
}

#[test]
fn a_second_deallocate_releases_nothing() {
    let mut region = DeviceMemoryBase::new();
    backend().allocate(&device(), 4, 0, 0xbeef, &mut region);
    assert_eq!(backend().deallocate(&device(), &mut region), 0xbeef);
    let once = region;
    assert_eq!(backend().deallocate(&device(), &mut region), NULL);
    assert_eq!(region, once);
    assert_eq!(region, DeviceMemoryBase { opaque: NULL, size: 0 });
}

#[test]
fn an_allocation_that_failed_is_recorded_with_its_size() {
    let mut region = DeviceMemoryBase::new();
    backend().allocate(&device(), 1 << 40, 0, NULL, &mut region);
    assert_eq!(region, DeviceMemoryBase { opaque: NULL, size: 1 << 40 });
    assert_eq!(backend().deallocate(&device(), &mut region), NULL);
    assert_eq!(region, DeviceMemoryBase { opaque: NULL, size: 0 });
}

#[test]
fn the_allocator_is_asked_for_as_many_bytes_as_the_region_has() {
    assert_eq!(allocation_size(0), Some(0));
    assert_eq!(allocation_size(4096), Some(4096));
    assert_eq!(allocation_size(usize::MAX as u64), Some(usize::MAX));
}

#[test]
fn the_figures_of_the_allocator_are_placeholders() {
    let mut stats = AllocatorStats { bytes_in_use: 0 };
    assert!(backend().get_allocator_stats(&device(), &mut stats));
    assert_eq!(stats.bytes_in_use, 123);
    assert_eq!(BYTES_IN_USE, 123);
    let (mut free, mut total) = (0, 0);
    assert!(backend().device_memory_usage(&device(), &mut free, &mut total));
    assert_eq!((free, total), (256_000_000, 512_000_000));
    assert_eq!((FREE_MEMORY, TOTAL_MEMORY), (256_000_000, 512_000_000));
}

#[test]
fn a_stream_carries_the_handle_of_its_device() {
    let mut stream = Stream { stream_handle: None };
    let mut status = stale();
    backend().create_stream(&device(), &mut stream, &mut status);
    assert_eq!(stream, Stream { stream_handle: Some("magic".to_owned()) });
    assert_eq!(status, Status::new());
    backend().destroy_stream(&device(), &mut stream);
    assert_eq!(stream, Stream { stream_handle: None });
    let gone = Device { device_handle: None, ordinal: -1 };
    backend().create_stream(&gone, &mut stream, &mut status);
    assert_eq!(stream, Stream { stream_handle: None });
}

#[test]
fn streams_have_nothing_waiting() {
    let mut status = stale();
    backend().create_stream_dependency(&device(), &stream(), &stream(), &mut status);
    assert_eq!(status, Status::new());
    let mut status = stale();
    backend().get_stream_status(&device(), &stream(), &mut status);
    assert_eq!(status, Status::new());
    let mut status = stale();
    backend().block_host_until_done(&device(), &stream(), &mut status);
    assert_eq!(status, Status::new());
    let mut status = stale();
    backend().synchronize_all_activity(&device(), &mut status);
    assert_eq!(status, Status::new());
    assert!(backend().host_callback(&device(), &stream(), || panic!("the callback is not run")));
}

#[test]
fn events_are_complete() {
    let mut event = Event {};
    let mut status = stale();
    backend().create_event(&device(), &mut event, &mut status);
    assert_eq!(status, Status::new());
    assert_eq!(backend().get_event_status(&device(), &event), EventStatus::Complete);
    let mut status = stale();
    backend().record_event(&device(), &stream(), &event, &mut status);
    assert_eq!(status, Status::new());
    assert_eq!(backend().get_event_status(&device(), &event), EventStatus::Complete);
    let mut status = stale();
    backend().wait_for_event(&device(), &stream(), &event, &mut status);
    assert_eq!(status, Status::new());
    let mut status = stale();
    backend().block_host_for_event(&device(), &event, &mut status);
    assert_eq!(status, Status::new());
}

#[test]
fn a_timer_shows_its_handle() {
    let mut timer = Timer { timer_handle: 1234 };
    let mut status = stale();
    backend().create_timer(&device(), &mut timer, &mut status);
    assert_eq!(timer, Timer { timer_handle: 1234 });
    assert_eq!(status, Status::new());
    let mut status = stale();
    backend().start_timer(&device(), &stream(), &timer, &mut status);
    assert_eq!(status, Status::new());
    let mut status = stale();
    backend().stop_timer(&device(), &stream(), &timer, &mut status);
    assert_eq!(status, Status::new());
    assert_eq!(backend().nanoseconds(&timer), 1234);
    assert_eq!(backend().nanoseconds(&Timer { timer_handle: u64::MAX }), u64::MAX);
}

#[test]
fn a_copy_to_the_host_takes_the_first_bytes() {
    let source = [1u8, 2, 3, 4, 5];
    let mut host = [9u8; 6];
    let mut status = stale();
    backend().memcpy_dtoh(&device(), &stream(), &mut host, &source, 3, &mut status);
    assert_eq!(host, [1, 2, 3, 9, 9, 9]);
    assert_eq!(status, Status::new());
    let mut host = [9u8; 6];
    backend().sync_memcpy_dtoh(&device(), &mut host, &source, 5, &mut status);
    assert_eq!(host, [1, 2, 3, 4, 5, 9]);
    assert_eq!(status.code, TF_OK);
    backend().sync_memcpy_dtoh(&device(), &mut host, &source, 0, &mut status);
    assert_eq!(host, [1, 2, 3, 4, 5, 9]);
    assert_eq!(status, Status::new());
}

#[test]
fn a_copy_to_the_host_that_cannot_be_made_changes_nothing() {
    let source = [1u8, 2, 3, 4, 5];
    let mut host = [9u8; 4];
    let mut status = Status::new();
    backend().memcpy_dtoh(&device(), &stream(), &mut host, &source, 5, &mut status);
    assert_eq!(host, [9; 4]);
    assert_eq!(status, out_of_range());
    let mut host = [9u8; 8];
    backend().sync_memcpy_dtoh(&device(), &mut host, &source, 6, &mut status);
    assert_eq!(host, [9; 8]);
    assert_eq!(status, out_of_range());
    backend().memcpy_dtoh(&device(), &stream(), &mut host, &[], 1, &mut status);
    assert_eq!(host, [9; 8]);
    assert_eq!(status, out_of_range());
    backend().memcpy_dtoh(&device(), &stream(), &mut host, &[], 0, &mut status);
    assert_eq!(status, Status::new());
}

#[test]
fn a_copy_to_the_device_takes_the_first_bytes() {
    let mut target = [0u8; 5];
    let mut status = stale();
    backend().memcpy_htod(&device(), &stream(), &mut target, &[1, 2, 3, 4], 2, &mut status);
    assert_eq!(target, [1, 2, 0, 0, 0]);
    assert_eq!(status, Status::new());
    backend().sync_memcpy_htod(&device(), &mut target, &[7, 8, 9, 10, 11], 5, &mut status);
    assert_eq!(target, [7, 8, 9, 10, 11]);
    assert_eq!(status, Status::new());
}

#[test]
fn a_copy_to_the_device_that_cannot_be_made_changes_nothing() {
    let mut target = [0u8; 3];
    let mut status = Status::new();
    backend().memcpy_htod(&device(), &stream(), &mut target, &[1, 2, 3, 4], 4, &mut status);
    assert_eq!(target, [0; 3]);
    assert_eq!(status, out_of_range());
    backend().sync_memcpy_htod(&device(), &mut target, &[1, 2], 3, &mut status);
    assert_eq!(target, [0; 3]);
    assert_eq!(status, out_of_range());
    let mut none: [u8; 0] = [];
    backend().memcpy_htod(&device(), &stream(), &mut none, &[1, 2], 1, &mut status);
    assert_eq!(status, out_of_range());
}

#[test]
fn a_copy_on_the_device_takes_the_first_bytes() {
    let source = [1u8, 2, 3];
    let mut target = [0u8; 4];
    let mut status = stale();
    backend().memcpy_dtod(&device(), &stream(), &mut target, &source, 3, &mut status);
    assert_eq!(target, [1, 2, 3, 0]);
    assert_eq!(status, Status::new());
    let mut target = [0u8; 4];
    backend().sync_memcpy_dtod(&device(), &mut target, &source, 1, &mut status);
    assert_eq!(target, [1, 0, 0, 0]);
    assert_eq!(status, Status::new());
}

#[test]
fn a_copy_on_the_device_that_cannot_be_made_changes_nothing() {
    let source = [1u8, 2, 3];
    let mut target = [0u8; 2];
    let mut status = Status::new();
    backend().memcpy_dtod(&device(), &stream(), &mut target, &source, 3, &mut status);
    assert_eq!(target, [0; 2]);
    assert_eq!(status, out_of_range());
    backend().sync_memcpy_dtod(&device(), &mut target, &[], 1, &mut status);
    assert_eq!(target, [0; 2]);
    assert_eq!(status, out_of_range());
}

#[test]
fn memset_fills_with_one_byte() {
    let mut target = [1u8, 2, 3, 4, 5, 6, 7];
    let mut status = stale();
    backend().memset(&device(), &stream(), &mut target, 0xab, 5, &mut status);
    assert_eq!(target, [0xab, 0xab, 0xab, 0xab, 0xab, 6, 7]);
    assert_eq!(status, Status::new());
}

#[test]
fn mem_zero_fills_with_zeros() {
    let mut target = [1u8, 2, 3, 4, 5, 6, 7];
    let mut status = stale();
    backend().mem_zero(&device(), &stream(), &mut target, 6, &mut status);
    assert_eq!(target, [0, 0, 0, 0, 0, 0, 7]);
    assert_eq!(status, Status::new());
}

#[test]
fn memset32_repeats_the_four_bytes_of_the_pattern() {
    let mut target = [0u8; 10];
    let mut status = stale();
    backend().memset32(&device(), &stream(), &mut target, 0x1122_3344, 8, &mut status);
    assert_eq!(target, [0x44, 0x33, 0x22, 0x11, 0x44, 0x33, 0x22, 0x11, 0, 0]);
    assert_eq!(status, Status::new());
    // A size that is no multiple of four ends within the pattern.
    let mut target = [0u8; 7];
    backend().memset32(&device(), &stream(), &mut target, 0x1122_3344, 6, &mut status);
    assert_eq!(target, [0x44, 0x33, 0x22, 0x11, 0x44, 0x33, 0]);
}

#[test]
fn a_fill_that_cannot_be_made_changes_nothing() {
    let mut target = [1u8, 2, 3];
    let mut status = Status::new();
    backend().memset32(&device(), &stream(), &mut target, 7, 4, &mut status);
    assert_eq!(target, [1, 2, 3]);
    assert_eq!(status, out_of_range());
    let mut status = Status::new();
    backend().memset(&device(), &stream(), &mut target, 7, 4, &mut status);
    assert_eq!(target, [1, 2, 3]);
    assert_eq!(status, out_of_range());
    let mut none: [u8; 0] = [];
    backend().mem_zero(&device(), &stream(), &mut none, 1, &mut status);
    assert_eq!(status, out_of_range());
    backend().mem_zero(&device(), &stream(), &mut none, 0, &mut status);
    assert_eq!(status, Status::new());
}

#[test]
fn bytes_are_copied_and_filled_from_the_start() {
    let mut target = [0u8; 5];
    copy_bytes(&mut target, &[1, 2, 3], 2);
    assert_eq!(target, [1, 2, 0, 0, 0]);
    fill_bytes(&mut target, 0x0403_0201, 5);
    assert_eq!(target, [1, 2, 3, 4, 1]);
    assert_eq!(byte_of_pattern(0xa1b2_c3d4, 0), 0xd4);
    assert_eq!(byte_of_pattern(0xa1b2_c3d4, 1), 0xc3);
    assert_eq!(byte_of_pattern(0xa1b2_c3d4, 2), 0xb2);
    assert_eq!(byte_of_pattern(0xa1b2_c3d4, 3), 0xa1);
}
