//! The device backend: a virtual device that works on plain memory, at once.
//!
//! The host sees a platform with one kind of device. It makes devices,
//! allocates memory on them, and makes streams, events and timers. Copies and
//! fills are done before the call returns, so a stream never has work
//! waiting, an event is always complete and a wait never blocks.
//!
//! Every call that the host's interface gives a status reports through it,
//! and leaves it at success with an empty message where nothing went wrong.
//!
//! Raw memory is not the backend's to touch. Whoever drives the backend asks
//! the allocator and says where the bytes of a region lie; the backend keeps
//! the record of each region, and copies and fills the bytes that it is
//! handed.
use crate::status::{Status, TF_OUT_OF_RANGE};
use crate::text::nul_terminated;
use vstd::prelude::*;
use vstd::string::StringSliceAdditionalSpecFns;

verus! {

/// The name of the device that the plugin brings.
pub const DEVICE_NAME: &'static str = "FAKE_CPU_DEVICE\0";

/// The type of the device that the plugin brings.
pub const DEVICE_TYPE: &'static str = "MY_DEVICE\0";

/// What the handle of every device holds.
pub const DEVICE_PAYLOAD: &'static str = "magic";

/// The address that stands for no memory.
pub const NULL: usize = 0;

/// The ordinal of a device that was destroyed.
pub const NO_ORDINAL: i32 = -1;

/// The number of bytes that the allocator reports to be in use. A
/// placeholder: the backend keeps no account of its allocations.
pub const BYTES_IN_USE: i64 = 123;

/// The number of free bytes that the device reports. A placeholder.
pub const FREE_MEMORY: i64 = 256_000_000;

/// The number of bytes that the device reports to have in all. A
/// placeholder.
pub const TOTAL_MEMORY: i64 = 512_000_000;

/// The platform as the host sees it: a name and a device type.
#[derive(Debug, Clone, Copy, PartialEq, Eq)]
pub struct Platform {
    pub name: &'static str,
    pub type_: &'static str,
}

/// One device. Its handle is there from `create_device` to
/// `destroy_device`.
#[derive(Debug, Clone, PartialEq, Eq)]
pub struct Device {
    pub device_handle: Option<String>,
    pub ordinal: i32,
}

/// A region of device memory: the address of its bytes, or `NULL` if it
/// has none, and the size that was asked for.
#[derive(Debug, Clone, Copy, PartialEq, Eq)]
pub struct DeviceMemoryBase {
    pub opaque: usize,
    pub size: u64,
}

/// A stream of one device. It carries what the device's handle holds.
#[derive(Debug, Clone, PartialEq, Eq)]
pub struct Stream {
    pub stream_handle: Option<String>,
}

/// An event. It has nothing to record: whatever it stands for is done.
#[derive(Debug, Clone, Copy, PartialEq, Eq)]
pub struct Event {}

/// What an event can report.
#[derive(Debug, Clone, Copy, PartialEq, Eq)]
pub enum EventStatus {
    Unknown,
    Error,
    Pending,
    Complete,
}

/// A timer. Its handle is read as a number of nanoseconds.
#[derive(Debug, Clone, Copy, PartialEq, Eq)]
pub struct Timer {
    pub timer_handle: u64,
}

/// What the allocator reports of itself.
#[derive(Debug, Clone, Copy, PartialEq, Eq)]
pub struct AllocatorStats {
    pub bytes_in_use: i64,
}

/// The name and the type under which a backend presents its devices.
#[derive(Debug, Clone, Copy, PartialEq, Eq)]
pub struct DeviceIdentity {
    name: &'static str,
    device_type: &'static str,
}

impl DeviceIdentity {
    #[verifier::type_invariant]
    spec fn inv(&self) -> bool {
        nul_terminated(self.name.spec_bytes()) && nul_terminated(self.device_type.spec_bytes())
    }

    /// The bytes of the device's name.
    pub closed spec fn name_bytes(&self) -> Seq<u8> {
        self.name.spec_bytes()
    }

    /// The bytes of the device's type.
    pub closed spec fn type_bytes(&self) -> Seq<u8> {
        self.device_type.spec_bytes()
    }

    /// An identity with the given name and device type.
    pub fn new(name: &'static str, device_type: &'static str) -> (identity: Self)
        requires
            nul_terminated(name.spec_bytes()),
            nul_terminated(device_type.spec_bytes()),
        ensures
            identity.name_bytes() == name.spec_bytes(),
            identity.type_bytes() == device_type.spec_bytes(),
    {
        DeviceIdentity { name, device_type }
    }

    /// The identity of the device that the plugin brings.
    pub fn standard() -> (identity: Self)
        ensures
            identity.name_bytes() == DEVICE_NAME.spec_bytes(),
            identity.type_bytes() == DEVICE_TYPE.spec_bytes(),
    {
        proof {
            lemma_standard_names();
        }
        DeviceIdentity { name: DEVICE_NAME, device_type: DEVICE_TYPE }
    }

    /// The device's name. It ends with a NUL.
    pub fn name(&self) -> (name: &'static str)
        ensures
            name.spec_bytes() == self.name_bytes(),
            nul_terminated(name.spec_bytes()),
    {
        proof {
            use_type_invariant(self);
        }
        self.name
    }

    /// The device's type. It ends with a NUL.
    pub fn device_type(&self) -> (device_type: &'static str)
        ensures
            device_type.spec_bytes() == self.type_bytes(),
            nul_terminated(device_type.spec_bytes()),
    {
        proof {
            use_type_invariant(self);
        }
        self.device_type
    }
}

/// The standard name and device type end with a NUL.
pub proof fn lemma_standard_names()
    ensures
        nul_terminated(DEVICE_NAME.spec_bytes()),
        nul_terminated(DEVICE_TYPE.spec_bytes()),
{
    broadcast use vstd::string::is_ascii_spec_bytes;

    reveal_strlit("FAKE_CPU_DEVICE\0");
    reveal_strlit("MY_DEVICE\0");
    assert(vstd::string::is_ascii(DEVICE_NAME));
    assert(vstd::string::is_ascii(DEVICE_TYPE));
    assert(DEVICE_NAME.spec_bytes().len() == 16);
    assert(DEVICE_TYPE.spec_bytes().len() == 10);
}

/// The bytes of `dst` after the first `size` bytes of `src` were copied to
/// its start.
pub open spec fn copied(dst: Seq<u8>, src: Seq<u8>, size: int) -> Seq<u8> {
    src.subrange(0, size) + dst.subrange(size, dst.len() as int)
}

/// The byte of `pattern` that lies `k` bytes after its lowest one.
pub open spec fn pattern_byte(pattern: u32, k: int) -> u8 {
    if k == 0 {
        (pattern % 0x100) as u8
    } else if k == 1 {
        (pattern / 0x100 % 0x100) as u8
    } else if k == 2 {
        (pattern / 0x1_0000 % 0x100) as u8
    } else {
        (pattern / 0x100_0000 % 0x100) as u8
    }
}

/// The bytes of `bytes` after its first `size` bytes were filled with
/// `pattern`, repeated, lowest byte first.
pub open spec fn filled(bytes: Seq<u8>, pattern: u32, size: int) -> Seq<u8> {
    Seq::new(
        bytes.len(),
        |i: int|
            if i < size {
                pattern_byte(pattern, i % 4)
            } else {
                bytes[i]
            },
    )
}

/// The pattern of 32 bits that holds `byte` four times.
pub open spec fn replicated(byte: u8) -> u32 {
    (byte * 0x0101_0101) as u32
}

/// The message for an operation that reaches past the end of its memory.
pub const OUT_OF_RANGE_MESSAGE: &'static str = "the size exceeds the memory";

/// Whether the status is the one that a copy or a fill leaves when it would
/// reach past the end of its memory.
pub open spec fn out_of_range(status: Status) -> bool {
    status.code == TF_OUT_OF_RANGE && status.message@ == OUT_OF_RANGE_MESSAGE@
}

/// Whether `after` and `status` are what a copy of `size` bytes from `src`
/// leaves of a destination that held `before`: the copied bytes and success
/// where both sides have `size` bytes, else the bytes as they were and the
/// report that the copy is out of range.
pub open spec fn transferred(
    before: Seq<u8>,
    src: Seq<u8>,
    size: u64,
    after: Seq<u8>,
    status: Status,
) -> bool {
    if size <= before.len() && size <= src.len() {
        after == copied(before, src, size as int) && status.succeeded()
    } else {
        after == before && out_of_range(status)
    }
}

/// Whether `after` and `status` are what a fill of `size` bytes with
/// `pattern` leaves of memory that held `before`: the filled bytes and
/// success where the memory has `size` bytes, else the bytes as they were
/// and the report that the fill is out of range.
pub open spec fn patterned(
    before: Seq<u8>,
    pattern: u32,
    size: u64,
    after: Seq<u8>,
    status: Status,
) -> bool {
    if size <= before.len() {
        after == filled(before, pattern, size as int) && status.succeeded()
    } else {
        after == before && out_of_range(status)
    }
}

impl DeviceMemoryBase {
    /// A region without memory.
    pub fn new() -> (region: Self)
        ensures
            region.cleared(),
    {
        DeviceMemoryBase { opaque: NULL, size: 0 }
    }

    /// Whether the region has no memory: no address, and size zero.
    pub open spec fn cleared(&self) -> bool {
        self.opaque == NULL && self.size == 0
    }

    /// The region that an allocation of `size` bytes leaves when the
    /// allocator answered with `opaque`.
    pub open spec fn allocated(opaque: usize, size: u64) -> DeviceMemoryBase {
        DeviceMemoryBase { opaque, size }
    }

    /// The region that a deallocation leaves, and the address that is to be
    /// released.
    pub open spec fn deallocated(self) -> (DeviceMemoryBase, usize) {
        (DeviceMemoryBase { opaque: NULL, size: 0 }, self.opaque)
    }
}

/// The number of bytes to ask of the allocator for a region of `size` bytes,
/// where the allocator can be asked for so many at all.
pub fn allocation_size(size: u64) -> (bytes: Option<usize>)
    ensures
        bytes == if size <= usize::MAX {
            Some(size as usize)
        } else {
            None
        },
{
    if size > usize::MAX as u64 {
        None
    } else {
        Some(size as usize)
    }
}

/// Copies the first `size` bytes of `src` to the start of `dst`.
pub fn copy_bytes(dst: &mut [u8], src: &[u8], size: usize)
    requires
        size <= old(dst)@.len(),
        size <= src@.len(),
    ensures
        final(dst)@ == copied(old(dst)@, src@, size as int),
{
    let mut i: usize = 0;
    while i < size
        invariant
            0 <= i <= size,
            size <= src@.len(),
            dst@.len() == old(dst)@.len(),
            size <= dst@.len(),
            forall|j: int| 0 <= j < i ==> dst@[j] == src@[j],
            forall|j: int| i <= j < dst@.len() ==> dst@[j] == old(dst)@[j],
        decreases size - i,
    {
        dst[i] = src[i];
        i += 1;
    }
    assert(dst@ =~= copied(old(dst)@, src@, size as int));
}

/// The byte of `pattern` that lies `k` bytes after its lowest one.
pub fn byte_of_pattern(pattern: u32, k: usize) -> (byte: u8)
    requires
        k < 4,
    ensures
        byte == pattern_byte(pattern, k as int),
{
    if k == 0 {
        (pattern % 0x100) as u8
    } else if k == 1 {
        (pattern / 0x100 % 0x100) as u8
    } else if k == 2 {
        (pattern / 0x1_0000 % 0x100) as u8
    } else {
        (pattern / 0x100_0000 % 0x100) as u8
    }
}

/// Fills the first `size` bytes of `dst` with `pattern`, repeated, lowest
/// byte first.
pub fn fill_bytes(dst: &mut [u8], pattern: u32, size: usize)
    requires
        size <= old(dst)@.len(),
    ensures
        final(dst)@ == filled(old(dst)@, pattern, size as int),
{
    let mut i: usize = 0;
    while i < size
        invariant
            0 <= i <= size,
            dst@.len() == old(dst)@.len(),
            size <= dst@.len(),
            forall|j: int| 0 <= j < i ==> dst@[j] == pattern_byte(pattern, j % 4),
            forall|j: int| i <= j < dst@.len() ==> dst@[j] == old(dst)@[j],
        decreases size - i,
    {
        dst[i] = byte_of_pattern(pattern, i % 4);
        i += 1;
    }
    assert(dst@ =~= filled(old(dst)@, pattern, size as int));
}

/// The device backend of one platform.
#[derive(Debug, Clone, Copy, PartialEq, Eq)]
pub struct DeviceBackend {
    pub identity: DeviceIdentity,
}

impl DeviceBackend {
    /// A backend that presents its devices under `identity`.
    pub fn new(identity: DeviceIdentity) -> (backend: Self)
        ensures
            backend.identity == identity,
    {
        DeviceBackend { identity }
    }

    /// Fills in the platform: its name and type are those of the backend's
    /// identity.
    pub fn init_plugin(&self, platform: &mut Platform, status: &mut Status)
        ensures
            final(platform).name.spec_bytes() == self.identity.name_bytes(),
            final(platform).type_.spec_bytes() == self.identity.type_bytes(),
            nul_terminated(final(platform).name.spec_bytes()),
            nul_terminated(final(platform).type_.spec_bytes()),
            final(status).succeeded(),
    {
        platform.name = self.identity.name();
        platform.type_ = self.identity.device_type();
        status.set_ok();
    }

    /// The number of devices of the platform: there is one.
    pub fn get_device_count(&self, platform: &Platform, device_count: &mut i32, status: &mut Status)
        ensures
            *final(device_count) == 1,
            final(status).succeeded(),
    {
        *device_count = 1;
        status.set_ok();
    }

    /// Makes the device with the given ordinal: it gets a handle of its own.
    pub fn create_device(
        &self,
        platform: &Platform,
        ordinal: i32,
        device: &mut Device,
        status: &mut Status,
    )
        ensures
            final(device).device_handle matches Some(handle) && handle@ == DEVICE_PAYLOAD@,
            final(device).ordinal == ordinal,
            final(status).succeeded(),
    {
        device.device_handle = Some(DEVICE_PAYLOAD.to_owned());
        device.ordinal = ordinal;
        status.set_ok();
    }

    /// Gives the device up: its handle is released, and the device is left
    /// without a handle and without an ordinal.
    pub fn destroy_device(&self, platform: &Platform, device: &mut Device)
        ensures
            final(device).device_handle is None,
            final(device).ordinal == NO_ORDINAL,
    {
        device.device_handle = None;
        device.ordinal = NO_ORDINAL;
    }

    /// Records in `mem` an allocation of `size` bytes that the allocator
    /// answered with the address `opaque`. An allocator that had no memory
    /// to give answers `NULL`; the size is recorded either way.
    pub fn allocate(
        &self,
        device: &Device,
        size: u64,
        memory_space: i64,
        opaque: usize,
        mem: &mut DeviceMemoryBase,
    )
        ensures
            *final(mem) == DeviceMemoryBase::allocated(opaque, size),
    {
        mem.opaque = opaque;
        mem.size = size;
    }

    /// Clears `mem` and gives the address that is to be released. A region
    /// that is cleared already gives `NULL`, which there is nothing to
    /// release for, so that no memory is released twice.
    pub fn deallocate(&self, device: &Device, mem: &mut DeviceMemoryBase) -> (released: usize)
        ensures
            (*final(mem), released) == old(mem).deallocated(),
    {
        let released = mem.opaque;
        mem.opaque = NULL;
        mem.size = 0;
        released
    }

    /// What the allocator reports of itself: a fixed figure.
    pub fn get_allocator_stats(&self, device: &Device, stats: &mut AllocatorStats) -> (known: bool)
        ensures
            known,
            final(stats).bytes_in_use == BYTES_IN_USE,
    {
        stats.bytes_in_use = BYTES_IN_USE;
        true
    }

    /// The free and the total memory of the device: fixed figures.
    pub fn device_memory_usage(&self, device: &Device, free: &mut i64, total: &mut i64) -> (known:
        bool)
        ensures
            known,
            *final(free) == FREE_MEMORY,
            *final(total) == TOTAL_MEMORY,
    {
        *free = FREE_MEMORY;
        *total = TOTAL_MEMORY;
        true
    }

    /// Makes a stream of `device`: it carries what the device's handle
    /// holds.
    pub fn create_stream(&self, device: &Device, stream: &mut Stream, status: &mut Status)
        ensures
            final(stream).stream_handle == device.device_handle,
            final(status).succeeded(),
    {
        stream.stream_handle = device.device_handle.clone();
        status.set_ok();
    }

    /// Gives the stream up and leaves it without a handle.
    pub fn destroy_stream(&self, device: &Device, stream: &mut Stream)
        ensures
            final(stream).stream_handle is None,
    {
        stream.stream_handle = None;
    }

    /// Makes `dependent` wait for `other`. Both have nothing waiting, so
    /// there is nothing to do.
    pub fn create_stream_dependency(
        &self,
        device: &Device,
        dependent: &Stream,
        other: &Stream,
        status: &mut Status,
    )
        ensures
            final(status).succeeded(),
    {
        status.set_ok();
    }

    /// The state of the stream: all is well, since nothing is ever waiting.
    pub fn get_stream_status(&self, device: &Device, stream: &Stream, status: &mut Status)
        ensures
            final(status).succeeded(),
    {
        status.set_ok();
    }

    /// Makes an event. The event is left as it is.
    pub fn create_event(&self, device: &Device, event: &mut Event, status: &mut Status)
        ensures
            *final(event) == *old(event),
            final(status).succeeded(),
    {
        status.set_ok();
    }

    /// The state of an event: complete.
    pub fn get_event_status(&self, device: &Device, event: &Event) -> (state: EventStatus)
        ensures
            state == EventStatus::Complete,
    {
        EventStatus::Complete
    }

    /// Puts the event at the end of the stream.
    pub fn record_event(&self, device: &Device, stream: &Stream, event: &Event, status: &mut Status)
        ensures
            final(status).succeeded(),
    {
        status.set_ok();
    }

    /// Makes the stream wait for the event, which is complete.
    pub fn wait_for_event(&self, device: &Device, stream: &Stream, event: &Event, status: &mut Status)
        ensures
            final(status).succeeded(),
    {
        status.set_ok();
    }

    /// Makes a timer. The timer is left as it is.
    pub fn create_timer(&self, device: &Device, timer: &mut Timer, status: &mut Status)
        ensures
            *final(timer) == *old(timer),
            final(status).succeeded(),
    {
        status.set_ok();
    }

    /// Starts the timer. Nothing is measured.
    pub fn start_timer(&self, device: &Device, stream: &Stream, timer: &Timer, status: &mut Status)
        ensures
            final(status).succeeded(),
    {
        status.set_ok();
    }

    /// Stops the timer. Nothing is measured.
    pub fn stop_timer(&self, device: &Device, stream: &Stream, timer: &Timer, status: &mut Status)
        ensures
            final(status).succeeded(),
    {
        status.set_ok();
    }

    /// The nanoseconds that the timer shows: the value of its handle.
    pub fn nanoseconds(&self, timer: &Timer) -> (elapsed: u64)
        ensures
            elapsed == timer.timer_handle,
    {
        timer.timer_handle
    }

    /// Makes the host wait for the event, which is complete.
    pub fn block_host_for_event(&self, device: &Device, event: &Event, status: &mut Status)
        ensures
            final(status).succeeded(),
    {
        status.set_ok();
    }

    /// Makes the host wait for the stream, which has nothing waiting.
    pub fn block_host_until_done(&self, device: &Device, stream: &Stream, status: &mut Status)
        ensures
            final(status).succeeded(),
    {
        status.set_ok();
    }

    /// Makes the host wait for all that the device does, which is nothing.
    pub fn synchronize_all_activity(&self, device: &Device, status: &mut Status)
        ensures
            final(status).succeeded(),
    {
        status.set_ok();
    }

    /// Takes a callback to run on the host once the stream has come to it.
    /// The callback is accepted and not run.
    pub fn host_callback<F>(&self, device: &Device, stream: &Stream, callback: F) -> (accepted: bool)
        ensures
            accepted,
    {
        true
    }

    /// Copies `size` bytes from device memory to host memory.
    ///
    /// The copy is done when the call returns. Where either side is shorter
    /// than `size`, nothing is copied and the status says so.
    pub fn memcpy_dtoh(
        &self,
        device: &Device,
        stream: &Stream,
        host_dst: &mut [u8],
        device_src: &[u8],
        size: u64,
        status: &mut Status,
    )
        ensures
            transferred(old(host_dst)@, device_src@, size, final(host_dst)@, *final(status)),
    {
        transfer(host_dst, device_src, size, status);
    }

    /// Copies `size` bytes from device memory to host memory, as
    /// `memcpy_dtoh` does.
    pub fn sync_memcpy_dtoh(
        &self,
        device: &Device,
        host_dst: &mut [u8],
        device_src: &[u8],
        size: u64,
        status: &mut Status,
    )
        ensures
            transferred(old(host_dst)@, device_src@, size, final(host_dst)@, *final(status)),
    {
        transfer(host_dst, device_src, size, status);
    }

    /// Copies `size` bytes from host memory to device memory.
    ///
    /// The copy is done when the call returns. Where either side is shorter
    /// than `size`, nothing is copied and the status says so.
    pub fn memcpy_htod(
        &self,
        device: &Device,
        stream: &Stream,
        device_dst: &mut [u8],
        host_src: &[u8],
        size: u64,
        status: &mut Status,
    )
        ensures
            transferred(old(device_dst)@, host_src@, size, final(device_dst)@, *final(status)),
    {
        transfer(device_dst, host_src, size, status);
    }

    /// Copies `size` bytes from host memory to device memory, as
    /// `memcpy_htod` does.
    pub fn sync_memcpy_htod(
        &self,
        device: &Device,
        device_dst: &mut [u8],
        host_src: &[u8],
        size: u64,
        status: &mut Status,
    )
        ensures
            transferred(old(device_dst)@, host_src@, size, final(device_dst)@, *final(status)),
    {
        transfer(device_dst, host_src, size, status);
    }

    /// Copies `size` bytes from one region of device memory to another.
    ///
    /// The copy is done when the call returns. Where either region is
    /// shorter than `size`, nothing is copied and the status says so.
    pub fn memcpy_dtod(
        &self,
        device: &Device,
        stream: &Stream,
        device_dst: &mut [u8],
        device_src: &[u8],
        size: u64,
        status: &mut Status,
    )
        ensures
            transferred(old(device_dst)@, device_src@, size, final(device_dst)@, *final(status)),
    {
        transfer(device_dst, device_src, size, status);
    }

    /// Copies `size` bytes from one region of device memory to another, as
    /// `memcpy_dtod` does.
    pub fn sync_memcpy_dtod(
        &self,
        device: &Device,
        device_dst: &mut [u8],
        device_src: &[u8],
        size: u64,
        status: &mut Status,
    )
        ensures
            transferred(old(device_dst)@, device_src@, size, final(device_dst)@, *final(status)),
    {
        transfer(device_dst, device_src, size, status);
    }

    /// Fills the first `size` bytes of the region with zeros.
    pub fn mem_zero(
        &self,
        device: &Device,
        stream: &Stream,
        location: &mut [u8],
        size: u64,
        status: &mut Status,
    )
        ensures
            patterned(old(location)@, 0, size, final(location)@, *final(status)),
    {
        self.memset32(device, stream, location, 0, size, status);
    }

    /// Fills the first `size` bytes of the region with the byte `pattern`.
    pub fn memset(
        &self,
        device: &Device,
        stream: &Stream,
        location: &mut [u8],
        pattern: u8,
        size: u64,
        status: &mut Status,
    )
        ensures
            patterned(old(location)@, replicated(pattern), size, final(location)@, *final(status)),
    {
        let wide: u32 = pattern as u32;
        assert(wide << 24 | wide << 16 | wide << 8 | wide == wide * 0x0101_0101) by (bit_vector)
            requires
                wide < 0x100,
        ;
        self.memset32(
            device,
            stream,
            location,
            wide << 24 | wide << 16 | wide << 8 | wide,
            size,
            status,
        );
    }

    /// Fills the first `size` bytes of the region with the four bytes of
    /// `pattern`, repeated, lowest byte first.
    ///
    /// The fill is done when the call returns. Where the region is shorter
    /// than `size`, nothing is written and the status says so.
    pub fn memset32(
        &self,
        device: &Device,
        stream: &Stream,
        location: &mut [u8],
        pattern: u32,
        size: u64,
        status: &mut Status,
    )
        ensures
            patterned(old(location)@, pattern, size, final(location)@, *final(status)),
    {
        if size > location.len() as u64 {
            status.set(TF_OUT_OF_RANGE, OUT_OF_RANGE_MESSAGE);
        } else {
            fill_bytes(location, pattern, size as usize);
            status.set_ok();
        }
    }
}

/// Copies `size` bytes from `src` to `dst` where both are long enough, and
/// reports through `status`.
fn transfer(dst: &mut [u8], src: &[u8], size: u64, status: &mut Status)
    ensures
        transferred(old(dst)@, src@, size, final(dst)@, *final(status)),
{
    if size > src.len() as u64 || size > dst.len() as u64 {
        status.set(TF_OUT_OF_RANGE, OUT_OF_RANGE_MESSAGE);
    } else {
        copy_bytes(dst, src, size as usize);
        status.set_ok();
    }
}

/// Allocating and then deallocating leaves the region cleared and gives
/// the address that was allocated, to be released. Deallocating again
/// leaves the region as it is and gives `NULL`: nothing is released twice.
pub proof fn lemma_deallocate_clears(opaque: usize, size: u64)
    ensures
        ({
            let (once, first) = DeviceMemoryBase::allocated(opaque, size).deallocated();
            let (twice, second) = once.deallocated();
            &&& once.cleared()
            &&& first == opaque
            &&& twice == once
            &&& second == NULL
        }),
{
}

/// Each of the four bytes of a replicated byte is that byte.
pub proof fn lemma_replicated(byte: u8)
    ensures
        forall|k: int| 0 <= k < 4 ==> #[trigger] pattern_byte(replicated(byte), k) == byte,
{
    let wide: u32 = byte as u32;
    assert(wide * 0x0101_0101 <= 0xffff_ffff);
    let pattern: u32 = (wide * 0x0101_0101) as u32;
    assert(pattern == replicated(byte));
    assert(pattern % 0x100 == wide && pattern / 0x100 % 0x100 == wide && pattern / 0x1_0000 % 0x100
        == wide && pattern / 0x100_0000 % 0x100 == wide) by (bit_vector)
        requires
            wide < 0x100,
            pattern == wide * 0x0101_0101,
    ;
}

/// A fill with a byte that was replicated leaves that byte at every place
/// it reaches, and what lies beyond as it was.
pub proof fn lemma_replicated_fill(bytes: Seq<u8>, byte: u8, size: int)
    requires
        0 <= size <= bytes.len(),
    ensures
        forall|i: int| 0 <= i < size ==> #[trigger] filled(bytes, replicated(byte), size)[i] == byte,
        forall|i: int|
            size <= i < bytes.len() ==> #[trigger] filled(bytes, replicated(byte), size)[i]
                == bytes[i],
{
    lemma_replicated(byte);
    assert forall|i: int| 0 <= i < size implies #[trigger] filled(
        bytes,
        replicated(byte),
        size,
    )[i] == byte by {
        assert(0 <= i % 4 < 4);
        assert(pattern_byte(replicated(byte), i % 4) == byte);
    }
}

} // verus!
