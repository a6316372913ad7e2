//! Memory requests and responses, the device abstraction, and the unit that
//! routes a request to the device whose range holds its address.

use crate::hash_index::{index_contains_key, index_entries, index_insert, index_new};
use crate::risc_word::{Address, WordSize};
use ahash::AHashMap;
use vstd::prelude::*;

verus! {

/// Direction of a memory request.
#[derive(Debug, PartialEq, Eq, Clone, Copy, Structural)]
pub enum MemoryRequestType {
    READ,
    WRITE,
}

/// Outcome of a memory request.
#[derive(Debug, PartialEq, Eq, Clone, Copy, Structural)]
pub enum MemoryResponseType {
    CacheHit,
    CacheMiss,
    Valid,
    InvalidAddress,
    UnalignedAddress,
    NotWritable,
    NotReadable,
    NotExecutable,
    WrongMemoryMap,
}

/// Kinds of memory device, in the order of the memory hierarchy. A kind up to
/// `LLCACHE` is cache-like and has no place of its own in the address map; a
/// kind above it is mapped to an address range.
#[derive(Debug, PartialEq, Eq, PartialOrd, Ord, Hash, Clone, Copy, Structural)]
pub enum MemoryDeviceType {
    L1ICACHE,
    L1DCACHE,
    L2CACHE,
    LLCACHE,
    MROM,
    DRAM,
    FLASH,
    UART0,
    DEBUG,
    IOMMU,
}

impl MemoryDeviceType {
    /// Position of the kind in the hierarchy, from zero for `L1ICACHE`.
    pub open spec fn spec_rank(self) -> usize {
        match self {
            MemoryDeviceType::L1ICACHE => 0,
            MemoryDeviceType::L1DCACHE => 1,
            MemoryDeviceType::L2CACHE => 2,
            MemoryDeviceType::LLCACHE => 3,
            MemoryDeviceType::MROM => 4,
            MemoryDeviceType::DRAM => 5,
            MemoryDeviceType::FLASH => 6,
            MemoryDeviceType::UART0 => 7,
            MemoryDeviceType::DEBUG => 8,
            MemoryDeviceType::IOMMU => 9,
        }
    }

    /// Position of the kind in the hierarchy, from zero for `L1ICACHE`.
    #[verifier::when_used_as_spec(spec_rank)]
    pub fn rank(self) -> (r: usize)
        ensures
            r == self.spec_rank(),
    {
        match self {
            MemoryDeviceType::L1ICACHE => 0,
            MemoryDeviceType::L1DCACHE => 1,
            MemoryDeviceType::L2CACHE => 2,
            MemoryDeviceType::LLCACHE => 3,
            MemoryDeviceType::MROM => 4,
            MemoryDeviceType::DRAM => 5,
            MemoryDeviceType::FLASH => 6,
            MemoryDeviceType::UART0 => 7,
            MemoryDeviceType::DEBUG => 8,
            MemoryDeviceType::IOMMU => 9,
        }
    }

    /// Whether the kind is cache-like: at most `LLCACHE`.
    pub open spec fn spec_is_cache_like(self) -> bool {
        self.spec_rank() <= MemoryDeviceType::LLCACHE.spec_rank()
    }

    /// Whether the kind is cache-like: at most `LLCACHE`.
    #[verifier::when_used_as_spec(spec_is_cache_like)]
    pub fn is_cache_like(self) -> (r: bool)
        ensures
            r == self.spec_is_cache_like(),
    {
        self.rank() <= 3
    }

    /// Whether the kind is mapped to an address range: above `LLCACHE`.
    pub open spec fn spec_is_mapped(self) -> bool {
        self.spec_rank() > MemoryDeviceType::LLCACHE.spec_rank()
    }

    /// Whether the kind is mapped to an address range: above `LLCACHE`.
    #[verifier::when_used_as_spec(spec_is_mapped)]
    pub fn is_mapped(self) -> (r: bool)
        ensures
            r == self.spec_is_mapped(),
    {
        self.rank() > 3
    }
}

/// Two kinds with the same rank are the same kind.
pub proof fn lemma_rank_injective(a: MemoryDeviceType, b: MemoryDeviceType)
    ensures
        a.rank() == b.rank() <==> a == b,
{
}

/// A request to a memory device.
#[derive(Debug)]
pub struct MemoryRequest {
    pub request_type: MemoryRequestType,
    pub data_address: Address,
    pub data_size: WordSize,
    pub data: Option<Vec<u8>>,
}

/// A request as a mathematical value.
pub struct MemoryRequestView {
    pub request_type: MemoryRequestType,
    pub data_address: Address,
    pub data_size: WordSize,
    pub data: Option<Seq<u8>>,
}

impl View for MemoryRequest {
    type V = MemoryRequestView;

    open spec fn view(&self) -> MemoryRequestView {
        MemoryRequestView {
            request_type: self.request_type,
            data_address: self.data_address,
            data_size: self.data_size,
            data: match self.data {
                Some(d) => Some(d@),
                None => None,
            },
        }
    }
}

impl MemoryRequestView {
    /// A write carries at least as many bytes as its width asks for.
    pub open spec fn well_formed(self) -> bool {
        self.request_type == MemoryRequestType::WRITE ==> self.data.is_some()
            && self.data.unwrap().len() >= self.data_size.spec_bytes()
    }

    /// The bytes that a write stores: the first bytes of its data, as many as
    /// its width.
    pub open spec fn payload(self) -> Seq<u8> {
        self.data.unwrap().take(self.data_size.spec_bytes() as int)
    }

    /// A read of `size` bytes at `address`.
    pub open spec fn read(address: Address, size: WordSize) -> Self {
        MemoryRequestView {
            request_type: MemoryRequestType::READ,
            data_address: address,
            data_size: size,
            data: None,
        }
    }

    /// A write of the first `size` bytes of `data` at `address`.
    pub open spec fn write(address: Address, size: WordSize, data: Seq<u8>) -> Self {
        MemoryRequestView {
            request_type: MemoryRequestType::WRITE,
            data_address: address,
            data_size: size,
            data: Some(data),
        }
    }
}

impl Clone for MemoryRequest {
    fn clone(&self) -> (r: Self)
        ensures
            r@ == self@,
    {
        let data = match &self.data {
            Some(d) => {
                let c = d.clone();
                assert(c@ =~= d@);
                Some(c)
            },
            None => None,
        };
        MemoryRequest {
            request_type: self.request_type,
            data_address: self.data_address,
            data_size: self.data_size,
            data: data,
        }
    }
}

impl MemoryRequest {
    /// Whether a write carries at least as many bytes as its width asks for.
    pub fn is_well_formed(&self) -> (r: bool)
        ensures
            r == self@.well_formed(),
    {
        match self.request_type {
            MemoryRequestType::READ => true,
            MemoryRequestType::WRITE => match &self.data {
                Some(d) => d.len() >= self.data_size.bytes(),
                None => false,
            },
        }
    }
}

/// The response of a memory device.
#[derive(Debug)]
pub struct MemoryResponse {
    pub data: Vec<u8>,
    pub status: MemoryResponseType,
}

/// A response as a mathematical value.
pub struct MemoryResponseView {
    pub data: Seq<u8>,
    pub status: MemoryResponseType,
}

impl View for MemoryResponse {
    type V = MemoryResponseView;

    open spec fn view(&self) -> MemoryResponseView {
        MemoryResponseView { data: self.data@, status: self.status }
    }
}

impl MemoryResponseView {
    /// A response that carries no data.
    pub open spec fn bare(status: MemoryResponseType) -> Self {
        MemoryResponseView { data: Seq::empty(), status: status }
    }
}

impl MemoryResponse {
    /// A response that carries no data.
    pub fn bare(status: MemoryResponseType) -> (r: Self)
        ensures
            r@ == MemoryResponseView::bare(status),
    {
        MemoryResponse { data: Vec::new(), status: status }
    }
}

/// `memory` with `data` laid over it from offset `at`. Bytes of `data` that
/// would fall outside `memory` are dropped.
pub open spec fn write_bytes(memory: Seq<u8>, at: int, data: Seq<u8>) -> Seq<u8> {
    Seq::new(
        memory.len(),
        |i: int|
            if at <= i < at + data.len() {
                data[i - at]
            } else {
                memory[i]
            },
    )
}

/// The part of `memory` between the offsets `from` and `to`, as far as
/// `memory` reaches.
pub open spec fn window(memory: Seq<u8>, from: int, to: int) -> Seq<u8> {
    let lo = if from < 0 {
        0
    } else if from > memory.len() {
        memory.len() as int
    } else {
        from
    };
    let hi = if to < lo {
        lo
    } else if to > memory.len() {
        memory.len() as int
    } else {
        to
    };
    memory.subrange(lo, hi)
}

/// Copies the bytes of `source` between two offsets.
pub fn copy_range(source: &Vec<u8>, from: usize, to: usize) -> (r: Vec<u8>)
    requires
        from <= to <= source@.len(),
    ensures
        r@ == source@.subrange(from as int, to as int),
{
    let mut r: Vec<u8> = Vec::with_capacity(to - from);
    let mut i: usize = from;
    while i < to
        invariant
            from <= i <= to <= source@.len(),
            r@ == source@.subrange(from as int, i as int),
        decreases to - i,
    {
        r.push(source[i]);
        i += 1;
        assert(r@ =~= source@.subrange(from as int, i as int));
    }
    r
}

/// Lays the first `count` bytes of `data` over `memory` from offset `at`.
pub fn overlay(memory: &mut Vec<u8>, at: usize, data: &[u8], count: usize)
    requires
        at + count <= old(memory)@.len(),
        count <= data@.len(),
    ensures
        final(memory)@ == write_bytes(old(memory)@, at as int, data@.take(count as int)),
{
    let len: usize = memory.len();
    let mut i: usize = 0;
    while i < count
        invariant
            i <= count <= data@.len(),
            at + count <= len,
            memory@.len() == len,
            len == old(memory)@.len(),
            memory@ == write_bytes(old(memory)@, at as int, data@.take(i as int)),
        decreases count - i,
    {
        memory[at + i] = data[i];
        i += 1;
        assert(memory@ =~= write_bytes(old(memory)@, at as int, data@.take(i as int)));
    }
}

/// Whether `address` lies in the half-open range.
pub open spec fn in_range(range: (Address, Address), address: Address) -> bool {
    range.0 <= address < range.1
}

/// An addressed byte store that answers typed requests.
pub trait MemoryDevice {
    /// The invariant of the device.
    spec fn well_formed(&self) -> bool;

    /// Number of bytes that the device covers.
    spec fn spec_size(&self) -> usize;

    /// First address of the device and the address after its last.
    spec fn spec_start_end_addresses(&self) -> (Address, Address);

    /// The kind of the device.
    spec fn spec_memory_type(&self) -> MemoryDeviceType;

    /// Number of bytes in a line of a device that is organised in lines, and
    /// zero for a device that is not. With the size it is the geometry of
    /// the device, which no request changes.
    spec fn spec_line_size(&self) -> usize;

    /// The bytes that the device stores, by offset from its first address.
    spec fn contents(&self) -> Seq<u8>;

    /// The bytes that the device has sent to the host console and that nobody
    /// has collected yet.
    spec fn pending_output(&self) -> Seq<u8>;

    /// What the device answers to a request in its present state.
    spec fn response(&self, request: MemoryRequestView) -> MemoryResponseView;

    /// What the device stores once it has served a request.
    spec fn contents_after(&self, request: MemoryRequestView) -> Seq<u8>;

    /// What waits for the host console once the device has served a request.
    spec fn output_after(&self, request: MemoryRequestView) -> Seq<u8>;

    /// Serves a read or a write.
    fn send_data_request(&mut self, request: MemoryRequest) -> (r: MemoryResponse)
        requires
            old(self).well_formed(),
            request@.well_formed(),
        ensures
            final(self).well_formed(),
            final(self).spec_size() == old(self).spec_size(),
            final(self).spec_start_end_addresses() == old(self).spec_start_end_addresses(),
            final(self).spec_memory_type() == old(self).spec_memory_type(),
            final(self).spec_line_size() == old(self).spec_line_size(),
            r@ == old(self).response(request@),
            final(self).contents() == old(self).contents_after(request@),
            final(self).pending_output() == old(self).output_after(request@),
    ;

    /// Serves a read without changing the device.
    fn read_request(&self, request: MemoryRequest) -> (r: MemoryResponse)
        requires
            self.well_formed(),
            request.request_type == MemoryRequestType::READ,
        ensures
            r@ == self.response(request@),
    ;

    /// Number of bytes that the device covers.
    fn size(&self) -> (r: usize)
        requires
            self.well_formed(),
        ensures
            r == self.spec_size(),
    ;

    /// First address of the device and the address after its last.
    fn start_end_addresses(&self) -> (r: (Address, Address))
        requires
            self.well_formed(),
        ensures
            r == self.spec_start_end_addresses(),
    ;

    /// The kind of the device.
    fn get_memory_type(&self) -> (r: MemoryDeviceType)
        requires
            self.well_formed(),
        ensures
            r == self.spec_memory_type(),
    ;

    /// Lays `data` over the stored bytes from offset `address`.
    fn init_mem(&mut self, address: Address, data: &[u8])
        requires
            old(self).well_formed(),
            address + data@.len() <= old(self).spec_size(),
        ensures
            final(self).well_formed(),
            final(self).spec_size() == old(self).spec_size(),
            final(self).spec_start_end_addresses() == old(self).spec_start_end_addresses(),
            final(self).spec_memory_type() == old(self).spec_memory_type(),
            final(self).spec_line_size() == old(self).spec_line_size(),
            final(self).contents() == write_bytes(old(self).contents(), address as int, data@),
            final(self).pending_output() == old(self).pending_output(),
    ;

    /// The stored bytes between two addresses of the device, for inspection.
    fn debug(&self, start_address: Address, end_address: Address) -> (r: Vec<u8>)
        requires
            self.well_formed(),
            self.spec_start_end_addresses().0 <= start_address <= end_address
                <= self.spec_start_end_addresses().1,
        ensures
            r@ == window(
                self.contents(),
                start_address - self.spec_start_end_addresses().0,
                end_address - self.spec_start_end_addresses().0,
            ),
    ;

    /// Hands over the bytes that wait for the host console.
    fn take_output(&mut self) -> (r: Vec<u8>)
        requires
            old(self).well_formed(),
        ensures
            final(self).well_formed(),
            final(self).spec_size() == old(self).spec_size(),
            final(self).spec_start_end_addresses() == old(self).spec_start_end_addresses(),
            final(self).spec_memory_type() == old(self).spec_memory_type(),
            final(self).spec_line_size() == old(self).spec_line_size(),
            final(self).contents() == old(self).contents(),
            r@ == old(self).pending_output(),
            final(self).pending_output() == Seq::<u8>::empty(),
    ;
}

/// Why the unit refuses a device or a section.
#[derive(Debug, PartialEq, Eq, Clone, Copy, Structural)]
pub enum MmuError {
    /// A device of the same kind is registered already.
    DuplicateDevice,
    /// The kind is below `L2CACHE`: such a device belongs to the core.
    CacheLikeDevice,
    /// The range overlaps that of a mapped device registered before.
    OverlappingRange,
    /// The section starts inside a device and does not end inside it.
    SpanDoesNotFit,
}

/// Whether `after` is a device `before` once it has served `request`: still
/// well formed, of the same kind, range, size and line size, with the
/// contents and the pending output that the request leaves.
pub open spec fn device_step<T: MemoryDevice>(
    before: T,
    after: T,
    request: MemoryRequestView,
) -> bool {
    &&& after.well_formed()
    &&& after.spec_size() == before.spec_size()
    &&& after.spec_start_end_addresses() == before.spec_start_end_addresses()
    &&& after.spec_memory_type() == before.spec_memory_type()
    &&& after.spec_line_size() == before.spec_line_size()
    &&& after.contents() == before.contents_after(request)
    &&& after.pending_output() == before.output_after(request)
}

/// Whether two half-open ranges share an address.
pub open spec fn ranges_overlap(a: (Address, Address), b: (Address, Address)) -> bool {
    a.0 < b.1 && b.0 < a.1
}

/// Whether the range at position `i` is the first that holds `address`.
pub open spec fn is_first_match(ranges: Seq<(Address, Address)>, address: Address, i: int) -> bool {
    &&& 0 <= i < ranges.len()
    &&& in_range(ranges[i], address)
    &&& forall|j: int| 0 <= j < i ==> !in_range(#[trigger] ranges[j], address)
}

/// Position of the first range that holds `address`, if one does.
pub open spec fn first_match(ranges: Seq<(Address, Address)>, address: Address) -> Option<int> {
    if exists|i: int| is_first_match(ranges, address, i) {
        Some(choose|i: int| is_first_match(ranges, address, i))
    } else {
        None
    }
}

/// How a memory management unit picks the device that serves a request.
pub trait RoutingPolicy {
    /// Position of the device that serves `request`, among devices with the
    /// given address ranges in the order of their registration; none where
    /// the policy finds no device for the request.
    spec fn selection(
        &self,
        ranges: Seq<(Address, Address)>,
        request: MemoryRequestView,
    ) -> Option<int>;

    /// Picks the device that serves `request`.
    fn select(&self, ranges: &Vec<(Address, Address)>, request: &MemoryRequest) -> (r: Option<
        usize,
    >)
        ensures
            match r {
                Some(i) => i < ranges@.len() && self.selection(ranges@, request@) == Some(i as int),
                None => self.selection(ranges@, request@).is_none(),
            },
    ;
}

/// The default policy: the first registered device whose range holds the
/// address of the request serves it.
#[derive(Debug, Clone, Copy)]
pub struct FirstMatch;

impl FirstMatch {
    /// The default policy selects the first range that holds the address of
    /// the request.
    pub proof fn lemma_selects_first(
        &self,
        ranges: Seq<(Address, Address)>,
        request: MemoryRequestView,
    )
        ensures
            self.selection(ranges, request) == first_match(ranges, request.data_address),
    {
    }
}

impl RoutingPolicy for FirstMatch {
    open spec fn selection(
        &self,
        ranges: Seq<(Address, Address)>,
        request: MemoryRequestView,
    ) -> Option<int> {
        first_match(ranges, request.data_address)
    }

    fn select(&self, ranges: &Vec<(Address, Address)>, request: &MemoryRequest) -> (r: Option<
        usize,
    >) {
        proof {
            self.lemma_selects_first(ranges@, request@);
        }
        let address: Address = request.data_address;
        let mut i: usize = 0;
        while i < ranges.len()
            invariant
                i <= ranges@.len(),
                address == request.data_address,
                forall|j: int| 0 <= j < i ==> !in_range(#[trigger] ranges@[j], address),
            decreases ranges@.len() - i,
        {
            let range: (Address, Address) = ranges[i];
            if range.0 <= address && address < range.1 {
                assert(is_first_match(ranges@, address, i as int));
                return Some(i);
            }
            i += 1;
        }
        None
    }
}

/// The bytes that wait in the first `n` devices, in the order of the devices.
pub open spec fn gathered_output<D: MemoryDevice>(devices: Seq<D>, n: int) -> Seq<u8>
    decreases n,
{
    if n <= 0 {
        Seq::empty()
    } else {
        gathered_output(devices, n - 1) + devices[n - 1].pending_output()
    }
}

/// Where nothing waits in any of the first `n` devices, nothing is gathered
/// from them.
pub proof fn lemma_gathered_nothing<D: MemoryDevice>(devices: Seq<D>, n: int)
    requires
        n <= devices.len(),
        forall|i: int|
            0 <= i < n ==> (#[trigger] devices[i]).pending_output() == Seq::<u8>::empty(),
    ensures
        gathered_output(devices, n) == Seq::<u8>::empty(),
    decreases n,
{
    if n > 0 {
        lemma_gathered_nothing(devices, n - 1);
    }
}

/// The router between the core and the devices behind its caches: it keeps
/// one device of each kind and sends a request to the device that its
/// routing policy picks.
pub struct MemoryManagementUnit<D: MemoryDevice, P: RoutingPolicy = FirstMatch> {
    /// Position in `devices` of the device of each kind, by the kind's rank.
    pub memmap: AHashMap<usize, usize>,
    /// The devices, in the order in which they were registered.
    pub devices: Vec<D>,
    /// The routing policy.
    pub process_fn: P,
}

impl<D: MemoryDevice> MemoryManagementUnit<D, FirstMatch> {
    /// A unit without devices that routes by the default policy.
    pub fn new() -> (r: Self)
        ensures
            r.well_formed(),
            r.devices@.len() == 0,
    {
        MemoryManagementUnit { memmap: index_new(), devices: Vec::new(), process_fn: FirstMatch }
    }
}

impl<D: MemoryDevice, P: RoutingPolicy> MemoryManagementUnit<D, P> {
    /// Kind of the device at a position.
    pub open spec fn kind(&self, i: int) -> MemoryDeviceType {
        self.devices@[i].spec_memory_type()
    }

    /// Address range of the device at a position.
    pub open spec fn range(&self, i: int) -> (Address, Address) {
        self.devices@[i].spec_start_end_addresses()
    }

    /// The address ranges of the devices, in the order of registration.
    pub open spec fn ranges(&self) -> Seq<(Address, Address)> {
        Seq::new(self.devices@.len(), |i: int| self.range(i))
    }

    /// Every device is well formed and of a kind from `L2CACHE` up, no kind
    /// occurs twice, the index finds each device by its kind, and the ranges
    /// of mapped devices are pairwise disjoint.
    pub open spec fn well_formed(&self) -> bool {
        &&& forall|i: int|
            0 <= i < self.devices@.len() ==> (#[trigger] self.devices@[i]).well_formed()
        &&& forall|i: int|
            0 <= i < self.devices@.len() ==> (#[trigger] self.kind(i)).rank()
                >= MemoryDeviceType::L2CACHE.rank()
        &&& forall|i: int|
            0 <= i < self.devices@.len() ==> index_entries(self.memmap).dom().contains(
                (#[trigger] self.kind(i)).rank(),
            ) && index_entries(self.memmap)[self.kind(i).rank()] == i
        &&& forall|key: usize| #[trigger]
            index_entries(self.memmap).dom().contains(key) ==> index_entries(self.memmap)[key]
                < self.devices@.len() && self.kind(index_entries(self.memmap)[key] as int).rank()
                == key
        &&& forall|i: int, j: int|
            0 <= i < j < self.devices@.len() && (#[trigger] self.kind(i)).is_mapped() && (
            #[trigger] self.kind(j)).is_mapped() ==> !ranges_overlap(self.range(i), self.range(j))
    }

    /// Whether a device of the kind is registered.
    pub open spec fn holds_kind(&self, kind: MemoryDeviceType) -> bool {
        exists|i: int| 0 <= i < self.devices@.len() && #[trigger] self.kind(i) == kind
    }

    /// Whether the range overlaps that of a registered mapped device.
    pub open spec fn overlaps_mapped(&self, range: (Address, Address)) -> bool {
        exists|i: int|
            0 <= i < self.devices@.len() && (#[trigger] self.kind(i)).is_mapped() && ranges_overlap(
                self.range(i),
                range,
            )
    }

    /// Whether the unit takes a device of the kind and range, and if not, why.
    pub open spec fn admission(&self, kind: MemoryDeviceType, range: (Address, Address)) -> Result<
        (),
        MmuError,
    > {
        if self.holds_kind(kind) {
            Err(MmuError::DuplicateDevice)
        } else if kind.rank() < MemoryDeviceType::L2CACHE.rank() {
            Err(MmuError::CacheLikeDevice)
        } else if kind.is_mapped() && self.overlaps_mapped(range) {
            Err(MmuError::OverlappingRange)
        } else {
            Ok(())
        }
    }

    /// Position of the device that serves a request: the one that the
    /// routing policy picks among the registered devices.
    pub open spec fn route(&self, request: MemoryRequestView) -> Option<int> {
        self.process_fn.selection(self.ranges(), request)
    }

    /// Whether a section of `len` bytes at `address` ends inside the device at
    /// position `i`, by its range and by its size.
    pub open spec fn span_fits(&self, i: int, address: Address, len: nat) -> bool {
        address + len <= self.range(i).1 && address - self.range(i).0 + len
            <= self.devices@[i].spec_size()
    }

    /// Whether a section of `len` bytes at `address` ends inside every device
    /// whose range holds `address`.
    pub open spec fn section_fits(&self, address: Address, len: nat) -> bool {
        forall|i: int|
            0 <= i < self.devices@.len() && in_range(#[trigger] self.range(i), address)
                ==> self.span_fits(i, address, len)
    }

    /// What the device at position `i` holds once a section has been placed.
    pub open spec fn placed(&self, i: int, address: Address, data: Seq<u8>) -> Seq<u8> {
        if in_range(self.range(i), address) {
            write_bytes(self.devices@[i].contents(), address - self.range(i).0, data)
        } else {
            self.devices@[i].contents()
        }
    }

    /// A unit without devices that routes by `process_fn`.
    pub fn with_policy(process_fn: P) -> (r: Self)
        ensures
            r.well_formed(),
            r.devices@.len() == 0,
            r.process_fn == process_fn,
    {
        MemoryManagementUnit { memmap: index_new(), devices: Vec::new(), process_fn: process_fn }
    }

    /// Registers a device, unless a device of its kind is registered already,
    /// its kind is below `L2CACHE`, or it is mapped and its range overlaps
    /// that of a mapped device registered before. A refused device is dropped
    /// and the unit stays as it was.
    #[verifier::rlimit(40)]
    pub fn add_memory_device(&mut self, memory_device: D) -> (r: Result<
        (),
        MmuError,
    >)
        requires
            old(self).well_formed(),
            memory_device.well_formed(),
        ensures
            final(self).well_formed(),
            r == old(self).admission(
                memory_device.spec_memory_type(),
                memory_device.spec_start_end_addresses(),
            ),
            r.is_ok() ==> final(self).devices@ == old(self).devices@.push(memory_device),
            r.is_ok() ==> final(self).holds_kind(memory_device.spec_memory_type()),
            r.is_err() ==> final(self).devices@ == old(self).devices@ && final(self).memmap
                == old(self).memmap,
    {
        let kind: MemoryDeviceType = memory_device.get_memory_type();
        let key: usize = kind.rank();
        if index_contains_key(&self.memmap, key) {
            proof {
                let at = index_entries(self.memmap)[key] as int;
                lemma_rank_injective(self.kind(at), kind);
            }
            return Err(MmuError::DuplicateDevice);
        }
        assert(!self.holds_kind(kind));
        if key < MemoryDeviceType::L2CACHE.rank() {
            return Err(MmuError::CacheLikeDevice);
        }
        let range: (Address, Address) = memory_device.start_end_addresses();
        if kind.is_mapped() {
            let mut i: usize = 0;
            while i < self.devices.len()
                invariant
                    i <= self.devices@.len(),
                    self.well_formed(),
                    self.devices@ == old(self).devices@,
                    self.memmap == old(self).memmap,
                    !old(self).holds_kind(kind),
                    kind.rank() >= MemoryDeviceType::L2CACHE.rank(),
                    kind.is_mapped(),
                    kind == memory_device.spec_memory_type(),
                    range == memory_device.spec_start_end_addresses(),
                    forall|j: int|
                        0 <= j < i && (#[trigger] self.kind(j)).is_mapped() ==> !ranges_overlap(
                            self.range(j),
                            range,
                        ),
                decreases self.devices@.len() - i,
            {
                if self.devices[i].get_memory_type().is_mapped() {
                    let other: (Address, Address) = self.devices[i].start_end_addresses();
                    if other.0 < range.1 && range.0 < other.1 {
                        assert(self.kind(i as int).is_mapped());
                        return Err(MmuError::OverlappingRange);
                    }
                }
                i += 1;
            }
            assert(!self.overlaps_mapped(range));
        }
        let position: usize = self.devices.len();
        self.devices.push(memory_device);
        let _ = index_insert(&mut self.memmap, key, position);
        proof {
            assert forall|i: int| 0 <= i < self.devices@.len() implies index_entries(
                self.memmap,
            ).dom().contains((#[trigger] self.kind(i)).rank()) && index_entries(
                self.memmap,
            )[self.kind(i).rank()] == i by {
                if i < position {
                    assert(self.kind(i) == old(self).kind(i));
                    lemma_rank_injective(self.kind(i), kind);
                }
            }
            assert forall|k: usize| #[trigger]
                index_entries(self.memmap).dom().contains(k) implies index_entries(self.memmap)[k]
                < self.devices@.len() && self.kind(index_entries(self.memmap)[k] as int).rank()
                == k by {
                if k != key {
                    let at = index_entries(old(self).memmap)[k] as int;
                    assert(self.kind(at) == old(self).kind(at));
                }
            }
            assert forall|i: int, j: int|
                0 <= i < j < self.devices@.len() && (#[trigger] self.kind(i)).is_mapped() && (
                #[trigger] self.kind(j)).is_mapped() implies !ranges_overlap(
                self.range(i),
                self.range(j),
            ) by {
                assert(self.kind(i) == old(self).kind(i));
                if j < position {
                    assert(self.kind(j) == old(self).kind(j));
                }
            }
            assert(self.kind(position as int) == kind);
        }
        Ok(())
    }

    /// What the unit answers to a request: the answer of the device that
    /// serves its address, or `InvalidAddress` where no device does.
    pub open spec fn routed_response(&self, request: MemoryRequestView) -> MemoryResponseView {
        match self.route(request) {
            Some(i) => self.devices@[i].response(request),
            None => MemoryResponseView::bare(MemoryResponseType::InvalidAddress),
        }
    }

    /// Whether `after` is this unit once it has served `request`: the device
    /// that serves the address has served the request, and every other
    /// device is as it was.
    pub open spec fn served(&self, after: &Self, request: MemoryRequestView) -> bool {
        &&& after.well_formed()
        &&& after.same_map(self)
        &&& match self.route(request) {
            Some(i) => {
                &&& 0 <= i < self.devices@.len()
                &&& device_step(self.devices@[i], after.devices@[i], request)
                &&& forall|j: int|
                    0 <= j < self.devices@.len() && j != i ==> after.devices@[j]
                        == self.devices@[j]
            },
            None => after.devices@ == self.devices@,
        }
    }

    /// Whether some registered device holds `address` in its range.
    pub open spec fn holds_address(&self, address: Address) -> bool {
        exists|i: int| 0 <= i < self.devices@.len() && in_range(#[trigger] self.range(i), address)
    }

    /// Whether `other` has the same devices in the same places: as many, each
    /// of the same kind, range, size and line size, and the same index and
    /// routing policy.
    pub open spec fn same_map(&self, other: &Self) -> bool {
        &&& self.memmap == other.memmap
        &&& self.process_fn == other.process_fn
        &&& self.devices@.len() == other.devices@.len()
        &&& forall|i: int|
            0 <= i < self.devices@.len() ==> (#[trigger] self.kind(i)) == other.kind(i)
                && self.range(i) == other.range(i) && self.devices@[i].spec_size()
                == other.devices@[i].spec_size() && self.devices@[i].spec_line_size()
                == other.devices@[i].spec_line_size()
    }

    /// A unit stays well formed while its devices stay well formed and keep
    /// their kinds and ranges.
    pub proof fn lemma_same_map_well_formed(&self, other: &Self)
        requires
            other.well_formed(),
            self.same_map(other),
            forall|i: int|
                0 <= i < self.devices@.len() ==> (#[trigger] self.devices@[i]).well_formed(),
        ensures
            self.well_formed(),
            self.ranges() == other.ranges(),
    {
        assert forall|i: int| 0 <= i < self.devices@.len() implies index_entries(
            self.memmap,
        ).dom().contains((#[trigger] self.kind(i)).rank()) && index_entries(
            self.memmap,
        )[self.kind(i).rank()] == i by {
            assert(self.kind(i) == other.kind(i));
        }
        assert forall|key: usize| #[trigger]
            index_entries(self.memmap).dom().contains(key) implies index_entries(self.memmap)[key]
            < self.devices@.len() && self.kind(index_entries(self.memmap)[key] as int).rank()
            == key by {
            let at = index_entries(other.memmap)[key] as int;
            assert(self.kind(at) == other.kind(at));
        }
        assert forall|i: int, j: int|
            0 <= i < j < self.devices@.len() && (#[trigger] self.kind(i)).is_mapped() && (
            #[trigger] self.kind(j)).is_mapped() implies !ranges_overlap(
            self.range(i),
            self.range(j),
        ) by {
            assert(self.kind(i) == other.kind(i));
            assert(self.kind(j) == other.kind(j));
        }
        assert forall|i: int| 0 <= i < self.devices@.len() implies (#[trigger] self.kind(
            i,
        )).rank() >= MemoryDeviceType::L2CACHE.rank() by {
            assert(self.kind(i) == other.kind(i));
        }
        assert forall|i: int| 0 <= i < self.devices@.len() implies self.range(i) == other.range(
            i,
        ) by {
            assert(self.kind(i) == other.kind(i));
        }
        assert(self.ranges() =~= other.ranges());
    }

    /// The address ranges of the devices, in the order of registration.
    fn device_ranges(&self) -> (r: Vec<(Address, Address)>)
        requires
            self.well_formed(),
        ensures
            r@ == self.ranges(),
    {
        let mut out: Vec<(Address, Address)> = Vec::with_capacity(self.devices.len());
        let mut i: usize = 0;
        while i < self.devices.len()
            invariant
                i <= self.devices@.len(),
                self.well_formed(),
                out@ == self.ranges().take(i as int),
            decreases self.devices@.len() - i,
        {
            let range: (Address, Address) = self.devices[i].start_end_addresses();
            out.push(range);
            i += 1;
            assert(out@ =~= self.ranges().take(i as int));
        }
        assert(self.ranges().take(self.devices@.len() as int) =~= self.ranges());
        out
    }

    /// Serves a request: the device that the routing policy picks serves it;
    /// where the policy picks none, the answer is `InvalidAddress`. By the
    /// default policy the first registered device whose range holds the
    /// address of the request serves it.
    pub fn process_memory_request(&mut self, memory_request: MemoryRequest) -> (r: MemoryResponse)
        requires
            old(self).well_formed(),
            memory_request@.well_formed(),
        ensures
            r@ == old(self).routed_response(memory_request@),
            old(self).served(final(self), memory_request@),
    {
        let ranges = self.device_ranges();
        match self.process_fn.select(&ranges, &memory_request) {
            Some(i) => {
                let response = self.devices[i].send_data_request(memory_request);
                proof {
                    self.lemma_same_map_well_formed(old(self));
                }
                response
            },
            None => MemoryResponse::bare(MemoryResponseType::InvalidAddress),
        }
    }

    /// Whether a section of `len` bytes at `address` ends inside every device
    /// whose range holds `address`.
    fn check_section(&self, address: Address, len: usize) -> (r: bool)
        requires
            self.well_formed(),
        ensures
            r == self.section_fits(address, len as nat),
    {
        let mut i: usize = 0;
        while i < self.devices.len()
            invariant
                i <= self.devices@.len(),
                self.well_formed(),
                forall|j: int|
                    0 <= j < i && in_range(#[trigger] self.range(j), address) ==> self.span_fits(
                        j,
                        address,
                        len as nat,
                    ),
            decreases self.devices@.len() - i,
        {
            let range: (Address, Address) = self.devices[i].start_end_addresses();
            if range.0 <= address && address < range.1 {
                let size: usize = self.devices[i].size();
                let offset: Address = address - range.0;
                let fits: bool = len as u128 + address as u128 <= range.1 as u128 && offset as u128
                    + len as u128 <= size as u128;
                if !fits {
                    assert(in_range(self.range(i as int), address));
                    assert(!self.span_fits(i as int, address, len as nat));
                    return false;
                }
            }
            i += 1;
        }
        true
    }

    /// Places a section in every device whose range holds `address`, at the
    /// offset of `address` in the device. A section that does not end inside
    /// one of these devices is refused, and then no device is touched.
    /// Returns whether any device took the section.
    #[verifier::rlimit(40)]
    pub fn init_section_into_memory(&mut self, address: Address, data: &[u8]) -> (r: Result<
        bool,
        MmuError,
    >)
        requires
            old(self).well_formed(),
        ensures
            final(self).well_formed(),
            final(self).same_map(old(self)),
            !old(self).section_fits(address, data@.len()) ==> r == Err::<bool, MmuError>(
                MmuError::SpanDoesNotFit,
            ) && final(self).devices@ == old(self).devices@,
            old(self).section_fits(address, data@.len()) ==> r == Ok::<bool, MmuError>(
                old(self).holds_address(address),
            ) && forall|i: int|
                0 <= i < old(self).devices@.len() ==> (
                #[trigger] final(self).devices@[i]).contents() == old(self).placed(
                    i,
                    address,
                    data@,
                ) && final(self).devices@[i].pending_output()
                    == old(self).devices@[i].pending_output(),
    {
        if !self.check_section(address, data.len()) {
            return Err(MmuError::SpanDoesNotFit);
        }
        let mut placed: bool = false;
        let mut i: usize = 0;
        while i < self.devices.len()
            invariant
                i <= self.devices@.len(),
                self.well_formed(),
                self.same_map(old(self)),
                old(self).well_formed(),
                old(self).section_fits(address, data@.len()),
                placed == (exists|j: int|
                    0 <= j < i && in_range(#[trigger] old(self).range(j), address)),
                forall|j: int|
                    0 <= j < i ==> (#[trigger] self.devices@[j]).contents() == old(self).placed(
                        j,
                        address,
                        data@,
                    ) && self.devices@[j].pending_output()
                        == old(self).devices@[j].pending_output(),
                forall|j: int|
                    i <= j < self.devices@.len() ==> (#[trigger] self.devices@[j])
                        == old(self).devices@[j],
            decreases self.devices@.len() - i,
        {
            let range: (Address, Address) = self.devices[i].start_end_addresses();
            assert(range == old(self).range(i as int));
            let ghost before = *self;
            if range.0 <= address && address < range.1 {
                assert(old(self).span_fits(i as int, address, data@.len()));
                self.devices[i].init_mem(address - range.0, data);
                placed = true;
                assert(in_range(old(self).range(i as int), address));
                proof {
                    assert(self.same_map(&before)) by {
                        assert forall|k: int| 0 <= k < self.devices@.len() implies (
                        #[trigger] self.kind(k)) == before.kind(k) && self.range(k) == before.range(
                            k,
                        ) && self.devices@[k].spec_size() == before.devices@[k].spec_size()
                            && self.devices@[k].spec_line_size()
                            == before.devices@[k].spec_line_size() by {}
                    }
                    self.lemma_same_map_well_formed(&before);
                }
            }
            i += 1;
            assert(self.same_map(old(self)));
        }
        Ok(placed)
    }

    /// Hands over the bytes that wait for the host console in the devices, in
    /// the order of the devices.
    #[verifier::rlimit(40)]
    pub fn take_output(&mut self) -> (r: Vec<u8>)
        requires
            old(self).well_formed(),
        ensures
            final(self).well_formed(),
            final(self).same_map(old(self)),
            r@ == gathered_output(old(self).devices@, old(self).devices@.len() as int),
            forall|i: int|
                0 <= i < old(self).devices@.len() ==> (
                #[trigger] final(self).devices@[i]).pending_output() == Seq::<u8>::empty()
                    && final(self).devices@[i].contents() == old(self).devices@[i].contents(),
    {
        let mut out: Vec<u8> = Vec::new();
        let mut i: usize = 0;
        while i < self.devices.len()
            invariant
                i <= self.devices@.len(),
                self.well_formed(),
                self.same_map(old(self)),
                old(self).well_formed(),
                out@ == gathered_output(old(self).devices@, i as int),
                forall|j: int|
                    0 <= j < i ==> (#[trigger] self.devices@[j]).pending_output() == Seq::<
                        u8,
                    >::empty() && self.devices@[j].contents() == old(self).devices@[j].contents(),
                forall|j: int|
                    i <= j < self.devices@.len() ==> (#[trigger] self.devices@[j])
                        == old(self).devices@[j],
            decreases self.devices@.len() - i,
        {
            let ghost before = *self;
            let mut part: Vec<u8> = self.devices[i].take_output();
            out.append(&mut part);
            proof {
                assert(self.same_map(&before)) by {
                    assert forall|k: int| 0 <= k < self.devices@.len() implies (
                    #[trigger] self.kind(k)) == before.kind(k) && self.range(k) == before.range(k)
                        && self.devices@[k].spec_size() == before.devices@[k].spec_size()
                        && self.devices@[k].spec_line_size()
                        == before.devices@[k].spec_line_size() by {}
                }
                self.lemma_same_map_well_formed(&before);
            }
            i += 1;
            assert(self.same_map(old(self)));
        }
        out
    }

    /// The kind and the address range of every device, in the order of
    /// registration.
    pub fn memory_map(&self) -> (r: Vec<(MemoryDeviceType, Address, Address)>)
        requires
            self.well_formed(),
        ensures
            r@.len() == self.devices@.len(),
            forall|i: int|
                0 <= i < r@.len() ==> (#[trigger] r@[i]) == (
                    self.kind(i),
                    self.range(i).0,
                    self.range(i).1,
                ),
    {
        let mut out: Vec<(MemoryDeviceType, Address, Address)> = Vec::new();
        let mut i: usize = 0;
        while i < self.devices.len()
            invariant
                i <= self.devices@.len(),
                self.well_formed(),
                out@.len() == i,
                forall|j: int|
                    0 <= j < i ==> (#[trigger] out@[j]) == (
                        self.kind(j),
                        self.range(j).0,
                        self.range(j).1,
                    ),
            decreases self.devices@.len() - i,
        {
            let kind: MemoryDeviceType = self.devices[i].get_memory_type();
            let range: (Address, Address) = self.devices[i].start_end_addresses();
            out.push((kind, range.0, range.1));
            i += 1;
        }
        out
    }
}

impl<D: MemoryDevice> Default for MemoryManagementUnit<D, FirstMatch> {
    fn default() -> (r: Self)
        ensures
            r.well_formed(),
            r.devices@.len() == 0,
    {
        MemoryManagementUnit::new()
    }
}

} // verus!
