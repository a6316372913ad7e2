//! Direct memory: a line-organised on-chip RAM that stands where a cache
//! would. Every address of its range is present; nothing is ever evicted.

use crate::cache::{Cache, CacheResponse, CacheResponseView};
use crate::memory_management_unit::{
    copy_range, in_range, overlay, write_bytes, MemoryDevice, MemoryDeviceType,
    MemoryRequest, MemoryRequestType, MemoryRequestView, MemoryResponse, MemoryResponseType,
    MemoryResponseView,
};
use crate::risc_word::{zero_bytes, zeros, Address, WordSize};
use vstd::prelude::*;

verus! {

/// Line size of a memory made from an address range alone.
pub const DEFAULT_LINE_SIZE: usize = 64;

/// Instruction or data memory of a microcontroller core. Addresses are the
/// core's; the memory subtracts its first address to find the byte.
#[derive(Debug)]
pub struct MCUCache {
    /// The lines, laid end to end.
    pub data: Vec<u8>,
    /// Bytes per line.
    pub line_size: usize,
    /// Number of lines.
    pub num_lines: usize,
    pub start_address: Address,
    pub end_address: Address,
    pub memory_type: MemoryDeviceType,
}

/// Quotient and remainder of an offset by the line size stay inside the
/// memory, and so does the whole line of the offset.
pub proof fn lemma_line_bounds(offset: int, line_size: int, num_lines: int)
    by (nonlinear_arith)
    requires
        line_size > 0,
        num_lines > 0,
        0 <= offset < line_size * num_lines,
    ensures
        0 <= offset / line_size < num_lines,
        0 <= offset % line_size < line_size,
        offset == (offset / line_size) * line_size + offset % line_size,
        (offset / line_size) * line_size + line_size <= line_size * num_lines,
{
}

impl MCUCache {
    /// Offset of `address` from the first address of the memory.
    pub open spec fn offset(&self, address: Address) -> int {
        address - self.start_address
    }

    /// Whether an access of `len` bytes at `address` would run over the end of
    /// its line.
    pub open spec fn splits_line(&self, address: Address, len: nat) -> bool {
        self.offset(address) % (self.line_size as int) + len > self.line_size
    }

    /// Whether `address` lies in the range of the memory.
    pub open spec fn covers(&self, address: Address) -> bool {
        in_range((self.start_address, self.end_address), address)
    }

    /// Whether two memories cover the same range with the same lines and are
    /// of the same kind.
    pub open spec fn same_geometry(&self, other: &Self) -> bool {
        &&& self.line_size == other.line_size
        &&& self.num_lines == other.num_lines
        &&& self.start_address == other.start_address
        &&& self.end_address == other.end_address
        &&& self.memory_type == other.memory_type
    }

    /// The stored bytes with `data` laid over them from `address` on, if the
    /// address is in range and `data` ends within its line; else the stored
    /// bytes as they are.
    pub open spec fn overlaid(&self, address: Address, data: Seq<u8>) -> Seq<u8> {
        if self.covers(address) && !self.splits_line(address, data.len()) {
            write_bytes(self.data@, self.offset(address), data)
        } else {
            self.data@
        }
    }

    /// A memory of `num_lines` lines of `line_size` bytes, all zero, from
    /// `start_address` on.
    pub fn new_with_lines(
        cache_type: MemoryDeviceType,
        line_size: usize,
        num_lines: usize,
        start_address: Address,
    ) -> (r: Self)
        requires
            num_lines > 0,
            line_size >= 4,
            cache_type.is_cache_like(),
            line_size * num_lines <= usize::MAX,
            start_address + line_size * num_lines <= u64::MAX,
        ensures
            r.well_formed(),
            r.memory_type == cache_type,
            r.line_size == line_size,
            r.num_lines == num_lines,
            r.start_address == start_address,
            r.end_address == start_address + line_size * num_lines,
            r.contents() == zero_bytes((line_size * num_lines) as nat),
    {
        let size: usize = line_size * num_lines;
        assert(0 < line_size * num_lines) by (nonlinear_arith)
            requires
                line_size > 0,
                num_lines > 0,
        ;
        MCUCache {
            data: zeros(size),
            line_size: line_size,
            num_lines: num_lines,
            start_address: start_address,
            end_address: start_address + size as u64,
            memory_type: cache_type,
        }
    }

    /// A memory over an address range, all zero, in lines of
    /// `DEFAULT_LINE_SIZE` bytes: as many lines as it takes to hold the
    /// range, so that the last line lies only in part within the range where
    /// the length of the range is no multiple of the line size.
    pub fn new(cache_type: MemoryDeviceType, start_address: Address, end_address: Address) -> (r:
        Self)
        requires
            end_address > start_address,
            cache_type.is_cache_like(),
            end_address - start_address + DEFAULT_LINE_SIZE <= usize::MAX,
        ensures
            r.well_formed(),
            r.memory_type == cache_type,
            r.line_size == DEFAULT_LINE_SIZE,
            r.num_lines == (end_address - start_address + DEFAULT_LINE_SIZE - 1) / (
            DEFAULT_LINE_SIZE as int),
            r.start_address == start_address,
            r.end_address == end_address,
            r.contents() == zero_bytes((r.line_size * r.num_lines) as nat),
    {
        let span: usize = (end_address - start_address) as usize;
        let num_lines: usize = (span + (DEFAULT_LINE_SIZE - 1)) / DEFAULT_LINE_SIZE;
        let size: usize = DEFAULT_LINE_SIZE * num_lines;
        MCUCache {
            data: zeros(size),
            line_size: DEFAULT_LINE_SIZE,
            num_lines: num_lines,
            start_address: start_address,
            end_address: end_address,
            memory_type: cache_type,
        }
    }
}

impl MCUCache {
    /// The invariant of the device.
    pub open spec fn valid(&self) -> bool {
        &&& self.memory_type.is_cache_like()
        &&& self.line_size >= 4
        &&& self.num_lines > 0
        &&& self.line_size * self.num_lines <= usize::MAX
        &&& self.data@.len() == self.line_size * self.num_lines
        &&& self.start_address < self.end_address
        &&& self.end_address - self.start_address <= self.line_size * self.num_lines
    }

    /// Number of bytes that the device covers.
    pub open spec fn byte_count(&self) -> usize {
        (self.line_size * self.num_lines) as usize
    }

    /// First address of the device and the address after its last.
    pub open spec fn range(&self) -> (Address, Address) {
        (self.start_address, self.end_address)
    }

    /// The kind of the device.
    pub open spec fn kind(&self) -> MemoryDeviceType {
        self.memory_type
    }

    /// Number of bytes in a line, or zero for a device without lines.
    pub open spec fn line_bytes(&self) -> usize {
        self.line_size
    }

    /// The bytes that the device stores, by offset from its first address.
    pub open spec fn stored_bytes(&self) -> Seq<u8> {
        self.data@
    }

    /// The bytes that wait for the host console.
    pub open spec fn waiting_output(&self) -> Seq<u8> {
        Seq::empty()
    }

    /// An address outside the range is answered `WrongMemoryMap`, an access
    /// that runs over the end of its line `UnalignedAddress`, both without
    /// data. Any other read is a hit with the bytes at the offset of the
    /// address, any other write a hit without data.
    pub open spec fn answer(&self, request: MemoryRequestView) -> MemoryResponseView {
        let offset = self.offset(request.data_address);
        let size = request.data_size.spec_bytes();
        if !self.covers(request.data_address) {
            MemoryResponseView::bare(MemoryResponseType::WrongMemoryMap)
        } else if self.splits_line(request.data_address, size) {
            MemoryResponseView::bare(MemoryResponseType::UnalignedAddress)
        } else if request.request_type == MemoryRequestType::READ {
            MemoryResponseView {
                data: self.data@.subrange(offset, offset + size),
                status: MemoryResponseType::CacheHit,
            }
        } else {
            MemoryResponseView::bare(MemoryResponseType::CacheHit)
        }
    }

    /// A write that hits lays its bytes over the memory; nothing else changes
    /// it.
    pub open spec fn stored_after(&self, request: MemoryRequestView) -> Seq<u8> {
        if request.request_type == MemoryRequestType::WRITE {
            self.overlaid(request.data_address, request.payload())
        } else {
            self.data@
        }
    }

    /// What waits for the host console once the device has served a request.
    pub open spec fn waiting_after(&self, request: MemoryRequestView) -> Seq<u8> {
        Seq::empty()
    }
}

impl MemoryDevice for MCUCache {
    open spec fn well_formed(&self) -> bool {
        self.valid()
    }

    open spec fn spec_size(&self) -> usize {
        self.byte_count()
    }

    open spec fn spec_start_end_addresses(&self) -> (Address, Address) {
        self.range()
    }

    open spec fn spec_memory_type(&self) -> MemoryDeviceType {
        self.kind()
    }

    open spec fn spec_line_size(&self) -> usize {
        self.line_bytes()
    }

    open spec fn contents(&self) -> Seq<u8> {
        self.stored_bytes()
    }

    open spec fn pending_output(&self) -> Seq<u8> {
        self.waiting_output()
    }

    open spec fn response(&self, request: MemoryRequestView) -> MemoryResponseView {
        self.answer(request)
    }

    open spec fn contents_after(&self, request: MemoryRequestView) -> Seq<u8> {
        self.stored_after(request)
    }

    open spec fn output_after(&self, request: MemoryRequestView) -> Seq<u8> {
        self.waiting_after(request)
    }

    fn send_data_request(&mut self, request: MemoryRequest) -> (r: MemoryResponse)
        ensures
            final(self).same_geometry(old(self)),
    {
        proof {
            self.lemma_as_device();
        }
        match request.request_type {
            MemoryRequestType::READ => self.read_request(request),
            MemoryRequestType::WRITE => {
                let size: usize = request.data_size.bytes();
                let address: Address = request.data_address;
                let mut data: Vec<u8> = request.data.unwrap();
                data.truncate(size);
                let stored = self.store_data(address, data);
                MemoryResponse::bare(stored.status)
            },
        }
    }

    fn read_request(&self, request: MemoryRequest) -> (r: MemoryResponse) {
        proof {
            self.lemma_as_device();
        }
        let size: usize = request.data_size.bytes();
        let line = self.load_data(request.data_address);
        if line.status != MemoryResponseType::CacheHit {
            return MemoryResponse::bare(line.status);
        }
        let offset: usize = (request.data_address - self.start_address) as usize;
        let byte_index: usize = offset % self.line_size;
        proof {
            lemma_line_bounds(offset as int, self.line_size as int, self.num_lines as int);
        }
        if size > self.line_size - byte_index {
            return MemoryResponse::bare(MemoryResponseType::UnalignedAddress);
        }
        let data = copy_range(&line.cache_line, byte_index, byte_index + size);
        assert(data@ =~= self.data@.subrange(offset as int, offset + size));
        MemoryResponse { data: data, status: MemoryResponseType::CacheHit }
    }

    fn size(&self) -> (r: usize) {
        proof {
            self.lemma_as_device();
        }
        assert(self.num_lines * self.line_size == self.line_size * self.num_lines)
            by (nonlinear_arith);
        self.num_lines * self.line_size
    }

    fn start_end_addresses(&self) -> (r: (Address, Address)) {
        proof {
            self.lemma_as_device();
        }
        (self.start_address, self.end_address)
    }

    fn get_memory_type(&self) -> (r: MemoryDeviceType) {
        proof {
            self.lemma_as_device();
        }
        self.memory_type
    }

    fn init_mem(&mut self, address: Address, data: &[u8])
        ensures
            final(self).same_geometry(old(self)),
    {
        proof {
            self.lemma_as_device();
        }
        let count: usize = data.len();
        overlay(&mut self.data, address as usize, data, count);
        assert(data@.take(count as int) =~= data@);
    }

    fn debug(&self, start_address: Address, end_address: Address) -> (r: Vec<u8>) {
        proof {
            self.lemma_as_device();
        }
        let from: usize = (start_address - self.start_address) as usize;
        let to: usize = (end_address - self.start_address) as usize;
        copy_range(&self.data, from, to)
    }

    fn take_output(&mut self) -> (r: Vec<u8>)
        ensures
            *final(self) == *old(self),
    {
        proof {
            self.lemma_as_device();
        }
        Vec::new()
    }
}

impl Cache for MCUCache {
    /// Outside the range the lookup fails with `WrongMemoryMap`; inside it is
    /// a hit on the line that holds the address.
    open spec fn translation(&self, address: Address) -> CacheResponseView {
        if self.covers(address) {
            CacheResponseView {
                cache_line: Seq::empty(),
                index: (self.offset(address) / (self.line_size as int)) as Address,
                tag: 0,
                status: MemoryResponseType::CacheHit,
            }
        } else {
            CacheResponseView {
                cache_line: Seq::empty(),
                index: 0,
                tag: 0,
                status: MemoryResponseType::WrongMemoryMap,
            }
        }
    }

    open spec fn loaded(&self, address: Address) -> CacheResponseView {
        let found = self.translation(address);
        if found.status == MemoryResponseType::CacheHit {
            CacheResponseView {
                cache_line: self.data@.subrange(
                    found.index * self.line_size,
                    found.index * self.line_size + self.line_size,
                ),
                ..found
            }
        } else {
            found
        }
    }

    /// A store that would run over the end of its line is refused with
    /// `UnalignedAddress` and index zero.
    open spec fn stored(&self, address: Address, data: Seq<u8>) -> CacheResponseView {
        let found = self.translation(address);
        if found.status == MemoryResponseType::CacheHit && self.splits_line(address, data.len()) {
            CacheResponseView {
                index: 0,
                status: MemoryResponseType::UnalignedAddress,
                ..found
            }
        } else {
            found
        }
    }

    open spec fn contents_after_store(&self, address: Address, data: Seq<u8>) -> Seq<u8> {
        self.overlaid(address, data)
    }

    fn load_data(&self, address: Address) -> (r: CacheResponse) {
        proof {
            self.lemma_as_cache(address, Seq::empty());
        }
        let mut response = self.translate_address(address);
        if response.status == MemoryResponseType::CacheHit {
            proof {
                lemma_line_bounds(
                    self.offset(address),
                    self.line_size as int,
                    self.num_lines as int,
                );
            }
            let first: usize = response.index as usize * self.line_size;
            response.cache_line = copy_range(&self.data, first, first + self.line_size);
        }
        response
    }

    fn store_data(&mut self, address: Address, data: Vec<u8>) -> (r: CacheResponse)
        ensures
            final(self).same_geometry(old(self)),
    {
        proof {
            self.lemma_as_cache(address, data@);
        }
        let mut response = self.translate_address(address);
        if response.status == MemoryResponseType::CacheHit {
            let offset: usize = (address - self.start_address) as usize;
            let byte_index: usize = offset % self.line_size;
            proof {
                lemma_line_bounds(offset as int, self.line_size as int, self.num_lines as int);
            }
            if data.len() > self.line_size - byte_index {
                response.index = 0;
                response.status = MemoryResponseType::UnalignedAddress;
                return response;
            }
            let count: usize = data.len();
            overlay(&mut self.data, offset, data.as_slice(), count);
            assert(data@.take(count as int) =~= data@);
        }
        response
    }

    fn translate_address(&self, address: Address) -> (r: CacheResponse) {
        proof {
            self.lemma_as_cache(address, Seq::empty());
        }
        if address >= self.end_address || address < self.start_address {
            return CacheResponse {
                cache_line: Vec::new(),
                index: 0,
                tag: 0,
                status: MemoryResponseType::WrongMemoryMap,
            };
        }
        let offset: Address = address - self.start_address;
        CacheResponse {
            cache_line: Vec::new(),
            index: offset / (self.line_size as u64),
            tag: 0,
            status: MemoryResponseType::CacheHit,
        }
    }
}

impl MCUCache {
    /// As a device, the memory is what its own spec functions say.
    pub proof fn lemma_as_device(&self)
        ensures
            self.well_formed() == self.valid(),
            self.spec_size() == self.byte_count(),
            self.spec_start_end_addresses() == self.range(),
            self.spec_memory_type() == self.kind(),
            self.spec_line_size() == self.line_bytes(),
            self.contents() == self.stored_bytes(),
            self.pending_output() == self.waiting_output(),
            forall|request: MemoryRequestView| #[trigger]
                self.response(request) == self.answer(request),
            forall|request: MemoryRequestView| #[trigger]
                self.contents_after(request) == self.stored_after(request),
            forall|request: MemoryRequestView| #[trigger]
                self.output_after(request) == self.waiting_after(request),
    {
    }

    /// As a cache, the memory finds an address if and only if it covers it,
    /// gives on a load the line that holds the address, refuses a store that
    /// would run over the end of its line, and takes any other store in
    /// range.
    pub proof fn lemma_as_cache(&self, address: Address, data: Seq<u8>)
        ensures
            (self.translation(address).status == MemoryResponseType::CacheHit) == self.covers(
                address,
            ),
            self.loaded(address).status == self.translation(address).status,
            self.stored(address, data).status == (if self.covers(address) && self.splits_line(
                address,
                data.len(),
            ) {
                MemoryResponseType::UnalignedAddress
            } else {
                self.translation(address).status
            }),
            self.contents_after_store(address, data) == self.overlaid(address, data),
    {
    }
}

/// Two well-formed memories of the same kind, range, size and line size have
/// the same geometry: the number of lines follows from the rest.
pub proof fn lemma_geometry_kept(before: MCUCache, after: MCUCache)
    requires
        before.well_formed(),
        after.well_formed(),
        after.spec_memory_type() == before.spec_memory_type(),
        after.spec_start_end_addresses() == before.spec_start_end_addresses(),
        after.spec_size() == before.spec_size(),
        after.spec_line_size() == before.spec_line_size(),
    ensures
        after.same_geometry(&before),
{
    let line = before.line_size as int;
    let a = before.num_lines as int;
    let b = after.num_lines as int;
    assert(a == b) by (nonlinear_arith)
        requires
            line > 0,
            line * a == line * b,
    ;
}

/// A write of a word that lies within one line of the memory is a hit, and a
/// read of a word at the same address afterwards returns the four bytes
/// written, which the memory holds at the offset of the address. `after` is
/// the memory once it has served the write.
pub proof fn lemma_word_write_then_read(
    before: MCUCache,
    after: MCUCache,
    address: Address,
    data: Seq<u8>,
)
    requires
        before.well_formed(),
        after.same_geometry(&before),
        data.len() >= 4,
        before.covers(address),
        !before.splits_line(address, 4),
        after.contents() == before.contents_after(
            MemoryRequestView::write(address, WordSize::WORD, data),
        ),
    ensures
        before.response(MemoryRequestView::write(address, WordSize::WORD, data))
            == MemoryResponseView::bare(MemoryResponseType::CacheHit),
        after.response(MemoryRequestView::read(address, WordSize::WORD)) == (MemoryResponseView {
            data: data.take(4),
            status: MemoryResponseType::CacheHit,
        }),
        after.contents().subrange(before.offset(address), before.offset(address) + 4)
            == data.take(4),
{
    let offset = before.offset(address);
    lemma_line_bounds(offset, before.line_size as int, before.num_lines as int);
    assert(after.data@.subrange(offset, offset + 4) =~= data.take(4));
}

/// Where the line size is a multiple of four, a word at an offset that is a
/// multiple of four lies within one line.
pub proof fn lemma_aligned_word_within_line(memory: MCUCache, address: Address)
    requires
        memory.well_formed(),
        memory.covers(address),
        memory.line_size % 4 == 0,
        memory.offset(address) % 4 == 0,
    ensures
        !memory.splits_line(address, 4),
{
    let offset = memory.offset(address);
    let line = memory.line_size as int;
    lemma_line_bounds(offset, line, memory.num_lines as int);
    let k = line / 4;
    let j = offset / 4;
    let q = offset / line;
    let r = offset % line;
    let m = j - q * k;
    assert(r == 4 * m) by (nonlinear_arith)
        requires
            offset == q * line + r,
            line == 4 * k,
            offset == 4 * j,
            m == j - q * k,
    ;
}

/// An access in range that runs over the end of its line is answered
/// `UnalignedAddress` without data, and leaves the memory as it is.
pub proof fn lemma_split_access_is_unaligned(memory: MCUCache, request: MemoryRequestView)
    requires
        memory.well_formed(),
        memory.covers(request.data_address),
        memory.splits_line(request.data_address, request.data_size.spec_bytes()),
    ensures
        memory.response(request) == MemoryResponseView::bare(MemoryResponseType::UnalignedAddress),
        request.well_formed() ==> memory.contents_after(request) == memory.contents(),
{
    if request.request_type == MemoryRequestType::WRITE && request.well_formed() {
        assert(request.payload().len() == request.data_size.spec_bytes());
    }
}

/// In a memory whose lines are four bytes long, every word access in range at
/// an offset that is not a multiple of four runs over the end of its line.
pub proof fn lemma_misaligned_word_splits_word_line(memory: MCUCache, address: Address)
    requires
        memory.well_formed(),
        memory.covers(address),
        memory.line_size == 4,
        memory.offset(address) % 4 != 0,
    ensures
        memory.splits_line(address, 4),
{
}

} // verus!
