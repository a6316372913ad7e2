//! A memory-mapped serial port that only transmits.

use crate::memory_management_unit::{
    window, write_bytes, MemoryDevice, MemoryDeviceType, MemoryRequest, MemoryRequestType,
    MemoryRequestView, MemoryResponse, MemoryResponseType, MemoryResponseView,
};
use crate::risc_word::Address;
use vstd::prelude::*;

verus! {

/// Offset of the transmit register from the first address of the port.
pub const UART_TX_OFFSET: Address = 0x4;

/// The serial port. A write to its transmit register sends the bytes written
/// to the host console; the port keeps them until they are collected with
/// `take_output`. It stores nothing and cannot be read.
pub struct UART {
    pub start_address: Address,
    pub end_address: Address,
    /// Bytes sent and not yet collected.
    pub transmitted: Vec<u8>,
}

impl UART {
    /// Address of the transmit register.
    pub open spec fn tx_address(&self) -> int {
        self.start_address + UART_TX_OFFSET
    }

    /// Whether a request is a write to the transmit register.
    pub open spec fn transmits(&self, request: MemoryRequestView) -> bool {
        request.request_type == MemoryRequestType::WRITE && request.data_address
            == self.tx_address()
    }

    /// A port over an address range, with nothing sent yet.
    pub fn new(memory_type: MemoryDeviceType, start_address: Address, end_address: Address) -> (r:
        Self)
        requires
            memory_type == MemoryDeviceType::UART0,
            start_address + UART_TX_OFFSET < end_address,
            end_address - start_address <= usize::MAX,
        ensures
            r.well_formed(),
            r.start_address == start_address,
            r.end_address == end_address,
            r.pending_output() == Seq::<u8>::empty(),
    {
        UART { start_address: start_address, end_address: end_address, transmitted: Vec::new() }
    }
}

impl UART {
    /// The invariant of the device.
    pub open spec fn valid(&self) -> bool {
        &&& self.start_address + UART_TX_OFFSET < self.end_address
        &&& self.end_address - self.start_address <= usize::MAX
    }

    /// Number of bytes that the device covers.
    pub open spec fn byte_count(&self) -> usize {
        (self.end_address - self.start_address) as usize
    }

    /// First address of the device and the address after its last.
    pub open spec fn range(&self) -> (Address, Address) {
        (self.start_address, self.end_address)
    }

    /// The kind of the device.
    pub open spec fn kind(&self) -> MemoryDeviceType {
        MemoryDeviceType::UART0
    }

    /// Number of bytes in a line, or zero for a device without lines.
    pub open spec fn line_bytes(&self) -> usize {
        0
    }

    /// The bytes that the device stores, by offset from its first address.
    pub open spec fn stored_bytes(&self) -> Seq<u8> {
        Seq::empty()
    }

    /// The bytes that wait for the host console.
    pub open spec fn waiting_output(&self) -> Seq<u8> {
        self.transmitted@
    }

    /// A write to the transmit register is `Valid`, a write anywhere else
    /// `NotWritable`, a read `NotReadable`; none carries data.
    pub open spec fn answer(&self, request: MemoryRequestView) -> MemoryResponseView {
        if self.transmits(request) {
            MemoryResponseView::bare(MemoryResponseType::Valid)
        } else if request.request_type == MemoryRequestType::WRITE {
            MemoryResponseView::bare(MemoryResponseType::NotWritable)
        } else {
            MemoryResponseView::bare(MemoryResponseType::NotReadable)
        }
    }

    /// What the device stores once it has served a request.
    pub open spec fn stored_after(&self, request: MemoryRequestView) -> Seq<u8> {
        Seq::empty()
    }

    /// A write to the transmit register sends the bytes it stores, in order.
    pub open spec fn waiting_after(&self, request: MemoryRequestView) -> Seq<u8> {
        if self.transmits(request) {
            self.transmitted@ + request.payload()
        } else {
            self.transmitted@
        }
    }
}

impl MemoryDevice for UART {
    open spec fn well_formed(&self) -> bool {
        self.valid()
    }

    open spec fn spec_size(&self) -> usize {
        self.byte_count()
    }

    open spec fn spec_start_end_addresses(&self) -> (Address, Address) {
        self.range()
    }

    open spec fn spec_memory_type(&self) -> MemoryDeviceType {
        self.kind()
    }

    open spec fn spec_line_size(&self) -> usize {
        self.line_bytes()
    }

    open spec fn contents(&self) -> Seq<u8> {
        self.stored_bytes()
    }

    open spec fn pending_output(&self) -> Seq<u8> {
        self.waiting_output()
    }

    open spec fn response(&self, request: MemoryRequestView) -> MemoryResponseView {
        self.answer(request)
    }

    open spec fn contents_after(&self, request: MemoryRequestView) -> Seq<u8> {
        self.stored_after(request)
    }

    open spec fn output_after(&self, request: MemoryRequestView) -> Seq<u8> {
        self.waiting_after(request)
    }

    fn send_data_request(&mut self, request: MemoryRequest) -> (r: MemoryResponse)
        ensures
            final(self).start_address == old(self).start_address,
            final(self).end_address == old(self).end_address,
    {
        proof {
            self.lemma_as_device();
        }
        match request.request_type {
            MemoryRequestType::WRITE => {
                if request.data_address == self.start_address + UART_TX_OFFSET {
                    let size: usize = request.data_size.bytes();
                    let mut data: Vec<u8> = request.data.unwrap();
                    data.truncate(size);
                    self.transmitted.append(&mut data);
                    MemoryResponse::bare(MemoryResponseType::Valid)
                } else {
                    MemoryResponse::bare(MemoryResponseType::NotWritable)
                }
            },
            MemoryRequestType::READ => MemoryResponse::bare(MemoryResponseType::NotReadable),
        }
    }

    fn read_request(&self, request: MemoryRequest) -> (r: MemoryResponse) {
        proof {
            self.lemma_as_device();
        }
        MemoryResponse::bare(MemoryResponseType::NotReadable)
    }

    fn size(&self) -> (r: usize) {
        proof {
            self.lemma_as_device();
        }
        (self.end_address - self.start_address) as usize
    }

    fn start_end_addresses(&self) -> (r: (Address, Address)) {
        proof {
            self.lemma_as_device();
        }
        (self.start_address, self.end_address)
    }

    fn get_memory_type(&self) -> (r: MemoryDeviceType) {
        proof {
            self.lemma_as_device();
        }
        MemoryDeviceType::UART0
    }

    /// The port stores nothing, so there is nothing to initialise.
    fn init_mem(&mut self, address: Address, data: &[u8])
        ensures
            *final(self) == *old(self),
    {
        proof {
            self.lemma_as_device();
        }
        assert(write_bytes(Seq::<u8>::empty(), address as int, data@) =~= Seq::<u8>::empty());
    }

    fn debug(&self, start_address: Address, end_address: Address) -> (r: Vec<u8>) {
        proof {
            self.lemma_as_device();
        }
        let r: Vec<u8> = Vec::new();
        assert(r@ =~= window(
            Seq::<u8>::empty(),
            start_address - self.start_address,
            end_address - self.start_address,
        ));
        r
    }

    fn take_output(&mut self) -> (r: Vec<u8>)
        ensures
            final(self).start_address == old(self).start_address,
            final(self).end_address == old(self).end_address,
    {
        proof {
            self.lemma_as_device();
        }
        let mut out: Vec<u8> = Vec::new();
        out.append(&mut self.transmitted);
        out
    }
}

impl UART {
    /// As a device, the port is what its own spec functions say.
    pub proof fn lemma_as_device(&self)
        ensures
            self.well_formed() == self.valid(),
            self.spec_size() == self.byte_count(),
            self.spec_start_end_addresses() == self.range(),
            self.spec_memory_type() == self.kind(),
            self.spec_line_size() == self.line_bytes(),
            self.contents() == self.stored_bytes(),
            self.pending_output() == self.waiting_output(),
            forall|request: MemoryRequestView| #[trigger]
                self.response(request) == self.answer(request),
            forall|request: MemoryRequestView| #[trigger]
                self.contents_after(request) == self.stored_after(request),
            forall|request: MemoryRequestView| #[trigger]
                self.output_after(request) == self.waiting_after(request),
    {
    }
}

} // verus!
