//! The devices that a memory management unit can hold side by side: a
//! direct memory and a serial port behind one type.

use crate::mcu_cache::MCUCache;
use crate::memory_management_unit::{
    MemoryDevice, MemoryDeviceType, MemoryRequest, MemoryRequestView, MemoryResponse,
    MemoryResponseView,
};
use crate::risc_word::Address;
use crate::uart::UART;
use vstd::prelude::*;

verus! {

/// A device that is either a direct memory or a serial port. A unit over
/// this type holds devices of both kinds at once; each request is answered
/// by the device inside, as that device answers it.
pub enum Device {
    /// A direct memory.
    Memory(MCUCache),
    /// A serial port.
    Serial(UART),
}

impl Device {
    /// Whether the device is a direct memory.
    pub open spec fn spec_is_memory(&self) -> bool {
        self is Memory
    }

    /// Whether the device is a direct memory.
    pub fn is_memory(&self) -> (r: bool)
        ensures
            r == self.spec_is_memory(),
    {
        match self {
            Device::Memory(_) => true,
            Device::Serial(_) => false,
        }
    }
}

impl Device {
    /// A device of either kind is well formed, covers, holds and has waiting
    /// what the memory or the port inside it does.
    pub proof fn lemma_as_device(&self)
        ensures
            self.well_formed() == match *self {
                Device::Memory(memory) => memory.valid(),
                Device::Serial(port) => port.valid(),
            },
            self.spec_size() == match *self {
                Device::Memory(memory) => memory.byte_count(),
                Device::Serial(port) => port.byte_count(),
            },
            self.spec_start_end_addresses() == match *self {
                Device::Memory(memory) => memory.range(),
                Device::Serial(port) => port.range(),
            },
            self.spec_memory_type() == match *self {
                Device::Memory(memory) => memory.kind(),
                Device::Serial(port) => port.kind(),
            },
            self.spec_line_size() == match *self {
                Device::Memory(memory) => memory.line_bytes(),
                Device::Serial(port) => port.line_bytes(),
            },
            self.contents() == match *self {
                Device::Memory(memory) => memory.stored_bytes(),
                Device::Serial(port) => port.stored_bytes(),
            },
            self.pending_output() == match *self {
                Device::Memory(memory) => memory.waiting_output(),
                Device::Serial(port) => port.waiting_output(),
            },
            forall|request: MemoryRequestView| #[trigger]
                self.response(request) == match *self {
                    Device::Memory(memory) => memory.answer(request),
                    Device::Serial(port) => port.answer(request),
                },
            forall|request: MemoryRequestView| #[trigger]
                self.contents_after(request) == match *self {
                    Device::Memory(memory) => memory.stored_after(request),
                    Device::Serial(port) => port.stored_after(request),
                },
            forall|request: MemoryRequestView| #[trigger]
                self.output_after(request) == match *self {
                    Device::Memory(memory) => memory.waiting_after(request),
                    Device::Serial(port) => port.waiting_after(request),
                },
    {
    }
}

impl MemoryDevice for Device {
    open spec fn well_formed(&self) -> bool {
        match self {
            Device::Memory(memory) => memory.valid(),
            Device::Serial(port) => port.valid(),
        }
    }

    open spec fn spec_size(&self) -> usize {
        match self {
            Device::Memory(memory) => memory.byte_count(),
            Device::Serial(port) => port.byte_count(),
        }
    }

    open spec fn spec_start_end_addresses(&self) -> (Address, Address) {
        match self {
            Device::Memory(memory) => memory.range(),
            Device::Serial(port) => port.range(),
        }
    }

    open spec fn spec_memory_type(&self) -> MemoryDeviceType {
        match self {
            Device::Memory(memory) => memory.kind(),
            Device::Serial(port) => port.kind(),
        }
    }

    open spec fn spec_line_size(&self) -> usize {
        match self {
            Device::Memory(memory) => memory.line_bytes(),
            Device::Serial(port) => port.line_bytes(),
        }
    }

    open spec fn contents(&self) -> Seq<u8> {
        match self {
            Device::Memory(memory) => memory.stored_bytes(),
            Device::Serial(port) => port.stored_bytes(),
        }
    }

    open spec fn pending_output(&self) -> Seq<u8> {
        match self {
            Device::Memory(memory) => memory.waiting_output(),
            Device::Serial(port) => port.waiting_output(),
        }
    }

    open spec fn response(&self, request: MemoryRequestView) -> MemoryResponseView {
        match self {
            Device::Memory(memory) => memory.answer(request),
            Device::Serial(port) => port.answer(request),
        }
    }

    open spec fn contents_after(&self, request: MemoryRequestView) -> Seq<u8> {
        match self {
            Device::Memory(memory) => memory.stored_after(request),
            Device::Serial(port) => port.stored_after(request),
        }
    }

    open spec fn output_after(&self, request: MemoryRequestView) -> Seq<u8> {
        match self {
            Device::Memory(memory) => memory.waiting_after(request),
            Device::Serial(port) => port.waiting_after(request),
        }
    }

    fn send_data_request(&mut self, request: MemoryRequest) -> (r: MemoryResponse) {
        proof {
            self.lemma_as_device();
        }
        match self {
            Device::Memory(memory) => memory.send_data_request(request),
            Device::Serial(port) => port.send_data_request(request),
        }
    }

    fn read_request(&self, request: MemoryRequest) -> (r: MemoryResponse) {
        proof {
            self.lemma_as_device();
        }
        match self {
            Device::Memory(memory) => memory.read_request(request),
            Device::Serial(port) => port.read_request(request),
        }
    }

    fn size(&self) -> (r: usize) {
        proof {
            self.lemma_as_device();
        }
        match self {
            Device::Memory(memory) => memory.size(),
            Device::Serial(port) => port.size(),
        }
    }

    fn start_end_addresses(&self) -> (r: (Address, Address)) {
        proof {
            self.lemma_as_device();
        }
        match self {
            Device::Memory(memory) => memory.start_end_addresses(),
            Device::Serial(port) => port.start_end_addresses(),
        }
    }

    fn get_memory_type(&self) -> (r: MemoryDeviceType) {
        proof {
            self.lemma_as_device();
        }
        match self {
            Device::Memory(memory) => memory.get_memory_type(),
            Device::Serial(port) => port.get_memory_type(),
        }
    }

    fn init_mem(&mut self, address: Address, data: &[u8]) {
        proof {
            self.lemma_as_device();
        }
        match self {
            Device::Memory(memory) => memory.init_mem(address, data),
            Device::Serial(port) => port.init_mem(address, data),
        }
    }

    fn debug(&self, start_address: Address, end_address: Address) -> (r: Vec<u8>) {
        proof {
            self.lemma_as_device();
        }
        match self {
            Device::Memory(memory) => memory.debug(start_address, end_address),
            Device::Serial(port) => port.debug(start_address, end_address),
        }
    }

    fn take_output(&mut self) -> (r: Vec<u8>) {
        proof {
            self.lemma_as_device();
        }
        match self {
            Device::Memory(memory) => memory.take_output(),
            Device::Serial(port) => port.take_output(),
        }
    }
}

} // verus!
