//! Direct memory, the serial port, and the memory management unit.

use risc_soc::cache::Cache;
use risc_soc::device::Device;
use risc_soc::mcu_cache::MCUCache;
use risc_soc::memory_management_unit::{
    copy_range, overlay, FirstMatch, MemoryDevice, MemoryDeviceType, MemoryManagementUnit,
    MemoryRequest, MemoryRequestType, MemoryResponse, MemoryResponseType, MmuError, RoutingPolicy,
};
use risc_soc::risc_word::{Address, WordSize};
use risc_soc::uart::UART;

const BASE: Address = 0x8001_0000;

fn memory() -> MCUCache {
    MCUCache::new_with_lines(MemoryDeviceType::L1DCACHE, 64, 1024, BASE)
}

fn read(address: Address, size: WordSize) -> MemoryRequest {
    MemoryRequest { request_type: MemoryRequestType::READ, data_address: address, data_size: size, data: None }
}

fn write(address: Address, size: WordSize, data: &[u8]) -> MemoryRequest {
    MemoryRequest {
        request_type: MemoryRequestType::WRITE,
        data_address: address,
        data_size: size,
        data: Some(data.to_vec()),
    }
}

fn answer(r: MemoryResponse) -> (Vec<u8>, MemoryResponseType) {
    (r.data, r.status)
}

#[test]
fn word_sizes() {
    assert_eq!(WordSize::BYTE.bytes(), 1);
    assert_eq!(WordSize::HALF.bytes(), 2);
    assert_eq!(WordSize::WORD.bytes(), 4);
    assert_eq!(WordSize::DOUBLE.bytes(), 8);
}

#[test]
fn device_kinds_are_ordered() {
    let kinds = [
        MemoryDeviceType::L1ICACHE,
        MemoryDeviceType::L1DCACHE,
        MemoryDeviceType::L2CACHE,
        MemoryDeviceType::LLCACHE,
        MemoryDeviceType::MROM,
        MemoryDeviceType::DRAM,
        MemoryDeviceType::FLASH,
        MemoryDeviceType::UART0,
        MemoryDeviceType::DEBUG,
        MemoryDeviceType::IOMMU,
    ];
    for (i, kind) in kinds.iter().enumerate() {
        assert_eq!(kind.rank(), i);
        assert_eq!(kind.is_cache_like(), i <= 3);
        assert_eq!(kind.is_mapped(), i > 3);
    }
    assert!(MemoryDeviceType::L1ICACHE < MemoryDeviceType::L1DCACHE);
    assert!(MemoryDeviceType::LLCACHE < MemoryDeviceType::MROM);
    assert!(MemoryDeviceType::DEBUG < MemoryDeviceType::IOMMU);
}

#[test]
fn requests_are_well_formed() {
    assert!(read(0, WordSize::WORD).is_well_formed());
    assert!(write(0, WordSize::WORD, &[1, 2, 3, 4]).is_well_formed());
    assert!(write(0, WordSize::BYTE, &[1, 2, 3, 4]).is_well_formed());
    assert!(!write(0, WordSize::WORD, &[1, 2, 3]).is_well_formed());
    let no_data = MemoryRequest {
        request_type: MemoryRequestType::WRITE,
        data_address: 0,
        data_size: WordSize::BYTE,
        data: None,
    };
    assert!(!no_data.is_well_formed());
    let copy = write(8, WordSize::HALF, &[1, 2]).clone();
    assert_eq!((copy.data_address, copy.data), (8, Some(vec![1, 2])));
}

#[test]
fn byte_helpers() {
    let source = vec![1u8, 2, 3, 4, 5];
    assert_eq!(copy_range(&source, 1, 4), vec![2, 3, 4]);
    assert_eq!(copy_range(&source, 2, 2), Vec::<u8>::new());
    let mut target = vec![0u8; 6];
    overlay(&mut target, 2, &[7, 8, 9], 2);
    assert_eq!(target, vec![0, 0, 7, 8, 0, 0]);
}

#[test]
fn fresh_memory_is_zero() {
    let m = memory();
    assert_eq!(m.size(), 65536);
    assert_eq!(m.start_end_addresses(), (BASE, BASE + 65536));
    assert_eq!(m.get_memory_type(), MemoryDeviceType::L1DCACHE);
    assert_eq!(m.debug(BASE, BASE + 65536), vec![0u8; 65536]);
    let by_range = MCUCache::new(MemoryDeviceType::L2CACHE, 0x1000, 0x1100);
    assert_eq!((by_range.size(), by_range.line_size, by_range.num_lines), (256, 64, 4));
    assert_eq!(by_range.start_end_addresses(), (0x1000, 0x1100));
}

#[test]
fn memory_over_any_range_is_made_of_whole_lines() {
    // A hundred bytes take two lines of 64.
    let mut m = MCUCache::new(MemoryDeviceType::LLCACHE, 0x1000, 0x1064);
    assert_eq!((m.size(), m.line_size, m.num_lines), (128, 64, 2));
    assert_eq!(m.start_end_addresses(), (0x1000, 0x1064));
    assert_eq!(
        answer(m.send_data_request(write(0x1060, WordSize::WORD, &[1, 2, 3, 4]))),
        (vec![], MemoryResponseType::CacheHit)
    );
    assert_eq!(
        answer(m.send_data_request(read(0x1063, WordSize::BYTE))),
        (vec![4], MemoryResponseType::CacheHit)
    );
    assert_eq!(
        answer(m.send_data_request(read(0x1064, WordSize::BYTE))),
        (vec![], MemoryResponseType::WrongMemoryMap)
    );
    assert_eq!(
        answer(m.send_data_request(read(0x103e, WordSize::WORD))),
        (vec![], MemoryResponseType::UnalignedAddress)
    );
    let one = MCUCache::new(MemoryDeviceType::L2CACHE, 7, 8);
    assert_eq!((one.size(), one.num_lines), (64, 1));
    let full = MCUCache::new(MemoryDeviceType::L2CACHE, 0, 64);
    assert_eq!((full.size(), full.num_lines), (64, 1));
    let over = MCUCache::new(MemoryDeviceType::L2CACHE, 0, 65);
    assert_eq!((over.size(), over.num_lines), (128, 2));
}

#[test]
fn unit_holds_a_memory_beside_a_serial_port() {
    let mut mmu: MemoryManagementUnit<Device> = MemoryManagementUnit::new();
    assert_eq!(
        mmu.add_memory_device(Device::Serial(UART::new(MemoryDeviceType::UART0, 0x4000, 0x4100))),
        Ok(())
    );
    assert_eq!(
        mmu.add_memory_device(Device::Memory(line_memory(MemoryDeviceType::LLCACHE, 0x1000, 4))),
        Ok(())
    );
    assert!(!mmu.devices[0].is_memory());
    assert!(mmu.devices[1].is_memory());
    assert_eq!(
        mmu.memory_map(),
        vec![
            (MemoryDeviceType::UART0, 0x4000, 0x4100),
            (MemoryDeviceType::LLCACHE, 0x1000, 0x1000 + 4 * 16),
        ]
    );
    assert_eq!(
        mmu.add_memory_device(Device::Serial(UART::new(MemoryDeviceType::UART0, 0x5000, 0x5100))),
        Err(MmuError::DuplicateDevice)
    );
    assert_eq!(
        mmu.add_memory_device(Device::Memory(line_memory(MemoryDeviceType::L1DCACHE, 0x8000, 4))),
        Err(MmuError::CacheLikeDevice)
    );
    // Each request is answered by the device that holds its address.
    assert_eq!(
        answer(mmu.process_memory_request(write(0x1008, WordSize::HALF, &[0xcd, 0xab]))),
        (vec![], MemoryResponseType::CacheHit)
    );
    assert_eq!(
        answer(mmu.process_memory_request(write(0x4004, WordSize::BYTE, &[b'o']))),
        (vec![], MemoryResponseType::Valid)
    );
    assert_eq!(
        answer(mmu.process_memory_request(write(0x4004, WordSize::BYTE, &[b'k']))),
        (vec![], MemoryResponseType::Valid)
    );
    assert_eq!(
        answer(mmu.process_memory_request(read(0x1008, WordSize::HALF))),
        (vec![0xcd, 0xab], MemoryResponseType::CacheHit)
    );
    assert_eq!(
        answer(mmu.process_memory_request(read(0x4004, WordSize::BYTE))),
        (vec![], MemoryResponseType::NotReadable)
    );
    assert_eq!(
        answer(mmu.process_memory_request(read(0x2000, WordSize::BYTE))),
        (vec![], MemoryResponseType::InvalidAddress)
    );
    assert_eq!(mmu.take_output(), b"ok".to_vec());
    assert_eq!(mmu.take_output(), Vec::<u8>::new());
    assert_eq!(mmu.devices[1].debug(0x1008, 0x100a), vec![0xcd, 0xab]);
    assert_eq!(mmu.devices[1].size(), 64);
    assert_eq!(mmu.devices[0].size(), 0x100);
    assert_eq!(mmu.init_section_into_memory(0x1010, &[1, 2, 3]), Ok(true));
    assert_eq!(mmu.devices[1].debug(0x1010, 0x1013), vec![1, 2, 3]);
}

#[test]
fn aligned_word_write_then_read() {
    let mut m = memory();
    for offset in [0u64, 4, 60, 64, 1020, 65532] {
        let data = [offset as u8, 0xBE, 0xAD, 0xDE];
        assert_eq!(
            answer(m.send_data_request(write(BASE + offset, WordSize::WORD, &data))),
            (vec![], MemoryResponseType::CacheHit)
        );
        assert_eq!(
            answer(m.send_data_request(read(BASE + offset, WordSize::WORD))),
            (data.to_vec(), MemoryResponseType::CacheHit)
        );
        assert_eq!(
            answer(m.read_request(read(BASE + offset, WordSize::WORD))),
            (data.to_vec(), MemoryResponseType::CacheHit)
        );
    }
}

#[test]
fn access_over_the_end_of_a_line_is_unaligned() {
    let mut m = memory();
    for offset in [61u64, 62, 63, 125, 65533] {
        assert_eq!(
            answer(m.send_data_request(read(BASE + offset, WordSize::WORD))),
            (vec![], MemoryResponseType::UnalignedAddress)
        );
        assert_eq!(
            answer(m.send_data_request(write(BASE + offset, WordSize::WORD, &[1, 2, 3, 4]))),
            (vec![], MemoryResponseType::UnalignedAddress)
        );
    }
    assert_eq!(m.debug(BASE, BASE + 256), vec![0u8; 256]);
    assert_eq!(
        answer(m.send_data_request(read(BASE + 63, WordSize::HALF))),
        (vec![], MemoryResponseType::UnalignedAddress)
    );
    assert_eq!(
        answer(m.send_data_request(read(BASE + 57, WordSize::DOUBLE))),
        (vec![], MemoryResponseType::UnalignedAddress)
    );
    // Within a line, an odd address is served.
    assert_eq!(answer(m.send_data_request(write(BASE + 1, WordSize::WORD, &[1, 2, 3, 4]))).1, MemoryResponseType::CacheHit);
    assert_eq!(
        answer(m.send_data_request(read(BASE + 1, WordSize::WORD))),
        (vec![1, 2, 3, 4], MemoryResponseType::CacheHit)
    );
    assert_eq!(
        answer(m.send_data_request(read(BASE + 56, WordSize::DOUBLE))),
        (vec![0; 8], MemoryResponseType::CacheHit)
    );
}

#[test]
fn in_lines_of_one_word_every_misaligned_word_is_unaligned() {
    let mut m = MCUCache::new_with_lines(MemoryDeviceType::L1DCACHE, 4, 8, BASE);
    for offset in 0..29u64 {
        let status = m.send_data_request(read(BASE + offset, WordSize::WORD)).status;
        if offset % 4 == 0 {
            assert_eq!(status, MemoryResponseType::CacheHit);
        } else {
            assert_eq!(status, MemoryResponseType::UnalignedAddress);
        }
    }
}

#[test]
fn access_outside_the_range_is_a_wrong_map() {
    let mut m = memory();
    for address in [0u64, BASE - 1, BASE + 65536, BASE + 65540, u64::MAX] {
        assert_eq!(
            answer(m.send_data_request(read(address, WordSize::WORD))),
            (vec![], MemoryResponseType::WrongMemoryMap)
        );
        assert_eq!(
            answer(m.send_data_request(write(address, WordSize::BYTE, &[1]))),
            (vec![], MemoryResponseType::WrongMemoryMap)
        );
    }
}

#[test]
fn writes_store_as_many_bytes_as_their_width() {
    let mut m = memory();
    m.send_data_request(write(BASE + 8, WordSize::WORD, &[0xaa; 4]));
    m.send_data_request(write(BASE + 8, WordSize::BYTE, &[1, 2, 3, 4]));
    assert_eq!(m.debug(BASE + 8, BASE + 12), vec![1, 0xaa, 0xaa, 0xaa]);
    m.send_data_request(write(BASE + 10, WordSize::HALF, &[5, 6, 7, 8]));
    assert_eq!(m.debug(BASE + 8, BASE + 12), vec![1, 0xaa, 5, 6]);
    assert_eq!(
        answer(m.send_data_request(read(BASE + 9, WordSize::HALF))),
        (vec![0xaa, 5], MemoryResponseType::CacheHit)
    );
    assert_eq!(answer(m.send_data_request(read(BASE + 11, WordSize::BYTE))), (vec![6], MemoryResponseType::CacheHit));
}

#[test]
fn cache_lookups() {
    let mut m = MCUCache::new_with_lines(MemoryDeviceType::L1DCACHE, 8, 4, 0x100);
    m.init_mem(8, &[1, 2, 3, 4, 5, 6, 7, 8]);
    let found = m.translate_address(0x10b);
    assert_eq!((found.cache_line, found.index, found.tag, found.status), (vec![], 1, 0, MemoryResponseType::CacheHit));
    let missed = m.translate_address(0x120);
    assert_eq!((missed.index, missed.status), (0, MemoryResponseType::WrongMemoryMap));
    assert_eq!(m.translate_address(0xff).status, MemoryResponseType::WrongMemoryMap);
    let line = m.load_data(0x10b);
    assert_eq!((line.cache_line, line.index, line.status), (vec![1, 2, 3, 4, 5, 6, 7, 8], 1, MemoryResponseType::CacheHit));
    assert_eq!(m.load_data(0x200).cache_line, Vec::<u8>::new());
    let stored = m.store_data(0x11e, vec![9, 9]);
    assert_eq!((stored.index, stored.status), (3, MemoryResponseType::CacheHit));
    let split = m.store_data(0x117, vec![9, 9]);
    assert_eq!((split.index, split.status), (0, MemoryResponseType::UnalignedAddress));
    assert_eq!(m.store_data(0x120, vec![9]).status, MemoryResponseType::WrongMemoryMap);
    assert_eq!(m.debug(0x110, 0x120), vec![0, 0, 0, 0, 0, 0, 0, 0, 0, 0, 0, 0, 0, 0, 9, 9]);
    assert_eq!(m.take_output(), Vec::<u8>::new());
}

#[test]
fn uart_transmits_what_is_written_to_its_register() {
    let mut uart = UART::new(MemoryDeviceType::UART0, 0x4060_0000, 0x4060_0100);
    assert_eq!(uart.get_memory_type(), MemoryDeviceType::UART0);
    assert_eq!(uart.start_end_addresses(), (0x4060_0000, 0x4060_0100));
    assert_eq!(uart.size(), 0x100);
    for byte in b"HI\n" {
        assert_eq!(
            answer(uart.send_data_request(write(0x4060_0004, WordSize::BYTE, &[*byte, 0, 0, 0]))),
            (vec![], MemoryResponseType::Valid)
        );
    }
    assert_eq!(
        answer(uart.send_data_request(write(0x4060_0004, WordSize::HALF, b"ok!!"))),
        (vec![], MemoryResponseType::Valid)
    );
    assert_eq!(uart.take_output(), b"HI\nok".to_vec());
    assert_eq!(uart.take_output(), Vec::<u8>::new());
}

#[test]
fn uart_refuses_reads_and_other_writes() {
    let mut uart = UART::new(MemoryDeviceType::UART0, 0x4060_0000, 0x4060_0100);
    assert_eq!(
        answer(uart.send_data_request(read(0x4060_0004, WordSize::BYTE))),
        (vec![], MemoryResponseType::NotReadable)
    );
    assert_eq!(answer(uart.read_request(read(0x4060_0000, WordSize::WORD))), (vec![], MemoryResponseType::NotReadable));
    assert_eq!(
        answer(uart.send_data_request(write(0x4060_0000, WordSize::BYTE, &[b'x']))),
        (vec![], MemoryResponseType::NotWritable)
    );
    assert_eq!(
        answer(uart.send_data_request(write(0x4060_0008, WordSize::BYTE, &[b'x']))),
        (vec![], MemoryResponseType::NotWritable)
    );
    uart.init_mem(0, &[1, 2, 3]);
    assert_eq!(uart.debug(0x4060_0000, 0x4060_0010), Vec::<u8>::new());
    assert_eq!(uart.take_output(), Vec::<u8>::new());
}

fn line_memory(kind: MemoryDeviceType, start: Address, lines: usize) -> MCUCache {
    MCUCache::new_with_lines(kind, 16, lines, start)
}

#[test]
fn unit_registers_devices() {
    let mut mmu: MemoryManagementUnit<MCUCache> = MemoryManagementUnit::new();
    assert_eq!(mmu.memory_map(), vec![]);
    assert_eq!(mmu.add_memory_device(line_memory(MemoryDeviceType::LLCACHE, 0x1000, 4)), Ok(()));
    assert_eq!(mmu.add_memory_device(line_memory(MemoryDeviceType::L2CACHE, 0x1020, 4)), Ok(()));
    assert_eq!(
        mmu.memory_map(),
        vec![(MemoryDeviceType::LLCACHE, 0x1000, 0x1040), (MemoryDeviceType::L2CACHE, 0x1020, 0x1060)]
    );
}

#[test]
fn unit_refuses_devices() {
    let mut mmu: MemoryManagementUnit<MCUCache> = MemoryManagementUnit::default();
    assert_eq!(mmu.add_memory_device(line_memory(MemoryDeviceType::L2CACHE, 0x1000, 4)), Ok(()));
    assert_eq!(
        mmu.add_memory_device(line_memory(MemoryDeviceType::L2CACHE, 0x8000, 4)),
        Err(MmuError::DuplicateDevice)
    );
    assert_eq!(
        mmu.add_memory_device(line_memory(MemoryDeviceType::L1ICACHE, 0x8000, 4)),
        Err(MmuError::CacheLikeDevice)
    );
    assert_eq!(
        mmu.add_memory_device(line_memory(MemoryDeviceType::L1DCACHE, 0x8000, 4)),
        Err(MmuError::CacheLikeDevice)
    );
    // A cache-like device may cover the range of another.
    assert_eq!(mmu.add_memory_device(line_memory(MemoryDeviceType::LLCACHE, 0x1000, 8)), Ok(()));
    assert_eq!(mmu.memory_map().len(), 2);
    let mut ports: MemoryManagementUnit<UART> = MemoryManagementUnit::new();
    assert_eq!(ports.add_memory_device(UART::new(MemoryDeviceType::UART0, 0x100, 0x200)), Ok(()));
    assert_eq!(
        ports.add_memory_device(UART::new(MemoryDeviceType::UART0, 0x100, 0x200)),
        Err(MmuError::DuplicateDevice)
    );
}

#[test]
fn unit_routes_to_the_first_device_that_holds_the_address() {
    let mut mmu: MemoryManagementUnit<MCUCache> = MemoryManagementUnit::new();
    mmu.add_memory_device(line_memory(MemoryDeviceType::LLCACHE, 0x1000, 4)).unwrap();
    mmu.add_memory_device(line_memory(MemoryDeviceType::L2CACHE, 0x1020, 4)).unwrap();
    // Held by the first device only, by both, by the second only.
    for address in [0x1010u64, 0x1030, 0x1050] {
        assert_eq!(
            answer(mmu.process_memory_request(write(address, WordSize::BYTE, &[address as u8]))),
            (vec![], MemoryResponseType::CacheHit)
        );
    }
    assert_eq!(mmu.devices[0].debug(0x1010, 0x1011), vec![0x10]);
    assert_eq!(mmu.devices[0].debug(0x1030, 0x1031), vec![0x30]);
    assert_eq!(mmu.devices[1].debug(0x1030, 0x1031), vec![0]);
    assert_eq!(mmu.devices[1].debug(0x1050, 0x1051), vec![0x50]);
    assert_eq!(
        answer(mmu.process_memory_request(read(0x1030, WordSize::BYTE))),
        (vec![0x30], MemoryResponseType::CacheHit)
    );
    // The device that holds the address answers, whatever it answers.
    assert_eq!(
        answer(mmu.process_memory_request(read(0x100e, WordSize::WORD))),
        (vec![], MemoryResponseType::UnalignedAddress)
    );
    for address in [0x0fffu64, 0x1060, 0] {
        assert_eq!(
            answer(mmu.process_memory_request(read(address, WordSize::BYTE))),
            (vec![], MemoryResponseType::InvalidAddress)
        );
    }
    let mut empty: MemoryManagementUnit<UART> = MemoryManagementUnit::new();
    assert_eq!(
        answer(empty.process_memory_request(write(0x10, WordSize::BYTE, &[1]))),
        (vec![], MemoryResponseType::InvalidAddress)
    );
}

#[test]
fn default_policy_picks_the_first_range_that_holds_the_address() {
    let ranges = vec![(0x100, 0x200), (0x180, 0x300), (0x0, 0x1000), (0x50, 0x50)];
    let at = |address| read(address, WordSize::BYTE);
    assert_eq!(FirstMatch.select(&ranges, &at(0x100)), Some(0));
    assert_eq!(FirstMatch.select(&ranges, &at(0x1ff)), Some(0));
    assert_eq!(FirstMatch.select(&ranges, &at(0x200)), Some(1));
    assert_eq!(FirstMatch.select(&ranges, &at(0x2ff)), Some(1));
    assert_eq!(FirstMatch.select(&ranges, &at(0x300)), Some(2));
    assert_eq!(FirstMatch.select(&ranges, &at(0x50)), Some(2));
    assert_eq!(FirstMatch.select(&ranges, &at(0x1000)), None);
    assert_eq!(FirstMatch.select(&vec![], &at(0)), None);
    let mut mmu: MemoryManagementUnit<MCUCache> = MemoryManagementUnit::with_policy(FirstMatch);
    mmu.add_memory_device(line_memory(MemoryDeviceType::L2CACHE, 0x40, 1)).unwrap();
    assert_eq!(mmu.process_memory_request(at(0x4f)).status, MemoryResponseType::CacheHit);
    assert_eq!(mmu.process_memory_request(at(0x50)).status, MemoryResponseType::InvalidAddress);
}

#[test]
fn unit_places_sections_in_every_device_that_holds_the_address() {
    let mut mmu: MemoryManagementUnit<MCUCache> = MemoryManagementUnit::new();
    mmu.add_memory_device(MCUCache::new_with_lines(MemoryDeviceType::L2CACHE, 16, 4, 0x100)).unwrap();
    mmu.add_memory_device(MCUCache::new_with_lines(MemoryDeviceType::LLCACHE, 16, 8, 0x120)).unwrap();
    assert_eq!(mmu.init_section_into_memory(0x130, &[1, 2, 3]), Ok(true));
    assert_eq!(mmu.devices[0].debug(0x12e, 0x134), vec![0, 0, 1, 2, 3, 0]);
    assert_eq!(mmu.devices[1].debug(0x12e, 0x134), vec![0, 0, 1, 2, 3, 0]);
    assert_eq!(mmu.init_section_into_memory(0x150, &[9]), Ok(true));
    assert_eq!(mmu.devices[1].debug(0x150, 0x152), vec![9, 0]);
    assert_eq!(mmu.init_section_into_memory(0x1a0, &[9]), Ok(false));
    assert_eq!(mmu.init_section_into_memory(0x50, &[9]), Ok(false));
    // Fits the second device and not the first: nothing is placed.
    assert_eq!(mmu.init_section_into_memory(0x13e, &[7, 7, 7]), Err(MmuError::SpanDoesNotFit));
    assert_eq!(mmu.devices[1].debug(0x13c, 0x142), vec![0; 6]);
    assert_eq!(mmu.init_section_into_memory(0x140, &[]), Ok(true));
    assert_eq!(mmu.init_section_into_memory(0x13e, &[7, 7]), Ok(true));
    assert_eq!(mmu.devices[0].debug(0x13c, 0x140), vec![0, 0, 7, 7]);
}

#[test]
fn unit_gathers_console_output_in_device_order() {
    let mut mmu: MemoryManagementUnit<UART> = MemoryManagementUnit::new();
    mmu.add_memory_device(UART::new(MemoryDeviceType::UART0, 0x100, 0x200)).unwrap();
    assert_eq!(
        mmu.add_memory_device(UART::new(MemoryDeviceType::UART0, 0x300, 0x400)),
        Err(MmuError::DuplicateDevice)
    );
    mmu.process_memory_request(write(0x104, WordSize::BYTE, b"a"));
    mmu.process_memory_request(write(0x104, WordSize::BYTE, b"b"));
    assert_eq!(mmu.process_memory_request(read(0x104, WordSize::BYTE)).status, MemoryResponseType::NotReadable);
    assert_eq!(mmu.take_output(), b"ab".to_vec());
    assert_eq!(mmu.take_output(), Vec::<u8>::new());
}

#[test]
fn caches_read_through_the_trait() {
    fn first_line<C: Cache>(cache: &C, address: Address) -> Vec<u8> {
        cache.load_data(address).cache_line
    }
    let mut m = MCUCache::new_with_lines(MemoryDeviceType::L1ICACHE, 4, 2, 0);
    m.init_mem(4, &[4, 5, 6, 7]);
    assert_eq!(first_line(&m, 5), vec![4, 5, 6, 7]);
}
