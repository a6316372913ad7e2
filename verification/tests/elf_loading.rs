//! Reading the sections of an image and placing them in memory.

use risc_soc::elf::{loadable, read_sections, starts_with, ElfSection, LoadError};
use risc_soc::mcu_cache::MCUCache;
use risc_soc::mcu_core::{init_core, load_elf, DCACHE_BASE, ICACHE_BASE};
use risc_soc::memory_management_unit::{MemoryDevice, MemoryDeviceType};
use risc_soc::risc_soc::RiscCore;
use risc_soc::device::Device;

const SHT_NULL: u32 = 0;
const SHT_PROGBITS: u32 = 1;
const SHT_STRTAB: u32 = 3;
const SHT_NOBITS: u32 = 8;

struct Section {
    name: &'static str,
    kind: u32,
    address: u32,
    data: Vec<u8>,
    size: u32,
}

fn section(name: &'static str, kind: u32, address: u32, data: &[u8]) -> Section {
    Section { name, kind, address, data: data.to_vec(), size: data.len() as u32 }
}

/// A 32-bit ELF image with the given sections after the null section and
/// before the string table of the section names.
fn elf_image(little_endian: bool, sections: &[Section]) -> Vec<u8> {
    let put16 = |v: u16| if little_endian { v.to_le_bytes() } else { v.to_be_bytes() };
    let put32 = |v: u32| if little_endian { v.to_le_bytes() } else { v.to_be_bytes() };
    let mut names = vec![0u8];
    let mut name_offsets = Vec::new();
    for s in sections {
        name_offsets.push(names.len() as u32);
        names.extend_from_slice(s.name.as_bytes());
        names.push(0);
    }
    let strtab_name = names.len() as u32;
    names.extend_from_slice(b".shstrtab\0");

    let mut body = Vec::new();
    let mut offsets = Vec::new();
    for s in sections {
        offsets.push(52 + body.len() as u32);
        body.extend_from_slice(&s.data);
    }
    let strtab_offset = 52 + body.len() as u32;
    body.extend_from_slice(&names);
    let shoff = 52 + body.len() as u32;
    let shnum = sections.len() as u16 + 2;

    let mut image = vec![0x7f, b'E', b'L', b'F', 1, if little_endian { 1 } else { 2 }, 1, 0];
    image.extend_from_slice(&[0u8; 8]);
    image.extend_from_slice(&put16(2));
    image.extend_from_slice(&put16(0xf3));
    image.extend_from_slice(&put32(1));
    image.extend_from_slice(&put32(0x8000_0000));
    image.extend_from_slice(&put32(0));
    image.extend_from_slice(&put32(shoff));
    image.extend_from_slice(&put32(0));
    image.extend_from_slice(&put16(52));
    image.extend_from_slice(&put16(32));
    image.extend_from_slice(&put16(0));
    image.extend_from_slice(&put16(40));
    image.extend_from_slice(&put16(shnum));
    image.extend_from_slice(&put16(shnum - 1));
    assert_eq!(image.len(), 52);
    image.extend_from_slice(&body);

    let mut header = |name: u32, kind: u32, address: u32, offset: u32, size: u32| {
        for v in [name, kind, 0, address, offset, size, 0, 0, 1, 0] {
            image.extend_from_slice(&put32(v));
        }
    };
    header(0, SHT_NULL, 0, 0, 0);
    for (i, s) in sections.iter().enumerate() {
        header(name_offsets[i], s.kind, s.address, offsets[i], s.size);
    }
    header(strtab_name, SHT_STRTAB, 0, strtab_offset, names.len() as u32);
    image
}

fn program_image() -> Vec<u8> {
    elf_image(
        true,
        &[
            section(".text", SHT_PROGBITS, 0x8000_0000, &[0x93, 0x00, 0x30, 0x00]),
            section(".comment", SHT_PROGBITS, 0, b"GCC"),
            section(".data", SHT_PROGBITS, 0x8001_0010, &[1, 2, 3, 4, 5]),
            Section { name: ".bss", kind: SHT_NOBITS, address: 0x8001_0020, data: vec![], size: 16 },
            section(".rodata.str", SHT_PROGBITS, 0x8001_0040, b"hi"),
        ],
    )
}

fn icache_bytes(core: &RiscCore<MCUCache, Device>, from: u64, to: u64) -> Vec<u8> {
    core.icache.as_ref().unwrap().debug(ICACHE_BASE + from, ICACHE_BASE + to)
}

fn dcache_bytes(core: &RiscCore<MCUCache, Device>, from: u64, to: u64) -> Vec<u8> {
    core.dcache.as_ref().unwrap().debug(DCACHE_BASE + from, DCACHE_BASE + to)
}

#[test]
fn prefixes_of_section_names() {
    assert!(starts_with(b".text.startup", b".text"));
    assert!(starts_with(b".text", b".text"));
    assert!(!starts_with(b".tex", b".text"));
    assert!(!starts_with(b".rela.text", b".text"));
    assert!(starts_with(b"anything", b""));
}

#[test]
fn loadable_section_names() {
    for name in [".text", ".data", ".sdata", ".rodata", ".bss", ".sbss", ".text.init", ".sdata2"] {
        assert!(loadable(name.as_bytes()), "{}", name);
    }
    for name in ["", ".comment", ".shstrtab", ".rela.text", ".symtab", "text", ".tdata"] {
        assert!(!loadable(name.as_bytes()), "{}", name);
    }
}

#[test]
fn reads_the_loadable_sections_in_table_order() {
    let sections = read_sections(&program_image()).unwrap();
    let names: Vec<&[u8]> = sections.iter().map(|s| s.name.as_slice()).collect();
    assert_eq!(names, vec![&b".text"[..], b".data", b".bss", b".rodata.str"]);
    assert_eq!(sections[0].address, 0x8000_0000);
    assert_eq!(sections[0].data, vec![0x93, 0x00, 0x30, 0x00]);
    assert_eq!(sections[1].address, 0x8001_0010);
    assert_eq!(sections[1].data, vec![1, 2, 3, 4, 5]);
    assert_eq!(sections[2].address, 0x8001_0020);
    assert_eq!(sections[2].data, Vec::<u8>::new());
    assert_eq!(sections[3].data, b"hi".to_vec());
}

#[test]
fn refuses_what_is_no_elf_image() {
    assert_eq!(read_sections(&[]).unwrap_err(), LoadError::Malformed);
    assert_eq!(read_sections(b"not an image at all, just some text here....................").unwrap_err(), LoadError::Malformed);
    let mut truncated = program_image();
    truncated.truncate(60);
    assert_eq!(read_sections(&truncated).unwrap_err(), LoadError::Malformed);
    let mut wide = program_image();
    wide[4] = 2;
    assert_eq!(read_sections(&wide).unwrap_err(), LoadError::Malformed);
}

#[test]
fn header_is_checked_byte_by_byte() {
    let good = program_image();
    assert!(read_sections(&good).is_ok());
    for (at, value) in [(0, 0x7e), (1, b'e'), (2, b'M'), (3, b'G'), (4, 0), (4, 2), (5, 0), (5, 3), (6, 0), (6, 2)] {
        let mut bad = good.clone();
        bad[at] = value;
        assert_eq!(read_sections(&bad).unwrap_err(), LoadError::Malformed, "byte {}", at);
    }
    // The bytes behind the version are not looked at.
    for at in 7..16 {
        let mut other = good.clone();
        other[at] = 0xff;
        assert!(read_sections(&other).is_ok());
    }
    // A header alone, without a section table, is an image without sections.
    let mut bare = good[..52].to_vec();
    bare[32..36].copy_from_slice(&0u32.to_le_bytes());
    assert_eq!(read_sections(&bare).unwrap().len(), 0);
    assert_eq!(read_sections(&bare[..51]).unwrap_err(), LoadError::Malformed);
    // The byte order is told before anything else of the image is read.
    let mut big = bare.clone();
    big[5] = 2;
    assert_eq!(read_sections(&big).unwrap_err(), LoadError::NotLittleEndian);
}

#[test]
fn refuses_a_big_endian_image() {
    let image = elf_image(false, &[section(".text", SHT_PROGBITS, 0x8000_0000, &[1, 2, 3, 4])]);
    assert_eq!(read_sections(&image).unwrap_err(), LoadError::NotLittleEndian);
}

#[test]
fn refuses_a_section_beyond_the_image() {
    let mut image = program_image();
    // The size of the first section after the null section.
    let shoff = u32::from_le_bytes([image[32], image[33], image[34], image[35]]) as usize;
    let size_field = shoff + 40 + 20;
    image[size_field..size_field + 4].copy_from_slice(&0x7fff_ffffu32.to_le_bytes());
    assert_eq!(read_sections(&image).unwrap_err(), LoadError::Malformed);
}

#[test]
fn loads_code_and_data_into_the_caches() {
    let mut core = init_core(None);
    assert_eq!(load_elf(&mut core, &program_image()), Ok(()));
    assert_eq!(icache_bytes(&core, 0, 8), vec![0x93, 0x00, 0x30, 0x00, 0, 0, 0, 0]);
    assert_eq!(dcache_bytes(&core, 0x0e, 0x17), vec![0, 0, 1, 2, 3, 4, 5, 0, 0]);
    assert_eq!(dcache_bytes(&core, 0x40, 0x43), vec![b'h', b'i', 0]);
    // Data does not go to the instruction cache, nor code to the data cache.
    assert_eq!(icache_bytes(&core, 0x10, 0x15), vec![0; 5]);
    assert_eq!(dcache_bytes(&core, 0, 4), vec![0; 4]);
}

#[test]
fn loaded_program_runs() {
    let mut core = init_core(None);
    load_elf(&mut core, &program_image()).unwrap();
    let report = core.run(Some(5)).unwrap();
    assert_eq!(report.fault, None);
    assert_eq!(core.registers.read_regs(1, 0).0, 3);
}

#[test]
fn loading_twice_changes_nothing() {
    let mut once = init_core(None);
    load_elf(&mut once, &program_image()).unwrap();
    let mut twice = init_core(None);
    load_elf(&mut twice, &program_image()).unwrap();
    assert_eq!(load_elf(&mut twice, &program_image()), Ok(()));
    assert_eq!(icache_bytes(&once, 0, 0x1_0000), icache_bytes(&twice, 0, 0x1_0000));
    assert_eq!(dcache_bytes(&once, 0, 0x1_0000), dcache_bytes(&twice, 0, 0x1_0000));
}

#[test]
fn later_sections_lie_over_earlier_ones() {
    let image = elf_image(
        true,
        &[
            section(".data", SHT_PROGBITS, 0x8001_0000, &[1, 1, 1, 1]),
            section(".sdata", SHT_PROGBITS, 0x8001_0002, &[2, 2, 2, 2]),
        ],
    );
    let mut core = init_core(None);
    load_elf(&mut core, &image).unwrap();
    assert_eq!(dcache_bytes(&core, 0, 7), vec![1, 1, 2, 2, 2, 2, 0]);
    load_elf(&mut core, &image).unwrap();
    assert_eq!(dcache_bytes(&core, 0, 7), vec![1, 1, 2, 2, 2, 2, 0]);
}

#[test]
fn refuses_a_section_outside_its_cache() {
    // Code linked into the data range.
    let image = elf_image(true, &[section(".text", SHT_PROGBITS, 0x8001_0000, &[1, 2, 3, 4])]);
    let mut core = init_core(None);
    assert_eq!(load_elf(&mut core, &image), Err(LoadError::SectionOutOfRange));
    assert_eq!(dcache_bytes(&core, 0, 4), vec![0; 4]);
    // Data below the data range.
    let image = elf_image(true, &[section(".data", SHT_PROGBITS, 0x8000_fff0, &[1, 2, 3, 4])]);
    assert_eq!(load_elf(&mut core, &image), Err(LoadError::SectionOutOfRange));
}

#[test]
fn a_section_must_end_before_the_last_byte_of_its_cache() {
    let mut core = init_core(None);
    let fits = ElfSection { name: b".data".to_vec(), address: DCACHE_BASE + 0xfff0, data: vec![7; 15] };
    assert_eq!(core.load_sections(&vec![fits], MemoryDeviceType::L1DCACHE), Ok(()));
    assert_eq!(dcache_bytes(&core, 0xfff0, 0x1_0000), [vec![7; 15], vec![0]].concat());
    let full = ElfSection { name: b".data".to_vec(), address: DCACHE_BASE + 0xfff0, data: vec![9; 16] };
    assert_eq!(
        core.load_sections(&vec![full], MemoryDeviceType::L1DCACHE),
        Err(LoadError::SectionOutOfRange)
    );
    assert_eq!(dcache_bytes(&core, 0xfff0, 0x1_0000), [vec![7; 15], vec![0]].concat());
}

#[test]
fn the_first_refused_section_ends_the_load() {
    let mut core = init_core(None);
    let sections = vec![
        ElfSection { name: b".data".to_vec(), address: DCACHE_BASE, data: vec![1, 2] },
        ElfSection { name: b".data".to_vec(), address: 0x10, data: vec![3] },
        ElfSection { name: b".data".to_vec(), address: DCACHE_BASE + 8, data: vec![4] },
    ];
    assert_eq!(
        core.load_sections(&sections, MemoryDeviceType::L1ICACHE),
        Err(LoadError::SectionOutOfRange)
    );
    assert_eq!(dcache_bytes(&core, 0, 9), vec![1, 2, 0, 0, 0, 0, 0, 0, 0]);
}

#[test]
fn caches_are_needed_for_cache_targets() {
    let mut core: RiscCore<MCUCache, Device> = RiscCore::new(5, None, false);
    assert_eq!(load_elf(&mut core, &program_image()), Err(LoadError::NoCache));
    assert_eq!(core.load_sections(&vec![], MemoryDeviceType::L1ICACHE), Ok(()));
}

#[test]
fn sections_for_other_targets_go_behind_the_unit() {
    let mut core: RiscCore<MCUCache, MCUCache> = RiscCore::new(5, None, false);
    let l2 = MCUCache::new_with_lines(MemoryDeviceType::L2CACHE, 16, 4, 0x2000);
    assert_eq!(core.mmu.add_memory_device(l2), Ok(()));
    let inside = ElfSection { name: b".data".to_vec(), address: 0x2004, data: vec![5, 6, 7] };
    assert_eq!(core.load_sections(&vec![inside], MemoryDeviceType::DRAM), Ok(()));
    assert_eq!(core.mmu.devices[0].debug(0x2000, 0x2008), vec![0, 0, 0, 0, 5, 6, 7, 0]);
    let nowhere = ElfSection { name: b".data".to_vec(), address: 0x3000, data: vec![1] };
    assert_eq!(
        core.load_sections(&vec![nowhere], MemoryDeviceType::DRAM),
        Err(LoadError::SectionOutOfRange)
    );
    let too_long = ElfSection { name: b".data".to_vec(), address: 0x2030, data: vec![1; 17] };
    assert_eq!(
        core.load_sections(&vec![too_long], MemoryDeviceType::DRAM),
        Err(LoadError::SpanDoesNotFit)
    );
    let to_the_end = ElfSection { name: b".data".to_vec(), address: 0x2030, data: vec![1; 16] };
    assert_eq!(core.load_sections(&vec![to_the_end], MemoryDeviceType::DRAM), Ok(()));
}

#[test]
fn the_entry_at_index_zero_of_the_table_is_passed_over() {
    let plain = program_image();
    let mut image = plain.clone();
    let table = u32::from_le_bytes([image[32], image[33], image[34], image[35]]) as usize;
    // Give the first entry of the table the header of the second, which is
    // that of the code: it is still no section of the image.
    let second: Vec<u8> = image[table + 40..table + 80].to_vec();
    image[table..table + 40].copy_from_slice(&second);
    let read = |image: &[u8]| -> Vec<(Vec<u8>, u64, Vec<u8>)> {
        read_sections(image)
            .expect("the image can be read")
            .into_iter()
            .map(|s| (s.name, s.address, s.data))
            .collect()
    };
    let found = read(&image);
    assert_eq!(found, read(&plain));
    assert_eq!(found.len(), 4);
    assert_eq!(found[0], (b".text".to_vec(), 0x8000_0000, vec![0x93, 0x00, 0x30, 0x00]));
}
