//! Loadable sections of an RV32 ELF image and their placement in memory.
//!
//! The image is parsed by the `object` crate. What that crate finds in the
//! section table of an image is named by the three functions
//! `elf_section_count`, `elf_section_name` and `elf_section_contents`; the
//! library proves nothing about them but that equal images give equal
//! answers. Which sections are loaded, and where their bytes go, is the
//! library's own rule.

use crate::cache::Cache;
use crate::memory_management_unit::{
    in_range, write_bytes, MemoryDevice, MemoryDeviceType, MemoryManagementUnit,
};
use crate::risc_soc::RiscCore;
use crate::risc_word::Address;
use object::elf::FileHeader32;
use object::read::elf::FileHeader;
use object::read::elf::SectionHeader;
use object::Endianness;
use object::SectionIndex;
use vstd::prelude::*;

verus! {

/// Length of the file header of a 32-bit ELF image.
pub const ELF32_HEADER_SIZE: usize = 52;

/// Whether the image starts with the file header of a 32-bit ELF image, and
/// if so, whether it is little-endian. The header is there if the image is
/// long enough for it and starts with the magic number, the class of 32-bit
/// objects, a data encoding that is little-endian (1) or big-endian (2), and
/// the current version.
pub open spec fn elf_little_endian(image: Seq<u8>) -> Option<bool> {
    if image.len() >= ELF32_HEADER_SIZE && image[0] == 0x7f && image[1] == 0x45 && image[2] == 0x4c
        && image[3] == 0x46 && image[4] == 1 && (image[5] == 1 || image[5] == 2) && image[6] == 1 {
        Some(image[5] == 1)
    } else {
        None
    }
}

/// Number of section headers of the image, the null section included, if its
/// header and section table can be read.
pub uninterp spec fn elf_section_count(image: Seq<u8>) -> Option<usize>;

/// Name of the section at an index of the section table, if the table and
/// the name can be read. The table has no section to read at index zero,
/// where the null section stands, nor at an index beyond its end.
pub uninterp spec fn elf_section_name(image: Seq<u8>, index: usize) -> Option<Seq<u8>>;

/// Address and bytes of the section at an index of the section table, if the
/// table and the bytes can be read. A section without bytes in the image has
/// none.
pub uninterp spec fn elf_section_contents(image: Seq<u8>, index: usize) -> Option<
    (Address, Seq<u8>),
>;

/// `FileHeader32::parse` and `FileHeader::endian`: reads the file header,
/// which fails unless the image holds the 52 bytes of the header and the
/// magic number, the class, the data encoding and the version in them are
/// those of a 32-bit ELF image, and tells the byte order.
#[verifier::external_body]
fn header_endianness(image: &[u8]) -> (r: Option<bool>)
    ensures
        r == elf_little_endian(image@),
{
    let header = FileHeader32::<Endianness>::parse(image).ok()?;
    match header.endian().ok()? {
        Endianness::Little => Some(true),
        Endianness::Big => Some(false),
    }
}

/// `FileHeader::sections` and `SectionTable::len`: reads the section table
/// and counts its headers.
#[verifier::external_body]
fn section_count(image: &[u8]) -> (r: Option<usize>)
    ensures
        r == elf_section_count(image@),
{
    let header = FileHeader32::<Endianness>::parse(image).ok()?;
    let endian = header.endian().ok()?;
    Some(header.sections(endian, image).ok()?.len())
}

/// `SectionTable::section` and `SectionTable::section_name`: takes the
/// header at `index` from the section table and reads its name from the
/// string table of the section headers.
#[verifier::external_body]
fn section_name(image: &[u8], index: usize) -> (r: Option<Vec<u8>>)
    ensures
        bytes_view(r) == elf_section_name(image@, index),
{
    let header = FileHeader32::<Endianness>::parse(image).ok()?;
    let endian = header.endian().ok()?;
    let table = header.sections(endian, image).ok()?;
    let section = table.section(SectionIndex(index)).ok()?;
    Some(table.section_name(endian, section).ok()?.to_vec())
}

/// `SectionTable::section`, `SectionHeader::data` and the field `sh_addr`:
/// takes the header at `index` from the section table and reads the bytes
/// that the section has in the image, and its address.
#[verifier::external_body]
fn section_contents(image: &[u8], index: usize) -> (r: Option<(Address, Vec<u8>)>)
    ensures
        contents_view(r) == elf_section_contents(image@, index),
{
    let header = FileHeader32::<Endianness>::parse(image).ok()?;
    let endian = header.endian().ok()?;
    let table = header.sections(endian, image).ok()?;
    let section = table.section(SectionIndex(index)).ok()?;
    Some((u64::from(section.sh_addr.get(endian)), section.data(endian, image).ok()?.to_vec()))
}

/// An optional vector as an optional sequence.
pub open spec fn bytes_view(r: Option<Vec<u8>>) -> Option<Seq<u8>> {
    match r {
        Some(bytes) => Some(bytes@),
        None => None,
    }
}

/// An optional address and vector as an optional address and sequence.
pub open spec fn contents_view(r: Option<(Address, Vec<u8>)>) -> Option<(Address, Seq<u8>)> {
    match r {
        Some((address, bytes)) => Some((address, bytes@)),
        None => None,
    }
}

/// A section of an image: its name, the address it is linked at, and its
/// bytes.
#[derive(Debug)]
pub struct ElfSection {
    pub name: Vec<u8>,
    pub address: Address,
    pub data: Vec<u8>,
}

/// A section as a mathematical value.
pub struct ElfSectionView {
    pub name: Seq<u8>,
    pub address: Address,
    pub data: Seq<u8>,
}

impl View for ElfSection {
    type V = ElfSectionView;

    open spec fn view(&self) -> ElfSectionView {
        ElfSectionView { name: self.name@, address: self.address, data: self.data@ }
    }
}

/// The sections of a vector as mathematical values.
pub open spec fn sections_view(sections: Seq<ElfSection>) -> Seq<ElfSectionView> {
    Seq::new(sections.len(), |i: int| sections[i]@)
}

/// Why an image cannot be loaded.
#[derive(Debug, Clone, Copy, PartialEq, Eq, Structural)]
pub enum LoadError {
    /// The header, the section table, a section name or the bytes of a
    /// loadable section cannot be read.
    Malformed,
    /// The image is big-endian.
    NotLittleEndian,
    /// The sections are meant for the caches and the core has none.
    NoCache,
    /// The address of a section lies in no device, or the section does not
    /// end before the last byte of its cache.
    SectionOutOfRange,
    /// The section starts inside a device behind the memory management unit
    /// and does not end inside it.
    SpanDoesNotFit,
}

/// `.text`
pub open spec fn name_text() -> Seq<u8> {
    seq![0x2eu8, 0x74, 0x65, 0x78, 0x74]
}

/// `.data`
pub open spec fn name_data() -> Seq<u8> {
    seq![0x2eu8, 0x64, 0x61, 0x74, 0x61]
}

/// `.sdata`
pub open spec fn name_sdata() -> Seq<u8> {
    seq![0x2eu8, 0x73, 0x64, 0x61, 0x74, 0x61]
}

/// `.rodata`
pub open spec fn name_rodata() -> Seq<u8> {
    seq![0x2eu8, 0x72, 0x6f, 0x64, 0x61, 0x74, 0x61]
}

/// `.bss`
pub open spec fn name_bss() -> Seq<u8> {
    seq![0x2eu8, 0x62, 0x73, 0x73]
}

/// `.sbss`
pub open spec fn name_sbss() -> Seq<u8> {
    seq![0x2eu8, 0x73, 0x62, 0x73, 0x73]
}

/// Whether `name` starts with `prefix`.
pub open spec fn has_prefix(name: Seq<u8>, prefix: Seq<u8>) -> bool {
    name.len() >= prefix.len() && name.subrange(0, prefix.len() as int) == prefix
}

/// Whether a section of this name holds code: the name starts with `.text`.
pub open spec fn is_text(name: Seq<u8>) -> bool {
    has_prefix(name, name_text())
}

/// Whether a section of this name is loaded: the name starts with one of
/// `.text`, `.data`, `.sdata`, `.rodata`, `.bss` and `.sbss`.
pub open spec fn is_loadable(name: Seq<u8>) -> bool {
    has_prefix(name, name_text()) || has_prefix(name, name_data()) || has_prefix(
        name,
        name_sdata(),
    ) || has_prefix(name, name_rodata()) || has_prefix(name, name_bss()) || has_prefix(
        name,
        name_sbss(),
    )
}

/// What the section table of an image has at an index: nothing where the
/// section cannot be read, no section where its name is not one that is
/// loaded, else the section.
pub open spec fn section_at(image: Seq<u8>, index: usize) -> Option<Option<ElfSectionView>> {
    match elf_section_name(image, index) {
        None => None,
        Some(name) => if is_loadable(name) {
            match elf_section_contents(image, index) {
                None => None,
                Some((address, data)) => Some(
                    Some(ElfSectionView { name: name, address: address, data: data }),
                ),
            }
        } else {
            Some(None)
        },
    }
}

/// The loadable sections among those below index `n` of the section table,
/// in the order of the table, or nothing if one of them cannot be read. The
/// null section at index zero, with which every table begins, is no section
/// of the image and is passed over.
pub open spec fn sections_upto(image: Seq<u8>, n: nat) -> Option<Seq<ElfSectionView>>
    decreases n,
{
    if n <= 1 {
        Some(Seq::empty())
    } else {
        match (sections_upto(image, (n - 1) as nat), section_at(image, (n - 1) as usize)) {
            (Some(before), Some(Some(section))) => Some(before.push(section)),
            (Some(before), Some(None)) => Some(before),
            _ => None,
        }
    }
}

/// The loadable sections of an image, in the order of its section table, or
/// why the image cannot be loaded.
pub open spec fn loadable_sections(image: Seq<u8>) -> Result<Seq<ElfSectionView>, LoadError> {
    match elf_little_endian(image) {
        None => Err(LoadError::Malformed),
        Some(false) => Err(LoadError::NotLittleEndian),
        Some(true) => match elf_section_count(image) {
            None => Err(LoadError::Malformed),
            Some(count) => match sections_upto(image, count as nat) {
                None => Err(LoadError::Malformed),
                Some(sections) => Ok(sections),
            },
        },
    }
}

/// What `read_sections` returned, with the sections as mathematical values.
pub open spec fn read_view(r: Result<Vec<ElfSection>, LoadError>) -> Result<
    Seq<ElfSectionView>,
    LoadError,
> {
    match r {
        Ok(sections) => Ok(sections_view(sections@)),
        Err(e) => Err(e),
    }
}

/// Whether `name` starts with `prefix`.
pub fn starts_with(name: &[u8], prefix: &[u8]) -> (r: bool)
    ensures
        r == has_prefix(name@, prefix@),
{
    if name.len() < prefix.len() {
        return false;
    }
    let mut i: usize = 0;
    while i < prefix.len()
        invariant
            i <= prefix@.len() <= name@.len(),
            name@.subrange(0, i as int) == prefix@.subrange(0, i as int),
        decreases prefix@.len() - i,
    {
        if name[i] != prefix[i] {
            assert(name@.subrange(0, prefix@.len() as int)[i as int] != prefix@[i as int]);
            return false;
        }
        i += 1;
        assert(name@.subrange(0, i as int) =~= name@.subrange(0, i - 1).push(name@[i - 1]));
        assert(prefix@.subrange(0, i as int) =~= prefix@.subrange(0, i - 1).push(prefix@[i - 1]));
    }
    assert(prefix@.subrange(0, prefix@.len() as int) =~= prefix@);
    true
}

/// Whether a section of this name holds code.
pub fn holds_code(name: &[u8]) -> (r: bool)
    ensures
        r == is_text(name@),
{
    let text: [u8; 5] = [0x2e, 0x74, 0x65, 0x78, 0x74];
    assert(text@ =~= name_text());
    starts_with(name, &text)
}

/// Whether a section of this name is loaded.
pub fn loadable(name: &[u8]) -> (r: bool)
    ensures
        r == is_loadable(name@),
{
    let text: [u8; 5] = [0x2e, 0x74, 0x65, 0x78, 0x74];
    let data: [u8; 5] = [0x2e, 0x64, 0x61, 0x74, 0x61];
    let sdata: [u8; 6] = [0x2e, 0x73, 0x64, 0x61, 0x74, 0x61];
    let rodata: [u8; 7] = [0x2e, 0x72, 0x6f, 0x64, 0x61, 0x74, 0x61];
    let bss: [u8; 4] = [0x2e, 0x62, 0x73, 0x73];
    let sbss: [u8; 5] = [0x2e, 0x73, 0x62, 0x73, 0x73];
    assert(text@ =~= name_text());
    assert(data@ =~= name_data());
    assert(sdata@ =~= name_sdata());
    assert(rodata@ =~= name_rodata());
    assert(bss@ =~= name_bss());
    assert(sbss@ =~= name_sbss());
    starts_with(name, &text) || starts_with(name, &data) || starts_with(name, &sdata)
        || starts_with(name, &rodata) || starts_with(name, &bss) || starts_with(name, &sbss)
}

/// Reads the loadable sections of an image, in the order of its section
/// table.
pub fn read_sections(image: &[u8]) -> (r: Result<Vec<ElfSection>, LoadError>)
    ensures
        read_view(r) == loadable_sections(image@),
{
    match header_endianness(image) {
        None => {
            return Err(LoadError::Malformed);
        },
        Some(false) => {
            return Err(LoadError::NotLittleEndian);
        },
        Some(true) => {},
    }
    let count: usize = match section_count(image) {
        None => {
            return Err(LoadError::Malformed);
        },
        Some(count) => count,
    };
    let mut sections: Vec<ElfSection> = Vec::new();
    let mut index: usize = 1;
    while index < count
        invariant
            1 <= index,
            index <= count || index == 1,
            elf_little_endian(image@) == Some(true),
            elf_section_count(image@) == Some(count),
            sections_upto(image@, index as nat) == Some(sections_view(sections@)),
        decreases count - index,
    {
        let name = match section_name(image, index) {
            None => {
                assert(sections_upto(image@, (index + 1) as nat).is_none());
                proof {
                    lemma_unreadable_section(image@, (index + 1) as nat, count as nat);
                }
                return Err(LoadError::Malformed);
            },
            Some(name) => name,
        };
        if loadable(name.as_slice()) {
            match section_contents(image, index) {
                None => {
                    assert(sections_upto(image@, (index + 1) as nat).is_none());
                    proof {
                        lemma_unreadable_section(image@, (index + 1) as nat, count as nat);
                    }
                    return Err(LoadError::Malformed);
                },
                Some((address, data)) => {
                    let ghost before = sections_view(sections@);
                    let section = ElfSection { name: name, address: address, data: data };
                    sections.push(section);
                    assert(sections_view(sections@) =~= before.push(section@));
                },
            }
        }
        index += 1;
    }
    Ok(sections)
}

/// Once a section cannot be read, no longer part of the table can.
pub proof fn lemma_unreadable_section(image: Seq<u8>, n: nat, count: nat)
    requires
        n <= count,
        sections_upto(image, n).is_none(),
    ensures
        sections_upto(image, count).is_none(),
    decreases count - n,
{
    if n < count {
        lemma_unreadable_section(image, n + 1, count);
    }
}

/// Which sections a memory takes when an image is loaded.
pub enum Placement {
    /// The sections that hold code: those of the instruction cache.
    Code,
    /// The sections that hold no code: those of the data cache.
    Data,
    /// The sections whose address lies in a range: those of a device behind
    /// the memory management unit.
    Range(Address, Address),
}

/// Whether a memory with this placement takes a section.
pub open spec fn selects(placement: Placement, section: ElfSectionView) -> bool {
    match placement {
        Placement::Code => is_text(section.name),
        Placement::Data => !is_text(section.name),
        Placement::Range(start, end) => in_range((start, end), section.address),
    }
}

/// What a memory that starts at `base` holds once the first `n` of the
/// sections have been placed: each section that the memory takes is laid
/// over it at the offset of its address, in the order of the sections.
pub open spec fn image(
    memory: Seq<u8>,
    base: Address,
    sections: Seq<ElfSectionView>,
    n: int,
    placement: Placement,
) -> Seq<u8>
    decreases n,
{
    if n <= 0 {
        memory
    } else {
        let before = image(memory, base, sections, n - 1, placement);
        let section = sections[n - 1];
        if selects(placement, section) {
            write_bytes(before, section.address - base, section.data)
        } else {
            before
        }
    }
}

/// The last of the first `n` sections that is laid over the byte at `offset`
/// of a memory, if any is.
pub open spec fn last_writer(
    base: Address,
    sections: Seq<ElfSectionView>,
    n: int,
    placement: Placement,
    offset: int,
) -> Option<int>
    decreases n,
{
    if n <= 0 {
        None
    } else {
        let section = sections[n - 1];
        let at = section.address - base;
        if selects(placement, section) && at <= offset < at + section.data.len() {
            Some(n - 1)
        } else {
            last_writer(base, sections, n - 1, placement, offset)
        }
    }
}

/// Placing sections keeps the length of a memory, and every byte of the
/// memory is afterwards the byte of the last section laid over it, or, where
/// there is none, the byte it was.
pub proof fn lemma_image_bytes(
    memory: Seq<u8>,
    base: Address,
    sections: Seq<ElfSectionView>,
    n: int,
    placement: Placement,
)
    requires
        n <= sections.len(),
    ensures
        image(memory, base, sections, n, placement).len() == memory.len(),
        forall|offset: int|
            0 <= offset < memory.len() ==> #[trigger] image(
                memory,
                base,
                sections,
                n,
                placement,
            )[offset] == (match last_writer(base, sections, n, placement, offset) {
                Some(k) => sections[k].data[offset - (sections[k].address - base)],
                None => memory[offset],
            }),
    decreases n,
{
    if n > 0 {
        lemma_image_bytes(memory, base, sections, n - 1, placement);
    }
}

/// Placing the same sections a second time changes nothing.
pub proof fn lemma_image_idempotent(
    memory: Seq<u8>,
    base: Address,
    sections: Seq<ElfSectionView>,
    n: int,
    placement: Placement,
)
    requires
        n <= sections.len(),
    ensures
        image(image(memory, base, sections, n, placement), base, sections, n, placement) == image(
            memory,
            base,
            sections,
            n,
            placement,
        ),
{
    let once = image(memory, base, sections, n, placement);
    lemma_image_bytes(memory, base, sections, n, placement);
    lemma_image_bytes(once, base, sections, n, placement);
    assert(image(once, base, sections, n, placement) =~= once);
}

/// Whether a cache takes a section: the address of the section lies in its
/// range and the section ends before the last byte of the cache.
pub open spec fn cache_takes<C: Cache>(cache: C, section: ElfSectionView) -> bool {
    let range = cache.spec_start_end_addresses();
    in_range(range, section.address) && section.address - range.0 + section.data.len()
        < cache.spec_size()
}

/// Why the caches refuse a section, if they do: the core has not both
/// caches, or the cache that the section goes to does not take it.
pub open spec fn cache_refusal<C: Cache>(
    icache: Option<C>,
    dcache: Option<C>,
    section: ElfSectionView,
) -> Option<LoadError> {
    if icache.is_none() || dcache.is_none() {
        Some(LoadError::NoCache)
    } else if is_text(section.name) && !cache_takes(icache.unwrap(), section) {
        Some(LoadError::SectionOutOfRange)
    } else if !is_text(section.name) && !cache_takes(dcache.unwrap(), section) {
        Some(LoadError::SectionOutOfRange)
    } else {
        None
    }
}

/// Why the memory management unit refuses a section, if it does: the section
/// starts inside a device and does not end inside it, or its address lies in
/// no device.
pub open spec fn mmu_refusal<D: MemoryDevice>(
    mmu: MemoryManagementUnit<D>,
    section: ElfSectionView,
) -> Option<LoadError> {
    if !mmu.section_fits(section.address, section.data.len()) {
        Some(LoadError::SpanDoesNotFit)
    } else if !mmu.holds_address(section.address) {
        Some(LoadError::SectionOutOfRange)
    } else {
        None
    }
}

/// Whether sections for a device of this kind go to the caches of the core:
/// the kind is below `L2CACHE`.
pub open spec fn for_caches(memory_device: MemoryDeviceType) -> bool {
    memory_device.rank() < MemoryDeviceType::L2CACHE.rank()
}

/// Whether `after` is the cache `before` once the first `n` sections have
/// been placed: the same cache with the image of the sections it takes.
pub open spec fn cache_loaded<C: Cache>(
    before: Option<C>,
    after: Option<C>,
    sections: Seq<ElfSectionView>,
    n: int,
    placement: Placement,
) -> bool {
    match before {
        None => after.is_none(),
        Some(cache) => {
            &&& after.is_some()
            &&& after.unwrap().well_formed()
            &&& after.unwrap().spec_start_end_addresses() == cache.spec_start_end_addresses()
            &&& after.unwrap().spec_size() == cache.spec_size()
            &&& after.unwrap().spec_memory_type() == cache.spec_memory_type()
            &&& after.unwrap().spec_line_size() == cache.spec_line_size()
            &&& after.unwrap().pending_output() == cache.pending_output()
            &&& after.unwrap().contents() == image(
                cache.contents(),
                cache.spec_start_end_addresses().0,
                sections,
                n,
                placement,
            )
        },
    }
}

/// Whether `after` is the unit `before` once the first `n` sections have
/// been placed: the same devices, each with the image of the sections whose
/// address lies in its range.
pub open spec fn mmu_loaded<D: MemoryDevice>(
    before: MemoryManagementUnit<D>,
    after: MemoryManagementUnit<D>,
    sections: Seq<ElfSectionView>,
    n: int,
) -> bool {
    &&& after.well_formed()
    &&& after.same_map(&before)
    &&& forall|i: int|
        0 <= i < before.devices@.len() ==> (#[trigger] after.devices@[i]).contents() == image(
            before.devices@[i].contents(),
            before.range(i).0,
            sections,
            n,
            Placement::Range(before.range(i).0, before.range(i).1),
        ) && after.devices@[i].pending_output() == before.devices@[i].pending_output()
}

impl<C: Cache, D: MemoryDevice> RiscCore<C, D> {
    /// Why the core refuses a section, if it does.
    pub open spec fn refusal(&self, to_caches: bool, section: ElfSectionView) -> Option<
        LoadError,
    > {
        if to_caches {
            cache_refusal(self.icache, self.dcache, section)
        } else {
            mmu_refusal(self.mmu, section)
        }
    }

    /// The first of the first `n` sections that the core refuses, and why,
    /// if it refuses one.
    pub open spec fn first_refusal(
        &self,
        to_caches: bool,
        sections: Seq<ElfSectionView>,
        n: int,
    ) -> Option<(int, LoadError)>
        decreases n,
    {
        if n <= 0 {
            None
        } else {
            match self.first_refusal(to_caches, sections, n - 1) {
                Some(found) => Some(found),
                None => match self.refusal(to_caches, sections[n - 1]) {
                    Some(why) => Some((n - 1, why)),
                    None => None,
                },
            }
        }
    }

    /// Whether `after` is the core `before` once the first `n` sections have
    /// been placed, in the caches or behind the memory management unit.
    /// Code goes to the instruction cache and everything else to the data
    /// cache; behind the unit a section goes to every device whose range
    /// holds its address. Nothing but memory contents changes.
    pub open spec fn placed(
        before: Self,
        to_caches: bool,
        sections: Seq<ElfSectionView>,
        n: int,
        after: Self,
    ) -> bool {
        &&& after.well_formed()
        &&& after == (RiscCore {
            icache: after.icache,
            dcache: after.dcache,
            mmu: after.mmu,
            ..before
        })
        &&& if to_caches {
            &&& after.mmu == before.mmu
            &&& cache_loaded(before.icache, after.icache, sections, n, Placement::Code)
            &&& cache_loaded(before.dcache, after.dcache, sections, n, Placement::Data)
        } else {
            &&& after.icache == before.icache
            &&& after.dcache == before.dcache
            &&& mmu_loaded(before.mmu, after.mmu, sections, n)
        }
    }

    /// Whether `after` is the core `before` once sections have been loaded
    /// with the outcome `r`. The sections are placed in order, up to the
    /// first that the core refuses; that one ends the load with its error.
    pub open spec fn loaded(
        before: Self,
        sections: Seq<ElfSectionView>,
        memory_device: MemoryDeviceType,
        after: Self,
        r: Result<(), LoadError>,
    ) -> bool {
        let to_caches = for_caches(memory_device);
        match before.first_refusal(to_caches, sections, sections.len() as int) {
            Some((index, why)) => r == Err::<(), LoadError>(why) && Self::placed(
                before,
                to_caches,
                sections,
                index,
                after,
            ),
            None => r.is_ok() && Self::placed(
                before,
                to_caches,
                sections,
                sections.len() as int,
                after,
            ),
        }
    }

    /// Places one section in the caches, if they take it.
    fn place_in_caches(&mut self, section: &ElfSection) -> (r: Option<LoadError>)
        requires
            old(self).well_formed(),
        ensures
            r == cache_refusal(old(self).icache, old(self).dcache, section@),
            final(self).well_formed(),
            *final(self) == (RiscCore {
                icache: final(self).icache,
                dcache: final(self).dcache,
                ..*old(self)
            }),
            r.is_some() ==> *final(self) == *old(self),
            r.is_none() ==> cache_loaded(
                old(self).icache,
                final(self).icache,
                seq![section@],
                1,
                Placement::Code,
            ) && cache_loaded(
                old(self).dcache,
                final(self).dcache,
                seq![section@],
                1,
                Placement::Data,
            ),
    {
        proof {
            reveal_with_fuel(image, 2);
        }
        if self.icache.is_none() || self.dcache.is_none() {
            return Some(LoadError::NoCache);
        }
        let code: bool = holds_code(section.name.as_slice());
        let cache = if code {
            &mut self.icache
        } else {
            &mut self.dcache
        };
        match cache {
            None => Some(LoadError::NoCache),
            Some(memory) => {
                let range = memory.start_end_addresses();
                let size: usize = memory.size();
                let address: Address = section.address;
                if !(range.0 <= address && address < range.1) {
                    return Some(LoadError::SectionOutOfRange);
                }
                let offset: Address = address - range.0;
                if !((offset as u128) + (section.data.len() as u128) < size as u128) {
                    return Some(LoadError::SectionOutOfRange);
                }
                memory.init_mem(offset, section.data.as_slice());
                None
            },
        }
    }

    /// Places sections in memory, in order: in the caches of the core if
    /// `memory_device` is a kind below `L2CACHE`, else behind the memory
    /// management unit. The first section that is refused ends the load; the
    /// sections before it stay placed.
    #[verifier::rlimit(40)]
    pub fn load_sections(
        &mut self,
        sections: &Vec<ElfSection>,
        memory_device: MemoryDeviceType,
    ) -> (r: Result<(), LoadError>)
        requires
            old(self).well_formed(),
        ensures
            Self::loaded(*old(self), sections_view(sections@), memory_device, *final(self), r),
            final(self).well_formed(),
    {
        let to_caches: bool = memory_device.rank() < MemoryDeviceType::L2CACHE.rank();
        let ghost all = sections_view(sections@);
        let mut i: usize = 0;
        while i < sections.len()
            invariant
                i <= sections@.len(),
                all == sections_view(sections@),
                to_caches == for_caches(memory_device),
                old(self).well_formed(),
                old(self).first_refusal(to_caches, all, i as int).is_none(),
                Self::placed(*old(self), to_caches, all, i as int, *self),
            decreases sections@.len() - i,
        {
            let section = &sections[i];
            assert(all[i as int] == section@);
            let ghost mid = *self;
            let refused = if to_caches {
                let refused = self.place_in_caches(section);
                proof {
                    lemma_place_in_caches(*old(self), mid, *self, all, i as int, refused);
                }
                refused
            } else {
                let refused = match self.mmu.init_section_into_memory(
                    section.address,
                    section.data.as_slice(),
                ) {
                    Err(_) => Some(LoadError::SpanDoesNotFit),
                    Ok(false) => Some(LoadError::SectionOutOfRange),
                    Ok(true) => None,
                };
                proof {
                    lemma_place_behind_unit(
                        old(self).mmu,
                        mid.mmu,
                        self.mmu,
                        all,
                        i as int,
                        refused,
                    );
                }
                refused
            };
            match refused {
                Some(why) => {
                    proof {
                        lemma_first_refusal_found(
                            *old(self),
                            to_caches,
                            all,
                            i as int,
                            all.len() as int,
                            why,
                        );
                    }
                    return Err(why);
                },
                None => {},
            }
            i += 1;
        }
        Ok(())
    }

    /// Loads the loadable sections of an ELF image: in the caches of the core
    /// if `memory_device` is a kind below `L2CACHE`, else behind the memory
    /// management unit. An image that cannot be read changes nothing.
    pub fn load_binary(&mut self, image: &[u8], memory_device: MemoryDeviceType) -> (r: Result<
        (),
        LoadError,
    >)
        requires
            old(self).well_formed(),
        ensures
            final(self).well_formed(),
            match loadable_sections(image@) {
                Err(why) => r == Err::<(), LoadError>(why) && *final(self) == *old(self),
                Ok(sections) => Self::loaded(*old(self), sections, memory_device, *final(self), r),
            },
    {
        match read_sections(image) {
            Err(why) => Err(why),
            Ok(sections) => self.load_sections(&sections, memory_device),
        }
    }
}

/// Where the core refuses none of the first `i` sections and refuses the
/// next, that one is the first it refuses among any number of sections
/// beyond it.
pub proof fn lemma_first_refusal_found<C: Cache, D: MemoryDevice>(
    core: RiscCore<C, D>,
    to_caches: bool,
    sections: Seq<ElfSectionView>,
    i: int,
    n: int,
    why: LoadError,
)
    requires
        0 <= i < n,
        core.first_refusal(to_caches, sections, i).is_none(),
        core.refusal(to_caches, sections[i]) == Some(why),
    ensures
        core.first_refusal(to_caches, sections, n) == Some((i, why)),
    decreases n - i,
{
    if i + 1 < n {
        lemma_first_refusal_found(core, to_caches, sections, i, n - 1, why);
    }
}

/// The caches of a core refuse the same sections before and after sections
/// have been placed in them.
pub proof fn lemma_cache_refusal_kept<C: Cache>(
    before: Option<C>,
    after: Option<C>,
    sections: Seq<ElfSectionView>,
    n: int,
    placement: Placement,
    section: ElfSectionView,
)
    requires
        cache_loaded(before, after, sections, n, placement),
    ensures
        before.is_some() == after.is_some(),
        before.is_some() ==> cache_takes(before.unwrap(), section) == cache_takes(
            after.unwrap(),
            section,
        ),
{
}

/// What placing one more section in the caches makes of the image of the
/// sections placed before it.
pub proof fn lemma_place_in_caches<C: Cache, D: MemoryDevice>(
    start: RiscCore<C, D>,
    before: RiscCore<C, D>,
    after: RiscCore<C, D>,
    sections: Seq<ElfSectionView>,
    i: int,
    refused: Option<LoadError>,
)
    requires
        0 <= i < sections.len(),
        RiscCore::placed(start, true, sections, i, before),
        refused == cache_refusal(before.icache, before.dcache, sections[i]),
        after.well_formed(),
        after == (RiscCore { icache: after.icache, dcache: after.dcache, ..before }),
        refused.is_some() ==> after == before,
        refused.is_none() ==> cache_loaded(
            before.icache,
            after.icache,
            seq![sections[i]],
            1,
            Placement::Code,
        ) && cache_loaded(before.dcache, after.dcache, seq![sections[i]], 1, Placement::Data),
    ensures
        refused == start.refusal(true, sections[i]),
        refused.is_some() ==> RiscCore::placed(start, true, sections, i, after),
        refused.is_none() ==> RiscCore::placed(start, true, sections, i + 1, after),
        refused.is_none() ==> start.first_refusal(true, sections, i + 1)
            == start.first_refusal(true, sections, i),
{
    let section = sections[i];
    lemma_cache_refusal_kept(start.icache, before.icache, sections, i, Placement::Code, section);
    lemma_cache_refusal_kept(start.dcache, before.dcache, sections, i, Placement::Data, section);
    if refused.is_none() {
        let one = seq![sections[i]];
        assert(one[0] == sections[i]);
        assert forall|memory: Seq<u8>, base: Address, placement: Placement|
            #[trigger] image(memory, base, one, 1, placement) == (if selects(
                placement,
                sections[i],
            ) {
                write_bytes(memory, sections[i].address - base, sections[i].data)
            } else {
                memory
            }) by {
            assert(image(memory, base, one, 0, placement) == memory);
        }
    }
}

/// What placing one more section behind the memory management unit makes of
/// the images of the sections placed before it.
#[verifier::rlimit(40)]
pub proof fn lemma_place_behind_unit<D: MemoryDevice>(
    start: MemoryManagementUnit<D>,
    before: MemoryManagementUnit<D>,
    after: MemoryManagementUnit<D>,
    sections: Seq<ElfSectionView>,
    i: int,
    refused: Option<LoadError>,
)
    requires
        0 <= i < sections.len(),
        start.well_formed(),
        mmu_loaded(start, before, sections, i),
        after.well_formed(),
        after.same_map(&before),
        !before.section_fits(sections[i].address, sections[i].data.len()) ==> refused == Some(
            LoadError::SpanDoesNotFit,
        ) && after.devices@ == before.devices@,
        before.section_fits(sections[i].address, sections[i].data.len()) ==> refused == (
        if before.holds_address(sections[i].address) {
            None
        } else {
            Some(LoadError::SectionOutOfRange)
        }) && forall|k: int|
            0 <= k < before.devices@.len() ==> (#[trigger] after.devices@[k]).contents()
                == before.placed(k, sections[i].address, sections[i].data)
                && after.devices@[k].pending_output() == before.devices@[k].pending_output(),
    ensures
        refused == mmu_refusal(start, sections[i]),
        refused.is_some() ==> mmu_loaded(start, after, sections, i),
        refused.is_none() ==> mmu_loaded(start, after, sections, i + 1),
{
    let section = sections[i];
    assert forall|k: int| 0 <= k < start.devices@.len() implies start.range(k) == before.range(k)
        && start.devices@[k].spec_size() == before.devices@[k].spec_size() by {
        assert(before.kind(k) == start.kind(k));
    }
    assert(start.section_fits(section.address, section.data.len()) == before.section_fits(
        section.address,
        section.data.len(),
    )) by {
        if start.section_fits(section.address, section.data.len()) {
            assert forall|k: int|
                0 <= k < before.devices@.len() && in_range(
                    #[trigger] before.range(k),
                    section.address,
                ) implies before.span_fits(k, section.address, section.data.len()) by {
                assert(in_range(start.range(k), section.address));
                assert(start.span_fits(k, section.address, section.data.len()));
            }
        }
        if before.section_fits(section.address, section.data.len()) {
            assert forall|k: int|
                0 <= k < start.devices@.len() && in_range(
                    #[trigger] start.range(k),
                    section.address,
                ) implies start.span_fits(k, section.address, section.data.len()) by {
                assert(in_range(before.range(k), section.address));
                assert(before.span_fits(k, section.address, section.data.len()));
            }
        }
    }
    assert(start.holds_address(section.address) == before.holds_address(section.address)) by {
        if start.holds_address(section.address) {
            let k = choose|k: int|
                0 <= k < start.devices@.len() && in_range(
                    #[trigger] start.range(k),
                    section.address,
                );
            assert(in_range(before.range(k), section.address));
        }
        if before.holds_address(section.address) {
            let k = choose|k: int|
                0 <= k < before.devices@.len() && in_range(
                    #[trigger] before.range(k),
                    section.address,
                );
            assert(in_range(start.range(k), section.address));
        }
    }
    assert(after.same_map(&start)) by {
        assert forall|k: int| 0 <= k < after.devices@.len() implies (#[trigger] after.kind(k))
            == start.kind(k) && after.range(k) == start.range(k)
            && after.devices@[k].spec_line_size() == start.devices@[k].spec_line_size()
            && after.devices@[k].spec_size()
            == start.devices@[k].spec_size() by {
            assert(after.kind(k) == before.kind(k));
            assert(before.kind(k) == start.kind(k));
        }
    }
    if refused.is_some() {
        assert forall|k: int| 0 <= k < start.devices@.len() implies (
        #[trigger] after.devices@[k]).contents() == before.devices@[k].contents()
            && after.devices@[k].pending_output() == before.devices@[k].pending_output() by {
            if before.section_fits(section.address, section.data.len()) {
                assert(!before.holds_address(section.address));
                assert(!in_range(before.range(k), section.address));
            }
        }
    }
}

/// Loading the same sections a second time succeeds if the first load did,
/// and leaves every memory as the first load left it: the instruction cache,
/// the data cache, and every device behind the memory management unit hold
/// the same bytes after the second load as after the first.
pub proof fn lemma_loading_twice_changes_nothing<C: Cache, D: MemoryDevice>(
    fresh: RiscCore<C, D>,
    once: RiscCore<C, D>,
    twice: RiscCore<C, D>,
    sections: Seq<ElfSectionView>,
    memory_device: MemoryDeviceType,
    first: Result<(), LoadError>,
    second: Result<(), LoadError>,
)
    requires
        fresh.well_formed(),
        first.is_ok(),
        RiscCore::loaded(fresh, sections, memory_device, once, first),
        RiscCore::loaded(once, sections, memory_device, twice, second),
    ensures
        second.is_ok(),
        once.icache.is_some() ==> twice.icache.is_some() && twice.icache.unwrap().contents()
            == once.icache.unwrap().contents(),
        once.dcache.is_some() ==> twice.dcache.is_some() && twice.dcache.unwrap().contents()
            == once.dcache.unwrap().contents(),
        twice.mmu.devices@.len() == once.mmu.devices@.len(),
        forall|i: int|
            0 <= i < once.mmu.devices@.len() ==> (#[trigger] twice.mmu.devices@[i]).contents()
                == once.mmu.devices@[i].contents(),
{
    let to_caches = for_caches(memory_device);
    let n = sections.len() as int;
    lemma_refusals_kept(fresh, once, to_caches, sections, n, n);
    if to_caches {
        if fresh.icache.is_some() {
            lemma_image_idempotent(
                fresh.icache.unwrap().contents(),
                fresh.icache.unwrap().spec_start_end_addresses().0,
                sections,
                n,
                Placement::Code,
            );
        }
        if fresh.dcache.is_some() {
            lemma_image_idempotent(
                fresh.dcache.unwrap().contents(),
                fresh.dcache.unwrap().spec_start_end_addresses().0,
                sections,
                n,
                Placement::Data,
            );
        }
    } else {
        assert forall|i: int| 0 <= i < once.mmu.devices@.len() implies (
        #[trigger] twice.mmu.devices@[i]).contents() == once.mmu.devices@[i].contents() by {
            assert(once.mmu.kind(i) == fresh.mmu.kind(i));
            lemma_image_idempotent(
                fresh.mmu.devices@[i].contents(),
                fresh.mmu.range(i).0,
                sections,
                n,
                Placement::Range(fresh.mmu.range(i).0, fresh.mmu.range(i).1),
            );
        }
    }
}

/// A core refuses the same sections after sections have been placed in it as
/// before.
pub proof fn lemma_refusals_kept<C: Cache, D: MemoryDevice>(
    fresh: RiscCore<C, D>,
    once: RiscCore<C, D>,
    to_caches: bool,
    sections: Seq<ElfSectionView>,
    placed: int,
    n: int,
)
    requires
        fresh.well_formed(),
        0 <= n <= sections.len(),
        RiscCore::placed(fresh, to_caches, sections, placed, once),
    ensures
        once.first_refusal(to_caches, sections, n) == fresh.first_refusal(to_caches, sections, n),
    decreases n,
{
    if n > 0 {
        lemma_refusals_kept(fresh, once, to_caches, sections, placed, n - 1);
        let section = sections[n - 1];
        if to_caches {
            lemma_cache_refusal_kept(
                fresh.icache,
                once.icache,
                sections,
                placed,
                Placement::Code,
                section,
            );
            lemma_cache_refusal_kept(
                fresh.dcache,
                once.dcache,
                sections,
                placed,
                Placement::Data,
                section,
            );
        } else {
            lemma_unit_refusal_kept(fresh.mmu, once.mmu, section);
        }
    }
}

/// A memory management unit refuses the same sections as a unit with the
/// same devices in the same places.
pub proof fn lemma_unit_refusal_kept<D: MemoryDevice>(
    before: MemoryManagementUnit<D>,
    after: MemoryManagementUnit<D>,
    section: ElfSectionView,
)
    requires
        after.same_map(&before),
    ensures
        mmu_refusal(after, section) == mmu_refusal(before, section),
{
    assert forall|k: int| 0 <= k < before.devices@.len() implies before.range(k) == after.range(k)
        && before.devices@[k].spec_size() == after.devices@[k].spec_size() by {
        assert(after.kind(k) == before.kind(k));
    }
    if before.section_fits(section.address, section.data.len()) {
        assert forall|k: int|
            0 <= k < after.devices@.len() && in_range(
                #[trigger] after.range(k),
                section.address,
            ) implies after.span_fits(k, section.address, section.data.len()) by {
            assert(in_range(before.range(k), section.address));
            assert(before.span_fits(k, section.address, section.data.len()));
        }
    }
    if after.section_fits(section.address, section.data.len()) {
        assert forall|k: int|
            0 <= k < before.devices@.len() && in_range(
                #[trigger] before.range(k),
                section.address,
            ) implies before.span_fits(k, section.address, section.data.len()) by {
            assert(in_range(after.range(k), section.address));
            assert(after.span_fits(k, section.address, section.data.len()));
        }
    }
    if before.holds_address(section.address) {
        let k = choose|k: int|
            0 <= k < before.devices@.len() && in_range(#[trigger] before.range(k), section.address);
        assert(in_range(after.range(k), section.address));
    }
    if after.holds_address(section.address) {
        let k = choose|k: int|
            0 <= k < after.devices@.len() && in_range(#[trigger] after.range(k), section.address);
        assert(in_range(before.range(k), section.address));
    }
}

} // verus!
