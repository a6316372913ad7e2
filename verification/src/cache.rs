//! The cache abstraction: a memory device organised in lines.

use crate::memory_management_unit::{MemoryDevice, MemoryResponseType};
use crate::risc_word::Address;
use vstd::prelude::*;

verus! {

/// What a cache answers to a lookup.
#[derive(Debug)]
pub struct CacheResponse {
    pub cache_line: Vec<u8>,
    pub index: Address,
    pub tag: Address,
    pub status: MemoryResponseType,
}

/// A lookup result as a mathematical value.
pub struct CacheResponseView {
    pub cache_line: Seq<u8>,
    pub index: Address,
    pub tag: Address,
    pub status: MemoryResponseType,
}

impl View for CacheResponse {
    type V = CacheResponseView;

    open spec fn view(&self) -> CacheResponseView {
        CacheResponseView {
            cache_line: self.cache_line@,
            index: self.index,
            tag: self.tag,
            status: self.status,
        }
    }
}

/// A memory device organised in lines. How an address is turned into a line
/// index and a tag is the implementation's business.
pub trait Cache: MemoryDevice {
    /// What a lookup of `address` finds: a status, and the index and tag of
    /// the line on a hit. The line itself is left empty.
    spec fn translation(&self, address: Address) -> CacheResponseView;

    /// What a load at `address` finds: the lookup, with a copy of the line on
    /// a hit.
    spec fn loaded(&self, address: Address) -> CacheResponseView;

    /// What a store of `data` at `address` answers.
    spec fn stored(&self, address: Address, data: Seq<u8>) -> CacheResponseView;

    /// What the cache holds after a store of `data` at `address`.
    spec fn contents_after_store(&self, address: Address, data: Seq<u8>) -> Seq<u8>;

    /// Looks `address` up and copies its line out.
    fn load_data(&self, address: Address) -> (r: CacheResponse)
        requires
            self.well_formed(),
        ensures
            r@ == self.loaded(address),
    ;

    /// Stores `data` from `address` on.
    fn store_data(&mut self, address: Address, data: Vec<u8>) -> (r: CacheResponse)
        requires
            old(self).well_formed(),
        ensures
            final(self).well_formed(),
            final(self).spec_size() == old(self).spec_size(),
            final(self).spec_start_end_addresses() == old(self).spec_start_end_addresses(),
            final(self).spec_memory_type() == old(self).spec_memory_type(),
            final(self).spec_line_size() == old(self).spec_line_size(),
            final(self).pending_output() == old(self).pending_output(),
            r@ == old(self).stored(address, data@),
            final(self).contents() == old(self).contents_after_store(address, data@),
    ;

    /// Looks `address` up.
    fn translate_address(&self, address: Address) -> (r: CacheResponse)
        requires
            self.well_formed(),
        ensures
            r@ == self.translation(address),
    ;
}

} // verus!
