//! A wire: a slot that combinational logic drives for the length of one
//! cycle.

use crate::pipeline_stage::PipelineData;
use vstd::prelude::*;

verus! {

/// One-cycle combinational slot. A stage drives it with `assign`; the core
/// releases it with `clear` at the start of the next cycle. `critical_path`,
/// in nanoseconds, bounds how long a reader waits for the wire to be driven.
pub struct Wire {
    pub data: Option<PipelineData>,
    pub critical_path: Option<u128>,
    pub debug: bool,
}

impl Wire {
    /// What the wire carries, if it is driven.
    pub open spec fn value(&self) -> Option<Seq<u8>> {
        match self.data {
            Some(d) => Some(d@),
            None => None,
        }
    }

    /// Whether a read of the wire comes back: the wire is driven, or the wait
    /// for it is bounded.
    pub open spec fn readable(&self) -> bool {
        self.data.is_some() || self.critical_path.is_some()
    }

    /// What a read of the wire gives: the value it carries, or the empty
    /// payload once the bounded wait for an undriven wire has run out.
    pub open spec fn sampled(&self) -> Seq<u8> {
        match self.data {
            Some(d) => d@,
            None => Seq::empty(),
        }
    }

    /// An undriven wire.
    pub fn new(critical_path: Option<u128>, debug: bool) -> (r: Self)
        ensures
            r.value() == None::<Seq<u8>>,
            r.critical_path == critical_path,
            r.debug == debug,
    {
        Wire { data: None, critical_path: critical_path, debug: debug }
    }

    /// Sets the debug flag.
    pub fn enable_debug(&mut self, debug: bool)
        ensures
            final(self).debug == debug,
            final(self).value() == old(self).value(),
            final(self).critical_path == old(self).critical_path,
    {
        self.debug = debug;
    }

    /// Releases the wire.
    pub fn clear(&mut self)
        ensures
            final(self).value() == None::<Seq<u8>>,
            final(self).critical_path == old(self).critical_path,
            final(self).debug == old(self).debug,
    {
        self.data = None;
    }

    /// Drives the wire with `data`.
    pub fn assign(&mut self, data: PipelineData)
        ensures
            final(self).value() == Some(data@),
            final(self).critical_path == old(self).critical_path,
            final(self).debug == old(self).debug,
    {
        self.data = Some(data);
    }

    /// Whether the wire is driven.
    pub fn is_driven(&self) -> (r: bool)
        ensures
            r == self.value().is_some(),
    {
        self.data.is_some()
    }

    /// Whether the wait of a read runs out: the wire is undriven and the wait
    /// for it is bounded. The read then gives the empty payload.
    pub open spec fn runs_out(&self) -> bool {
        self.data.is_none() && self.critical_path.is_some()
    }

    /// Reads the wire and tells whether it was driven in time: the value it
    /// carries, or nothing where the bounded wait for it ran out. `read`
    /// gives the empty payload in that case, which a driven wire may carry as
    /// well; this tells the two apart.
    pub fn read_in_time(&self) -> (r: Option<PipelineData>)
        requires
            self.readable(),
        ensures
            r.is_none() == self.runs_out(),
            r.is_some() ==> self.value() == Some(r.unwrap()@),
    {
        match &self.data {
            Some(d) => Some(d.clone()),
            None => None,
        }
    }

    /// Reads the wire. An undriven wire with a bounded wait reads as the empty
    /// payload: the setup and hold times were violated. An undriven wire
    /// without a bound would never be read, and is left out.
    pub fn read(&self) -> (r: PipelineData)
        requires
            self.readable(),
        ensures
            r@ == self.sampled(),
            self.runs_out() ==> r@ == Seq::<u8>::empty(),
    {
        match &self.data {
            Some(d) => d.clone(),
            None => PipelineData(Vec::new()),
        }
    }
}

} // verus!
