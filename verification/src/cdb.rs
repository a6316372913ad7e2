//! The common data bus: a square matrix of wires on which later stages send
//! results back to earlier ones within a cycle.

use crate::hash_index::{index_entries, index_get, index_insert, index_new};
use crate::pipeline_stage::PipelineData;
use crate::wire::Wire;
use ahash::AHashMap;
use vstd::prelude::*;

verus! {

/// The wires that leave one stage, one for each stage of the pipeline.
pub type DataLanes = Vec<Wire>;

/// Position of a stage in the pipeline.
pub type StageIndex = usize;

/// For a pipeline of `n` stages, `n` rows of `n` wires. The wire `[from][to]`
/// is driven by stage `from` and read by stage `to`.
pub struct CommonDataBus {
    /// Row of each stage in `lanes`.
    pub bus: AHashMap<StageIndex, usize>,
    /// The rows of wires.
    pub lanes: Vec<DataLanes>,
    /// The bound on a reader's wait that every wire was made with.
    pub critical_path: Option<u128>,
}

/// What one row of wires carries.
pub open spec fn row_values(row: DataLanes) -> Seq<Option<Seq<u8>>> {
    Seq::new(row@.len(), |to: int| row@[to].value())
}

/// The bus with the wire `[from][to]` driven with `data`.
pub open spec fn driven(
    lanes: Seq<Seq<Option<Seq<u8>>>>,
    from: int,
    to: int,
    data: Seq<u8>,
) -> Seq<Seq<Option<Seq<u8>>>> {
    lanes.update(from, lanes[from].update(to, Some(data)))
}

impl View for CommonDataBus {
    type V = Seq<Seq<Option<Seq<u8>>>>;

    /// What each wire carries, by `[from][to]`.
    open spec fn view(&self) -> Seq<Seq<Option<Seq<u8>>>> {
        Seq::new(self.lanes@.len(), |from: int| row_values(self.lanes@[from]))
    }
}

impl CommonDataBus {
    /// The debug flag of each wire, by `[from][to]`.
    pub open spec fn debug_flags(&self) -> Seq<Seq<bool>> {
        Seq::new(
            self.lanes@.len(),
            |from: int| Seq::new(self.lanes@[from]@.len(), |to: int| self.lanes@[from]@[to].debug),
        )
    }

    /// Whether `other` is wired as this bus is: the same index of rows, the
    /// same bound on a reader's wait, and the same debug flag on every wire.
    /// With what the wires carry, this is all there is to a bus.
    pub open spec fn same_wiring(&self, other: &Self) -> bool {
        &&& self.bus == other.bus
        &&& self.critical_path == other.critical_path
        &&& self.debug_flags() == other.debug_flags()
    }

    /// Number of stages that the bus connects.
    pub open spec fn num_stages(&self) -> nat {
        self.lanes@.len()
    }

    /// The bus is square, every stage is indexed to its own row, and every
    /// wire has the bound of the bus.
    pub open spec fn well_formed(&self) -> bool {
        &&& forall|from: int|
            0 <= from < self.lanes@.len() ==> (#[trigger] self.lanes@[from])@.len()
                == self.lanes@.len()
        &&& forall|from: int, to: int|
            0 <= from < self.lanes@.len() && 0 <= to < self.lanes@.len() ==> (
            #[trigger] self.lanes@[from]@[to]).critical_path == self.critical_path
        &&& forall|stage: usize|
            index_entries(self.bus).dom().contains(stage) <==> stage < self.lanes@.len()
        &&& forall|stage: usize|
            stage < self.lanes@.len() ==> #[trigger] index_entries(self.bus)[stage] == stage
    }

    /// Whether a read of the wire `[from][to]` comes back.
    pub open spec fn readable(&self, from: int, to: int) -> bool {
        self@[from][to].is_some() || self.critical_path.is_some()
    }

    /// What a read of the wire `[from][to]` gives.
    pub open spec fn sampled(&self, from: int, to: int) -> Seq<u8> {
        match self@[from][to] {
            Some(d) => d,
            None => Seq::empty(),
        }
    }

    /// A row of `n` undriven wires.
    fn new_row(n: usize, critical_path: Option<u128>, debug: bool) -> (row: DataLanes)
        ensures
            row@.len() == n,
            forall|to: int|
                0 <= to < n ==> (#[trigger] row@[to]).value() == None::<Seq<u8>>
                    && row@[to].critical_path == critical_path && row@[to].debug == debug,
    {
        let mut row: DataLanes = Vec::with_capacity(n);
        let mut to: usize = 0;
        while to < n
            invariant
                to <= n,
                row@.len() == to,
                forall|t: int|
                    0 <= t < to ==> (#[trigger] row@[t]).value() == None::<Seq<u8>>
                        && row@[t].critical_path == critical_path && row@[t].debug == debug,
            decreases n - to,
        {
            row.push(Wire::new(critical_path, debug));
            to += 1;
        }
        row
    }

    /// A bus for `num_stages` stages with every wire undriven.
    pub fn new(num_stages: usize, critical_path: Option<u128>, debug: bool) -> (r: Self)
        ensures
            r.well_formed(),
            r.num_stages() == num_stages,
            r.critical_path == critical_path,
            forall|from: int, to: int|
                0 <= from < num_stages && 0 <= to < num_stages ==> (#[trigger] r@[from][to])
                    == None::<Seq<u8>>,
            forall|from: int, to: int|
                0 <= from < num_stages && 0 <= to < num_stages ==> (
                #[trigger] r.lanes@[from]@[to]).debug == debug,
    {
        let mut bus = index_new();
        let mut lanes: Vec<DataLanes> = Vec::with_capacity(num_stages);
        let mut from: usize = 0;
        while from < num_stages
            invariant
                from <= num_stages,
                lanes@.len() == from,
                forall|f: int| 0 <= f < from ==> (#[trigger] lanes@[f])@.len() == num_stages,
                forall|f: int, t: int|
                    0 <= f < from && 0 <= t < num_stages ==> (#[trigger] lanes@[f]@[t]).value()
                        == None::<Seq<u8>> && lanes@[f]@[t].critical_path == critical_path
                        && lanes@[f]@[t].debug == debug,
                forall|stage: usize| index_entries(bus).dom().contains(stage) <==> stage < from,
                forall|stage: usize| stage < from ==> #[trigger] index_entries(bus)[stage] == stage,
            decreases num_stages - from,
        {
            let row = Self::new_row(num_stages, critical_path, debug);
            lanes.push(row);
            let _ = index_insert(&mut bus, from, from);
            from += 1;
        }
        CommonDataBus { bus: bus, lanes: lanes, critical_path: critical_path }
    }

    /// Drives the wire `[from][to]` with `data`.
    pub fn assign(&mut self, from: StageIndex, to: StageIndex, data: PipelineData)
        requires
            old(self).well_formed(),
            from < old(self).num_stages(),
            to < old(self).num_stages(),
        ensures
            final(self).well_formed(),
            final(self).same_wiring(old(self)),
            final(self).num_stages() == old(self).num_stages(),
            final(self)@ == driven(old(self)@, from as int, to as int, data@),
    {
        let row: usize = index_get(&self.bus, from).unwrap();
        self.lanes[row][to].assign(data);
        assert(final(self).debug_flags() =~~= old(self).debug_flags());
        assert(final(self)@ =~~= driven(old(self)@, from as int, to as int, data@));
    }

    /// Reads the wire `[from][to]`.
    pub fn pull(&self, from: StageIndex, to: StageIndex) -> (r: PipelineData)
        requires
            self.well_formed(),
            from < self.num_stages(),
            to < self.num_stages(),
            self.readable(from as int, to as int),
        ensures
            r@ == self.sampled(from as int, to as int),
    {
        let row: usize = index_get(&self.bus, from).unwrap();
        self.lanes[row][to].read()
    }

    /// Whether the wait of a read of the wire `[from][to]` runs out: the wire
    /// is undriven and the wait for it is bounded.
    pub open spec fn runs_out(&self, from: int, to: int) -> bool {
        self@[from][to].is_none() && self.critical_path.is_some()
    }

    /// Reads the wire `[from][to]` and tells whether it was driven in time:
    /// the value it carries, or nothing where the bounded wait for it ran
    /// out.
    pub fn pull_in_time(&self, from: StageIndex, to: StageIndex) -> (r: Option<PipelineData>)
        requires
            self.well_formed(),
            from < self.num_stages(),
            to < self.num_stages(),
            self.readable(from as int, to as int),
        ensures
            r.is_none() == self.runs_out(from as int, to as int),
            r.is_some() ==> self@[from as int][to as int] == Some(r.unwrap()@),
            r.is_none() ==> self@[from as int][to as int].is_none(),
    {
        let row: usize = index_get(&self.bus, from).unwrap();
        self.lanes[row][to].read_in_time()
    }

    /// Sets the debug flag of every wire. What the wires carry stays.
    pub fn enable_debug(&mut self, debug: bool)
        requires
            old(self).well_formed(),
        ensures
            final(self).well_formed(),
            final(self).bus == old(self).bus,
            final(self).critical_path == old(self).critical_path,
            final(self).num_stages() == old(self).num_stages(),
            final(self)@ == old(self)@,
            forall|from: int, to: int|
                0 <= from < final(self).num_stages() && 0 <= to < final(self).num_stages() ==> (
                #[trigger] final(self).lanes@[from]@[to]).debug == debug,
    {
        let n: usize = self.lanes.len();
        let mut from: usize = 0;
        while from < n
            invariant
                from <= n,
                n == old(self).lanes@.len(),
                self.lanes@.len() == n,
                self.bus == old(self).bus,
                self.critical_path == old(self).critical_path,
                self.well_formed(),
                self@ =~~= old(self)@,
                forall|f: int, t: int|
                    0 <= f < from && 0 <= t < n ==> (#[trigger] self.lanes@[f]@[t]).debug == debug,
            decreases n - from,
        {
            let mut to: usize = 0;
            while to < n
                invariant
                    to <= n,
                    from < n,
                    n == old(self).lanes@.len(),
                    self.lanes@.len() == n,
                    self.bus == old(self).bus,
                    self.critical_path == old(self).critical_path,
                    self.well_formed(),
                    self@ =~~= old(self)@,
                    forall|f: int, t: int|
                        0 <= f < from && 0 <= t < n ==> (#[trigger] self.lanes@[f]@[t]).debug
                            == debug,
                    forall|t: int|
                        0 <= t < to ==> (#[trigger] self.lanes@[from as int]@[t]).debug == debug,
                decreases n - to,
            {
                self.lanes[from][to].enable_debug(debug);
                to += 1;
            }
            from += 1;
        }
    }

    /// Releases every wire that leaves `stage`.
    pub fn clear(&mut self, stage: StageIndex)
        requires
            old(self).well_formed(),
            stage < old(self).num_stages(),
        ensures
            final(self).well_formed(),
            final(self).same_wiring(old(self)),
            final(self).num_stages() == old(self).num_stages(),
            final(self)@ == old(self)@.update(
                stage as int,
                Seq::new(old(self).num_stages(), |to: int| None::<Seq<u8>>),
            ),
    {
        let row: usize = index_get(&self.bus, stage).unwrap();
        let n: usize = self.lanes.len();
        let mut to: usize = 0;
        while to < n
            invariant
                to <= n,
                row == stage,
                row < n,
                n == old(self).lanes@.len(),
                self.lanes@.len() == n,
                self.bus == old(self).bus,
                self.critical_path == old(self).critical_path,
                self.well_formed(),
                forall|f: int| 0 <= f < n && f != row ==> self.lanes@[f] == old(self).lanes@[f],
                forall|t: int|
                    0 <= t < to ==> (#[trigger] self.lanes@[row as int]@[t]).value() == None::<
                        Seq<u8>,
                    > && self.lanes@[row as int]@[t].debug == old(self).lanes@[row as int]@[t].debug,
                forall|t: int|
                    to <= t < n ==> (#[trigger] self.lanes@[row as int]@[t])
                        == old(self).lanes@[row as int]@[t],
            decreases n - to,
        {
            self.lanes[row][to].clear();
            to += 1;
        }
        assert(self@ =~~= old(self)@.update(
            stage as int,
            Seq::new(old(self).num_stages(), |to: int| None::<Seq<u8>>),
        ));
        assert(self.debug_flags() =~~= old(self).debug_flags());
    }
}

} // verus!
