//! Which program of a virtual machine is running.
//!
//! A virtual machine keeps its identifier when its program is replaced. Its generation counts
//! how often that happened, so that a virtual machine and a generation name one run of one
//! program.
use std::collections::{HashMap, HashSet};

use vstd::prelude::*;

use crate::codes::SyscallCode;
use crate::collector::{Collector, SyscallReply};
use crate::data::{DataLengths, LengthQuery};
use crate::keys::{CollectorKey, KeyMap, VmId};
use crate::locator::{ErrorView, PostprocessError};
use crate::machine::{Machine, ReadMiss, Reads, RecordedMachine, A0, A7};
use crate::partial_content::TraceError;
use crate::transaction::{Transaction, TransactionView};
use crate::vms::find_machine;

verus! {

/// Counts the programs that virtual machines ran.
pub struct GenerationTracker {
    pending: HashSet<VmId>,
    generations: HashMap<VmId, u64>,
}

/// Whether the program of a virtual machine was replaced: it asked for that, and the register
/// of the result is zero now that it is runnable again.
pub open spec fn replaced<M: Machine>(
    tracker: GenerationTracker,
    machines: Seq<(VmId, M)>,
    vm_id: VmId,
) -> bool {
    &&& tracker.spec_pending().contains(vm_id)
    &&& crate::vms::machine_of(machines, vm_id) matches Some(machine)
    &&& machine.register_file()[A0 as int] == 0
}

/// The run of a virtual machine after a tracker has looked at `machines`.
pub open spec fn next_run<M: Machine>(
    tracker: GenerationTracker,
    machines: Seq<(VmId, M)>,
    vm_id: VmId,
) -> CollectorKey {
    if replaced(tracker, machines, vm_id) {
        CollectorKey { vm_id, generation_id: (tracker.spec_generation(vm_id) + 1) as u64 }
    } else {
        tracker.spec_key(vm_id)
    }
}

/// How a tracker notes that a virtual machine asked for its program to be replaced.
pub open spec fn marked(
    before: GenerationTracker,
    vm_id: VmId,
    after: GenerationTracker,
) -> bool {
    &&& after.spec_pending() == before.spec_pending().insert(vm_id)
    &&& forall|vm: VmId| #[trigger] after.spec_generation(vm) == before.spec_generation(vm)
}

/// How a tracker notes that the program of a virtual machine was replaced.
pub open spec fn increased(
    before: GenerationTracker,
    vm_id: VmId,
    after: GenerationTracker,
) -> bool {
    &&& after.spec_pending() == before.spec_pending()
    &&& forall|vm: VmId| #[trigger]
        after.spec_generation(vm) == before.spec_generation(vm) + (if vm == vm_id {
            1int
        } else {
            0int
        })
}

/// How a tracker looks at a system call whose number is `code`: a virtual machine that asks
/// for its program to be replaced is pending.
pub open spec fn followed(
    before: GenerationTracker,
    vm_id: VmId,
    code: u64,
    after: GenerationTracker,
) -> bool {
    &&& after.spec_pending() == (if code == SyscallCode::Exec.spec_number() {
        before.spec_pending().insert(vm_id)
    } else {
        before.spec_pending()
    })
    &&& forall|vm: VmId| #[trigger] after.spec_generation(vm) == before.spec_generation(vm)
}

/// How a tracker takes in what became of the virtual machines that were pending: none is
/// pending any more, and those whose program was replaced are one generation further.
pub open spec fn advanced<M: Machine>(
    before: GenerationTracker,
    machines: Seq<(VmId, M)>,
    after: GenerationTracker,
) -> bool {
    &&& after.spec_pending() == Set::<VmId>::empty()
    &&& forall|vm: VmId| #[trigger]
        after.spec_generation(vm) == before.spec_generation(vm) + (if replaced(
            before,
            machines,
            vm,
        ) {
            1int
        } else {
            0int
        })
}

/// Whether two trackers know the same.
pub open spec fn same_generations(one: GenerationTracker, other: GenerationTracker) -> bool {
    &&& one.spec_pending() == other.spec_pending()
    &&& forall|vm: VmId| #[trigger] one.spec_generation(vm) == other.spec_generation(vm)
}

impl GenerationTracker {
    /// The virtual machines that asked for their program to be replaced and were not looked at
    /// since.
    pub closed spec fn spec_pending(&self) -> Set<VmId> {
        self.pending@
    }

    /// The generation of a virtual machine.
    pub closed spec fn spec_generation(&self, vm_id: VmId) -> u64 {
        if self.generations@.contains_key(vm_id) {
            self.generations@[vm_id]
        } else {
            0
        }
    }

    /// The run of a virtual machine.
    pub open spec fn spec_key(&self, vm_id: VmId) -> CollectorKey {
        CollectorKey { vm_id, generation_id: self.spec_generation(vm_id) }
    }

    /// Whether no virtual machine replaced its program or asked for that.
    pub open spec fn is_new(&self) -> bool {
        &&& self.spec_pending() == Set::<VmId>::empty()
        &&& forall|vm_id: VmId| #[trigger] self.spec_generation(vm_id) == 0
    }

    /// A tracker of virtual machines of which none replaced its program.
    pub fn new() -> (tracker: Self)
        ensures
            tracker.is_new(),
    {
        GenerationTracker { pending: HashSet::new(), generations: HashMap::new() }
    }

    /// Notes that a virtual machine asked for its program to be replaced.
    pub fn mark_pending(&mut self, vm_id: VmId)
        ensures
            marked(*old(self), vm_id, *final(self)),
    {
        broadcast use vstd::std_specs::hash::group_hash_axioms;

        self.pending.insert(vm_id);
    }

    /// Notes that the program of a virtual machine was replaced.
    pub fn increase_generation(&mut self, vm_id: VmId)
        requires
            old(self).spec_generation(vm_id) < u64::MAX,
        ensures
            increased(*old(self), vm_id, *final(self)),
    {
        broadcast use vstd::std_specs::hash::group_hash_axioms;

        let generation: u64 = self.generation(vm_id);
        self.generations.insert(vm_id, generation + 1);
    }

    /// The generation of a virtual machine.
    pub fn generation(&self, vm_id: VmId) -> (generation: u64)
        ensures
            generation == self.spec_generation(vm_id),
    {
        broadcast use vstd::std_specs::hash::group_hash_axioms;

        match self.generations.get(&vm_id) {
            Some(generation) => *generation,
            None => 0,
        }
    }

    /// The run of a virtual machine.
    pub fn key(&self, vm_id: VmId) -> (key: CollectorKey)
        ensures
            key == self.spec_key(vm_id),
    {
        CollectorKey { vm_id, generation_id: self.generation(vm_id) }
    }

    /// Looks at a system call that a virtual machine makes, whose number is `code`.
    pub fn track(&mut self, vm_id: VmId, code: u64)
        ensures
            followed(*old(self), vm_id, code, *final(self)),
    {
        if let Ok(code) = SyscallCode::try_from(code) {
            if code == SyscallCode::Exec {
                self.mark_pending(vm_id);
            }
        }
    }

    /// The virtual machines to look at, each once.
    pub fn pending_vms(&self) -> (vms: Vec<VmId>)
        ensures
            vms@.no_duplicates(),
            vms@.to_set() == self.spec_pending(),
    {
        broadcast use vstd::std_specs::hash::group_hash_axioms;

        let mut vms: Vec<VmId> = Vec::new();
        for vm_id in pending: self.pending.iter()
            invariant
                vms@ == pending.seq().unref().take(pending.index()),
                pending.seq().unref().take(pending.seq().len() as int) == pending.seq().unref(),
                pending.seq().unref().to_set() == self.spec_pending(),
                pending.seq().no_duplicates(),
        {
            vms.push(*vm_id);
        }
        vms
    }

    /// Whether the tracker can look at `machines`: every virtual machine that is pending is
    /// runnable, so that it is among them, and the generations can still be counted.
    pub open spec fn resumable<M: Machine>(&self, machines: Seq<(VmId, M)>) -> bool {
        forall|vm_id: VmId| #[trigger]
            self.spec_pending().contains(vm_id) ==> {
                &&& crate::vms::machine_of(machines, vm_id) is Some
                &&& replaced(*self, machines, vm_id) ==> self.spec_generation(vm_id) < u64::MAX
            }
    }

    /// Whether the tracker can look at `machines`.
    pub fn can_advance<M: Machine>(&self, machines: &Vec<(VmId, M)>) -> (can: bool)
        ensures
            can == self.resumable(machines@),
    {
        let vms = self.pending_vms();
        let mut i: usize = 0;
        while i < vms.len()
            invariant
                i <= vms@.len(),
                vms@.to_set() == self.spec_pending(),
                forall|j: int|
                    0 <= j < i ==> {
                        &&& crate::vms::machine_of(machines@, #[trigger] vms@[j]) is Some
                        &&& replaced(*self, machines@, vms@[j]) ==> self.spec_generation(vms@[j])
                            < u64::MAX
                    },
            decreases vms@.len() - i,
        {
            let vm_id: VmId = vms[i];
            assert(vms@.contains(vms@[i as int]));
            assert(self.spec_pending().contains(vm_id));
            match find_machine(machines, vm_id) {
                Some(machine) => {
                    if machine.register(A0) == 0 && self.generation(vm_id) == u64::MAX {
                        return false;
                    }
                },
                None => {
                    return false;
                },
            }
            i = i + 1;
        }
        assert forall|vm_id: VmId| #[trigger] self.spec_pending().contains(vm_id) implies {
            &&& crate::vms::machine_of(machines@, vm_id) is Some
            &&& replaced(*self, machines@, vm_id) ==> self.spec_generation(vm_id) < u64::MAX
        } by {
            assert(vms@.contains(vm_id));
        }
        true
    }

    /// The run of a virtual machine after the tracker has looked at `machines`.
    pub fn next_key<M: Machine>(&self, machines: &Vec<(VmId, M)>, vm_id: VmId) -> (key:
        CollectorKey)
        requires
            self.resumable(machines@),
        ensures
            key == next_run(*self, machines@, vm_id),
    {
        let generation: u64 = self.generation(vm_id);
        if self.pending.contains(&vm_id) {
            assert(self.spec_pending().contains(vm_id));
            if let Some(machine) = find_machine(machines, vm_id) {
                if machine.register(A0) == 0 {
                    return CollectorKey { vm_id, generation_id: generation + 1 };
                }
            }
        }
        CollectorKey { vm_id, generation_id: generation }
    }

    /// Takes in what became of the virtual machines that asked for their program to be
    /// replaced, now that they are runnable again.
    pub fn advance<M: Machine>(&mut self, machines: &Vec<(VmId, M)>)
        requires
            old(self).resumable(machines@),
        ensures
            advanced(*old(self), machines@, *final(self)),
    {
        let vms = self.pending_vms();
        self.pending = HashSet::new();
        let mut i: usize = 0;
        while i < vms.len()
            invariant
                i <= vms@.len(),
                vms@.no_duplicates(),
                vms@.to_set() == old(self).spec_pending(),
                old(self).resumable(machines@),
                self.spec_pending() == Set::<VmId>::empty(),
                forall|vm: VmId| #[trigger]
                    self.spec_generation(vm) == old(self).spec_generation(vm) + (if vms@.take(
                        i as int,
                    ).contains(vm) && replaced(*old(self), machines@, vm) {
                        1int
                    } else {
                        0int
                    }),
            decreases vms@.len() - i,
        {
            let vm_id: VmId = vms[i];
            proof {
                assert(vms@.contains(vms@[i as int]));
                assert(old(self).spec_pending().contains(vm_id));
                let now = vms@.take(i as int);
                let next = vms@.take(i + 1);
                assert(!now.contains(vm_id));
                assert(next[i as int] == vm_id);
                assert forall|vm: VmId| next.contains(vm) == (now.contains(vm) || vm == vm_id) by {
                    if now.contains(vm) {
                        let j = choose|j: int| 0 <= j < now.len() && now[j] == vm;
                        assert(next[j] == vm);
                    }
                    if next.contains(vm) && vm != vm_id {
                        let j = choose|j: int| 0 <= j < next.len() && next[j] == vm;
                        assert(now[j] == vm);
                    }
                }
            }
            if let Some(machine) = find_machine(machines, vm_id) {
                if machine.register(A0) == 0 {
                    self.increase_generation(vm_id);
                }
            }
            i = i + 1;
        }
        assert(vms@.take(vms@.len() as int) =~= vms@);
        assert forall|vm: VmId| replaced(*old(self), machines@, vm) implies vms@.contains(vm) by {
            assert(vms@.to_set().contains(vm));
        }
    }
}

/// A generation never goes back, and the run of a virtual machine is another one after its
/// program was replaced and the same one otherwise; so no two programs of a virtual machine
/// share a run.
pub proof fn law_runs_are_fresh<M: Machine>(
    before: GenerationTracker,
    machines: Seq<(VmId, M)>,
    after: GenerationTracker,
    vm_id: VmId,
    earlier: CollectorKey,
)
    requires
        advanced(before, machines, after),
        earlier.vm_id == vm_id,
        earlier.generation_id <= before.spec_generation(vm_id),
    ensures
        before.spec_generation(vm_id) <= after.spec_generation(vm_id),
        replaced(before, machines, vm_id) ==> after.spec_key(vm_id) != earlier,
        !replaced(before, machines, vm_id) ==> after.spec_key(vm_id) == before.spec_key(vm_id),
{
}

/// What is done with a tracker.
pub enum TrackerUse {
    /// A virtual machine asked for its program to be replaced.
    MarkPending(VmId),
    /// The program of a virtual machine was replaced.
    IncreaseGeneration(VmId),
    /// A virtual machine made the system call with this number.
    Track(VmId, u64),
    /// The generation or the run of a virtual machine was asked for.
    Ask(VmId),
}

/// How a tracker changes when it is used.
pub open spec fn used(
    before: GenerationTracker,
    tracker_use: TrackerUse,
    after: GenerationTracker,
) -> bool {
    match tracker_use {
        TrackerUse::MarkPending(vm_id) => marked(before, vm_id, after),
        TrackerUse::IncreaseGeneration(vm_id) => increased(before, vm_id, after),
        TrackerUse::Track(vm_id, code) => followed(before, vm_id, code, after),
        TrackerUse::Ask(_) => after == before,
    }
}

/// How often it was noted that the program of a virtual machine was replaced.
pub open spec fn replacements(uses: Seq<TrackerUse>, vm_id: VmId) -> nat
    decreases uses.len(),
{
    if uses.len() == 0 {
        0
    } else if uses.last() == TrackerUse::IncreaseGeneration(vm_id) {
        replacements(uses.drop_last(), vm_id) + 1
    } else {
        replacements(uses.drop_last(), vm_id)
    }
}

/// The generation of a virtual machine counts how often it was noted that its program was
/// replaced, since the tracker was new and whatever else was done with the tracker in between.
/// `states` are the states of the tracker before, between and after its uses.
pub proof fn law_generations_count_replacements(
    states: Seq<GenerationTracker>,
    uses: Seq<TrackerUse>,
    vm_id: VmId,
)
    requires
        states.len() == uses.len() + 1,
        states[0].is_new(),
        forall|i: int| 0 <= i < uses.len() ==> used(states[i], #[trigger] uses[i], states[i + 1]),
    ensures
        states.last().spec_generation(vm_id) == replacements(uses, vm_id),
        states.last().spec_key(vm_id) == (CollectorKey {
            vm_id,
            generation_id: replacements(uses, vm_id) as u64,
        }),
    decreases uses.len(),
{
    if uses.len() > 0 {
        let front = states.drop_last();
        assert forall|i: int| 0 <= i < uses.drop_last().len() implies used(
            front[i],
            #[trigger] uses.drop_last()[i],
            front[i + 1],
        ) by {
            assert(uses.drop_last()[i] == uses[i]);
        }
        law_generations_count_replacements(front, uses.drop_last(), vm_id);
        assert(used(front.last(), uses[uses.len() - 1], states.last()));
        assert(states.last().spec_generation(vm_id) == states.last().spec_generation(vm_id));
    }
}

impl Default for GenerationTracker {
    fn default() -> (tracker: Self)
        ensures
            tracker.is_new(),
    {
        GenerationTracker::new()
    }
}

/// A tracker is a collector that keeps no traces.
impl Collector for GenerationTracker {
    type Trace = ();

    type Call = ();

    open spec fn collected(&self) -> Map<CollectorKey, ()> {
        Map::empty()
    }

    open spec fn generations(&self) -> GenerationTracker {
        *self
    }

    open spec fn watched(&self) -> Set<VmId> {
        self.spec_pending()
    }

    open spec fn can_begin(&self, vm_id: VmId, tx: TransactionView, registers: Seq<u64>) -> bool {
        true
    }

    open spec fn began(
        &self,
        vm_id: VmId,
        tx: TransactionView,
        registers: Seq<u64>,
        reads: Reads<ReadMiss>,
        after: &Self,
        result: Result<(), ReadMiss>,
    ) -> bool {
        &&& result is Ok
        &&& followed(*self, vm_id, registers[A7 as int], *after)
    }

    open spec fn finished(
        &self,
        call: (),
        reply: SyscallReply,
        registers: Seq<u64>,
        reads: Reads<ReadMiss>,
        after: &Self,
        result: Result<(), TraceError<ReadMiss>>,
    ) -> bool {
        &&& result is Ok
        &&& *after == *self
    }

    open spec fn can_resume(
        &self,
        machines: Seq<(VmId, RecordedMachine)>,
        lengths: Map<LengthQuery, Option<u64>>,
    ) -> bool {
        self.resumable(machines)
    }

    open spec fn obstructed(
        &self,
        machines: Seq<(VmId, RecordedMachine)>,
        lengths: Map<LengthQuery, Option<u64>>,
        error: ErrorView<ReadMiss>,
    ) -> bool {
        false
    }

    open spec fn failed(
        &self,
        machines: Seq<(VmId, RecordedMachine)>,
        lengths: Map<LengthQuery, Option<u64>>,
        after: &Self,
    ) -> bool {
        false
    }

    open spec fn postprocessed(
        &self,
        machines: Seq<(VmId, RecordedMachine)>,
        lengths: Map<LengthQuery, Option<u64>>,
        after: &Self,
    ) -> bool {
        advanced(*self, machines, *after)
    }

    fn accepts_call(&self, vm_id: VmId, tx: &Transaction, machine: &RecordedMachine) -> (accepts:
        bool) {
        true
    }

    fn begin_ecall(&mut self, vm_id: VmId, tx: &Transaction, machine: &RecordedMachine) -> (result:
        Result<(), ReadMiss>) {
        self.track(vm_id, machine.register(A7));
        Ok(())
    }

    fn finish_ecall(&mut self, call: (), reply: SyscallReply, machine: &RecordedMachine) -> (result:
        Result<(), TraceError<ReadMiss>>) {
        Ok(())
    }

    fn watched_vms(&self) -> (vms: Vec<VmId>) {
        self.pending_vms()
    }

    fn accepts_machines(
        &self,
        machines: &Vec<(VmId, RecordedMachine)>,
        lengths: &DataLengths,
    ) -> (accepts: bool) {
        self.can_advance(machines)
    }

    fn find_obstacle(
        &self,
        machines: &Vec<(VmId, RecordedMachine)>,
        lengths: &DataLengths,
    ) -> (found: Option<PostprocessError<ReadMiss>>) {
        None
    }

    fn postprocess(
        &mut self,
        machines: &Vec<(VmId, RecordedMachine)>,
        lengths: &DataLengths,
    ) -> (result: Result<(), PostprocessError<ReadMiss>>) {
        self.advance(machines);
        Ok(())
    }

    fn seal(self) -> (traces: KeyMap<()>) {
        let traces: KeyMap<()> = KeyMap::new();
        assert(crate::collector::map_views(traces@) =~= Map::<CollectorKey, ()>::empty());
        traces
    }
}

} // verus!
