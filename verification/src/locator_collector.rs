//! The collector that keeps where the program of each run comes from, beside what another
//! collector keeps.
use vstd::prelude::*;

use crate::codes::Source;
use crate::collector::{Collector, SyscallReply};
use crate::data::{DataLengths, LengthQuery};
use crate::generation::GenerationTracker;
use crate::keys::{CollectorKey, KeyMap, VmId, ROOT_VM_ID};
use crate::locator::{
    apply_partial_locator, build_partial_locator, spawned_itself, BinaryLocator, ErrorView,
    PartialLocator, PostprocessError,
};
use crate::machine::{Machine, ReadMiss, Reads, RecordedMachine, A7};
use crate::partial_content::TraceError;
use crate::transaction::{Transaction, TransactionView};
use crate::vms::find_machine;

verus! {

/// Keeps where the program of each run comes from, beside what another collector keeps.
pub struct BinaryLocatorCollector<C: Collector> {
    partial_locators: KeyMap<PartialLocator>,
    data: KeyMap<BinaryLocator>,
    generation_tracker: GenerationTracker,
    collector: C,
}

/// The locator of the program that is started first: all of the data of a cell dependency.
pub open spec fn root_locator(index: u64, length: u64) -> BinaryLocator {
    BinaryLocator {
        index,
        source: Source::CellDep.spec_number(),
        offset: 0,
        length: (length % 0x1_0000_0000) as u32,
        from_cell: true,
    }
}

impl<C: Collector> BinaryLocatorCollector<C> {
    /// The programs that system calls asked for and of which it is not known yet what became.
    pub closed spec fn asked(&self) -> Map<CollectorKey, PartialLocator> {
        self.partial_locators@
    }

    /// The locators.
    pub closed spec fn locators(&self) -> Map<CollectorKey, BinaryLocator> {
        self.data@
    }

    /// The generations of the virtual machines.
    pub closed spec fn tracker(&self) -> GenerationTracker {
        self.generation_tracker
    }

    /// The other collector.
    pub closed spec fn inner(&self) -> C {
        self.collector
    }

    /// Whether the two collectors know the same generations, so that they mean the same run
    /// by a key.
    pub open spec fn consistent(&self) -> bool {
        crate::generation::same_generations(self.tracker(), self.inner().generations())
    }

    /// A collector that has seen nothing.
    pub fn new(collector: C) -> (locator_collector: Self)
        ensures
            locator_collector.asked() == Map::<CollectorKey, PartialLocator>::empty(),
            locator_collector.locators() == Map::<CollectorKey, BinaryLocator>::empty(),
            locator_collector.tracker().is_new(),
            locator_collector.inner() == collector,
            collector.generations().is_new() ==> locator_collector.consistent(),
    {
        BinaryLocatorCollector {
            partial_locators: KeyMap::new(),
            data: KeyMap::new(),
            generation_tracker: GenerationTracker::new(),
            collector,
        }
    }

    /// Notes the program that is started first: all `length` bytes of the data of the cell
    /// dependency at `index`.
    pub fn record_root(&mut self, index: u64, length: u64)
        ensures
            final(self).asked() == old(self).asked(),
            final(self).locators() == old(self).locators().insert(
                CollectorKey { vm_id: ROOT_VM_ID, generation_id: 0 },
                root_locator(index, length),
            ),
            final(self).tracker() == old(self).tracker(),
            final(self).inner() == old(self).inner(),
    {
        assert(length as u32 == length % 0x1_0000_0000) by (bit_vector);
        let locator = BinaryLocator {
            index,
            source: Source::CellDep.number(),
            offset: 0,
            length: length as u32,
            from_cell: true,
        };
        self.data.insert(CollectorKey { vm_id: ROOT_VM_ID, generation_id: 0 }, locator);
    }

    /// The virtual machine that runs the program that a run asked for, if any does, with the
    /// locator of the program.
    pub open spec fn found(
        &self,
        machines: Seq<(VmId, RecordedMachine)>,
        lengths: Map<LengthQuery, Option<u64>>,
        key: CollectorKey,
    ) -> Result<Option<(VmId, BinaryLocator)>, ErrorView<ReadMiss>> {
        let machine = crate::vms::machine_of(machines, key.vm_id)->0;
        crate::locator::located(
            key,
            crate::generation::next_run(self.tracker(), machines, key.vm_id),
            self.asked()[key],
            machine.register_file(),
            machine.reads(),
            lengths,
        )
    }

    /// The run of the program that a run asked for, if there is one, with the locator of the
    /// program.
    pub open spec fn target(
        &self,
        machines: Seq<(VmId, RecordedMachine)>,
        lengths: Map<LengthQuery, Option<u64>>,
        key: CollectorKey,
    ) -> Option<(CollectorKey, BinaryLocator)> {
        match self.found(machines, lengths, key) {
            Ok(Some((vm_id, locator))) => Some(
                (crate::generation::next_run(self.tracker(), machines, vm_id), locator),
            ),
            _ => None,
        }
    }

    /// Whether a run asked for a program that now runs as `target` and comes from `locator`.
    pub open spec fn started(
        &self,
        machines: Seq<(VmId, RecordedMachine)>,
        lengths: Map<LengthQuery, Option<u64>>,
        target: CollectorKey,
        locator: BinaryLocator,
    ) -> bool {
        exists|key: CollectorKey| #[trigger]
            self.asked().contains_key(key) && self.target(machines, lengths, key) == Some(
                (target, locator),
            )
    }

    /// Whether it can be looked at what became of the program that a run asked for: its virtual
    /// machine is runnable, and no virtual machine was started under its identifier.
    pub open spec fn can_look(
        &self,
        machines: Seq<(VmId, RecordedMachine)>,
        key: CollectorKey,
    ) -> bool {
        &&& crate::vms::machine_of(machines, key.vm_id) matches Some(machine)
        &&& !crate::locator::starts_itself(
            self.asked()[key],
            key.vm_id,
            machine.register_file(),
            machine.reads(),
        )
    }

    /// Whether nothing keeps the other collector from telling what became of system calls.
    pub open spec fn inner_is_free(
        &self,
        machines: Seq<(VmId, RecordedMachine)>,
        lengths: Map<LengthQuery, Option<u64>>,
    ) -> bool {
        forall|error: ErrorView<ReadMiss>|
            !#[trigger] self.inner().obstructed(machines, lengths, error)
    }

    /// Tells what became of the program that a run asked for.
    fn look(
        &self,
        machines: &Vec<(VmId, RecordedMachine)>,
        lengths: &DataLengths,
        key: &CollectorKey,
    ) -> (result: Result<Option<(CollectorKey, BinaryLocator)>, PostprocessError<ReadMiss>>)
        requires
            self.tracker().resumable(machines@),
            self.asked().contains_key(*key),
            self.can_look(machines@, *key),
        ensures
            match result {
                Ok(target) => {
                    &&& self.found(machines@, lengths@, *key) is Ok
                    &&& target == self.target(machines@, lengths@, *key)
                },
                Err(error) => self.found(machines@, lengths@, *key) == Err::<
                    Option<(VmId, BinaryLocator)>,
                    ErrorView<ReadMiss>,
                >(error@),
            },
    {
        if let Some(partial) = self.partial_locators.get(key) {
            if let Some(machine) = find_machine(machines, key.vm_id) {
                let new_key = self.generation_tracker.next_key(machines, key.vm_id);
                return match apply_partial_locator(key, &new_key, partial, machine, lengths) {
                    Ok(Some((vm_id, locator))) => Ok(
                        Some((self.generation_tracker.next_key(machines, vm_id), locator)),
                    ),
                    Ok(None) => Ok(None),
                    Err(error) => Err(error),
                };
            }
        }
        Ok(None)
    }

    /// The runs of the programs that runs asked for, with the locators of the programs; and what
    /// keeps the other ones from being located, if anything does. What is missing comes before
    /// what failed.
    fn look_at_all(
        &self,
        machines: &Vec<(VmId, RecordedMachine)>,
        lengths: &DataLengths,
    ) -> (result: (Vec<(CollectorKey, BinaryLocator)>, Option<PostprocessError<ReadMiss>>))
        requires
            self.can_resume(machines@, lengths@),
            self.inner_is_free(machines@, lengths@),
        ensures
            forall|i: int|
                0 <= i < result.0@.len() ==> self.started(
                    machines@,
                    lengths@,
                    (#[trigger] result.0@[i]).0,
                    result.0@[i].1,
                ),
            forall|key: CollectorKey, locator: BinaryLocator| #[trigger]
                self.started(machines@, lengths@, key, locator) ==> result.0@.contains(
                    (key, locator),
                ),
            match result.1 {
                Some(error) => {
                    &&& self.obstructed(machines@, lengths@, error@)
                    &&& crate::locator::only_missing(error@) || forall|
                        other: ErrorView<ReadMiss>,
                    | #[trigger]
                        self.obstructed(machines@, lengths@, other)
                            ==> !crate::locator::only_missing(other)
                },
                None => forall|error: ErrorView<ReadMiss>|
                    !#[trigger] self.obstructed(machines@, lengths@, error),
            },
    {
        let keys = self.partial_locators.keys();
        let mut found: Vec<(CollectorKey, BinaryLocator)> = Vec::new();
        let mut missing: Option<PostprocessError<ReadMiss>> = None;
        let mut failure: Option<PostprocessError<ReadMiss>> = None;
        let mut i: usize = 0;
        while i < keys.len()
            invariant
                self.can_resume(machines@, lengths@),
                self.inner_is_free(machines@, lengths@),
                i <= keys@.len(),
                forall|key: CollectorKey| #[trigger]
                    keys@.contains(key) <==> self.asked().contains_key(key),
                forall|n: int|
                    0 <= n < found@.len() ==> self.started(
                        machines@,
                        lengths@,
                        (#[trigger] found@[n]).0,
                        found@[n].1,
                    ),
                missing matches Some(error) ==> {
                    &&& self.obstructed(machines@, lengths@, error@)
                    &&& crate::locator::only_missing(error@)
                },
                failure matches Some(error) ==> self.obstructed(machines@, lengths@, error@),
                forall|j: int|
                    0 <= j < i ==> match self.found(machines@, lengths@, #[trigger] keys@[j]) {
                        Ok(_) => self.target(machines@, lengths@, keys@[j]) matches Some(target)
                            ==> found@.contains(target),
                        Err(error) => if crate::locator::only_missing(error) {
                            missing is Some
                        } else {
                            failure is Some
                        },
                    },
            decreases keys@.len() - i,
        {
            let key = keys[i];
            let ghost before = found@;
            assert(keys@.contains(keys@[i as int]));
            assert(self.asked().contains_key(key));
            match self.look(machines, lengths, &key) {
                Ok(Some(target)) => {
                    found.push(target);
                    proof {
                        assert(self.started(machines@, lengths@, target.0, target.1));
                        assert(found@.last() == target);
                        assert forall|other: (CollectorKey, BinaryLocator)|
                            before.contains(other) implies found@.contains(other) by {
                            let j = choose|j: int| 0 <= j < before.len() && before[j] == other;
                            assert(found@[j] == other);
                        }
                    }
                },
                Ok(None) => {},
                Err(error) => {
                    assert(self.obstructed(machines@, lengths@, error@));
                    if error.is_missing() {
                        missing = Some(error);
                    } else {
                        failure = Some(error);
                    }
                },
            }
            i = i + 1;
        }
        proof {
            assert forall|key: CollectorKey, locator: BinaryLocator| #[trigger]
                self.started(machines@, lengths@, key, locator) implies found@.contains(
                (key, locator),
            ) by {
                let asking = choose|asking: CollectorKey| #[trigger]
                    self.asked().contains_key(asking) && self.target(machines@, lengths@, asking)
                        == Some((key, locator));
                assert(keys@.contains(asking));
                let j = choose|j: int| 0 <= j < keys@.len() && keys@[j] == asking;
                assert(self.target(machines@, lengths@, keys@[j]) == Some((key, locator)));
            }
            assert forall|error: ErrorView<ReadMiss>| #[trigger]
                self.obstructed(machines@, lengths@, error) implies if crate::locator::only_missing(
                error,
            ) {
                missing is Some
            } else {
                failure is Some
            } by {
                let asking = choose|asking: CollectorKey| #[trigger]
                    self.asked().contains_key(asking) && self.found(machines@, lengths@, asking)
                        == Err::<Option<(VmId, BinaryLocator)>, ErrorView<ReadMiss>>(error);
                assert(keys@.contains(asking));
                let j = choose|j: int| 0 <= j < keys@.len() && keys@[j] == asking;
                assert(self.found(machines@, lengths@, keys@[j]) is Err);
            }
        }
        if missing.is_some() {
            (found, missing)
        } else {
            (found, failure)
        }
    }
}

impl<C: Collector + Default> Default for BinaryLocatorCollector<C> {
    fn default() -> (locator_collector: Self)
        ensures
            locator_collector.asked() == Map::<CollectorKey, PartialLocator>::empty(),
            locator_collector.locators() == Map::<CollectorKey, BinaryLocator>::empty(),
            locator_collector.tracker().is_new(),
            call_ensures(C::default, (), locator_collector.inner()),
    {
        BinaryLocatorCollector::new(C::default())
    }
}

impl<C: Collector> Collector for BinaryLocatorCollector<C> {
    type Trace = (BinaryLocator, C::Trace);

    type Call = C::Call;

    /// The runs whose program's locator is known and that the other collector knows.
    open spec fn collected(&self) -> Map<
        CollectorKey,
        (BinaryLocator, <C::Trace as View>::V),
    > {
        Map::new(
            |key: CollectorKey|
                self.locators().contains_key(key) && self.inner().collected().contains_key(key),
            |key: CollectorKey| (self.locators()[key], self.inner().collected()[key]),
        )
    }

    open spec fn generations(&self) -> GenerationTracker {
        self.tracker()
    }

    open spec fn watched(&self) -> Set<VmId> {
        Set::new(
            |vm_id: VmId|
                {
                    ||| self.tracker().spec_pending().contains(vm_id)
                    ||| self.inner().watched().contains(vm_id)
                    ||| exists|key: CollectorKey| #[trigger]
                        self.asked().contains_key(key) && key.vm_id == vm_id
                },
        )
    }

    /// It is known what became of the program that the run asked for last.
    open spec fn can_begin(&self, vm_id: VmId, tx: TransactionView, registers: Seq<u64>) -> bool {
        &&& !self.asked().contains_key(self.tracker().spec_key(vm_id))
        &&& self.inner().can_begin(vm_id, tx, registers)
    }

    /// The program that the call asks for, if it asks for one, is noted.
    open spec fn began(
        &self,
        vm_id: VmId,
        tx: TransactionView,
        registers: Seq<u64>,
        reads: Reads<ReadMiss>,
        after: &Self,
        result: Result<C::Call, ReadMiss>,
    ) -> bool {
        &&& self.inner().began(vm_id, tx, registers, reads, &after.inner(), result)
        &&& after.locators() == self.locators()
        &&& result is Ok ==> after.asked() == (match crate::locator::requested_by_call(registers) {
            Some(partial) => self.asked().insert(self.tracker().spec_key(vm_id), partial),
            None => self.asked(),
        })
    }

    open spec fn finished(
        &self,
        call: C::Call,
        reply: SyscallReply,
        registers: Seq<u64>,
        reads: Reads<ReadMiss>,
        after: &Self,
        result: Result<(), TraceError<ReadMiss>>,
    ) -> bool {
        &&& self.inner().finished(call, reply, registers, reads, &after.inner(), result)
        &&& after.locators() == self.locators()
        &&& after.asked() == self.asked()
    }

    /// The other collector can look at the virtual machines; and if nothing keeps it from
    /// telling what became of system calls, it can be looked at what became of every program
    /// that was asked for.
    open spec fn can_resume(
        &self,
        machines: Seq<(VmId, RecordedMachine)>,
        lengths: Map<LengthQuery, Option<u64>>,
    ) -> bool {
        &&& self.tracker().resumable(machines)
        &&& self.inner().can_resume(machines, lengths)
        &&& self.inner_is_free(machines, lengths) ==> forall|key: CollectorKey| #[trigger]
            self.asked().contains_key(key) ==> self.can_look(machines, key)
    }

    /// Something keeps the other collector, or nothing does and it cannot be told what became
    /// of a program that was asked for.
    open spec fn obstructed(
        &self,
        machines: Seq<(VmId, RecordedMachine)>,
        lengths: Map<LengthQuery, Option<u64>>,
        error: ErrorView<ReadMiss>,
    ) -> bool {
        ||| self.inner().obstructed(machines, lengths, error)
        ||| {
            &&& self.inner_is_free(machines, lengths)
            &&& exists|key: CollectorKey| #[trigger]
                self.asked().contains_key(key) && self.found(machines, lengths, key) == Err::<
                    Option<(VmId, BinaryLocator)>,
                    ErrorView<ReadMiss>,
                >(error)
        }
    }

    /// If something keeps the other collector, the programs that were asked for are not looked
    /// at. Otherwise they are all looked at once and for all; some of those that now run may
    /// have their locators already.
    open spec fn failed(
        &self,
        machines: Seq<(VmId, RecordedMachine)>,
        lengths: Map<LengthQuery, Option<u64>>,
        after: &Self,
    ) -> bool {
        if self.inner_is_free(machines, lengths) {
            &&& self.inner().postprocessed(machines, lengths, &after.inner())
            &&& after.asked() == Map::<CollectorKey, PartialLocator>::empty()
            &&& forall|key: CollectorKey| #[trigger]
                after.locators().contains_key(key) ==> {
                    ||| self.started(machines, lengths, key, after.locators()[key])
                    ||| {
                        &&& self.locators().contains_key(key)
                        &&& after.locators()[key] == self.locators()[key]
                    }
                }
            &&& forall|key: CollectorKey| #[trigger]
                self.locators().contains_key(key) ==> after.locators().contains_key(key)
        } else {
            &&& self.inner().failed(machines, lengths, &after.inner())
            &&& after.asked() == self.asked()
            &&& after.locators() == self.locators()
        }
    }

    /// The programs that were asked for and now run have their locators, each under its run.
    /// Where several would have the same run, one of them has it.
    open spec fn postprocessed(
        &self,
        machines: Seq<(VmId, RecordedMachine)>,
        lengths: Map<LengthQuery, Option<u64>>,
        after: &Self,
    ) -> bool {
        &&& self.inner().postprocessed(machines, lengths, &after.inner())
        &&& after.asked() == Map::<CollectorKey, PartialLocator>::empty()
        &&& forall|key: CollectorKey| #[trigger]
            after.locators().contains_key(key) <==> (self.locators().contains_key(key) || exists|
                locator: BinaryLocator,
            | self.started(machines, lengths, key, locator))
        &&& forall|key: CollectorKey| #[trigger]
            after.locators().contains_key(key) ==> {
                ||| self.started(machines, lengths, key, after.locators()[key])
                ||| {
                    &&& forall|locator: BinaryLocator|
                        !self.started(machines, lengths, key, locator)
                    &&& after.locators()[key] == self.locators()[key]
                }
            }
    }

    fn accepts_call(&self, vm_id: VmId, tx: &Transaction, machine: &RecordedMachine) -> (accepts:
        bool) {
        !self.partial_locators.contains_key(&self.generation_tracker.key(vm_id))
            && self.collector.accepts_call(vm_id, tx, machine)
    }

    fn begin_ecall(
        &mut self,
        vm_id: VmId,
        tx: &Transaction,
        machine: &RecordedMachine,
    ) -> (result: Result<C::Call, ReadMiss>)
        ensures
            old(self).consistent() ==> final(self).consistent(),
    {
        let key = self.generation_tracker.key(vm_id);
        match self.collector.begin_ecall(vm_id, tx, machine) {
            Ok(call) => {
                if let Some(partial) = build_partial_locator(machine) {
                    self.partial_locators.insert(key, partial);
                }
                self.generation_tracker.track(vm_id, machine.register(A7));
                Ok(call)
            },
            Err(missing) => Err(missing),
        }
    }

    fn finish_ecall(
        &mut self,
        call: C::Call,
        reply: SyscallReply,
        machine: &RecordedMachine,
    ) -> (result: Result<(), TraceError<ReadMiss>>)
        ensures
            old(self).consistent() ==> final(self).consistent(),
    {
        self.collector.finish_ecall(call, reply, machine)
    }

    fn watched_vms(&self) -> (vms: Vec<VmId>) {
        let mut vms = self.generation_tracker.pending_vms();
        let mut others = self.collector.watched_vms();
        let ghost pending = vms@;
        let ghost watched = others@;
        vms.append(&mut others);
        let keys = self.partial_locators.keys();
        let mut i: usize = 0;
        assert forall|vm_id: VmId| #[trigger]
            vms@.contains(vm_id) <==> (self.tracker().spec_pending().contains(vm_id)
                || self.inner().watched().contains(vm_id)) by {
            if pending.contains(vm_id) {
                let j = choose|j: int| 0 <= j < pending.len() && pending[j] == vm_id;
                assert(vms@[j] == vm_id);
            }
            if watched.contains(vm_id) {
                let j = choose|j: int| 0 <= j < watched.len() && watched[j] == vm_id;
                assert(vms@[pending.len() + j] == vm_id);
            }
            assert(pending.to_set().contains(vm_id) == pending.contains(vm_id));
            assert(watched.to_set().contains(vm_id) == watched.contains(vm_id));
        }
        while i < keys.len()
            invariant
                i <= keys@.len(),
                forall|key: CollectorKey| #[trigger]
                    keys@.contains(key) <==> self.asked().contains_key(key),
                forall|vm_id: VmId| #[trigger]
                    vms@.contains(vm_id) <==> (self.tracker().spec_pending().contains(vm_id)
                        || self.inner().watched().contains(vm_id) || exists|j: int|
                        0 <= j < i && (#[trigger] keys@[j]).vm_id == vm_id),
            decreases keys@.len() - i,
        {
            let ghost before = vms@;
            let vm_id: VmId = keys[i].vm_id;
            vms.push(vm_id);
            proof {
                assert(vms@.last() == vm_id);
                assert forall|vm: VmId| #[trigger] vms@.contains(vm) <==> (before.contains(vm) || vm
                    == vm_id) by {
                    if before.contains(vm) {
                        let j = choose|j: int| 0 <= j < before.len() && before[j] == vm;
                        assert(vms@[j] == vm);
                    }
                }
                assert(keys@[i as int].vm_id == vm_id);
            }
            i = i + 1;
        }
        assert forall|vm_id: VmId| #[trigger]
            vms@.to_set().contains(vm_id) == self.watched().contains(vm_id) by {
            if exists|j: int| 0 <= j < keys@.len() && (#[trigger] keys@[j]).vm_id == vm_id {
                let j = choose|j: int| 0 <= j < keys@.len() && (#[trigger] keys@[j]).vm_id == vm_id;
                assert(keys@.contains(keys@[j]));
            }
            if exists|key: CollectorKey| #[trigger]
                self.asked().contains_key(key) && key.vm_id == vm_id {
                let key = choose|key: CollectorKey| #[trigger]
                    self.asked().contains_key(key) && key.vm_id == vm_id;
                assert(keys@.contains(key));
            }
        }
        assert(vms@.to_set() =~= self.watched());
        vms
    }

    fn accepts_machines(
        &self,
        machines: &Vec<(VmId, RecordedMachine)>,
        lengths: &DataLengths,
    ) -> (accepts: bool) {
        if !self.generation_tracker.can_advance(machines) || !self.collector.accepts_machines(
            machines,
            lengths,
        ) {
            return false;
        }
        if self.collector.find_obstacle(machines, lengths).is_some() {
            return true;
        }
        let keys = self.partial_locators.keys();
        let mut i: usize = 0;
        while i < keys.len()
            invariant
                self.inner_is_free(machines@, lengths@),
                i <= keys@.len(),
                forall|key: CollectorKey| #[trigger]
                    keys@.contains(key) <==> self.asked().contains_key(key),
                forall|j: int| 0 <= j < i ==> self.can_look(machines@, #[trigger] keys@[j]),
            decreases keys@.len() - i,
        {
            let key = keys[i];
            assert(keys@.contains(keys@[i as int]));
            assert(self.asked().contains_key(key));
            match (find_machine(machines, key.vm_id), self.partial_locators.get(&key)) {
                (Some(machine), Some(partial)) => {
                    if spawned_itself(partial, key.vm_id, machine) {
                        return false;
                    }
                },
                _ => {
                    return false;
                },
            }
            i = i + 1;
        }
        assert forall|key: CollectorKey| #[trigger]
            self.asked().contains_key(key) implies self.can_look(machines@, key) by {
            assert(keys@.contains(key));
        }
        true
    }

    fn find_obstacle(
        &self,
        machines: &Vec<(VmId, RecordedMachine)>,
        lengths: &DataLengths,
    ) -> (found: Option<PostprocessError<ReadMiss>>) {
        match self.collector.find_obstacle(machines, lengths) {
            Some(error) => Some(error),
            None => self.look_at_all(machines, lengths).1,
        }
    }

    fn postprocess(
        &mut self,
        machines: &Vec<(VmId, RecordedMachine)>,
        lengths: &DataLengths,
    ) -> (result: Result<(), PostprocessError<ReadMiss>>)
        ensures
            old(self).consistent() ==> final(self).consistent(),
    {
        let (found, failure) = match self.collector.find_obstacle(machines, lengths) {
            Some(error) => {
                if error.is_missing() {
                    return Err(error);
                }
                (Vec::new(), Some(error))
            },
            None => {
                let (found, obstacle) = self.look_at_all(machines, lengths);
                match obstacle {
                    Some(error) => {
                        if error.is_missing() {
                            return Err(error);
                        }
                        (found, Some(error))
                    },
                    None => (found, None),
                }
            },
        };
        if let Err(error) = self.collector.postprocess(machines, lengths) {
            self.generation_tracker.advance(machines);
            return Err(error);
        }
        self.generation_tracker.advance(machines);
        self.partial_locators = KeyMap::new();
        let ghost advanced = *self;
        let mut i: usize = 0;
        while i < found.len()
            invariant
                i <= found@.len(),
                self.tracker() == advanced.tracker(),
                self.inner() == advanced.inner(),
                self.asked() == advanced.asked(),
                forall|key: CollectorKey| #[trigger]
                    self.locators().contains_key(key) <==> (advanced.locators().contains_key(key)
                        || exists|j: int| 0 <= j < i && (#[trigger] found@[j]).0 == key),
                forall|key: CollectorKey| #[trigger]
                    self.locators().contains_key(key) ==> {
                        ||| exists|j: int|
                            0 <= j < i && #[trigger] found@[j] == (key, self.locators()[key])
                        ||| {
                            &&& forall|j: int| 0 <= j < i ==> (#[trigger] found@[j]).0 != key
                            &&& self.locators()[key] == advanced.locators()[key]
                        }
                    },
            decreases found@.len() - i,
        {
            let (key, locator) = found[i];
            let ghost before = *self;
            self.data.insert(key, locator);
            proof {
                assert(found@[i as int] == (key, self.locators()[key]));
                assert forall|k: CollectorKey| #[trigger] self.locators().contains_key(k) implies {
                    ||| exists|j: int|
                        0 <= j < i + 1 && #[trigger] found@[j] == (k, self.locators()[k])
                    ||| {
                        &&& forall|j: int| 0 <= j < i + 1 ==> (#[trigger] found@[j]).0 != k
                        &&& self.locators()[k] == advanced.locators()[k]
                    }
                } by {
                    if k != key {
                        assert(before.locators().contains_key(k));
                    }
                }
                assert forall|k: CollectorKey| #[trigger] self.locators().contains_key(k) <==> (
                advanced.locators().contains_key(k) || exists|j: int|
                    0 <= j < i + 1 && (#[trigger] found@[j]).0 == k) by {
                    if k != key {
                        assert(before.locators().contains_key(k) == self.locators().contains_key(k));
                    }
                }
            }
            i = i + 1;
        }
        proof {
            assert forall|key: CollectorKey| #[trigger] self.locators().contains_key(key) <==> (
            old(self).locators().contains_key(key) || exists|locator: BinaryLocator|
                old(self).started(machines@, lengths@, key, locator)) by {
                if exists|j: int| 0 <= j < found@.len() && (#[trigger] found@[j]).0 == key {
                    let j = choose|j: int| 0 <= j < found@.len() && (#[trigger] found@[j]).0 == key;
                    assert(old(self).started(machines@, lengths@, found@[j].0, found@[j].1));
                }
                if exists|locator: BinaryLocator|
                    old(self).started(machines@, lengths@, key, locator) {
                    let locator = choose|locator: BinaryLocator|
                        old(self).started(machines@, lengths@, key, locator);
                    assert(found@.contains((key, locator)));
                }
            }
            assert forall|key: CollectorKey| #[trigger] self.locators().contains_key(key) implies {
                ||| old(self).started(machines@, lengths@, key, self.locators()[key])
                ||| {
                    &&& forall|locator: BinaryLocator|
                        !old(self).started(machines@, lengths@, key, locator)
                    &&& self.locators()[key] == old(self).locators()[key]
                }
            } by {
                if exists|j: int|
                    0 <= j < found@.len() && #[trigger] found@[j] == (key, self.locators()[key]) {
                    let j = choose|j: int|
                        0 <= j < found@.len() && #[trigger] found@[j] == (
                            key,
                            self.locators()[key],
                        );
                    assert(old(self).started(machines@, lengths@, found@[j].0, found@[j].1));
                } else {
                    assert forall|locator: BinaryLocator|
                        !old(self).started(machines@, lengths@, key, locator) by {
                        if old(self).started(machines@, lengths@, key, locator) {
                            assert(found@.contains((key, locator)));
                        }
                    }
                }
            }
        }
        match failure {
            Some(error) => Err(error),
            None => Ok(()),
        }
    }

    fn seal(self) -> (traces: KeyMap<(BinaryLocator, C::Trace)>) {
        let mut locators = self.data;
        let ghost known = self.locators();
        let ghost others = self.inner().collected();
        let mut traces: KeyMap<C::Trace> = self.collector.seal();
        let ghost all = traces@;
        let mut sealed: KeyMap<(BinaryLocator, C::Trace)> = KeyMap::new();
        let _ = traces.len();
        loop
            invariant
                known == self.locators(),
                others == self.inner().collected(),
                others == crate::collector::map_views(all),
                traces@.dom().finite(),
                forall|key: CollectorKey| #[trigger]
                    traces@.contains_key(key) ==> all.contains_key(key) && traces@[key] == all[key],
                forall|key: CollectorKey| #[trigger]
                    traces@.contains_key(key) ==> (locators@.contains_key(key)
                        <==> known.contains_key(key)),
                forall|key: CollectorKey| #[trigger]
                    locators@.contains_key(key) ==> known.contains_key(key) && locators@[key]
                        == known[key],
                forall|key: CollectorKey| #[trigger]
                    sealed@.contains_key(key) <==> (known.contains_key(key) && all.contains_key(key)
                        && !traces@.contains_key(key)),
                forall|key: CollectorKey| #[trigger]
                    sealed@.contains_key(key) ==> sealed@[key] == (known[key], all[key]),
            ensures
                traces@ == Map::<CollectorKey, C::Trace>::empty(),
            decreases traces@.len(),
        {
            let ghost before = traces@;
            match traces.pop() {
                Some((key, trace)) => {
                    assert(before.contains_key(key));
                    if let Some(locator) = locators.remove(&key) {
                        sealed.insert(key, (locator, trace));
                    }
                },
                None => {
                    break ;
                },
            }
        }
        assert(crate::collector::map_views(sealed@) =~= self.collected());
        sealed
    }
}

/// Collectors that know the same generations name the run of a virtual machine alike, so that
/// the locator and the trace of a run meet when the collectors are sealed.
pub proof fn law_collectors_name_runs_alike<C: Collector>(
    collector: &BinaryLocatorCollector<C>,
    vm_id: VmId,
)
    requires
        collector.consistent(),
    ensures
        collector.tracker().spec_key(vm_id) == collector.inner().generations().spec_key(vm_id),
        forall|key: CollectorKey|
            collector.locators().contains_key(key) && #[trigger] collector.inner().collected().contains_key(
                key,
            ) ==> collector.collected().contains_key(key) && collector.collected()[key] == (
                collector.locators()[key],
                collector.inner().collected()[key],
            ),
{
    assert(collector.tracker().spec_generation(vm_id)
        == collector.inner().generations().spec_generation(vm_id));
}

/// What becomes of a program that was to replace that of a virtual machine. If it did, the
/// virtual machine has another run, and that has the locator of the program, with its length;
/// if it did not, no run has it. A run that had a locator has one still.
pub proof fn law_replacing_program_is_located<C: Collector>(
    before: &BinaryLocatorCollector<C>,
    machines: Seq<(VmId, RecordedMachine)>,
    lengths: Map<LengthQuery, Option<u64>>,
    after: &BinaryLocatorCollector<C>,
    vm_id: VmId,
    locator: BinaryLocator,
    earlier: CollectorKey,
)
    requires
        before.can_resume(machines, lengths),
        forall|error: ErrorView<ReadMiss>|
            !#[trigger] before.obstructed(machines, lengths, error),
        before.postprocessed(machines, lengths, after),
        before.asked().contains_key(before.tracker().spec_key(vm_id)),
        before.asked()[before.tracker().spec_key(vm_id)] == PartialLocator::Exec(locator),
    ensures
        before.locators().contains_key(earlier) ==> after.locators().contains_key(earlier),
        ({
            let old_run = before.tracker().spec_key(vm_id);
            let new_run = crate::generation::next_run(before.tracker(), machines, vm_id);
            if crate::generation::replaced(before.tracker(), machines, vm_id) {
                &&& new_run.vm_id == vm_id
                &&& new_run.generation_id == old_run.generation_id + 1
                &&& crate::locator::normalized::<ReadMiss>(locator, lengths) matches Ok(found)
                &&& before.started(machines, lengths, new_run, found)
                &&& after.locators().contains_key(new_run)
                &&& before.started(machines, lengths, new_run, after.locators()[new_run])
                &&& (forall|other: BinaryLocator| #[trigger]
                    before.started(machines, lengths, new_run, other) ==> other == found)
                    ==> after.locators()[new_run] == found
            } else {
                before.target(machines, lengths, old_run) is None
            }
        }),
{
    let old_run = before.tracker().spec_key(vm_id);
    let new_run = crate::generation::next_run(before.tracker(), machines, vm_id);
    assert forall|error: ErrorView<ReadMiss>| before.found(machines, lengths, old_run)
        != Err::<Option<(VmId, BinaryLocator)>, ErrorView<ReadMiss>>(error) by {
        assert(!before.obstructed(machines, lengths, error));
        if before.found(machines, lengths, old_run) == Err::<
            Option<(VmId, BinaryLocator)>,
            ErrorView<ReadMiss>,
        >(error) {
            assert forall|other: ErrorView<ReadMiss>|
                !#[trigger] before.inner().obstructed(machines, lengths, other) by {
                assert(!before.obstructed(machines, lengths, other));
            }
        }
    }
    if crate::generation::replaced(before.tracker(), machines, vm_id) {
        assert(before.tracker().spec_pending().contains(vm_id));
        assert(before.found(machines, lengths, old_run) is Ok) by {
            if let Err(error) = before.found(machines, lengths, old_run) {
                assert(before.found(machines, lengths, old_run) == Err::<
                    Option<(VmId, BinaryLocator)>,
                    ErrorView<ReadMiss>,
                >(error));
            }
        }
        let found = crate::locator::normalized::<ReadMiss>(locator, lengths)->Ok_0;
        assert(before.target(machines, lengths, old_run) == Some((new_run, found)));
        assert(before.started(machines, lengths, new_run, found));
        assert(after.locators().contains_key(new_run));
    }
}

} // verus!
