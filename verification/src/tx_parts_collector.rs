//! The collector that keeps parts of the transaction in place of the system calls that read
//! them.
use vstd::prelude::*;

use crate::codes::SyscallCode;
use crate::collector::{Collector, SyscallReply};
use crate::data::{DataLengths, LengthQuery};
use crate::generation::GenerationTracker;
use crate::keys::{CollectorKey, KeyMap, VmId};
use crate::locator::{ErrorView, PostprocessError};
use crate::machine::{Machine, ReadMiss, Reads, RecordedMachine, A3, A4, A7};
use crate::partial_content::TraceError;
use crate::syscall_collector::{SyscallBasedCollector, TracedCall};
use crate::traces::{Parts, PartsView, Syscalls, ValueView};
use crate::transaction::{locate_input, locate_witness, Transaction, TransactionView};

verus! {

/// How many entries a list of `count` entries has up to and including the one at `index`.
pub open spec fn fill_length(index: usize, count: nat) -> nat {
    if index + 1 < count {
        (index + 1) as nat
    } else {
        count
    }
}

/// The first entries of `all`, of which `filled` are there already, up to and including the
/// one at `index`.
pub open spec fn extended<T>(filled: Seq<T>, all: Seq<T>, index: usize) -> Seq<T> {
    let length = fill_length(index, all.len());
    if filled.len() < length {
        filled + all.subrange(filled.len() as int, length as int)
    } else {
        filled
    }
}

/// The data of cells, all of which could be loaded.
pub open spec fn loaded(data: Seq<Option<Seq<u8>>>) -> Seq<Seq<u8>> {
    data.map_values(|bytes: Option<Seq<u8>>| bytes->0)
}

/// The parts of the transaction that a run has when the system call in the registers is
/// answered by them, if it is: the hash of the transaction, or the first cells, their data or
/// the first witnesses up to the one that the call reads.
pub open spec fn with_answer(
    parts: PartsView,
    tx: TransactionView,
    registers: Seq<u64>,
) -> Option<PartsView> {
    let index = registers[A3 as int];
    let source = registers[A4 as int];
    let input = crate::transaction::located_input(index, source, tx.input_indices);
    let witness = crate::transaction::located_witness(
        index,
        source,
        tx.input_indices,
        tx.output_indices,
    );
    match SyscallCode::spec_of_number(registers[A7 as int]) {
        Some(SyscallCode::LoadTxHash) => Some(PartsView { tx_hash: tx.tx_hash, ..parts }),
        Some(SyscallCode::LoadCell) => match input {
            Some(actual) => Some(
                PartsView {
                    input_cells: extended(parts.input_cells, tx.input_cells, actual),
                    ..parts
                },
            ),
            None => None,
        },
        Some(SyscallCode::LoadCellData) => match input {
            Some(actual) => Some(
                PartsView {
                    input_cell_data: extended(
                        parts.input_cell_data,
                        loaded(tx.input_cell_data),
                        actual,
                    ),
                    ..parts
                },
            ),
            None => None,
        },
        Some(SyscallCode::LoadWitness) => match witness {
            Some(actual) => Some(
                PartsView { witnesses: extended(parts.witnesses, tx.witnesses, actual), ..parts },
            ),
            None => None,
        },
        _ => None,
    }
}

/// Whether the parts that answer the system call in the registers can be had: the index can
/// be counted, and the data of the cells that are missing can be loaded.
pub open spec fn answerable(parts: PartsView, tx: TransactionView, registers: Seq<u64>) -> bool {
    let index = registers[A3 as int];
    let source = registers[A4 as int];
    let input = crate::transaction::located_input(index, source, tx.input_indices);
    let witness = crate::transaction::located_witness(
        index,
        source,
        tx.input_indices,
        tx.output_indices,
    );
    match SyscallCode::spec_of_number(registers[A7 as int]) {
        Some(SyscallCode::LoadCell) => input matches Some(actual) ==> actual < usize::MAX,
        Some(SyscallCode::LoadCellData) => input matches Some(actual) ==> {
            &&& actual < usize::MAX
            &&& all_loaded(parts.input_cell_data.len(), tx.input_cell_data, actual)
        },
        Some(SyscallCode::LoadWitness) => witness matches Some(actual) ==> actual < usize::MAX,
        _ => true,
    }
}

/// Whether the data of the cells from the one at `filled` to the one at `index` could be
/// loaded.
pub open spec fn all_loaded(filled: nat, all: Seq<Option<Seq<u8>>>, index: usize) -> bool {
    forall|i: int| filled <= i < fill_length(index, all.len()) ==> #[trigger] all[i] is Some
}

/// Extends a list of the first entries of `all`.
fn extend(filled: &mut Vec<Vec<u8>>, all: &Vec<Vec<u8>>, index: usize)
    requires
        index < usize::MAX,
    ensures
        crate::traces::byte_strings(final(filled)@) == extended(
            crate::traces::byte_strings(old(filled)@),
            crate::traces::byte_strings(all@),
            index,
        ),
{
    let length: usize = if index + 1 < all.len() {
        index + 1
    } else {
        all.len()
    };
    let mut i: usize = filled.len();
    let ghost start = filled@.len();
    let ghost target = extended(
        crate::traces::byte_strings(old(filled)@),
        crate::traces::byte_strings(all@),
        index,
    );
    while i < length
        invariant
            start <= i,
            start <= length ==> i <= length,
            i == filled@.len(),
            length == fill_length(index, all@.len()),
            start == old(filled)@.len(),
            target == extended(
                crate::traces::byte_strings(old(filled)@),
                crate::traces::byte_strings(all@),
                index,
            ),
            crate::traces::byte_strings(filled@) =~= (if start < length {
                target.take(i as int)
            } else {
                target
            }),
        decreases length - i,
    {
        let entry = all[i].clone();
        assert(entry@ =~= all@[i as int]@);
        filled.push(entry);
        i = i + 1;
    }
    assert(crate::traces::byte_strings(filled@) =~= target);
}

/// Extends a list of the data of the first cells.
fn extend_loaded(filled: &mut Vec<Vec<u8>>, all: &Vec<Option<Vec<u8>>>, index: usize)
    requires
        index < usize::MAX,
        all_loaded(
            old(filled)@.len(),
            all@.map_values(|bytes: Option<Vec<u8>>| crate::transaction::optional_bytes(bytes)),
            index,
        ),
    ensures
        crate::traces::byte_strings(final(filled)@) == extended(
            crate::traces::byte_strings(old(filled)@),
            loaded(
                all@.map_values(|bytes: Option<Vec<u8>>| crate::transaction::optional_bytes(bytes)),
            ),
            index,
        ),
{
    let length: usize = if index + 1 < all.len() {
        index + 1
    } else {
        all.len()
    };
    let mut i: usize = filled.len();
    let ghost start = filled@.len();
    let ghost values = all@.map_values(
        |bytes: Option<Vec<u8>>| crate::transaction::optional_bytes(bytes),
    );
    let ghost target = extended(
        crate::traces::byte_strings(old(filled)@),
        loaded(values),
        index,
    );
    while i < length
        invariant
            start <= i,
            start <= length ==> i <= length,
            i == filled@.len(),
            length == fill_length(index, all@.len()),
            start == old(filled)@.len(),
            values == all@.map_values(
                |bytes: Option<Vec<u8>>| crate::transaction::optional_bytes(bytes),
            ),
            all_loaded(start, values, index),
            target == extended(
                crate::traces::byte_strings(old(filled)@),
                loaded(values),
                index,
            ),
            crate::traces::byte_strings(filled@) =~= (if start < length {
                target.take(i as int)
            } else {
                target
            }),
        decreases length - i,
    {
        assert(values[i as int] is Some);
        if let Some(bytes) = &all[i] {
            let entry = bytes.clone();
            assert(entry@ =~= bytes@);
            filled.push(entry);
        }
        i = i + 1;
    }
    assert(crate::traces::byte_strings(filled@) =~= target);
}

/// Keeps the parts of the transaction that runs read, and traces their other system calls.
pub struct TxPartsBasedCollector {
    syscall_collector: SyscallBasedCollector,
    data: KeyMap<Parts>,
}

/// The parts of a run in `parts`, of which there are none at first.
pub open spec fn parts_of(parts: Map<CollectorKey, PartsView>, key: CollectorKey) -> PartsView {
    if parts.contains_key(key) {
        parts[key]
    } else {
        crate::traces::no_parts()
    }
}

impl TxPartsBasedCollector {
    /// The parts of the transaction that runs read.
    pub closed spec fn parts(&self) -> Map<CollectorKey, PartsView> {
        crate::collector::map_views(self.data@)
    }

    /// The collector of the other system calls.
    pub closed spec fn others(&self) -> SyscallBasedCollector {
        self.syscall_collector
    }

    /// The parts of the current run of a virtual machine.
    pub open spec fn current_parts(&self, vm_id: VmId) -> PartsView {
        parts_of(self.parts(), self.others().tracker().spec_key(vm_id))
    }

    /// A collector that has seen nothing.
    pub fn new() -> (collector: Self)
        ensures
            collector.parts() == Map::<CollectorKey, PartsView>::empty(),
            collector.others().is_new(),
    {
        let collector = TxPartsBasedCollector {
            syscall_collector: SyscallBasedCollector::new(),
            data: KeyMap::new(),
        };
        assert(collector.parts() =~= Map::<CollectorKey, PartsView>::empty());
        collector
    }

    /// Whether the parts that answer a system call can be had.
    fn can_answer(&self, vm_id: VmId, tx: &Transaction, machine: &RecordedMachine) -> (can: bool)
        ensures
            can == answerable(self.current_parts(vm_id), tx@, machine.register_file()),
    {
        let index: u64 = machine.register(A3);
        let source: u64 = machine.register(A4);
        match SyscallCode::try_from(machine.register(A7)) {
            Ok(SyscallCode::LoadCell) => match locate_input(index, source, &tx.script_group) {
                Some(actual) => actual < usize::MAX,
                None => true,
            },
            Ok(SyscallCode::LoadCellData) => match locate_input(index, source, &tx.script_group) {
                Some(actual) => {
                    let filled: usize = match self.data.get(&self.syscall_collector.key(vm_id)) {
                        Some(parts) => parts.input_cell_data.len(),
                        None => 0,
                    };
                    assert(filled == self.current_parts(vm_id).input_cell_data.len());
                    let mut i: usize = filled;
                    if actual == usize::MAX {
                        return false;
                    }
                    let ghost all = tx@.input_cell_data;
                    while i < tx.input_cell_data.len() && i <= actual
                        invariant
                            filled <= i,
                            filled <= fill_length(actual, all.len()) ==> i <= fill_length(
                                actual,
                                all.len(),
                            ),
                            actual < usize::MAX,
                            filled == self.current_parts(vm_id).input_cell_data.len(),
                            all == tx@.input_cell_data,
                            all.len() == tx.input_cell_data@.len(),
                            SyscallCode::spec_of_number(machine.register_file()[A7 as int]) == Some(
                                SyscallCode::LoadCellData,
                            ),
                            crate::transaction::located_input(
                                machine.register_file()[A3 as int],
                                machine.register_file()[A4 as int],
                                tx@.input_indices,
                            ) == Some(actual),
                            forall|j: int| filled <= j < i ==> #[trigger] all[j] is Some,
                        decreases tx.input_cell_data@.len() - i,
                    {
                        if tx.input_cell_data[i].is_none() {
                            assert(all[i as int] is None);
                            return false;
                        }
                        assert(all[i as int] is Some);
                        i = i + 1;
                    }
                    true
                },
                None => true,
            },
            Ok(SyscallCode::LoadWitness) => match locate_witness(index, source, &tx.script_group) {
                Some(actual) => actual < usize::MAX,
                None => true,
            },
            _ => true,
        }
    }

    /// Whether parts of the transaction answer a system call.
    fn is_answered(&self, tx: &Transaction, machine: &RecordedMachine) -> (answered: bool)
        ensures
            forall|parts: PartsView|
                answered == #[trigger] with_answer(parts, tx@, machine.register_file()) is Some,
    {
        let index: u64 = machine.register(A3);
        let source: u64 = machine.register(A4);
        match SyscallCode::try_from(machine.register(A7)) {
            Ok(SyscallCode::LoadTxHash) => true,
            Ok(SyscallCode::LoadCell) | Ok(SyscallCode::LoadCellData) => locate_input(
                index,
                source,
                &tx.script_group,
            ).is_some(),
            Ok(SyscallCode::LoadWitness) => locate_witness(
                index,
                source,
                &tx.script_group,
            ).is_some(),
            _ => false,
        }
    }

    /// Adds the parts that answer a system call to those of the run, if parts answer it.
    fn answer(&mut self, vm_id: VmId, tx: &Transaction, machine: &RecordedMachine) -> (answered:
        bool)
        requires
            answerable(old(self).current_parts(vm_id), tx@, machine.register_file()),
        ensures
            final(self).others() == old(self).others(),
            match with_answer(old(self).current_parts(vm_id), tx@, machine.register_file()) {
                Some(parts) => answered && final(self).parts() == old(self).parts().insert(
                    old(self).others().tracker().spec_key(vm_id),
                    parts,
                ),
                None => !answered && *final(self) == *old(self),
            },
    {
        let index: u64 = machine.register(A3);
        let source: u64 = machine.register(A4);
        let key = self.syscall_collector.key(vm_id);
        let ghost target = with_answer(self.current_parts(vm_id), tx@, machine.register_file());
        match SyscallCode::try_from(machine.register(A7)) {
            Ok(SyscallCode::LoadTxHash) => {
                let mut parts = self.take_parts(&key);
                parts.tx_hash = tx.tx_hash.clone();
                assert(parts.tx_hash@ =~= tx.tx_hash@);
                assert(parts@ =~= target->0);
                self.put_parts(key, parts);
                true
            },
            Ok(SyscallCode::LoadCell) => match locate_input(index, source, &tx.script_group) {
                Some(actual) => {
                    let mut parts = self.take_parts(&key);
                    extend(&mut parts.input_cells, &tx.input_cells, actual);
                    assert(parts@ =~= target->0);
                    self.put_parts(key, parts);
                    true
                },
                None => false,
            },
            Ok(SyscallCode::LoadCellData) => match locate_input(index, source, &tx.script_group) {
                Some(actual) => {
                    let mut parts = self.take_parts(&key);
                    extend_loaded(&mut parts.input_cell_data, &tx.input_cell_data, actual);
                    assert(parts@ =~= target->0);
                    self.put_parts(key, parts);
                    true
                },
                None => false,
            },
            Ok(SyscallCode::LoadWitness) => match locate_witness(index, source, &tx.script_group) {
                Some(actual) => {
                    let mut parts = self.take_parts(&key);
                    extend(&mut parts.witnesses, &tx.witnesses, actual);
                    assert(parts@ =~= target->0);
                    self.put_parts(key, parts);
                    true
                },
                None => false,
            },
            _ => false,
        }
    }

    /// Takes out the parts of a run.
    fn take_parts(&mut self, key: &CollectorKey) -> (parts: Parts)
        ensures
            final(self).others() == old(self).others(),
            final(self).parts() == old(self).parts().remove(*key),
            parts@ == parts_of(old(self).parts(), *key),
    {
        let taken = self.data.remove(key);
        assert(self.parts() =~= old(self).parts().remove(*key));
        match taken {
            Some(parts) => parts,
            None => Parts::default(),
        }
    }

    /// Gives a run its parts.
    fn put_parts(&mut self, key: CollectorKey, parts: Parts)
        ensures
            final(self).others() == old(self).others(),
            final(self).parts() == old(self).parts().insert(key, parts@),
    {
        self.data.insert(key, parts);
        assert(self.parts() =~= old(self).parts().insert(key, parts@));
    }
}

impl Default for TxPartsBasedCollector {
    fn default() -> (collector: Self)
        ensures
            collector.parts() == Map::<CollectorKey, PartsView>::empty(),
            collector.others().is_new(),
    {
        TxPartsBasedCollector::new()
    }
}

/// The parts of a run together with the trace of its other system calls, if it has one.
pub open spec fn sealed_parts(
    parts: Map<CollectorKey, PartsView>,
    traces: Map<CollectorKey, Seq<Option<ValueView>>>,
    key: CollectorKey,
) -> PartsView {
    if traces.contains_key(key) {
        PartsView { other_syscalls: traces[key], ..parts_of(parts, key) }
    } else {
        parts_of(parts, key)
    }
}

impl Collector for TxPartsBasedCollector {
    type Trace = Parts;

    /// A call that parts of the transaction answer is not traced.
    type Call = Option<TracedCall>;

    /// Every run that has parts or traced calls.
    open spec fn collected(&self) -> Map<CollectorKey, PartsView> {
        Map::new(
            |key: CollectorKey|
                self.parts().contains_key(key) || self.others().traces().contains_key(key),
            |key: CollectorKey| sealed_parts(self.parts(), self.others().traces(), key),
        )
    }

    open spec fn generations(&self) -> GenerationTracker {
        self.others().generations()
    }

    open spec fn watched(&self) -> Set<VmId> {
        self.others().watched()
    }

    /// The parts that answer the call can be had, or the call can be traced.
    open spec fn can_begin(&self, vm_id: VmId, tx: TransactionView, registers: Seq<u64>) -> bool {
        match with_answer(self.current_parts(vm_id), tx, registers) {
            Some(_) => answerable(self.current_parts(vm_id), tx, registers),
            None => self.others().can_begin(vm_id, tx, registers),
        }
    }

    /// The parts that answer the call are kept, or the call is traced.
    open spec fn began(
        &self,
        vm_id: VmId,
        tx: TransactionView,
        registers: Seq<u64>,
        reads: Reads<ReadMiss>,
        after: &Self,
        result: Result<Option<TracedCall>, ReadMiss>,
    ) -> bool {
        match with_answer(self.current_parts(vm_id), tx, registers) {
            Some(parts) => {
                &&& result == Ok::<Option<TracedCall>, ReadMiss>(None)
                &&& after.parts() == self.parts().insert(
                    self.others().tracker().spec_key(vm_id),
                    parts,
                )
                &&& after.others() == self.others()
            },
            None => {
                &&& after.parts() == self.parts()
                &&& match result {
                    Ok(Some(call)) => self.others().began(
                        vm_id,
                        tx,
                        registers,
                        reads,
                        &after.others(),
                        Ok(call),
                    ),
                    Ok(None) => false,
                    Err(missing) => self.others().began(
                        vm_id,
                        tx,
                        registers,
                        reads,
                        &after.others(),
                        Err(missing),
                    ),
                }
            },
        }
    }

    /// How a call that parts answer ends does not matter.
    open spec fn finished(
        &self,
        call: Option<TracedCall>,
        reply: SyscallReply,
        registers: Seq<u64>,
        reads: Reads<ReadMiss>,
        after: &Self,
        result: Result<(), TraceError<ReadMiss>>,
    ) -> bool {
        match call {
            None => result is Ok && *after == *self,
            Some(call) => {
                &&& after.parts() == self.parts()
                &&& self.others().finished(call, reply, registers, reads, &after.others(), result)
            },
        }
    }

    open spec fn can_resume(
        &self,
        machines: Seq<(VmId, RecordedMachine)>,
        lengths: Map<LengthQuery, Option<u64>>,
    ) -> bool {
        self.others().can_resume(machines, lengths)
    }

    open spec fn obstructed(
        &self,
        machines: Seq<(VmId, RecordedMachine)>,
        lengths: Map<LengthQuery, Option<u64>>,
        error: ErrorView<ReadMiss>,
    ) -> bool {
        self.others().obstructed(machines, lengths, error)
    }

    open spec fn failed(
        &self,
        machines: Seq<(VmId, RecordedMachine)>,
        lengths: Map<LengthQuery, Option<u64>>,
        after: &Self,
    ) -> bool {
        &&& after.parts() == self.parts()
        &&& self.others().failed(machines, lengths, &after.others())
    }

    open spec fn postprocessed(
        &self,
        machines: Seq<(VmId, RecordedMachine)>,
        lengths: Map<LengthQuery, Option<u64>>,
        after: &Self,
    ) -> bool {
        &&& after.parts() == self.parts()
        &&& self.others().postprocessed(machines, lengths, &after.others())
    }

    fn accepts_call(&self, vm_id: VmId, tx: &Transaction, machine: &RecordedMachine) -> (accepts:
        bool) {
        if self.is_answered(tx, machine) {
            self.can_answer(vm_id, tx, machine)
        } else {
            self.syscall_collector.accepts_call(vm_id, tx, machine)
        }
    }

    fn begin_ecall(
        &mut self,
        vm_id: VmId,
        tx: &Transaction,
        machine: &RecordedMachine,
    ) -> (result: Result<Option<TracedCall>, ReadMiss>) {
        if self.is_answered(tx, machine) {
            self.answer(vm_id, tx, machine);
            return Ok(None);
        }
        match self.syscall_collector.begin_ecall(vm_id, tx, machine) {
            Ok(call) => Ok(Some(call)),
            Err(missing) => Err(missing),
        }
    }

    fn finish_ecall(
        &mut self,
        call: Option<TracedCall>,
        reply: SyscallReply,
        machine: &RecordedMachine,
    ) -> (result: Result<(), TraceError<ReadMiss>>) {
        match call {
            Some(call) => self.syscall_collector.finish_ecall(call, reply, machine),
            None => Ok(()),
        }
    }

    fn watched_vms(&self) -> (vms: Vec<VmId>) {
        self.syscall_collector.watched_vms()
    }

    fn accepts_machines(
        &self,
        machines: &Vec<(VmId, RecordedMachine)>,
        lengths: &DataLengths,
    ) -> (accepts: bool) {
        self.syscall_collector.accepts_machines(machines, lengths)
    }

    fn find_obstacle(
        &self,
        machines: &Vec<(VmId, RecordedMachine)>,
        lengths: &DataLengths,
    ) -> (found: Option<PostprocessError<ReadMiss>>) {
        self.syscall_collector.find_obstacle(machines, lengths)
    }

    fn postprocess(
        &mut self,
        machines: &Vec<(VmId, RecordedMachine)>,
        lengths: &DataLengths,
    ) -> (result: Result<(), PostprocessError<ReadMiss>>) {
        self.syscall_collector.postprocess(machines, lengths)
    }

    fn seal(self) -> (traces: KeyMap<Parts>) {
        let mut sealed = self.data;
        let mut traces: KeyMap<Syscalls> = self.syscall_collector.seal();
        let ghost parts = self.parts();
        let ghost all = self.others().traces();
        let _ = traces.len();
        loop
            invariant
                parts == self.parts(),
                all == self.others().traces(),
                traces@.dom().finite(),
                forall|key: CollectorKey| #[trigger]
                    traces@.contains_key(key) ==> all.contains_key(key) && all[key]
                        == traces@[key]@,
                forall|key: CollectorKey| #[trigger]
                    sealed@.contains_key(key) <==> (parts.contains_key(key) || (all.contains_key(
                        key,
                    ) && !traces@.contains_key(key))),
                forall|key: CollectorKey| #[trigger]
                    sealed@.contains_key(key) ==> sealed@[key]@ == (if traces@.contains_key(key) {
                        parts_of(parts, key)
                    } else {
                        sealed_parts(parts, all, key)
                    }),
            ensures
                traces@ == Map::<CollectorKey, Syscalls>::empty(),
            decreases traces@.len(),
        {
            let ghost before = traces@;
            match traces.pop() {
                Some((key, syscalls)) => {
                    let mut entry = match sealed.remove(&key) {
                        Some(entry) => entry,
                        None => Parts::default(),
                    };
                    assert(before.contains_key(key));
                    assert(entry@ == parts_of(parts, key));
                    entry.other_syscalls = syscalls.syscalls;
                    assert(entry@ =~= sealed_parts(parts, all, key));
                    sealed.insert(key, entry);
                },
                None => {
                    break ;
                },
            }
        }
        assert(crate::collector::map_views(sealed@) =~= self.collected());
        sealed
    }
}

/// Whether parts hold of the transaction only what is in it: its hash, if any, and its first
/// cells, their data and its first witnesses, none left out between them.
pub open spec fn parts_of_transaction(parts: PartsView, tx: TransactionView) -> bool {
    &&& parts.tx_hash == Seq::<u8>::empty() || parts.tx_hash == tx.tx_hash
    &&& parts.input_cells.is_prefix_of(tx.input_cells)
    &&& parts.input_cell_data.is_prefix_of(loaded(tx.input_cell_data))
    &&& parts.witnesses.is_prefix_of(tx.witnesses)
}

/// A list of first entries is extended to another one, which holds the entry at `index` if
/// there is one.
proof fn lemma_extended<T>(filled: Seq<T>, all: Seq<T>, index: usize)
    requires
        filled.is_prefix_of(all),
    ensures
        extended(filled, all, index).is_prefix_of(all),
        filled.is_prefix_of(extended(filled, all, index)),
        index < all.len() ==> index < extended(filled, all, index).len() && extended(
            filled,
            all,
            index,
        )[index as int] == all[index as int],
{
    let next = extended(filled, all, index);
    assert(next =~= all.take(next.len() as int));
    assert(filled =~= next.take(filled.len() as int));
}

/// The parts of a run hold of the transaction only what is in it, and keep doing so. A call
/// that is left out of the trace because parts answer it can be answered by them: they hold
/// the hash, or the cell, the data or the witness that the call reads, if there is one. What
/// parts held before, they still hold.
pub proof fn law_parts_answer_calls(parts: PartsView, tx: TransactionView, registers: Seq<u64>)
    requires
        parts_of_transaction(parts, tx),
        with_answer(parts, tx, registers) is Some,
    ensures
        with_answer(parts, tx, registers) matches Some(next) && {
            let input = crate::transaction::located_input(
                registers[A3 as int],
                registers[A4 as int],
                tx.input_indices,
            );
            let witness = crate::transaction::located_witness(
                registers[A3 as int],
                registers[A4 as int],
                tx.input_indices,
                tx.output_indices,
            );
            let code = SyscallCode::spec_of_number(registers[A7 as int]);
            &&& parts_of_transaction(next, tx)
            &&& parts.input_cells.is_prefix_of(next.input_cells)
            &&& parts.input_cell_data.is_prefix_of(next.input_cell_data)
            &&& parts.witnesses.is_prefix_of(next.witnesses)
            &&& next.other_syscalls == parts.other_syscalls
            &&& code == Some(SyscallCode::LoadTxHash) ==> next.tx_hash == tx.tx_hash
            &&& code == Some(SyscallCode::LoadCell) ==> {
                &&& input matches Some(actual)
                &&& actual < tx.input_cells.len() ==> actual < next.input_cells.len()
                    && next.input_cells[actual as int] == tx.input_cells[actual as int]
            }
            &&& code == Some(SyscallCode::LoadCellData) ==> {
                &&& input matches Some(actual)
                &&& actual < tx.input_cell_data.len() ==> actual < next.input_cell_data.len()
                    && next.input_cell_data[actual as int] == loaded(
                    tx.input_cell_data,
                )[actual as int]
            }
            &&& code == Some(SyscallCode::LoadWitness) ==> {
                &&& witness matches Some(actual)
                &&& actual < tx.witnesses.len() ==> actual < next.witnesses.len()
                    && next.witnesses[actual as int] == tx.witnesses[actual as int]
            }
        },
{
    let input = crate::transaction::located_input(
        registers[A3 as int],
        registers[A4 as int],
        tx.input_indices,
    );
    let witness = crate::transaction::located_witness(
        registers[A3 as int],
        registers[A4 as int],
        tx.input_indices,
        tx.output_indices,
    );
    match SyscallCode::spec_of_number(registers[A7 as int]) {
        Some(SyscallCode::LoadCell) => {
            lemma_extended(parts.input_cells, tx.input_cells, input->0);
        },
        Some(SyscallCode::LoadCellData) => {
            lemma_extended(parts.input_cell_data, loaded(tx.input_cell_data), input->0);
        },
        Some(SyscallCode::LoadWitness) => {
            lemma_extended(parts.witnesses, tx.witnesses, witness->0);
        },
        _ => {},
    }
}

/// Whether every run has only parts of the transaction, and no traced calls among them.
pub open spec fn keeps_parts_of(collector: &TxPartsBasedCollector, tx: TransactionView) -> bool {
    forall|key: CollectorKey| #[trigger]
        collector.parts().contains_key(key) ==> {
            &&& parts_of_transaction(collector.parts()[key], tx)
            &&& collector.parts()[key].other_syscalls == Seq::<Option<ValueView>>::empty()
        }
}

/// Whether a collector of the transaction can come from `before` to `after` in one step.
pub open spec fn collector_step(
    before: &TxPartsBasedCollector,
    tx: TransactionView,
    after: &TxPartsBasedCollector,
) -> bool {
    ||| exists|
        vm_id: VmId,
        registers: Seq<u64>,
        reads: Reads<ReadMiss>,
        result: Result<Option<TracedCall>, ReadMiss>,
    | #[trigger] before.began(vm_id, tx, registers, reads, after, result)
    ||| exists|
        call: Option<TracedCall>,
        reply: SyscallReply,
        registers: Seq<u64>,
        reads: Reads<ReadMiss>,
        result: Result<(), TraceError<ReadMiss>>,
    | #[trigger] before.finished(call, reply, registers, reads, after, result)
    ||| exists|
        machines: Seq<(VmId, RecordedMachine)>,
        lengths: Map<LengthQuery, Option<u64>>,
    | #[trigger] before.postprocessed(machines, lengths, after)
    ||| exists|
        machines: Seq<(VmId, RecordedMachine)>,
        lengths: Map<LengthQuery, Option<u64>>,
    | #[trigger] before.failed(machines, lengths, after)
}

/// Every step of a collector of one transaction keeps that its runs have only parts of that
/// transaction, so that what it is sealed to says the same: parts of the transaction, and
/// beside them exactly the trace of the other calls.
pub proof fn law_sealed_parts_are_of_the_transaction(
    before: &TxPartsBasedCollector,
    tx: TransactionView,
    after: &TxPartsBasedCollector,
    key: CollectorKey,
)
    requires
        keeps_parts_of(before, tx),
        collector_step(before, tx, after),
    ensures
        keeps_parts_of(after, tx),
        after.collected().contains_key(key) ==> {
            &&& parts_of_transaction(after.collected()[key], tx)
            &&& after.collected()[key].other_syscalls == crate::syscall_collector::trace_of(
                after.others().traces(),
                key,
            )
        },
{
    assert(Seq::<Seq<u8>>::empty().is_prefix_of(tx.input_cells));
    assert(Seq::<Seq<u8>>::empty().is_prefix_of(loaded(tx.input_cell_data)));
    assert(Seq::<Seq<u8>>::empty().is_prefix_of(tx.witnesses));
    if after.parts() != before.parts() {
        let (vm_id, registers, reads, result) = choose|
            vm_id: VmId,
            registers: Seq<u64>,
            reads: Reads<ReadMiss>,
            result: Result<Option<TracedCall>, ReadMiss>,
        | #[trigger] before.began(vm_id, tx, registers, reads, after, result);
        let parts = before.current_parts(vm_id);
        law_parts_answer_calls(parts, tx, registers);
        assert forall|k: CollectorKey| #[trigger] after.parts().contains_key(k) implies {
            &&& parts_of_transaction(after.parts()[k], tx)
            &&& after.parts()[k].other_syscalls == Seq::<Option<ValueView>>::empty()
        } by {
            if k != before.others().tracker().spec_key(vm_id) {
                assert(before.parts().contains_key(k));
            }
        }
    }
}

} // verus!
