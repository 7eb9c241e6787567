//! Where the programs of runs come from, from the registers of the call that asks for a program
//! to the locator of the run that it got.
use vstd::prelude::*;

use crate::collector::{Collector, SyscallReply};
use crate::data::{DataPieceId, LengthQuery};
use crate::keys::{CollectorKey, VmId, ROOT_VM_ID};
use crate::locator::{BinaryLocator, ErrorView, PartialLocator, PostprocessError};
use crate::locator_collector::BinaryLocatorCollector;
use crate::machine::{Machine, MemoryRead, ReadMiss, Reads, RecordedMachine};
use crate::partial_content::TraceError;
use crate::transaction::TransactionView;

verus! {

/// Whether a locator is the one that the registers of a call give: the index in register 10,
/// the source in register 11, the data of a cell unless register 12 says otherwise, and the
/// offset and the length in the upper and the lower half of register 13.
pub open spec fn is_in_registers(locator: BinaryLocator, registers: Seq<u64>) -> bool {
    &&& locator.index == registers[10]
    &&& locator.source == registers[11]
    &&& locator.from_cell <==> registers[12] == 0
    &&& locator.offset * 0x1_0000_0000 + locator.length == registers[13]
}

/// A call that replaces the program and a call that starts a virtual machine ask for the
/// program that their registers give; no other call asks for one.
pub proof fn law_program_is_asked_for_in_registers(registers: Seq<u64>)
    ensures
        match crate::locator::requested_by_call(registers) {
            Some(PartialLocator::Exec(locator)) => registers[17] == 2043 && is_in_registers(
                locator,
                registers,
            ),
            Some(PartialLocator::Spawn(locator)) => registers[17] == 2601 && is_in_registers(
                locator,
                registers,
            ),
            None => registers[17] != 2043 && registers[17] != 2601,
        },
{
}

/// The locator of a program that was asked for.
pub open spec fn program_of(asked: PartialLocator) -> BinaryLocator {
    match asked {
        PartialLocator::Exec(locator) => locator,
        PartialLocator::Spawn(locator) => locator,
    }
}

/// The piece of data that a locator names: the data of a cell, or a witness.
pub open spec fn piece_of(locator: BinaryLocator) -> Option<DataPieceId> {
    let index = locator.index as u32;
    if locator.index >= 0x1_0000_0000 {
        None
    } else if locator.from_cell {
        if locator.source == 1 {
            Some(DataPieceId::Input(index))
        } else if locator.source == 2 {
            Some(DataPieceId::Output(index))
        } else if locator.source == 3 {
            Some(DataPieceId::CellDep(index))
        } else if locator.source == 0x0100_0000_0000_0001 {
            Some(DataPieceId::GroupInput(index))
        } else if locator.source == 0x0100_0000_0000_0002 {
            Some(DataPieceId::GroupOutput(index))
        } else {
            None
        }
    } else {
        if locator.source == 1 || locator.source == 2 {
            Some(DataPieceId::Witness(index))
        } else if locator.source == 0x0100_0000_0000_0001 {
            Some(DataPieceId::WitnessGroupInput(index))
        } else if locator.source == 0x0100_0000_0000_0002 {
            Some(DataPieceId::WitnessGroupOutput(index))
        } else {
            None
        }
    }
}

/// Whether a program that was asked for is found with `found`: the same place, and the length
/// that was asked for, or that of the piece of data from the offset on where none was.
pub open spec fn is_found(
    locator: BinaryLocator,
    lengths: Map<LengthQuery, Option<u64>>,
    found: BinaryLocator,
) -> bool {
    &&& found.index == locator.index
    &&& found.source == locator.source
    &&& found.offset == locator.offset
    &&& found.from_cell == locator.from_cell
    &&& found.length > 0
    &&& locator.length > 0 ==> found.length == locator.length
    &&& locator.length == 0 ==> {
        &&& piece_of(locator) matches Some(piece)
        &&& lengths.contains_key(LengthQuery { piece, offset: locator.offset as u64 })
        &&& lengths[LengthQuery { piece, offset: locator.offset as u64 }] == Some(
            found.length as u64,
        )
    }
}

/// A program is found at the place that was asked for and with the length that was asked for.
/// Where the length is zero, it is the length of the piece of data from the offset on: that is
/// what is missing if it is not known yet, and the locator is invalid if the piece does not go
/// so far, if nothing follows the offset, or if the length does not fit. There is an error too
/// where there is no such piece.
pub proof fn law_program_is_found_with_its_length<E>(
    locator: BinaryLocator,
    lengths: Map<LengthQuery, Option<u64>>,
)
    ensures
        match crate::locator::normalized::<E>(locator, lengths) {
            Ok(found) => is_found(locator, lengths, found),
            Err(ErrorView::Length(query)) => {
                &&& locator.length == 0
                &&& piece_of(locator) == Some(query.piece)
                &&& query.offset == locator.offset
                &&& !lengths.contains_key(query)
            },
            Err(ErrorView::InvalidLocator(invalid)) => {
                &&& invalid == locator
                &&& locator.length == 0
                &&& piece_of(locator) matches Some(piece)
                &&& lengths.contains_key(LengthQuery { piece, offset: locator.offset as u64 })
                &&& match lengths[LengthQuery { piece, offset: locator.offset as u64 }] {
                    Some(length) => length == 0 || length >= 0x1_0000_0000,
                    None => true,
                }
            },
            Err(ErrorView::DataPiece(message)) => {
                &&& locator.length == 0
                &&& piece_of(locator) is None
                &&& locator.index < 0x1_0000_0000 ==> message == "Invalid source value: 0x"@
                    + crate::text::hexadecimal(locator.source as nat)
                &&& locator.index >= 0x1_0000_0000 ==> message == "Error casting index to u32: "@
                    + crate::outside::index_error(locator.index)
            },
            Err(ErrorView::Read { .. }) => false,
        },
{
}

/// The program of the first virtual machine comes from the data of a cell dependency, from its
/// start on.
pub proof fn law_first_program_is_a_cell_dependency(index: u64, length: u64)
    ensures
        ({
            let locator = crate::locator_collector::root_locator(index, length);
            &&& locator.index == index
            &&& locator.source == 3
            &&& locator.offset == 0
            &&& locator.from_cell
            &&& length < 0x1_0000_0000 ==> locator.length == length
            &&& (length - locator.length) % 0x1_0000_0000 == 0
        }),
        ROOT_VM_ID == 0,
{
}

/// Whether a run asked for a program for a virtual machine: itself, if its program was to be
/// replaced, or the one whose identifier memory names, if one was to be started.
pub open spec fn asks_for<C: Collector>(
    collector: &BinaryLocatorCollector<C>,
    machines: Seq<(VmId, RecordedMachine)>,
    key: CollectorKey,
    vm_id: VmId,
) -> bool {
    &&& collector.asked().contains_key(key)
    &&& match collector.asked()[key] {
        PartialLocator::Exec(_) => key.vm_id == vm_id,
        PartialLocator::Spawn(_) => crate::vms::machine_of(machines, key.vm_id) matches Some(
            machine,
        ) && crate::partial_content::spawned_process_id(
            machine.register_file(),
            machine.reads(),
        ) == Ok::<u64, ReadMiss>(vm_id),
    }
}

/// What a target of a program says of the run that asked for it.
proof fn lemma_target<C: Collector>(
    before: &BinaryLocatorCollector<C>,
    machines: Seq<(VmId, RecordedMachine)>,
    lengths: Map<LengthQuery, Option<u64>>,
    key: CollectorKey,
)
    requires
        before.asked().contains_key(key),
        before.can_look(machines, key),
    ensures
        before.target(machines, lengths, key) matches Some((run, found)) ==> {
            &&& asks_for(before, machines, key, run.vm_id)
            &&& is_found(program_of(before.asked()[key]), lengths, found)
            &&& run == crate::generation::next_run(before.tracker(), machines, run.vm_id)
        },
{
    law_program_is_found_with_its_length::<ReadMiss>(program_of(before.asked()[key]), lengths);
}

/// Nothing keeps the program of a run from being told.
proof fn lemma_nothing_obstructs<C: Collector>(
    before: &BinaryLocatorCollector<C>,
    machines: Seq<(VmId, RecordedMachine)>,
    lengths: Map<LengthQuery, Option<u64>>,
    key: CollectorKey,
)
    requires
        before.can_resume(machines, lengths),
        forall|error: ErrorView<ReadMiss>|
            !#[trigger] before.obstructed(machines, lengths, error),
        before.asked().contains_key(key),
    ensures
        before.can_look(machines, key),
        before.found(machines, lengths, key) is Ok,
{
    assert forall|other: ErrorView<ReadMiss>|
        !#[trigger] before.inner().obstructed(machines, lengths, other) by {
        assert(!before.obstructed(machines, lengths, other));
    }
    assert(before.inner_is_free(machines, lengths));
    if let Err(error) = before.found(machines, lengths, key) {
        assert(!before.obstructed(machines, lengths, error));
    }
}

/// A virtual machine that was started runs the program that it was started with. Where a run
/// asked for that, and memory names the virtual machine, there is a locator of the run that
/// this virtual machine is in after the generations were taken in, whatever run asked for it:
/// generation zero for a virtual machine that never replaced its program. It is the locator of
/// the program that was asked for, with its length, if no other run asked for a program of that
/// virtual machine.
pub proof fn law_started_program_is_located<C: Collector>(
    before: &BinaryLocatorCollector<C>,
    machines: Seq<(VmId, RecordedMachine)>,
    lengths: Map<LengthQuery, Option<u64>>,
    after: &BinaryLocatorCollector<C>,
    key: CollectorKey,
    locator: BinaryLocator,
    machine: RecordedMachine,
    at: u64,
    pointer: Seq<u8>,
    identifier: Seq<u8>,
)
    requires
        before.can_resume(machines, lengths),
        forall|error: ErrorView<ReadMiss>|
            !#[trigger] before.obstructed(machines, lengths, error),
        before.postprocessed(machines, lengths, after),
        crate::generation::advanced(before.generations(), machines, after.generations()),
        before.asked().contains_key(key),
        before.asked()[key] == PartialLocator::Spawn(locator),
        crate::vms::machine_of(machines, key.vm_id) == Some(machine),
        at == machine.register_file()[14] + 16 || at == machine.register_file()[14] + 16
            - 0x1_0000_0000_0000_0000,
        (machine.reads())(MemoryRead::Load64 { addr: at }) == Ok::<Seq<u8>, ReadMiss>(pointer),
        (machine.reads())(
            MemoryRead::Load64 { addr: crate::bytes::little_endian(pointer) as u64 },
        ) == Ok::<Seq<u8>, ReadMiss>(identifier),
    ensures
        ({
            let started = crate::bytes::little_endian(identifier) as u64;
            let run = CollectorKey {
                vm_id: started,
                generation_id: after.tracker().spec_generation(started),
            };
            &&& after.locators().contains_key(run)
            &&& (forall|other: CollectorKey|
                other != key ==> !#[trigger] asks_for(before, machines, other, started))
                ==> is_found(locator, lengths, after.locators()[run])
            &&& !before.tracker().spec_pending().contains(started)
                ==> after.tracker().spec_generation(started) == before.tracker().spec_generation(
                started,
            )
            &&& before.tracker().is_new() ==> run.generation_id == 0
        }),
{
    let started = crate::bytes::little_endian(identifier) as u64;
    let run = CollectorKey {
        vm_id: started,
        generation_id: after.tracker().spec_generation(started),
    };
    assert(run == crate::generation::next_run(before.tracker(), machines, started));
    lemma_nothing_obstructs(before, machines, lengths, key);
    let target = before.target(machines, lengths, key);
    assert(target matches Some((other, _)) && other == run);
    assert(before.started(machines, lengths, run, (target->0).1));
    assert(after.locators().contains_key(run));
    if forall|other: CollectorKey|
        other != key ==> !#[trigger] asks_for(before, machines, other, started) {
        let kept = after.locators()[run];
        assert(before.started(machines, lengths, run, kept));
        let asking = choose|asking: CollectorKey| #[trigger]
            before.asked().contains_key(asking) && before.target(machines, lengths, asking)
                == Some((run, kept));
        lemma_nothing_obstructs(before, machines, lengths, asking);
        lemma_target(before, machines, lengths, asking);
        assert(asking == key);
    }
}

/// A virtual machine whose program was replaced runs the program that it asked for. Where it
/// asked for that, and the register of the result is zero now that it is runnable, its next
/// generation has a locator; it is that of the program that was asked for, with its length, if
/// no other run asked for a program of the virtual machine. Where the register is not zero, or
/// the program was not to be replaced, no run gets that locator.
pub proof fn law_replacing_program_is_located_or_not<C: Collector>(
    before: &BinaryLocatorCollector<C>,
    machines: Seq<(VmId, RecordedMachine)>,
    lengths: Map<LengthQuery, Option<u64>>,
    after: &BinaryLocatorCollector<C>,
    key: CollectorKey,
    locator: BinaryLocator,
    machine: RecordedMachine,
    run: CollectorKey,
)
    requires
        before.can_resume(machines, lengths),
        forall|error: ErrorView<ReadMiss>|
            !#[trigger] before.obstructed(machines, lengths, error),
        before.postprocessed(machines, lengths, after),
        before.asked().contains_key(key),
        before.asked()[key] == PartialLocator::Exec(locator),
        key.generation_id == before.tracker().spec_generation(key.vm_id),
        crate::vms::machine_of(machines, key.vm_id) == Some(machine),
        forall|other: CollectorKey|
            other != key ==> !#[trigger] asks_for(before, machines, other, run.vm_id),
    ensures
        if run.vm_id == key.vm_id && run.generation_id == key.generation_id + 1
            && before.tracker().spec_pending().contains(key.vm_id) && machine.register_file()[10]
            == 0 {
            &&& after.locators().contains_key(run)
            &&& is_found(locator, lengths, after.locators()[run])
        } else {
            &&& after.locators().contains_key(run) == before.locators().contains_key(run)
            &&& before.locators().contains_key(run) ==> after.locators()[run]
                == before.locators()[run]
        },
{
    lemma_nothing_obstructs(before, machines, lengths, key);
    lemma_target(before, machines, lengths, key);
    assert forall|found: BinaryLocator| #[trigger]
        before.started(machines, lengths, run, found) implies before.target(machines, lengths, key)
        == Some((run, found)) by {
        let asking = choose|asking: CollectorKey| #[trigger]
            before.asked().contains_key(asking) && before.target(machines, lengths, asking)
                == Some((run, found));
        lemma_nothing_obstructs(before, machines, lengths, asking);
        lemma_target(before, machines, lengths, asking);
        assert(asking == key);
    }
    if before.tracker().spec_pending().contains(key.vm_id) && machine.register_file()[10] == 0 {
        let target = before.target(machines, lengths, key);
        assert(target is Some);
        assert(before.started(machines, lengths, (target->0).0, (target->0).1));
        if run.vm_id == key.vm_id && run.generation_id == key.generation_id + 1 {
            assert((target->0).0 == run);
            assert(after.locators().contains_key(run));
            assert(before.started(machines, lengths, run, after.locators()[run]));
        } else {
            assert((target->0).0 != run);
            assert forall|found: BinaryLocator| !before.started(machines, lengths, run, found) by {}
            assert(after.locators().contains_key(run) == before.locators().contains_key(run));
        }
    } else {
        assert(before.target(machines, lengths, key) is None);
        assert forall|found: BinaryLocator| !before.started(machines, lengths, run, found) by {}
        assert(after.locators().contains_key(run) == before.locators().contains_key(run));
    }
}

/// After it was told what became of the programs that were asked for, none is asked for any
/// more. A run that had a locator has one still. A locator that is new is that of a program
/// that was asked for, for the virtual machine of its run; and the run of a virtual machine for
/// which none was asked for keeps what it had. The collector inside is told the same.
pub proof fn law_locators_are_of_programs_asked_for<C: Collector>(
    before: &BinaryLocatorCollector<C>,
    machines: Seq<(VmId, RecordedMachine)>,
    lengths: Map<LengthQuery, Option<u64>>,
    after: &BinaryLocatorCollector<C>,
    run: CollectorKey,
)
    requires
        before.can_resume(machines, lengths),
        ({
            ||| before.postprocessed(machines, lengths, after) && forall|
                error: ErrorView<ReadMiss>,
            | !#[trigger] before.obstructed(machines, lengths, error)
            ||| before.failed(machines, lengths, after) && forall|error: ErrorView<ReadMiss>|
                !#[trigger] before.inner().obstructed(machines, lengths, error)
        }),
    ensures
        before.inner().postprocessed(machines, lengths, &after.inner()),
        after.asked() == Map::<CollectorKey, PartialLocator>::empty(),
        before.locators().contains_key(run) ==> after.locators().contains_key(run),
        after.locators().contains_key(run) ==> {
            ||| before.locators().contains_key(run) && after.locators()[run]
                == before.locators()[run]
            ||| exists|key: CollectorKey|
                #[trigger] asks_for(before, machines, key, run.vm_id) && is_found(
                    program_of(before.asked()[key]),
                    lengths,
                    after.locators()[run],
                )
        },
{
    assert forall|other: ErrorView<ReadMiss>|
        !#[trigger] before.inner().obstructed(machines, lengths, other) by {
        if before.inner().obstructed(machines, lengths, other) {
            assert(before.obstructed(machines, lengths, other));
        }
    }
    assert(before.inner_is_free(machines, lengths));
    if after.locators().contains_key(run) && before.started(
        machines,
        lengths,
        run,
        after.locators()[run],
    ) {
        let asking = choose|asking: CollectorKey| #[trigger]
            before.asked().contains_key(asking) && before.target(machines, lengths, asking)
                == Some((run, after.locators()[run]));
        lemma_target(before, machines, lengths, asking);
    }
}

/// Where the collector inside fails, nothing is told of the programs that were asked for.
pub proof fn law_failure_inside_leaves_programs_asked_for<C: Collector>(
    before: &BinaryLocatorCollector<C>,
    machines: Seq<(VmId, RecordedMachine)>,
    lengths: Map<LengthQuery, Option<u64>>,
    after: &BinaryLocatorCollector<C>,
    error: ErrorView<ReadMiss>,
)
    requires
        before.inner().obstructed(machines, lengths, error),
        before.failed(machines, lengths, after),
    ensures
        before.obstructed(machines, lengths, error),
        before.inner().failed(machines, lengths, &after.inner()),
        after.asked() == before.asked(),
        after.locators() == before.locators(),
{
    assert(!before.inner_is_free(machines, lengths));
}

/// What keeps the collector from telling what became of the programs that were asked for: what
/// keeps the collector inside, or, if nothing does, a read that is missing to tell which virtual
/// machine was started, or what keeps the length of a program that runs now from being told.
pub proof fn law_what_keeps_programs_from_being_told<C: Collector>(
    before: &BinaryLocatorCollector<C>,
    machines: Seq<(VmId, RecordedMachine)>,
    lengths: Map<LengthQuery, Option<u64>>,
    error: ErrorView<ReadMiss>,
)
    requires
        before.can_resume(machines, lengths),
        forall|other: ErrorView<ReadMiss>|
            !#[trigger] before.inner().obstructed(machines, lengths, other),
    ensures
        before.obstructed(machines, lengths, error) <==> exists|key: CollectorKey|
            {
                let machine = crate::vms::machine_of(machines, key.vm_id)->0;
                let process_id = crate::partial_content::spawned_process_id(
                    machine.register_file(),
                    machine.reads(),
                );
                let generation = before.tracker().spec_generation(key.vm_id);
                let replaced = before.tracker().spec_pending().contains(key.vm_id)
                    && machine.register_file()[10] == 0;
                &&& #[trigger] before.asked().contains_key(key)
                &&& match before.asked()[key] {
                    PartialLocator::Spawn(locator) => match process_id {
                        Err(missing) => error == (ErrorView::Read { vm_id: key.vm_id, missing }),
                        Ok(_) => crate::locator::normalized::<ReadMiss>(locator, lengths) == Err::<
                            BinaryLocator,
                            ErrorView<ReadMiss>,
                        >(error),
                    },
                    PartialLocator::Exec(locator) => {
                        &&& replaced || key.generation_id != generation
                        &&& replaced ==> key.generation_id != generation + 1
                        &&& crate::locator::normalized::<ReadMiss>(locator, lengths) == Err::<
                            BinaryLocator,
                            ErrorView<ReadMiss>,
                        >(error)
                    },
                }
            },
{
    assert(before.inner_is_free(machines, lengths));
    if before.obstructed(machines, lengths, error) {
        let key = choose|key: CollectorKey| #[trigger]
            before.asked().contains_key(key) && before.found(machines, lengths, key) == Err::<
                Option<(VmId, BinaryLocator)>,
                ErrorView<ReadMiss>,
            >(error);
        assert(before.can_look(machines, key));
        assert(before.asked().contains_key(key));
    }
}

/// The collector can look at virtual machines if it can count their generations, the collector
/// inside can look at them, and, where nothing keeps that one from it, each virtual machine that
/// asked for a program is among them and did not start itself.
pub proof fn law_when_programs_can_be_told<C: Collector>(
    before: &BinaryLocatorCollector<C>,
    machines: Seq<(VmId, RecordedMachine)>,
    lengths: Map<LengthQuery, Option<u64>>,
)
    ensures
        before.can_resume(machines, lengths) <==> {
            &&& before.tracker().resumable(machines)
            &&& before.inner().can_resume(machines, lengths)
            &&& (forall|error: ErrorView<ReadMiss>|
                !#[trigger] before.inner().obstructed(machines, lengths, error)) ==> forall|
                key: CollectorKey,
            | #[trigger]
                before.asked().contains_key(key) ==> {
                    &&& crate::vms::machine_of(machines, key.vm_id) is Some
                    &&& before.asked()[key] is Spawn ==> !asks_for(
                        before,
                        machines,
                        key,
                        key.vm_id,
                    )
                }
        },
{
    if before.inner_is_free(machines, lengths) {
        assert forall|key: CollectorKey| #[trigger]
            before.asked().contains_key(key) implies before.can_look(machines, key) == {
            &&& crate::vms::machine_of(machines, key.vm_id) is Some
            &&& before.asked()[key] is Spawn ==> !asks_for(before, machines, key, key.vm_id)
        } by {}
    }
}

/// A call that asks for a program is kept under the run that its virtual machine is in; one
/// that does not, and how a call ends, change nothing of what was asked for. The collector
/// inside is told the same.
pub proof fn law_program_is_asked_for_by_its_run<C: Collector>(
    before: &BinaryLocatorCollector<C>,
    vm_id: VmId,
    tx: TransactionView,
    registers: Seq<u64>,
    reads: Reads<ReadMiss>,
    after: &BinaryLocatorCollector<C>,
    result: Result<C::Call, ReadMiss>,
    other: CollectorKey,
)
    requires
        before.began(vm_id, tx, registers, reads, after, result),
        result is Ok,
    ensures
        ({
            let key = CollectorKey {
                vm_id,
                generation_id: before.tracker().spec_generation(vm_id),
            };
            &&& before.inner().began(vm_id, tx, registers, reads, &after.inner(), result)
            &&& after.locators() == before.locators()
            &&& registers[17] == 2043 ==> after.asked().contains_key(key) && (
            after.asked()[key] matches PartialLocator::Exec(locator) && is_in_registers(
                locator,
                registers,
            ))
            &&& registers[17] == 2601 ==> after.asked().contains_key(key) && (
            after.asked()[key] matches PartialLocator::Spawn(locator) && is_in_registers(
                locator,
                registers,
            ))
            &&& other != key || registers[17] != 2043 && registers[17] != 2601
                ==> after.asked().contains_key(other) == before.asked().contains_key(other) && (
            before.asked().contains_key(other) ==> after.asked()[other] == before.asked()[other])
        }),
{
    law_program_is_asked_for_in_registers(registers);
}

/// How a call ends changes nothing of programs, and a call is accepted if the collector inside
/// accepts it and the run of its virtual machine waits for no program.
pub proof fn law_programs_stay_when_a_call_ends<C: Collector>(
    before: &BinaryLocatorCollector<C>,
    call: C::Call,
    reply: SyscallReply,
    registers: Seq<u64>,
    reads: Reads<ReadMiss>,
    after: &BinaryLocatorCollector<C>,
    result: Result<(), TraceError<ReadMiss>>,
    vm_id: VmId,
    tx: TransactionView,
)
    ensures
        before.finished(call, reply, registers, reads, after, result) <==> {
            &&& before.inner().finished(call, reply, registers, reads, &after.inner(), result)
            &&& after.locators() == before.locators()
            &&& after.asked() == before.asked()
        },
        before.can_begin(vm_id, tx, registers) <==> {
            &&& before.inner().can_begin(vm_id, tx, registers)
            &&& !before.asked().contains_key(
                CollectorKey { vm_id, generation_id: before.tracker().spec_generation(vm_id) },
            )
        },
{
}

/// What is collected of a run is its locator and what the collector inside has of it; a run
/// without one of them is not collected. Virtual machines are watched that asked for a program
/// or that the collector inside watches.
pub proof fn law_collected_locator_and_trace<C: Collector>(
    collector: &BinaryLocatorCollector<C>,
    key: CollectorKey,
    vm_id: VmId,
)
    ensures
        collector.collected().contains_key(key) <==> collector.locators().contains_key(key)
            && collector.inner().collected().contains_key(key),
        collector.collected().contains_key(key) ==> collector.collected()[key].0
            == collector.locators()[key] && collector.collected()[key].1
            == collector.inner().collected()[key],
        collector.asked().contains_key(key) ==> collector.watched().contains(key.vm_id),
        collector.tracker().spec_pending().contains(vm_id) ==> collector.watched().contains(vm_id),
        collector.inner().watched().contains(vm_id) ==> collector.watched().contains(vm_id),
        collector.watched().contains(vm_id) ==> {
            ||| collector.tracker().spec_pending().contains(vm_id)
            ||| collector.inner().watched().contains(vm_id)
            ||| exists|asking: CollectorKey| #[trigger]
                collector.asked().contains_key(asking) && asking.vm_id == vm_id
        },
        collector.generations() == collector.tracker(),
{
}

/// Only a read that was not supplied yet and a length that is not known yet can be supplied; any
/// other error is a failure.
pub proof fn law_what_can_be_supplied(error: PostprocessError<ReadMiss>)
    ensures
        match error {
            PostprocessError::Read { vm_id, missing } => {
                &&& error@ == (ErrorView::Read { vm_id, missing })
                &&& crate::locator::only_missing(error@) <==> missing is Unknown
            },
            PostprocessError::Length(query) => {
                &&& error@ == ErrorView::<ReadMiss>::Length(query)
                &&& crate::locator::only_missing(error@)
            },
            PostprocessError::DataPiece(message) => {
                &&& error@ == ErrorView::<ReadMiss>::DataPiece(message@)
                &&& !crate::locator::only_missing(error@)
            },
            PostprocessError::InvalidLocator(locator) => {
                &&& error@ == ErrorView::<ReadMiss>::InvalidLocator(locator)
                &&& !crate::locator::only_missing(error@)
            },
        },
{
}

} // verus!
