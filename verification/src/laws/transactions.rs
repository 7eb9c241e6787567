//! Which system calls parts of the transaction stand for, and which parts those are.
//! The index that a call asks for is in register 13, and the source in register 14.
use vstd::prelude::*;

use crate::collector::{Collector, SyscallReply};
use crate::data::LengthQuery;
use crate::keys::{CollectorKey, VmId};
use crate::locator::ErrorView;
use crate::machine::{ReadMiss, Reads, RecordedMachine};
use crate::partial_content::TraceError;
use crate::syscall_collector::TracedCall;
use crate::traces::{Parts, PartsView, Syscall, SyscallValue, Syscalls, ValueView};
use crate::transaction::{Transaction, TransactionView};
use crate::tx_parts_collector::TxPartsBasedCollector;

verus! {

/// The input that an index and a source name: the one at the index among the inputs of the
/// transaction (source 1), or among those of the script group.
pub open spec fn named_input(tx: TransactionView, registers: Seq<u64>) -> Option<usize> {
    let index = registers[13] as usize;
    if registers[14] == 1 {
        Some(index)
    } else if registers[14] == 0x0100_0000_0000_0001 && index < tx.input_indices.len() {
        Some(tx.input_indices[index as int])
    } else {
        None
    }
}

/// The witness that an index and a source name: the one of an input (source 1) or of an output
/// (source 2), of the transaction or of the script group.
pub open spec fn named_witness(tx: TransactionView, registers: Seq<u64>) -> Option<usize> {
    let index = registers[13] as usize;
    if registers[14] == 1 || registers[14] == 2 {
        Some(index)
    } else if registers[14] == 0x0100_0000_0000_0001 && index < tx.input_indices.len() {
        Some(tx.input_indices[index as int])
    } else if registers[14] == 0x0100_0000_0000_0002 && index < tx.output_indices.len() {
        Some(tx.output_indices[index as int])
    } else {
        None
    }
}

/// Whether a call loads the hash of the transaction, a cell of an input that it names, the data
/// of one, or a witness that it names.
pub open spec fn loads_part(tx: TransactionView, registers: Seq<u64>) -> bool {
    ||| registers[17] == 2061
    ||| registers[17] == 2071 && named_input(tx, registers) is Some
    ||| registers[17] == 2092 && named_input(tx, registers) is Some
    ||| registers[17] == 2074 && named_witness(tx, registers) is Some
}

/// The parts of a run, none if it has none yet.
pub open spec fn held(collector: &TxPartsBasedCollector, key: CollectorKey) -> PartsView {
    if collector.parts().contains_key(key) {
        collector.parts()[key]
    } else {
        PartsView {
            tx_hash: Seq::empty(),
            input_cells: Seq::empty(),
            input_cell_data: Seq::empty(),
            witnesses: Seq::empty(),
            other_syscalls: Seq::empty(),
        }
    }
}

/// Whether `after` is `before` with the entries of `all` behind it up to the one at `index`,
/// as far as there are any, and not longer.
pub open spec fn filled_up_to(
    before: Seq<Seq<u8>>,
    after: Seq<Seq<u8>>,
    all: Seq<Option<Seq<u8>>>,
    index: usize,
) -> bool {
    &&& before.len() <= after.len()
    &&& after.len() <= before.len() || after.len() <= all.len() && after.len() <= index + 1
    &&& index < all.len() ==> index < after.len()
    &&& index >= all.len() ==> all.len() <= after.len()
    &&& forall|i: int| 0 <= i < before.len() ==> #[trigger] after[i] == before[i]
    &&& forall|i: int|
        before.len() <= i < after.len() ==> (all[i] matches Some(entry) ==> #[trigger] after[i]
            == entry)
}

/// The entries of a list, all of which are there.
pub open spec fn all_there(entries: Seq<Seq<u8>>) -> Seq<Option<Seq<u8>>> {
    Seq::new(entries.len(), |i: int| Some(entries[i]))
}

/// An index and a source name what they say.
pub proof fn law_index_and_source_name_an_entry(tx: TransactionView, registers: Seq<u64>)
    ensures
        crate::transaction::located_input(registers[13], registers[14], tx.input_indices)
            == named_input(tx, registers),
        crate::transaction::located_witness(
            registers[13],
            registers[14],
            tx.input_indices,
            tx.output_indices,
        ) == named_witness(tx, registers),
{
}

/// A call is left out of the trace if and only if it loads the hash of the transaction, a cell
/// of an input or its data, or a witness. Every other call begins as a traced call of the run
/// that its virtual machine is in, with what is noted of it, unless a read is missing for that;
/// and it changes neither parts nor traces.
pub proof fn law_only_calls_that_load_parts_are_left_out(
    before: &TxPartsBasedCollector,
    vm_id: VmId,
    tx: TransactionView,
    registers: Seq<u64>,
    reads: Reads<ReadMiss>,
    after: &TxPartsBasedCollector,
    result: Result<Option<TracedCall>, ReadMiss>,
)
    requires
        before.began(vm_id, tx, registers, reads, after, result),
    ensures
        result == Ok::<Option<TracedCall>, ReadMiss>(None) <==> loads_part(tx, registers),
        !loads_part(tx, registers) ==> {
            &&& after.parts() == before.parts()
            &&& after.others().traces() == before.others().traces()
            &&& after.others().waiting() == before.others().waiting()
            &&& match crate::partial_content::noted(registers, reads) {
                Ok(content) => result == Ok::<Option<TracedCall>, ReadMiss>(
                    Some(
                        TracedCall {
                            key: CollectorKey {
                                vm_id,
                                generation_id: before.others().tracker().spec_generation(vm_id),
                            },
                            content,
                        },
                    ),
                ),
                Err(missing) => result == Err::<Option<TracedCall>, ReadMiss>(missing),
            }
        },
{
    law_index_and_source_name_an_entry(tx, registers);
}

/// A call that is left out of the trace adds to the parts of the run that its virtual machine
/// is in what it loads: the hash of the transaction, or the cells, the data or the witnesses
/// up to the one that it names, and nothing beyond it. It changes nothing else.
pub proof fn law_call_that_is_left_out_adds_its_part(
    before: &TxPartsBasedCollector,
    vm_id: VmId,
    tx: TransactionView,
    registers: Seq<u64>,
    reads: Reads<ReadMiss>,
    after: &TxPartsBasedCollector,
    other: CollectorKey,
)
    requires
        before.began(vm_id, tx, registers, reads, after, Ok(None)),
    ensures
        ({
            let key = CollectorKey {
                vm_id,
                generation_id: before.others().tracker().spec_generation(vm_id),
            };
            let old_parts = held(before, key);
            let new_parts = held(after, key);
            &&& after.others() == before.others()
            &&& after.parts().contains_key(key)
            &&& other != key ==> after.parts().contains_key(other) == before.parts().contains_key(
                other,
            ) && held(after, other) == held(before, other)
            &&& new_parts.other_syscalls == old_parts.other_syscalls
            &&& new_parts.tx_hash == if registers[17] == 2061 {
                tx.tx_hash
            } else {
                old_parts.tx_hash
            }
            &&& if registers[17] == 2071 {
                filled_up_to(
                    old_parts.input_cells,
                    new_parts.input_cells,
                    all_there(tx.input_cells),
                    named_input(tx, registers)->0,
                )
            } else {
                new_parts.input_cells == old_parts.input_cells
            }
            &&& if registers[17] == 2092 {
                filled_up_to(
                    old_parts.input_cell_data,
                    new_parts.input_cell_data,
                    tx.input_cell_data,
                    named_input(tx, registers)->0,
                )
            } else {
                new_parts.input_cell_data == old_parts.input_cell_data
            }
            &&& if registers[17] == 2074 {
                filled_up_to(
                    old_parts.witnesses,
                    new_parts.witnesses,
                    all_there(tx.witnesses),
                    named_witness(tx, registers)->0,
                )
            } else {
                new_parts.witnesses == old_parts.witnesses
            }
        }),
{
    law_index_and_source_name_an_entry(tx, registers);
}

/// A call that loads a part is accepted unless the index of the part is the last one that there
/// can be, or data that it would add could not be loaded. Any other call is accepted unless the
/// run of its virtual machine waits for another one, or it maps data as code.
pub proof fn law_which_calls_are_accepted(
    collector: &TxPartsBasedCollector,
    vm_id: VmId,
    tx: TransactionView,
    registers: Seq<u64>,
)
    ensures
        ({
            let key = CollectorKey {
                vm_id,
                generation_id: collector.others().tracker().spec_generation(vm_id),
            };
            let filled = held(collector, key).input_cell_data.len();
            collector.can_begin(vm_id, tx, registers) <==> if !loads_part(tx, registers) {
                !collector.others().waiting().contains_key(key) && registers[17] != 2091
            } else if registers[17] == 2061 {
                true
            } else if registers[17] == 2071 {
                named_input(tx, registers) != Some(usize::MAX)
            } else if registers[17] == 2092 {
                &&& named_input(tx, registers) != Some(usize::MAX)
                &&& forall|i: int|
                    filled <= i <= named_input(tx, registers)->0 && i < tx.input_cell_data.len()
                        ==> #[trigger] tx.input_cell_data[i] is Some
            } else {
                named_witness(tx, registers) != Some(usize::MAX)
            }
        }),
{
    law_index_and_source_name_an_entry(tx, registers);
}

/// What is collected of a run: the parts that it has, and the trace of its other calls if it
/// has one. A run that has neither is not collected.
pub proof fn law_collected_parts_and_trace(collector: &TxPartsBasedCollector, key: CollectorKey)
    ensures
        collector.collected().contains_key(key) <==> collector.parts().contains_key(key)
            || collector.others().traces().contains_key(key),
        collector.collected().contains_key(key) ==> {
            let sealed = collector.collected()[key];
            &&& sealed.tx_hash == held(collector, key).tx_hash
            &&& sealed.input_cells == held(collector, key).input_cells
            &&& sealed.input_cell_data == held(collector, key).input_cell_data
            &&& sealed.witnesses == held(collector, key).witnesses
            &&& sealed.other_syscalls == if collector.others().traces().contains_key(key) {
                collector.others().traces()[key]
            } else {
                held(collector, key).other_syscalls
            }
        },
{
}

/// A traced call that was processed has its outcome at the end of the other calls of its run,
/// behind those that were there. A call that did not end so, or of which nothing was noted, and
/// one that was left out of the trace change nothing of what is collected; neither does one
/// whose outcome cannot be told, for which the error says why.
pub proof fn law_processed_call_ends_among_the_other_calls(
    before: &TxPartsBasedCollector,
    call: Option<TracedCall>,
    reply: SyscallReply,
    registers: Seq<u64>,
    reads: Reads<ReadMiss>,
    after: &TxPartsBasedCollector,
    result: Result<(), TraceError<ReadMiss>>,
    key: CollectorKey,
)
    requires
        before.finished(call, reply, registers, reads, after, result),
    ensures
        after.parts() == before.parts(),
        match (call, reply) {
            (
                Some(TracedCall { key: run, content: Some(content) }),
                SyscallReply::Processed,
            ) => match crate::partial_content::outcome(content, registers, reads) {
                Ok(value) => {
                    &&& result is Ok
                    &&& after.collected().contains_key(run)
                    &&& after.collected()[run].other_syscalls == (
                    if before.others().traces().contains_key(run) {
                        before.others().traces()[run]
                    } else {
                        Seq::empty()
                    }).push(Some(value))
                    &&& key != run ==> after.collected().contains_key(key)
                        == before.collected().contains_key(key) && (
                    before.collected().contains_key(key) ==> after.collected()[key]
                        == before.collected()[key])
                    &&& !after.others().waiting().contains_key(run)
                },
                Err(error) => {
                    &&& result == Err::<(), TraceError<ReadMiss>>(error)
                    &&& after.collected() =~= before.collected()
                    &&& after.others().waiting() == before.others().waiting()
                },
            },
            (
                Some(TracedCall { key: run, content: Some(content) }),
                SyscallReply::Yield,
            ) => {
                &&& result is Ok
                &&& after.collected() =~= before.collected()
                &&& after.others().waiting().contains_key(run)
                &&& after.others().waiting()[run] == content
                &&& key != run ==> after.others().waiting().contains_key(key)
                    == before.others().waiting().contains_key(key) && (
                before.others().waiting().contains_key(key) ==> after.others().waiting()[key]
                    == before.others().waiting()[key])
            },
            _ => {
                &&& result is Ok
                &&& after.collected() =~= before.collected()
                &&& after.others().waiting() == before.others().waiting()
            },
        },
{
}

/// A call that was begun and then processed is either answered by the parts that are collected
/// of its run, which hold what the call loads if the transaction has it, or has its outcome at
/// the end of the other calls of the run. Only a call of which nothing is noted has neither.
pub proof fn law_each_call_is_answered_or_traced(
    before: &TxPartsBasedCollector,
    vm_id: VmId,
    tx: TransactionView,
    registers: Seq<u64>,
    reads: Reads<ReadMiss>,
    during: &TxPartsBasedCollector,
    call: Option<TracedCall>,
    registers_after: Seq<u64>,
    reads_after: Reads<ReadMiss>,
    after: &TxPartsBasedCollector,
)
    requires
        before.began(vm_id, tx, registers, reads, during, Ok(call)),
        during.finished(
            call,
            SyscallReply::Processed,
            registers_after,
            reads_after,
            after,
            Ok(()),
        ),
        crate::tx_parts_collector::keeps_parts_of(before, tx),
    ensures
        ({
            let key = CollectorKey {
                vm_id,
                generation_id: before.others().tracker().spec_generation(vm_id),
            };
            let sealed = after.collected()[key];
            if loads_part(tx, registers) {
                let input = named_input(tx, registers)->0;
                let witness = named_witness(tx, registers)->0;
                &&& after.collected().contains_key(key)
                &&& registers[17] == 2061 ==> sealed.tx_hash == tx.tx_hash
                &&& registers[17] == 2071 && input < tx.input_cells.len() ==> input
                    < sealed.input_cells.len() && sealed.input_cells[input as int]
                    == tx.input_cells[input as int]
                &&& registers[17] == 2092 && input < tx.input_cell_data.len() ==> input
                    < sealed.input_cell_data.len() && (
                tx.input_cell_data[input as int] matches Some(data) ==> {
                    sealed.input_cell_data[input as int] == data
                })
                &&& registers[17] == 2074 && witness < tx.witnesses.len() ==> witness
                    < sealed.witnesses.len() && sealed.witnesses[witness as int]
                    == tx.witnesses[witness as int]
            } else {
                match crate::partial_content::noted(registers, reads) {
                    Ok(Some(content)) => {
                        &&& after.collected().contains_key(key)
                        &&& crate::partial_content::outcome(
                            content,
                            registers_after,
                            reads_after,
                        ) matches Ok(value)
                        &&& sealed.other_syscalls == (
                        if before.others().traces().contains_key(key) {
                            before.others().traces()[key]
                        } else {
                            Seq::empty()
                        }).push(Some(value))
                    },
                    Ok(None) => after.collected() =~= before.collected(),
                    Err(_) => false,
                }
            }
        }),
{
    let key = CollectorKey {
        vm_id,
        generation_id: before.others().tracker().spec_generation(vm_id),
    };
    law_only_calls_that_load_parts_are_left_out(
        before,
        vm_id,
        tx,
        registers,
        reads,
        during,
        Ok(call),
    );
    law_processed_call_ends_among_the_other_calls(
        during,
        call,
        SyscallReply::Processed,
        registers_after,
        reads_after,
        after,
        Ok(()),
        key,
    );
    if loads_part(tx, registers) {
        law_call_that_is_left_out_adds_its_part(before, vm_id, tx, registers, reads, during, key);
        let parts = held(before, key);
        assert(crate::tx_parts_collector::parts_of_transaction(parts, tx)) by {
            if before.parts().contains_key(key) {
                assert(crate::tx_parts_collector::parts_of_transaction(
                    before.parts()[key],
                    tx,
                ));
            } else {
                assert(Seq::<Seq<u8>>::empty().is_prefix_of(tx.input_cells));
                assert(Seq::<Seq<u8>>::empty().is_prefix_of(
                    crate::tx_parts_collector::loaded(tx.input_cell_data),
                ));
                assert(Seq::<Seq<u8>>::empty().is_prefix_of(tx.witnesses));
            }
        }
        law_collected_parts_and_trace(after, key);
        let all = crate::tx_parts_collector::loaded(tx.input_cell_data);
        let cell = if registers[17] == 2074 {
            named_witness(tx, registers)->0
        } else {
            named_input(tx, registers)->0
        };
        assert(cell < parts.input_cells.len() ==> parts.input_cells[cell as int]
            == tx.input_cells[cell as int]);
        assert(cell < parts.input_cell_data.len() ==> parts.input_cell_data[cell as int]
            == all[cell as int]);
        assert(cell < parts.witnesses.len() ==> parts.witnesses[cell as int]
            == tx.witnesses[cell as int]);
        let new_parts = held(during, key);
        if registers[17] == 2071 && cell >= parts.input_cells.len() && cell
            < new_parts.input_cells.len() {
            assert(all_there(tx.input_cells)[cell as int] == Some(tx.input_cells[cell as int]));
            assert(new_parts.input_cells[cell as int] == tx.input_cells[cell as int]);
        }
        if registers[17] == 2074 && cell >= parts.witnesses.len() && cell
            < new_parts.witnesses.len() {
            assert(all_there(tx.witnesses)[cell as int] == Some(tx.witnesses[cell as int]));
            assert(new_parts.witnesses[cell as int] == tx.witnesses[cell as int]);
        }
    }
}

/// While virtual machines wait and when they are runnable again, parts stay as they are; all
/// else is as with the collector of the other calls alone.
pub proof fn law_parts_stay_while_calls_wait(
    before: &TxPartsBasedCollector,
    machines: Seq<(VmId, RecordedMachine)>,
    lengths: Map<LengthQuery, Option<u64>>,
    after: &TxPartsBasedCollector,
    error: ErrorView<ReadMiss>,
    vm_id: VmId,
)
    ensures
        before.postprocessed(machines, lengths, after) <==> after.parts() == before.parts()
            && before.others().postprocessed(machines, lengths, &after.others()),
        before.failed(machines, lengths, after) <==> after.parts() == before.parts()
            && before.others().failed(machines, lengths, &after.others()),
        before.obstructed(machines, lengths, error) <==> before.others().obstructed(
            machines,
            lengths,
            error,
        ),
        before.can_resume(machines, lengths) <==> before.others().can_resume(machines, lengths),
        before.watched().contains(vm_id) <==> before.others().watched().contains(vm_id),
        before.generations() == before.others().tracker(),
{
}

/// The values of a transaction are what it holds, entry by entry.
pub proof fn law_transaction_as_values(tx: Transaction, i: int)
    ensures
        tx@.tx_hash == tx.tx_hash@,
        tx@.input_indices == tx.script_group.input_indices@,
        tx@.output_indices == tx.script_group.output_indices@,
        tx@.input_cells.len() == tx.input_cells@.len(),
        tx@.input_cell_data.len() == tx.input_cell_data@.len(),
        tx@.witnesses.len() == tx.witnesses@.len(),
        0 <= i < tx.input_cells@.len() ==> tx@.input_cells[i] == tx.input_cells@[i]@,
        0 <= i < tx.witnesses@.len() ==> tx@.witnesses[i] == tx.witnesses@[i]@,
        0 <= i < tx.input_cell_data@.len() ==> match tx.input_cell_data@[i] {
            Some(data) => tx@.input_cell_data[i] == Some(data@),
            None => tx@.input_cell_data[i] is None,
        },
{
}

/// The values of parts are what they hold, entry by entry.
pub proof fn law_parts_as_values(parts: Parts, i: int)
    ensures
        parts@.tx_hash == parts.tx_hash@,
        parts@.input_cells.len() == parts.input_cells@.len(),
        parts@.input_cell_data.len() == parts.input_cell_data@.len(),
        parts@.witnesses.len() == parts.witnesses@.len(),
        parts@.other_syscalls.len() == parts.other_syscalls@.len(),
        0 <= i < parts.input_cells@.len() ==> parts@.input_cells[i] == parts.input_cells@[i]@,
        0 <= i < parts.input_cell_data@.len() ==> parts@.input_cell_data[i]
            == parts.input_cell_data@[i]@,
        0 <= i < parts.witnesses@.len() ==> parts@.witnesses[i] == parts.witnesses@[i]@,
        0 <= i < parts.other_syscalls@.len() ==> parts@.other_syscalls[i]
            == parts.other_syscalls@[i]@,
{
}

/// The values of system calls are their outcomes, in their order.
pub proof fn law_system_calls_as_values(
    syscalls: Syscalls,
    i: int,
    syscall: Syscall,
    value: SyscallValue,
)
    ensures
        syscalls@.len() == syscalls.syscalls@.len(),
        0 <= i < syscalls@.len() ==> syscalls@[i] == syscalls.syscalls@[i]@,
        match syscall.value {
            Some(value) => syscall@ == Some(value@),
            None => syscall@ is None,
        },
        match value {
            SyscallValue::ReturnWithCode(code) => value@ == ValueView::ReturnWithCode(code),
            SyscallValue::SuccessOutputData(data) => value@ == ValueView::SuccessOutputData(data),
            SyscallValue::IoData(data) => value@ == (ValueView::IoData {
                available_data: data.available_data@,
                additional_length: data.additional_length,
            }),
            SyscallValue::Terminated(_) => value@ == ValueView::Terminated,
            SyscallValue::Fds(fds) => value@ == ValueView::Fds(fds.fds@),
        },
{
}

/// The values of a map are those of its entries, under the same keys.
pub proof fn law_maps_as_values<V: View>(map: Map<CollectorKey, V>, key: CollectorKey)
    ensures
        crate::collector::map_views(map).contains_key(key) <==> map.contains_key(key),
        map.contains_key(key) ==> crate::collector::map_views(map)[key] == map[key]@,
{
}

} // verus!
