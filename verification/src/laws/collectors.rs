//! Which run a virtual machine is in, and what becomes of the system calls of a run.
use vstd::prelude::*;

use crate::collector::{Collector, SyscallReply};
use crate::data::LengthQuery;
use crate::generation::GenerationTracker;
use crate::keys::{CollectorKey, VmId};
use crate::locator::ErrorView;
use crate::machine::{Machine, ReadMiss, Reads, RecordedMachine};
use crate::partial_content::{PartialSyscallContent, TraceError};
use crate::syscall_collector::{SyscallBasedCollector, TracedCall};
use crate::traces::ValueView;
use crate::transaction::TransactionView;

verus! {

/// Whether the first entry of a virtual machine is the one at `place`.
pub open spec fn stands_first_at<M>(
    machines: Seq<(VmId, M)>,
    vm_id: VmId,
    place: int,
) -> bool {
    &&& 0 <= place < machines.len()
    &&& machines[place].0 == vm_id
    &&& forall|j: int| 0 <= j < place ==> (#[trigger] machines[j]).0 != vm_id
}

/// The first entry of a virtual machine is what is known of it; nothing is known of one that
/// has none.
pub proof fn law_first_entry_counts<M>(machines: Seq<(VmId, M)>, vm_id: VmId)
    ensures
        match crate::vms::machine_of(machines, vm_id) {
            Some(machine) => exists|place: int| #[trigger]
                stands_first_at(machines, vm_id, place) && machines[place].1 == machine,
            None => forall|j: int| 0 <= j < machines.len() ==> (#[trigger] machines[j]).0 != vm_id,
        },
        forall|place: int| #[trigger]
            stands_first_at(machines, vm_id, place) ==> crate::vms::machine_of(machines, vm_id)
                == Some(machines[place].1),
    decreases machines.len(),
{
    if machines.len() > 0 {
        let rest = machines.drop_first();
        law_first_entry_counts(rest, vm_id);
        if machines[0].0 == vm_id {
            assert(stands_first_at(machines, vm_id, 0));
            assert forall|place: int| #[trigger]
                stands_first_at(machines, vm_id, place) implies place == 0 by {
                if place > 0 {
                    assert(machines[0].0 != vm_id);
                }
            }
        } else {
            if let Some(machine) = crate::vms::machine_of(rest, vm_id) {
                let place = choose|place: int| #[trigger]
                    stands_first_at(rest, vm_id, place) && rest[place].1 == machine;
                assert forall|j: int| 0 <= j < place + 1 implies (#[trigger] machines[j]).0
                    != vm_id by {
                    if j > 0 {
                        assert(rest[j - 1] == machines[j]);
                    }
                }
                assert(rest[place] == machines[place + 1]);
                assert(stands_first_at(machines, vm_id, place + 1));
            } else {
                assert forall|j: int| 0 <= j < machines.len() implies (#[trigger] machines[j]).0
                    != vm_id by {
                    if j > 0 {
                        assert(rest[j - 1] == machines[j]);
                    }
                }
            }
            assert forall|place: int| #[trigger]
                stands_first_at(machines, vm_id, place) implies crate::vms::machine_of(
                machines,
                vm_id,
            ) == Some(machines[place].1) by {
                assert(place > 0);
                assert forall|j: int| 0 <= j < place - 1 implies (#[trigger] rest[j]).0
                    != vm_id by {
                    assert(rest[j] == machines[j + 1]);
                }
                assert(rest[place - 1] == machines[place]);
                assert(stands_first_at(rest, vm_id, place - 1));
            }
        }
    }
}

/// A virtual machine is one generation further if it asked for its program to be replaced and
/// the register of the result is zero now that it is runnable, and in the same one otherwise.
/// None is pending any more. The run of a virtual machine is its identifier and its generation.
pub proof fn law_generation_counts_programs<M: Machine>(
    before: GenerationTracker,
    machines: Seq<(VmId, M)>,
    after: GenerationTracker,
    vm_id: VmId,
    machine: M,
    other: VmId,
)
    requires
        crate::generation::advanced(before, machines, after),
        crate::vms::machine_of(machines, vm_id) == Some(machine),
    ensures
        after.spec_generation(vm_id) == if before.spec_pending().contains(vm_id)
            && machine.register_file()[10] == 0 {
            before.spec_generation(vm_id) + 1
        } else {
            before.spec_generation(vm_id) as int
        },
        crate::vms::machine_of(machines, other) is None || !before.spec_pending().contains(other)
            ==> after.spec_generation(other) == before.spec_generation(other),
        !after.spec_pending().contains(vm_id),
        !after.spec_pending().contains(other),
        after.spec_key(vm_id) == (CollectorKey {
            vm_id,
            generation_id: after.spec_generation(vm_id),
        }),
{
}

/// The run that is foreseen for a virtual machine is the one that it is in when the generations
/// are taken in.
pub proof fn law_foreseen_run_is_the_next_one<M: Machine>(
    before: GenerationTracker,
    machines: Seq<(VmId, M)>,
    after: GenerationTracker,
    vm_id: VmId,
)
    requires
        before.resumable(machines),
        crate::generation::advanced(before, machines, after),
    ensures
        crate::generation::next_run(before, machines, vm_id) == (CollectorKey {
            vm_id,
            generation_id: after.spec_generation(vm_id),
        }),
{
    assert(crate::generation::replaced(before, machines, vm_id)
        ==> before.spec_pending().contains(vm_id));
    assert(after.spec_generation(vm_id) == before.spec_generation(vm_id) + (
    if crate::generation::replaced(before, machines, vm_id) {
        1int
    } else {
        0int
    }));
}

/// A virtual machine is pending from when it asks for its program to be replaced, which is the
/// call with the number 2043; no other call makes one pending, and none changes a generation.
pub proof fn law_only_a_replacing_call_makes_pending(
    before: GenerationTracker,
    vm_id: VmId,
    code: u64,
    after: GenerationTracker,
    other: VmId,
)
    requires
        crate::generation::followed(before, vm_id, code, after),
    ensures
        after.spec_pending().contains(other) <==> before.spec_pending().contains(other) || code
            == 2043 && other == vm_id,
        after.spec_generation(other) == before.spec_generation(other),
{
}

/// What is noted of a virtual machine is noted of it alone.
pub proof fn law_notes_are_of_one_machine(
    before: GenerationTracker,
    vm_id: VmId,
    after: GenerationTracker,
    other: VmId,
)
    ensures
        crate::generation::marked(before, vm_id, after) ==> {
            &&& after.spec_pending().contains(other) <==> before.spec_pending().contains(other)
                || other == vm_id
            &&& after.spec_generation(other) == before.spec_generation(other)
        },
        crate::generation::increased(before, vm_id, after) ==> {
            &&& after.spec_pending().contains(other) <==> before.spec_pending().contains(other)
            &&& after.spec_generation(vm_id) == before.spec_generation(vm_id) + 1
            &&& other != vm_id ==> after.spec_generation(other) == before.spec_generation(other)
        },
{
}

/// The generations can be taken in if and only if every virtual machine that is pending is
/// among those that are runnable, and none has reached the last generation that there can be.
pub proof fn law_when_generations_can_be_taken_in<M: Machine>(
    tracker: GenerationTracker,
    machines: Seq<(VmId, M)>,
)
    ensures
        tracker.resumable(machines) <==> forall|vm_id: VmId| #[trigger]
            tracker.spec_pending().contains(vm_id) ==> (crate::vms::machine_of(
                machines,
                vm_id,
            ) matches Some(machine) && (machine.register_file()[10] == 0
                ==> tracker.spec_generation(vm_id) < u64::MAX)),
        tracker.is_new() <==> {
            &&& forall|vm_id: VmId| !#[trigger] tracker.spec_pending().contains(vm_id)
            &&& forall|vm_id: VmId| #[trigger] tracker.spec_generation(vm_id) == 0
        },
{
    if forall|vm_id: VmId| !#[trigger] tracker.spec_pending().contains(vm_id) {
        assert(tracker.spec_pending() =~= Set::<VmId>::empty());
    }
}

/// A tracker of generations as a collector: it collects nothing, takes in every call, and looks
/// at the virtual machines that are pending.
pub proof fn law_tracker_collects_nothing(
    before: GenerationTracker,
    vm_id: VmId,
    tx: TransactionView,
    registers: Seq<u64>,
    reads: Reads<ReadMiss>,
    machines: Seq<(VmId, RecordedMachine)>,
    lengths: Map<LengthQuery, Option<u64>>,
    after: GenerationTracker,
    key: CollectorKey,
    error: ErrorView<ReadMiss>,
    missing: ReadMiss,
    reply: SyscallReply,
)
    ensures
        !before.collected().contains_key(key),
        before.can_begin(vm_id, tx, registers),
        before.began(vm_id, tx, registers, reads, &after, Ok(()))
            <==> crate::generation::followed(before, vm_id, registers[17], after),
        !before.began(vm_id, tx, registers, reads, &after, Err(missing)),
        before.finished((), reply, registers, reads, &after, Ok(())) <==> after == before,
        before.watched().contains(vm_id) <==> before.spec_pending().contains(vm_id),
        before.can_resume(machines, lengths) <==> before.resumable(machines),
        !before.obstructed(machines, lengths, error),
        before.postprocessed(machines, lengths, &after) <==> crate::generation::advanced(
            before,
            machines,
            after,
        ),
        before.generations() == before,
{
}

/// The trace of a run so far.
pub open spec fn trace_so_far(
    collector: &SyscallBasedCollector,
    key: CollectorKey,
) -> Seq<Option<ValueView>> {
    if collector.traces().contains_key(key) {
        collector.traces()[key]
    } else {
        Seq::empty()
    }
}

/// Whether two collectors have the same of a run: the same trace, and the same call for which
/// it waits, if any.
pub open spec fn same_of_run(
    one: &SyscallBasedCollector,
    other: &SyscallBasedCollector,
    key: CollectorKey,
) -> bool {
    &&& one.traces().contains_key(key) == other.traces().contains_key(key)
    &&& one.traces().contains_key(key) ==> one.traces()[key] == other.traces()[key]
    &&& one.waiting().contains_key(key) == other.waiting().contains_key(key)
    &&& one.waiting().contains_key(key) ==> one.waiting()[key] == other.waiting()[key]
}

/// A call begins in the run that its virtual machine is in, with what is noted of it; nothing is
/// traced yet. A call is accepted unless that run waits for another one, or it maps data as
/// code.
pub proof fn law_call_begins_in_its_run(
    before: &SyscallBasedCollector,
    vm_id: VmId,
    tx: TransactionView,
    registers: Seq<u64>,
    reads: Reads<ReadMiss>,
    after: &SyscallBasedCollector,
    result: Result<TracedCall, ReadMiss>,
    key: CollectorKey,
)
    ensures
        ({
            let run = CollectorKey {
                vm_id,
                generation_id: before.tracker().spec_generation(vm_id),
            };
            &&& before.can_begin(vm_id, tx, registers) <==> !before.waiting().contains_key(run)
                && registers[17] != 2091
            &&& before.began(vm_id, tx, registers, reads, after, result) ==> {
                &&& same_of_run(after, before, key)
                &&& match crate::partial_content::noted(registers, reads) {
                    Ok(content) => result == Ok::<TracedCall, ReadMiss>(
                        TracedCall { key: run, content },
                    ),
                    Err(missing) => result == Err::<TracedCall, ReadMiss>(missing),
                }
            }
        }),
{
}

/// A call that was processed has its outcome at the end of the trace of its run, behind what
/// was there, and the run waits for it no more. A call for which its virtual machine has to
/// wait is waited for, with what was noted of it. Any other end, and a call of which nothing was
/// noted, change nothing; neither does a call whose outcome cannot be told, for which the error
/// says why. No other run is touched.
pub proof fn law_how_a_call_ends(
    before: &SyscallBasedCollector,
    call: TracedCall,
    reply: SyscallReply,
    registers: Seq<u64>,
    reads: Reads<ReadMiss>,
    after: &SyscallBasedCollector,
    result: Result<(), TraceError<ReadMiss>>,
    key: CollectorKey,
)
    requires
        before.finished(call, reply, registers, reads, after, result),
    ensures
        key != call.key ==> same_of_run(after, before, key),
        match call.content {
            Some(content) => match reply {
                SyscallReply::Processed => match crate::partial_content::outcome(
                    content,
                    registers,
                    reads,
                ) {
                    Ok(value) => {
                        &&& result is Ok
                        &&& after.traces().contains_key(call.key)
                        &&& after.traces()[call.key] == trace_so_far(before, call.key).push(
                            Some(value),
                        )
                        &&& !after.waiting().contains_key(call.key)
                    },
                    Err(error) => {
                        &&& result == Err::<(), TraceError<ReadMiss>>(error)
                        &&& same_of_run(after, before, key)
                    },
                },
                SyscallReply::Yield => {
                    &&& result is Ok
                    &&& trace_so_far(after, call.key) == trace_so_far(before, call.key)
                    &&& after.traces().contains_key(call.key) == before.traces().contains_key(
                        call.key,
                    )
                    &&& after.waiting().contains_key(call.key)
                    &&& after.waiting()[call.key] == content
                },
                SyscallReply::NotProcessed => result is Ok && same_of_run(after, before, key),
                SyscallReply::Failed => result is Ok && same_of_run(after, before, key),
            },
            None => result is Ok && same_of_run(after, before, key),
        },
{
}

/// A call for which its run waited has its outcome at the end of the trace of that run when its
/// virtual machine is runnable, read of that virtual machine as it is then, and is waited for no
/// more. A run that waits for none, and one whose virtual machine is not runnable, keep what
/// they have.
pub proof fn law_waiting_call_has_its_outcome(
    before: &SyscallBasedCollector,
    machines: Seq<(VmId, RecordedMachine)>,
    lengths: Map<LengthQuery, Option<u64>>,
    after: &SyscallBasedCollector,
    key: CollectorKey,
)
    requires
        before.can_resume(machines, lengths),
        forall|error: ErrorView<ReadMiss>|
            !#[trigger] before.obstructed(machines, lengths, error),
        before.postprocessed(machines, lengths, after),
    ensures
        match crate::vms::machine_of(machines, key.vm_id) {
            Some(machine) if before.waiting().contains_key(key) => {
                &&& crate::partial_content::outcome(
                    before.waiting()[key],
                    machine.register_file(),
                    machine.reads(),
                ) matches Ok(value)
                &&& after.traces().contains_key(key)
                &&& after.traces()[key] == trace_so_far(before, key).push(Some(value))
                &&& !after.waiting().contains_key(key)
            },
            _ => same_of_run(after, before, key),
        },
{
    assert(crate::syscall_collector::settled(before, machines, after, key));
    if before.waiting().contains_key(key) {
        if let Some(machine) = crate::vms::machine_of(machines, key.vm_id) {
            if let Err(TraceError::Read(missing)) = crate::partial_content::outcome(
                before.waiting()[key],
                machine.register_file(),
                machine.reads(),
            ) {
                assert(before.obstructed(
                    machines,
                    lengths,
                    ErrorView::Read { vm_id: key.vm_id, missing },
                ));
            }
        }
    }
}

/// What keeps the collector from telling what became of the calls that are waited for is a read
/// that is missing for the outcome of one of them, and names its virtual machine. It can look at
/// the virtual machines if it can count their generations and no address or length of such a
/// call overflows. A failure changes neither traces nor what is waited for.
pub proof fn law_what_keeps_outcomes_from_being_told(
    collector: &SyscallBasedCollector,
    machines: Seq<(VmId, RecordedMachine)>,
    lengths: Map<LengthQuery, Option<u64>>,
    error: ErrorView<ReadMiss>,
    after: &SyscallBasedCollector,
    run: CollectorKey,
)
    ensures
        collector.obstructed(machines, lengths, error) <==> exists|key: CollectorKey|
            #[trigger] collector.waiting().contains_key(key) && (crate::vms::machine_of(
                machines,
                key.vm_id,
            ) matches Some(machine) && (crate::partial_content::outcome(
                collector.waiting()[key],
                machine.register_file(),
                machine.reads(),
            ) matches Err(TraceError::Read(missing)) && error == (ErrorView::Read {
                vm_id: key.vm_id,
                missing,
            }))),
        collector.can_resume(machines, lengths) <==> collector.tracker().resumable(machines)
            && forall|key: CollectorKey| #[trigger]
            collector.waiting().contains_key(key) ==> (crate::vms::machine_of(
                machines,
                key.vm_id,
            ) matches Some(machine) ==> crate::partial_content::outcome(
                collector.waiting()[key],
                machine.register_file(),
                machine.reads(),
            ) != Err::<ValueView, TraceError<ReadMiss>>(TraceError::Overflow)),
        collector.failed(machines, lengths, after) ==> same_of_run(after, collector, run),
{
    if collector.obstructed(machines, lengths, error) {
        let key = choose|key: CollectorKey|
            {
                &&& #[trigger] collector.waiting().contains_key(key)
                &&& crate::syscall_collector::resumed(
                    collector.waiting()[key],
                    machines,
                    key.vm_id,
                ) matches Some(Err(TraceError::Read(missing)))
                &&& error == (ErrorView::Read { vm_id: key.vm_id, missing })
            };
        assert(collector.waiting().contains_key(key));
    }
    let can = forall|key: CollectorKey| #[trigger]
        collector.waiting().contains_key(key) ==> (crate::vms::machine_of(
            machines,
            key.vm_id,
        ) matches Some(machine) ==> crate::partial_content::outcome(
            collector.waiting()[key],
            machine.register_file(),
            machine.reads(),
        ) != Err::<ValueView, TraceError<ReadMiss>>(TraceError::Overflow));
    if can {
        assert forall|key: CollectorKey| #[trigger]
            collector.waiting().contains_key(key) implies crate::syscall_collector::resumed(
            collector.waiting()[key],
            machines,
            key.vm_id,
        ) != Some(Err::<ValueView, TraceError<ReadMiss>>(TraceError::Overflow)) by {}
    }
}

/// The virtual machines of runs that wait for a call and those that are pending are watched, and
/// no others. What is collected of a run is its trace. A collector that has seen nothing has no
/// trace and waits for no call.
pub proof fn law_watched_and_collected(
    collector: &SyscallBasedCollector,
    key: CollectorKey,
    vm_id: VmId,
)
    ensures
        collector.waiting().contains_key(key) ==> collector.watched().contains(key.vm_id),
        collector.tracker().spec_pending().contains(vm_id) ==> collector.watched().contains(vm_id),
        collector.watched().contains(vm_id) ==> {
            ||| collector.tracker().spec_pending().contains(vm_id)
            ||| exists|run: CollectorKey| #[trigger]
                collector.waiting().contains_key(run) && run.vm_id == vm_id
        },
        collector.collected().contains_key(key) <==> collector.traces().contains_key(key),
        collector.traces().contains_key(key) ==> collector.collected()[key]
            == collector.traces()[key],
        collector.generations() == collector.tracker(),
        collector.is_new() ==> {
            &&& !collector.traces().contains_key(key)
            &&& !collector.waiting().contains_key(key)
            &&& collector.tracker().spec_generation(vm_id) == 0
            &&& !collector.tracker().spec_pending().contains(vm_id)
        },
        crate::syscall_collector::trace_of(collector.traces(), key) == trace_so_far(collector, key),
{
}

/// Every call is told apart from those before it: a call that is begun and processed adds one
/// outcome to the trace of the run that its virtual machine was in when it began, which is what
/// is read of the virtual machine after the call, and adds nothing if nothing is noted of it.
pub proof fn law_begun_and_processed_call_is_traced(
    before: &SyscallBasedCollector,
    vm_id: VmId,
    tx: TransactionView,
    registers: Seq<u64>,
    reads: Reads<ReadMiss>,
    during: &SyscallBasedCollector,
    call: TracedCall,
    registers_after: Seq<u64>,
    reads_after: Reads<ReadMiss>,
    after: &SyscallBasedCollector,
)
    requires
        before.began(vm_id, tx, registers, reads, during, Ok(call)),
        during.finished(
            call,
            SyscallReply::Processed,
            registers_after,
            reads_after,
            after,
            Ok(()),
        ),
    ensures
        ({
            let run = CollectorKey {
                vm_id,
                generation_id: before.tracker().spec_generation(vm_id),
            };
            match crate::partial_content::noted(registers, reads) {
                Ok(Some(content)) => {
                    &&& crate::partial_content::outcome(
                        content,
                        registers_after,
                        reads_after,
                    ) matches Ok(value)
                    &&& after.collected().contains_key(run)
                    &&& after.collected()[run] == trace_so_far(before, run).push(Some(value))
                },
                Ok(None) => after.collected() == before.collected(),
                Err(_) => false,
            }
        }),
{
    let content: Option<PartialSyscallContent> = call.content;
    assert(Ok::<Option<PartialSyscallContent>, ReadMiss>(content)
        == crate::partial_content::noted(registers, reads));
}

} // verus!
