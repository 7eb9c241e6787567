//! Collectors of traces, and what a collection ends with.
use vstd::prelude::*;

use crate::data::{DataLengths, LengthQuery};
use crate::generation::GenerationTracker;
use crate::keys::{CollectorKey, KeyMap, VmId};
use crate::locator::{ErrorView, PostprocessError};
use crate::machine::{Machine, ReadMiss, Reads, RecordedMachine, A7};
use crate::partial_content::TraceError;
use crate::transaction::{Transaction, TransactionView};

verus! {

/// The kinds of collectors.
#[derive(Copy, Clone, Debug, PartialEq, Eq, PartialOrd, Ord, Structural)]
pub enum CollectorKind {
    /// Collects the outcome of every system call, to be replayed.
    Syscall,
    /// Collects parts of the transaction, and the outcomes of the other system calls.
    TxParts,
}

/// How a system call ended.
#[derive(Copy, Clone, Debug, PartialEq, Eq, Structural)]
pub enum SyscallReply {
    /// It was made.
    Processed,
    /// Nothing makes such a call.
    NotProcessed,
    /// The virtual machine has to wait.
    Yield,
    /// It failed for good.
    Failed,
}

/// The values of a map, as values.
pub open spec fn map_views<V: View>(map: Map<CollectorKey, V>) -> Map<CollectorKey, V::V> {
    map.map_values(|value: V| value@)
}

/// Collects traces while virtual machines run.
///
/// Whoever runs the virtual machines calls [`Collector::begin_ecall`] before a system call is
/// made and [`Collector::finish_ecall`] after it, and [`Collector::postprocess`] after each
/// turn of the scheduler with the virtual machines that are runnable. Where something is
/// missing, such as a read of memory, the call says so and was not made: it changes nothing,
/// and is repeated when that was supplied.
pub trait Collector: Sized {
    /// The trace of one run.
    type Trace: View;

    /// A system call that is being made.
    type Call;

    /// The traces collected so far.
    spec fn collected(&self) -> Map<CollectorKey, <Self::Trace as View>::V>;

    /// The generations of the virtual machines.
    spec fn generations(&self) -> GenerationTracker;

    /// The virtual machines that the collector has to look at when they are runnable.
    spec fn watched(&self) -> Set<VmId>;

    /// Whether the collector can take in the system call that the registers ask for.
    spec fn can_begin(&self, vm_id: VmId, tx: TransactionView, registers: Seq<u64>) -> bool;

    /// How the collector takes in a system call that is about to be made.
    spec fn began(
        &self,
        vm_id: VmId,
        tx: TransactionView,
        registers: Seq<u64>,
        reads: Reads<ReadMiss>,
        after: &Self,
        result: Result<Self::Call, ReadMiss>,
    ) -> bool;

    /// How the collector takes in a system call that ended.
    spec fn finished(
        &self,
        call: Self::Call,
        reply: SyscallReply,
        registers: Seq<u64>,
        reads: Reads<ReadMiss>,
        after: &Self,
        result: Result<(), TraceError<ReadMiss>>,
    ) -> bool;

    /// Whether the collector can look at virtual machines that are runnable.
    spec fn can_resume(
        &self,
        machines: Seq<(VmId, RecordedMachine)>,
        lengths: Map<LengthQuery, Option<u64>>,
    ) -> bool;

    /// Whether `error` keeps the collector from telling what became of system calls: something
    /// that is missing, or a failure.
    spec fn obstructed(
        &self,
        machines: Seq<(VmId, RecordedMachine)>,
        lengths: Map<LengthQuery, Option<u64>>,
        error: ErrorView<ReadMiss>,
    ) -> bool;

    /// What the collector keeps when it cannot be told what became of system calls because of a
    /// failure.
    spec fn failed(
        &self,
        machines: Seq<(VmId, RecordedMachine)>,
        lengths: Map<LengthQuery, Option<u64>>,
        after: &Self,
    ) -> bool;

    /// How the collector takes in what became of system calls.
    spec fn postprocessed(
        &self,
        machines: Seq<(VmId, RecordedMachine)>,
        lengths: Map<LengthQuery, Option<u64>>,
        after: &Self,
    ) -> bool;

    /// Whether the collector can take in the system call that a virtual machine is about to
    /// make.
    fn accepts_call(&self, vm_id: VmId, tx: &Transaction, machine: &RecordedMachine) -> (accepts:
        bool)
        ensures
            accepts == self.can_begin(vm_id, tx@, machine.register_file()),
    ;

    /// Takes in a system call that a virtual machine is about to make.
    fn begin_ecall(&mut self, vm_id: VmId, tx: &Transaction, machine: &RecordedMachine) -> (result:
        Result<Self::Call, ReadMiss>)
        requires
            old(self).can_begin(vm_id, tx@, machine.register_file()),
        ensures
            old(self).began(
                vm_id,
                tx@,
                machine.register_file(),
                machine.reads(),
                final(self),
                result,
            ),
            match result {
                Ok(_) => crate::generation::followed(
                    old(self).generations(),
                    vm_id,
                    machine.register_file()[A7 as int],
                    final(self).generations(),
                ),
                Err(_) => *final(self) == *old(self),
            },
    ;

    /// Takes in how a system call ended.
    fn finish_ecall(
        &mut self,
        call: Self::Call,
        reply: SyscallReply,
        machine: &RecordedMachine,
    ) -> (result: Result<(), TraceError<ReadMiss>>)
        ensures
            old(self).finished(
                call,
                reply,
                machine.register_file(),
                machine.reads(),
                final(self),
                result,
            ),
            final(self).generations() == old(self).generations(),
            result is Err ==> *final(self) == *old(self),
    ;

    /// The virtual machines that the collector has to look at when they are runnable.
    fn watched_vms(&self) -> (vms: Vec<VmId>)
        ensures
            vms@.to_set() == self.watched(),
    ;

    /// Whether the collector can look at virtual machines that are runnable.
    fn accepts_machines(
        &self,
        machines: &Vec<(VmId, RecordedMachine)>,
        lengths: &DataLengths,
    ) -> (accepts: bool)
        ensures
            accepts == self.can_resume(machines@, lengths@),
    ;

    /// What keeps the collector from telling what became of system calls, if anything does. What
    /// is missing comes before what failed.
    fn find_obstacle(
        &self,
        machines: &Vec<(VmId, RecordedMachine)>,
        lengths: &DataLengths,
    ) -> (found: Option<PostprocessError<ReadMiss>>)
        requires
            self.can_resume(machines@, lengths@),
        ensures
            match found {
                Some(error) => {
                    &&& self.obstructed(machines@, lengths@, error@)
                    &&& crate::locator::only_missing(error@) || forall|
                        other: ErrorView<ReadMiss>,
                    | #[trigger]
                        self.obstructed(machines@, lengths@, other)
                            ==> !crate::locator::only_missing(other)
                },
                None => forall|error: ErrorView<ReadMiss>|
                    !#[trigger] self.obstructed(machines@, lengths@, error),
            },
    ;

    /// Takes in what became of system calls for which virtual machines had to wait, now that
    /// `machines` are runnable. The generations of the virtual machines are taken in first, so
    /// that a failure later on does not undo that.
    fn postprocess(
        &mut self,
        machines: &Vec<(VmId, RecordedMachine)>,
        lengths: &DataLengths,
    ) -> (result: Result<(), PostprocessError<ReadMiss>>)
        requires
            old(self).can_resume(machines@, lengths@),
        ensures
            match result {
                Ok(_) => {
                    &&& forall|error: ErrorView<ReadMiss>|
                        !#[trigger] old(self).obstructed(machines@, lengths@, error)
                    &&& old(self).postprocessed(machines@, lengths@, final(self))
                    &&& crate::generation::advanced(
                        old(self).generations(),
                        machines@,
                        final(self).generations(),
                    )
                },
                Err(error) => {
                    &&& old(self).obstructed(machines@, lengths@, error@)
                    &&& if crate::locator::only_missing(error@) {
                        *final(self) == *old(self)
                    } else {
                        &&& forall|other: ErrorView<ReadMiss>| #[trigger]
                            old(self).obstructed(machines@, lengths@, other)
                                ==> !crate::locator::only_missing(other)
                        &&& old(self).failed(machines@, lengths@, final(self))
                        &&& crate::generation::advanced(
                            old(self).generations(),
                            machines@,
                            final(self).generations(),
                        )
                    }
                },
            },
    ;

    /// Ends the collection.
    fn seal(self) -> (traces: KeyMap<Self::Trace>)
        ensures
            map_views(traces@) == self.collected(),
    ;
}

/// What a collection ends with.
#[derive(Clone, Debug)]
pub enum CollectorResult<T> {
    /// The script succeeded.
    Success {
        /// The cycles that it consumed.
        cycles: u64,
        /// The traces of its runs.
        traces: KeyMap<T>,
    },
    /// The script failed.
    Failure {
        /// The exit code of the first virtual machine.
        exit_code: i8,
    },
}

/// Ends a collection when the first virtual machine has exited: traces are kept only of a
/// script that exited with zero.
pub fn conclude<C: Collector>(collector: C, exit_code: i8, cycles: u64) -> (result: CollectorResult<
    C::Trace,
>)
    ensures
        match result {
            CollectorResult::Success { cycles: consumed, traces } => {
                &&& exit_code == 0
                &&& consumed == cycles
                &&& map_views(traces@) == collector.collected()
            },
            CollectorResult::Failure { exit_code: code } => exit_code != 0 && code == exit_code,
        },
{
    if exit_code != 0 {
        CollectorResult::Failure { exit_code }
    } else {
        CollectorResult::Success { cycles, traces: collector.seal() }
    }
}

/// What follows a turn of the scheduler.
pub enum Turn<C: Collector> {
    /// The collector has to look at the virtual machines that are runnable.
    Postprocess(C),
    /// The collection has ended.
    Finished(CollectorResult<C::Trace>),
}

/// Tells what follows a turn of the scheduler. A collection ends with the turn in which the
/// first virtual machine exits; `exit` is then its exit code and the cycles that the script
/// consumed.
pub fn after_turn<C: Collector>(collector: C, exit: Option<(i8, u64)>) -> (turn: Turn<C>)
    ensures
        match turn {
            Turn::Postprocess(same) => exit is None && same == collector,
            Turn::Finished(CollectorResult::Success { cycles, traces }) => {
                &&& exit == Some((0i8, cycles))
                &&& map_views(traces@) == collector.collected()
            },
            Turn::Finished(CollectorResult::Failure { exit_code }) => {
                &&& exit matches Some((code, _))
                &&& code == exit_code
                &&& code != 0
            },
        },
{
    match exit {
        Some((exit_code, cycles)) => Turn::Finished(conclude(collector, exit_code, cycles)),
        None => Turn::Postprocess(collector),
    }
}

} // verus!
