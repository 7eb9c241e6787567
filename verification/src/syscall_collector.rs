//! The collector that traces every system call.
use vstd::prelude::*;

use crate::codes::SyscallCode;
use crate::collector::{Collector, SyscallReply};
use crate::data::{DataLengths, LengthQuery};
use crate::generation::GenerationTracker;
use crate::keys::{CollectorKey, KeyMap, VmId};
use crate::locator::{ErrorView, PostprocessError};
use crate::machine::{Machine, ReadMiss, Reads, RecordedMachine, A0, A7};
use crate::partial_content::{
    apply_partial_content, build_partial_content, PartialSyscallContent, TraceError,
};
use crate::traces::{Syscall, Syscalls, ValueView};
use crate::transaction::{Transaction, TransactionView};
use crate::vms::find_machine;

verus! {

/// A system call that was noted and is being made.
#[derive(Copy, Clone, Debug)]
pub struct TracedCall {
    /// The run that makes the call.
    pub key: CollectorKey,
    /// What is known of the call, if it is traced.
    pub content: Option<PartialSyscallContent>,
}

/// Traces every system call, to be replayed.
pub struct SyscallBasedCollector {
    partial_contents: KeyMap<PartialSyscallContent>,
    data: KeyMap<Syscalls>,
    generation_tracker: GenerationTracker,
}

/// The trace of a run in `traces`, which is empty at first.
pub open spec fn trace_of(
    traces: Map<CollectorKey, Seq<Option<ValueView>>>,
    key: CollectorKey,
) -> Seq<Option<ValueView>> {
    if traces.contains_key(key) {
        traces[key]
    } else {
        Seq::empty()
    }
}

/// The outcome of a call that waits for a virtual machine, if that is runnable again.
pub open spec fn resumed(
    content: PartialSyscallContent,
    machines: Seq<(VmId, RecordedMachine)>,
    vm_id: VmId,
) -> Option<Result<ValueView, TraceError<ReadMiss>>> {
    match crate::vms::machine_of(machines, vm_id) {
        None => None,
        Some(machine) => Some(
            crate::partial_content::outcome(content, machine.register_file(), machine.reads()),
        ),
    }
}

/// What becomes of the call of a run that waits, if one does, when `machines` are runnable:
/// it is added to the trace of the run if its virtual machine is among them, and waits on
/// otherwise.
pub open spec fn settled(
    before: &SyscallBasedCollector,
    machines: Seq<(VmId, RecordedMachine)>,
    after: &SyscallBasedCollector,
    key: CollectorKey,
) -> bool {
    match resumed(before.waiting()[key], machines, key.vm_id) {
        Some(Ok(value)) if before.waiting().contains_key(key) => {
            &&& !after.waiting().contains_key(key)
            &&& after.traces().contains_key(key)
            &&& after.traces()[key] == trace_of(before.traces(), key).push(Some(value))
        },
        _ => unsettled(before, after, key),
    }
}

/// Nothing became of the call of a run that waits, if one does.
pub open spec fn unsettled(
    before: &SyscallBasedCollector,
    after: &SyscallBasedCollector,
    key: CollectorKey,
) -> bool {
    &&& after.waiting().contains_key(key) == before.waiting().contains_key(key)
    &&& before.waiting().contains_key(key) ==> after.waiting()[key] == before.waiting()[key]
    &&& after.traces().contains_key(key) == before.traces().contains_key(key)
    &&& before.traces().contains_key(key) ==> after.traces()[key] == before.traces()[key]
}

impl SyscallBasedCollector {
    /// The calls that wait for their virtual machine to become runnable.
    pub closed spec fn waiting(&self) -> Map<CollectorKey, PartialSyscallContent> {
        self.partial_contents@
    }

    /// The traces.
    pub closed spec fn traces(&self) -> Map<CollectorKey, Seq<Option<ValueView>>> {
        crate::collector::map_views(self.data@)
    }

    /// The generations of the virtual machines.
    pub closed spec fn tracker(&self) -> GenerationTracker {
        self.generation_tracker
    }

    /// Whether the collector has seen nothing.
    pub open spec fn is_new(&self) -> bool {
        &&& self.waiting() == Map::<CollectorKey, PartialSyscallContent>::empty()
        &&& self.traces() == Map::<CollectorKey, Seq<Option<ValueView>>>::empty()
        &&& self.tracker().is_new()
    }

    /// A collector that has seen nothing.
    pub fn new() -> (collector: Self)
        ensures
            collector.is_new(),
            waits_in_current_runs(&collector),
    {
        let collector = SyscallBasedCollector {
            partial_contents: KeyMap::new(),
            data: KeyMap::new(),
            generation_tracker: GenerationTracker::new(),
        };
        assert(collector.traces() =~= Map::<CollectorKey, Seq<Option<ValueView>>>::empty());
        collector
    }

    /// The run of a virtual machine.
    pub fn key(&self, vm_id: VmId) -> (key: CollectorKey)
        ensures
            key == self.tracker().spec_key(vm_id),
    {
        self.generation_tracker.key(vm_id)
    }

    /// Completes a call of a run: its outcome is added to the trace, and nothing waits for it
    /// any more.
    pub fn fulfill(&mut self, key: CollectorKey, syscall: Syscall)
        ensures
            final(self).waiting() == old(self).waiting().remove(key),
            final(self).traces() == old(self).traces().insert(
                key,
                trace_of(old(self).traces(), key).push(syscall@),
            ),
            final(self).tracker() == old(self).tracker(),
    {
        let _ = self.partial_contents.remove(&key);
        let mut trace = match self.data.remove(&key) {
            Some(trace) => trace,
            None => Syscalls::default(),
        };
        assert(trace@ =~= trace_of(old(self).traces(), key));
        trace.syscalls.push(syscall);
        assert(trace@ =~= trace_of(old(self).traces(), key).push(syscall@));
        self.data.insert(key, trace);
        assert(self.traces() =~= old(self).traces().insert(
            key,
            trace_of(old(self).traces(), key).push(syscall@),
        ));
    }
}

impl Default for SyscallBasedCollector {
    fn default() -> (collector: Self)
        ensures
            collector.is_new(),
    {
        SyscallBasedCollector::new()
    }
}

impl Collector for SyscallBasedCollector {
    type Trace = Syscalls;

    type Call = TracedCall;

    open spec fn collected(&self) -> Map<CollectorKey, Seq<Option<ValueView>>> {
        self.traces()
    }

    open spec fn generations(&self) -> GenerationTracker {
        self.tracker()
    }

    /// The virtual machines that asked for their program to be replaced, and those with a call
    /// that waits.
    open spec fn watched(&self) -> Set<VmId> {
        Set::new(
            |vm_id: VmId|
                {
                    ||| self.tracker().spec_pending().contains(vm_id)
                    ||| exists|key: CollectorKey| #[trigger]
                        self.waiting().contains_key(key) && key.vm_id == vm_id
                },
        )
    }

    /// No call of the run waits, and the call can be traced.
    open spec fn can_begin(&self, vm_id: VmId, tx: TransactionView, registers: Seq<u64>) -> bool {
        &&& !self.waiting().contains_key(self.tracker().spec_key(vm_id))
        &&& crate::partial_content::traceable(registers)
    }

    /// What is known of the call is noted.
    open spec fn began(
        &self,
        vm_id: VmId,
        tx: TransactionView,
        registers: Seq<u64>,
        reads: Reads<ReadMiss>,
        after: &Self,
        result: Result<TracedCall, ReadMiss>,
    ) -> bool {
        &&& after.waiting() == self.waiting()
        &&& after.traces() == self.traces()
        &&& match crate::partial_content::noted(registers, reads) {
            Ok(content) => result == Ok::<TracedCall, ReadMiss>(
                TracedCall { key: self.tracker().spec_key(vm_id), content },
            ),
            Err(missing) => result == Err::<TracedCall, ReadMiss>(missing),
        }
    }

    /// The outcome of a call that was made is read of the virtual machine at once; that of a
    /// call for which the virtual machine has to wait is read when it is runnable again.
    open spec fn finished(
        &self,
        call: TracedCall,
        reply: SyscallReply,
        registers: Seq<u64>,
        reads: Reads<ReadMiss>,
        after: &Self,
        result: Result<(), TraceError<ReadMiss>>,
    ) -> bool {
        match (call.content, reply) {
            (Some(content), SyscallReply::Processed) => {
                match crate::partial_content::outcome(content, registers, reads) {
                    Ok(value) => {
                        &&& result is Ok
                        &&& after.waiting() == self.waiting().remove(call.key)
                        &&& after.traces() == self.traces().insert(
                            call.key,
                            trace_of(self.traces(), call.key).push(Some(value)),
                        )
                    },
                    Err(error) => {
                        &&& result == Err::<(), TraceError<ReadMiss>>(error)
                        &&& after.waiting() == self.waiting()
                        &&& after.traces() == self.traces()
                    },
                }
            },
            (Some(content), SyscallReply::Yield) => {
                &&& result is Ok
                &&& after.waiting() == self.waiting().insert(call.key, content)
                &&& after.traces() == self.traces()
            },
            _ => {
                &&& result is Ok
                &&& after.waiting() == self.waiting()
                &&& after.traces() == self.traces()
            },
        }
    }

    /// Every virtual machine that is pending is runnable, and the outcomes of the calls that
    /// wait for virtual machines that are runnable fit.
    open spec fn can_resume(
        &self,
        machines: Seq<(VmId, RecordedMachine)>,
        lengths: Map<LengthQuery, Option<u64>>,
    ) -> bool {
        &&& self.tracker().resumable(machines)
        &&& forall|key: CollectorKey| #[trigger]
            self.waiting().contains_key(key) ==> resumed(
                self.waiting()[key],
                machines,
                key.vm_id,
            ) != Some(Err::<ValueView, TraceError<ReadMiss>>(TraceError::Overflow))
    }

    /// The outcome of a call that waits for a virtual machine that is runnable cannot be read.
    open spec fn obstructed(
        &self,
        machines: Seq<(VmId, RecordedMachine)>,
        lengths: Map<LengthQuery, Option<u64>>,
        error: ErrorView<ReadMiss>,
    ) -> bool {
        exists|key: CollectorKey|
            {
                &&& #[trigger] self.waiting().contains_key(key)
                &&& resumed(self.waiting()[key], machines, key.vm_id) matches Some(
                    Err(TraceError::Read(missing)),
                )
                &&& error == (ErrorView::Read { vm_id: key.vm_id, missing })
            }
    }

    /// All calls wait on.
    open spec fn failed(
        &self,
        machines: Seq<(VmId, RecordedMachine)>,
        lengths: Map<LengthQuery, Option<u64>>,
        after: &Self,
    ) -> bool {
        &&& after.waiting() == self.waiting()
        &&& after.traces() == self.traces()
    }

    /// The calls that wait for virtual machines that are runnable are added to the traces; the
    /// other ones wait on.
    open spec fn postprocessed(
        &self,
        machines: Seq<(VmId, RecordedMachine)>,
        lengths: Map<LengthQuery, Option<u64>>,
        after: &Self,
    ) -> bool {
        forall|key: CollectorKey| #[trigger] settled(self, machines, after, key)
    }

    fn accepts_call(&self, vm_id: VmId, tx: &Transaction, machine: &RecordedMachine) -> (accepts:
        bool) {
        let code: u64 = SyscallCode::LoadCellDataAsCode.number();
        !self.partial_contents.contains_key(&self.key(vm_id)) && machine.register(A7) != code
    }

    fn begin_ecall(
        &mut self,
        vm_id: VmId,
        tx: &Transaction,
        machine: &RecordedMachine,
    ) -> (result: Result<TracedCall, ReadMiss>) {
        let key = self.key(vm_id);
        match build_partial_content(machine) {
            Ok(content) => {
                self.generation_tracker.track(vm_id, machine.register(A7));
                Ok(TracedCall { key, content })
            },
            Err(missing) => Err(missing),
        }
    }

    fn finish_ecall(
        &mut self,
        call: TracedCall,
        reply: SyscallReply,
        machine: &RecordedMachine,
    ) -> (result: Result<(), TraceError<ReadMiss>>) {
        if let Some(content) = call.content {
            match reply {
                SyscallReply::Processed => match apply_partial_content(&content, machine) {
                    Ok(syscall) => {
                        self.fulfill(call.key, syscall);
                    },
                    Err(error) => {
                        return Err(error);
                    },
                },
                SyscallReply::Yield => {
                    self.partial_contents.insert(call.key, content);
                },
                SyscallReply::NotProcessed | SyscallReply::Failed => {},
            }
        }
        Ok(())
    }

    fn watched_vms(&self) -> (vms: Vec<VmId>) {
        let keys = self.partial_contents.keys();
        let mut vms = self.generation_tracker.pending_vms();
        let mut i: usize = 0;
        while i < keys.len()
            invariant
                i <= keys@.len(),
                forall|key: CollectorKey| #[trigger]
                    keys@.contains(key) <==> self.waiting().contains_key(key),
                forall|vm_id: VmId| #[trigger]
                    vms@.contains(vm_id) <==> (self.tracker().spec_pending().contains(vm_id)
                        || exists|j: int| 0 <= j < i && (#[trigger] keys@[j]).vm_id == vm_id),
            decreases keys@.len() - i,
        {
            let ghost before = vms@;
            let vm_id: VmId = keys[i].vm_id;
            vms.push(vm_id);
            proof {
                assert(vms@.last() == vm_id);
                assert forall|vm: VmId| #[trigger] vms@.contains(vm) <==> (before.contains(vm) || vm
                    == vm_id) by {
                    if before.contains(vm) {
                        let j = choose|j: int| 0 <= j < before.len() && before[j] == vm;
                        assert(vms@[j] == vm);
                    }
                }
                assert(keys@[i as int].vm_id == vm_id);
            }
            i = i + 1;
        }
        assert forall|vm_id: VmId| #[trigger]
            vms@.to_set().contains(vm_id) == self.watched().contains(vm_id) by {
            if exists|j: int| 0 <= j < keys@.len() && (#[trigger] keys@[j]).vm_id == vm_id {
                let j = choose|j: int| 0 <= j < keys@.len() && (#[trigger] keys@[j]).vm_id == vm_id;
                assert(keys@.contains(keys@[j]));
            }
            if exists|key: CollectorKey| #[trigger]
                self.waiting().contains_key(key) && key.vm_id == vm_id {
                let key = choose|key: CollectorKey| #[trigger]
                    self.waiting().contains_key(key) && key.vm_id == vm_id;
                assert(keys@.contains(key));
            }
        }
        assert(vms@.to_set() =~= self.watched());
        vms
    }

    fn accepts_machines(
        &self,
        machines: &Vec<(VmId, RecordedMachine)>,
        lengths: &DataLengths,
    ) -> (accepts: bool) {
        if !self.generation_tracker.can_advance(machines) {
            return false;
        }
        let keys = self.partial_contents.keys();
        let mut i: usize = 0;
        while i < keys.len()
            invariant
                i <= keys@.len(),
                forall|key: CollectorKey| #[trigger]
                    keys@.contains(key) <==> self.waiting().contains_key(key),
                forall|j: int|
                    0 <= j < i ==> resumed(
                        self.waiting()[#[trigger] keys@[j]],
                        machines@,
                        keys@[j].vm_id,
                    ) != Some(Err::<ValueView, TraceError<ReadMiss>>(TraceError::Overflow)),
            decreases keys@.len() - i,
        {
            let key = keys[i];
            assert(keys@.contains(keys@[i as int]));
            assert(self.waiting().contains_key(key));
            if let Some(content) = self.partial_contents.get(&key) {
                if let Some(machine) = find_machine(machines, key.vm_id) {
                    if let Err(TraceError::Overflow) = apply_partial_content(content, machine) {
                        return false;
                    }
                }
            }
            i = i + 1;
        }
        assert forall|key: CollectorKey| #[trigger] self.waiting().contains_key(key) implies resumed(
            self.waiting()[key],
            machines@,
            key.vm_id,
        ) != Some(Err::<ValueView, TraceError<ReadMiss>>(TraceError::Overflow)) by {
            assert(keys@.contains(key));
        }
        true
    }

    fn find_obstacle(
        &self,
        machines: &Vec<(VmId, RecordedMachine)>,
        lengths: &DataLengths,
    ) -> (found: Option<PostprocessError<ReadMiss>>) {
        let keys = self.partial_contents.keys();
        let mut failure: Option<PostprocessError<ReadMiss>> = None;
        let mut i: usize = 0;
        while i < keys.len()
            invariant
                self.can_resume(machines@, lengths@),
                i <= keys@.len(),
                forall|key: CollectorKey| #[trigger]
                    keys@.contains(key) <==> self.waiting().contains_key(key),
                failure matches Some(error) ==> {
                    &&& self.obstructed(machines@, lengths@, error@)
                    &&& !crate::locator::only_missing(error@)
                },
                forall|j: int|
                    0 <= j < i ==> match resumed(
                        self.waiting()[#[trigger] keys@[j]],
                        machines@,
                        keys@[j].vm_id,
                    ) {
                        Some(Err(TraceError::Read(missing))) => missing is Failed
                            && failure is Some,
                        _ => true,
                    },
            decreases keys@.len() - i,
        {
            let key = keys[i];
            assert(keys@.contains(keys@[i as int]));
            assert(self.waiting().contains_key(key));
            if let Some(content) = self.partial_contents.get(&key) {
                if let Some(machine) = find_machine(machines, key.vm_id) {
                    if let Err(TraceError::Read(missing)) = apply_partial_content(
                        content,
                        machine,
                    ) {
                        let error = PostprocessError::Read { vm_id: key.vm_id, missing };
                        assert(self.obstructed(machines@, lengths@, error@));
                        if error.is_missing() {
                            return Some(error);
                        }
                        failure = Some(error);
                    }
                }
            }
            i = i + 1;
        }
        assert forall|key: CollectorKey| #[trigger] self.waiting().contains_key(key) implies match resumed(
            self.waiting()[key],
            machines@,
            key.vm_id,
        ) {
            Some(Err(TraceError::Read(missing))) => missing is Failed && failure is Some,
            _ => true,
        } by {
            assert(keys@.contains(key));
        }
        failure
    }

    fn postprocess(
        &mut self,
        machines: &Vec<(VmId, RecordedMachine)>,
        lengths: &DataLengths,
    ) -> (result: Result<(), PostprocessError<ReadMiss>>) {
        if let Some(error) = self.find_obstacle(machines, lengths) {
            if !error.is_missing() {
                self.generation_tracker.advance(machines);
            }
            return Err(error);
        }
        let keys = self.partial_contents.keys();
        let mut i: usize = 0;
        while i < keys.len()
            invariant
                i <= keys@.len(),
                keys@.no_duplicates(),
                forall|key: CollectorKey| #[trigger]
                    keys@.contains(key) <==> old(self).waiting().contains_key(key),
                forall|error: ErrorView<ReadMiss>|
                    !#[trigger] old(self).obstructed(machines@, lengths@, error),
                self.tracker() == old(self).tracker(),
                old(self).can_resume(machines@, lengths@),
                forall|key: CollectorKey| #[trigger]
                    keys@.take(i as int).contains(key) ==> settled(
                        old(self),
                        machines@,
                        &*self,
                        key,
                    ),
                forall|key: CollectorKey|
                    !#[trigger] keys@.take(i as int).contains(key) ==> unsettled(
                        old(self),
                        &*self,
                        key,
                    ),
            decreases keys@.len() - i,
        {
            let key = keys[i];
            let ghost before = *self;
            proof {
                assert(keys@.contains(keys@[i as int]));
                assert(old(self).waiting().contains_key(key));
                assert(!keys@.take(i as int).contains(key));
            }
            if let Some(machine) = find_machine(machines, key.vm_id) {
                if let Some(content) = self.partial_contents.get(&key) {
                    match apply_partial_content(content, machine) {
                        Ok(syscall) => {
                            self.fulfill(key, syscall);
                        },
                        Err(error) => {
                            if let TraceError::Read(missing) = error {
                                assert(old(self).obstructed(
                                    machines@,
                                    lengths@,
                                    ErrorView::Read { vm_id: key.vm_id, missing },
                                ));
                            }
                        },
                    }
                }
            }
            proof {
                let now = keys@.take(i as int);
                let next = keys@.take(i + 1);
                assert(next[i as int] == key);
                assert(settled(old(self), machines@, &*self, key));
                assert forall|k: CollectorKey| #[trigger] next.contains(k) implies settled(
                    old(self),
                    machines@,
                    &*self,
                    k,
                ) by {
                    if k != key {
                        let j = choose|j: int| 0 <= j < next.len() && next[j] == k;
                        assert(now[j] == k);
                        assert(now.contains(k));
                    }
                }
                assert forall|k: CollectorKey| !#[trigger] next.contains(k) implies unsettled(
                    old(self),
                    &*self,
                    k,
                ) by {
                    if now.contains(k) {
                        let j = choose|j: int| 0 <= j < now.len() && now[j] == k;
                        assert(next[j] == k);
                    }
                }
            }
            i = i + 1;
        }
        assert(keys@.take(keys@.len() as int) =~= keys@);
        let ghost before = *self;
        self.generation_tracker.advance(machines);
        assert forall|key: CollectorKey| #[trigger]
            settled(old(self), machines@, &*self, key) by {
            if keys@.contains(key) {
                assert(settled(old(self), machines@, &before, key));
            } else {
                assert(unsettled(old(self), &before, key));
            }
        }
        Ok(())
    }

    fn seal(self) -> (traces: KeyMap<Syscalls>) {
        self.data
    }
}

/// A system call that ended adds at most its own outcome to the trace of its own run, and
/// changes no trace otherwise.
pub proof fn law_finished_call_extends_its_trace(
    before: &SyscallBasedCollector,
    call: TracedCall,
    reply: SyscallReply,
    machine: &RecordedMachine,
    after: &SyscallBasedCollector,
    result: Result<(), TraceError<ReadMiss>>,
    key: CollectorKey,
)
    requires
        before.finished(
            call,
            reply,
            machine.register_file(),
            machine.reads(),
            after,
            result,
        ),
    ensures
        trace_of(before.traces(), key).is_prefix_of(trace_of(after.traces(), key)),
        trace_of(after.traces(), key).len() <= trace_of(before.traces(), key).len() + 1,
        key != call.key ==> trace_of(after.traces(), key) == trace_of(before.traces(), key),
{
}

/// Looking at virtual machines that are runnable adds at most one outcome to the trace of each
/// run, namely that of the call which waited.
pub proof fn law_postprocess_extends_traces(
    before: &SyscallBasedCollector,
    machines: Seq<(VmId, RecordedMachine)>,
    lengths: Map<LengthQuery, Option<u64>>,
    after: &SyscallBasedCollector,
    key: CollectorKey,
)
    requires
        before.postprocessed(machines, lengths, after),
    ensures
        trace_of(before.traces(), key).is_prefix_of(trace_of(after.traces(), key)),
        trace_of(after.traces(), key).len() <= trace_of(before.traces(), key).len() + 1,
        !before.waiting().contains_key(key) ==> trace_of(after.traces(), key) == trace_of(
            before.traces(),
            key,
        ),
        after.waiting().contains_key(key) ==> before.waiting().contains_key(key),
{
    assert(settled(before, machines, after, key));
}

/// A call for which its virtual machine has to wait is recorded once, with the outcome that is
/// read when the virtual machine is runnable again; until then it waits, and the run makes no
/// other call.
pub proof fn law_suspended_call_is_recorded_once(
    before: &SyscallBasedCollector,
    call: TracedCall,
    machine: &RecordedMachine,
    during: &SyscallBasedCollector,
    machines: Seq<(VmId, RecordedMachine)>,
    lengths: Map<LengthQuery, Option<u64>>,
    after: &SyscallBasedCollector,
    tx: TransactionView,
    registers: Seq<u64>,
)
    requires
        call.content is Some,
        before.finished(
            call,
            SyscallReply::Yield,
            machine.register_file(),
            machine.reads(),
            during,
            Ok(()),
        ),
        during.can_resume(machines, lengths),
        during.postprocessed(machines, lengths, after),
        forall|error: ErrorView<ReadMiss>| !#[trigger] during.obstructed(
            machines,
            lengths,
            error,
        ),
    ensures
        trace_of(during.traces(), call.key) == trace_of(before.traces(), call.key),
        during.tracker().spec_key(call.key.vm_id) == call.key ==> !during.can_begin(
            call.key.vm_id,
            tx,
            registers,
        ),
        match resumed(call.content->0, machines, call.key.vm_id) {
            Some(outcome) => {
                &&& outcome matches Ok(value)
                &&& trace_of(after.traces(), call.key) == trace_of(
                    before.traces(),
                    call.key,
                ).push(Some(value))
                &&& !after.waiting().contains_key(call.key)
            },
            None => {
                &&& trace_of(after.traces(), call.key) == trace_of(before.traces(), call.key)
                &&& after.waiting().contains_key(call.key)
                &&& after.waiting()[call.key] == call.content->0
            },
        },
{
    assert(settled(during, machines, after, call.key));
    assert(during.waiting().contains_key(call.key));
    if let Some(Err(TraceError::Read(missing))) = resumed(
        call.content->0,
        machines,
        call.key.vm_id,
    ) {
        assert(during.obstructed(
            machines,
            lengths,
            ErrorView::Read { vm_id: call.key.vm_id, missing },
        ));
    }
}

/// A read that is reported missing to tell what became of a call is one that the machine does
/// not know, so supplying it tells the machine something new; one that is reported to have
/// failed is known to be refused.
pub proof fn law_missing_for_postprocess_is_unknown(
    collector: &SyscallBasedCollector,
    machines: Seq<(VmId, RecordedMachine)>,
    lengths: Map<LengthQuery, Option<u64>>,
    vm_id: VmId,
    missing: ReadMiss,
)
    requires
        collector.obstructed(machines, lengths, ErrorView::Read { vm_id, missing }),
    ensures
        crate::vms::machine_of(machines, vm_id) matches Some(machine)
            && crate::partial_content::is_cause(&machine, missing),
{
    let key = choose|key: CollectorKey|
        {
            &&& #[trigger] collector.waiting().contains_key(key)
            &&& resumed(collector.waiting()[key], machines, key.vm_id) matches Some(
                Err(TraceError::Read(miss)),
            )
            &&& ErrorView::Read { vm_id, missing } == (ErrorView::Read {
                vm_id: key.vm_id,
                missing: miss,
            })
        };
    let machine = crate::vms::machine_of(machines, key.vm_id)->0;
    crate::partial_content::law_missing_read_is_unknown(collector.waiting()[key], &machine);
}

/// Whether a call belongs to the current run of its virtual machine, and a call that asks for
/// the program to be replaced is one of a virtual machine that is pending.
pub open spec fn is_current(
    tracker: GenerationTracker,
    key: CollectorKey,
    content: PartialSyscallContent,
) -> bool {
    &&& key == tracker.spec_key(key.vm_id)
    &&& content is Exec ==> tracker.spec_pending().contains(key.vm_id)
}

/// Whether every call that waits is one of the current run of its virtual machine.
pub open spec fn waits_in_current_runs(collector: &SyscallBasedCollector) -> bool {
    forall|key: CollectorKey| #[trigger]
        collector.waiting().contains_key(key) ==> is_current(
            collector.tracker(),
            key,
            collector.waiting()[key],
        )
}

/// Taking in a call that is about to be made keeps that every call which waits is one of the
/// current run of its virtual machine, and the call that comes of it is one too.
pub proof fn law_begun_call_is_current(
    before: &SyscallBasedCollector,
    vm_id: VmId,
    tx: TransactionView,
    machine: &RecordedMachine,
    after: &SyscallBasedCollector,
    call: TracedCall,
)
    requires
        waits_in_current_runs(before),
        before.began(vm_id, tx, machine.register_file(), machine.reads(), after, Ok(call)),
        crate::generation::followed(
            before.generations(),
            vm_id,
            machine.register_file()[A7 as int],
            after.generations(),
        ),
    ensures
        waits_in_current_runs(after),
        call.content matches Some(content) ==> is_current(after.tracker(), call.key, content),
{
    assert forall|key: CollectorKey| #[trigger] after.waiting().contains_key(
        key,
    ) implies is_current(after.tracker(), key, after.waiting()[key]) by {
        assert(before.waiting().contains_key(key));
    }
}

/// Taking in how a call of the current run of its virtual machine ended keeps that every call
/// which waits is one of the current run.
pub proof fn law_finished_call_waits_in_current_run(
    before: &SyscallBasedCollector,
    call: TracedCall,
    reply: SyscallReply,
    machine: &RecordedMachine,
    after: &SyscallBasedCollector,
    result: Result<(), TraceError<ReadMiss>>,
)
    requires
        waits_in_current_runs(before),
        call.content matches Some(content) ==> is_current(before.tracker(), call.key, content),
        before.finished(
            call,
            reply,
            machine.register_file(),
            machine.reads(),
            after,
            result,
        ),
        after.generations() == before.generations(),
    ensures
        waits_in_current_runs(after),
{
}

/// Looking at virtual machines that are runnable keeps that every call which waits is one of
/// the current run of its virtual machine. In particular no call of a later run waits.
pub proof fn law_calls_wait_in_current_runs(
    before: &SyscallBasedCollector,
    machines: Seq<(VmId, RecordedMachine)>,
    lengths: Map<LengthQuery, Option<u64>>,
    after: &SyscallBasedCollector,
)
    requires
        waits_in_current_runs(before),
        before.can_resume(machines, lengths),
        forall|error: ErrorView<ReadMiss>|
            !#[trigger] before.obstructed(machines, lengths, error),
        before.postprocessed(machines, lengths, after),
        crate::generation::advanced(before.generations(), machines, after.generations()),
    ensures
        waits_in_current_runs(after),
{
    assert forall|key: CollectorKey| #[trigger] after.waiting().contains_key(
        key,
    ) implies is_current(after.tracker(), key, after.waiting()[key]) by {
        assert(settled(before, machines, after, key));
        assert(before.waiting().contains_key(key));
        if let Some(Err(TraceError::Read(missing))) = resumed(
            before.waiting()[key],
            machines,
            key.vm_id,
        ) {
            assert(before.obstructed(
                machines,
                lengths,
                ErrorView::Read { vm_id: key.vm_id, missing },
            ));
        }
        assert(crate::vms::machine_of(machines, key.vm_id) is None);
        assert(after.tracker().spec_generation(key.vm_id) == before.tracker().spec_generation(
            key.vm_id,
        ));
    }
}

/// The trace of a program ends with the call that replaced it. When a call that asked for the
/// program to be replaced has waited and has succeeded, it ends the trace of the old run; the
/// virtual machine is in the next run, whose trace is as it was.
pub proof fn law_replaced_program_ends_its_trace(
    before: &SyscallBasedCollector,
    machines: Seq<(VmId, RecordedMachine)>,
    lengths: Map<LengthQuery, Option<u64>>,
    after: &SyscallBasedCollector,
    vm_id: VmId,
)
    requires
        waits_in_current_runs(before),
        before.can_resume(machines, lengths),
        before.waiting().contains_key(before.tracker().spec_key(vm_id)),
        before.waiting()[before.tracker().spec_key(vm_id)] is Exec,
        crate::vms::machine_of(machines, vm_id) matches Some(machine)
            && machine.register_file()[A0 as int] == 0,
        before.postprocessed(machines, lengths, after),
        crate::generation::advanced(before.generations(), machines, after.generations()),
    ensures
        ({
            let old_run = before.tracker().spec_key(vm_id);
            let new_run = after.tracker().spec_key(vm_id);
            &&& new_run.vm_id == vm_id
            &&& new_run.generation_id == old_run.generation_id + 1
            &&& trace_of(after.traces(), old_run) == trace_of(before.traces(), old_run).push(
                Some(ValueView::Terminated),
            )
            &&& after.traces().contains_key(new_run) == before.traces().contains_key(new_run)
            &&& trace_of(after.traces(), new_run) == trace_of(before.traces(), new_run)
        }),
{
    let old_run = before.tracker().spec_key(vm_id);
    let new_run = after.tracker().spec_key(vm_id);
    assert(is_current(before.tracker(), old_run, before.waiting()[old_run]));
    assert(before.tracker().spec_pending().contains(vm_id));
    assert(after.tracker().spec_generation(vm_id) == before.tracker().spec_generation(vm_id) + 1);
    assert(settled(before, machines, after, old_run));
    assert(settled(before, machines, after, new_run));
    assert(!before.waiting().contains_key(new_run));
}

} // verus!
