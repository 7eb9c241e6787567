use ckb_vm_syscall_tracer::collector::{
    after_turn, conclude, Collector, CollectorKind, CollectorResult, SyscallReply, Turn,
};
use ckb_vm_syscall_tracer::data::{DataLengths, DataPieceId, LengthQuery};
use ckb_vm_syscall_tracer::generation::GenerationTracker;
use ckb_vm_syscall_tracer::keys::{CollectorKey, KeyMap, ROOT_VM_ID};
use ckb_vm_syscall_tracer::locator::{BinaryLocator, PostprocessError};
use ckb_vm_syscall_tracer::locator_collector::BinaryLocatorCollector;
use ckb_vm_syscall_tracer::machine::{
    MemoryRead, ReadMiss, RecordedMachine, A0, A1, A2, A3, A4, A7, REGISTER_COUNT,
};
use ckb_vm_syscall_tracer::partial_content::{PartialSyscallContent, TraceError};
use ckb_vm_syscall_tracer::syscall_collector::SyscallBasedCollector;
use ckb_vm_syscall_tracer::traces::{IoData, Parts, Syscall, SyscallValue, Syscalls, Terminated};
use ckb_vm_syscall_tracer::transaction::{
    locate_input, locate_witness, ScriptGroup, Transaction,
};
use ckb_vm_syscall_tracer::tx_parts_collector::TxPartsBasedCollector;

const INPUT: u64 = 1;
const OUTPUT: u64 = 2;
const CELL_DEP: u64 = 3;
const GROUP_INPUT: u64 = 0x0100_0000_0000_0001;
const GROUP_OUTPUT: u64 = 0x0100_0000_0000_0002;

fn machine(registers: &[(usize, u64)]) -> RecordedMachine {
    let mut all = [0u64; REGISTER_COUNT];
    for (register, value) in registers {
        all[*register] = *value;
    }
    RecordedMachine::new(all)
}

fn supply64(machine: &mut RecordedMachine, addr: u64, value: u64) {
    machine.supply(MemoryRead::Load64 { addr }, value.to_le_bytes().to_vec());
}

fn key(vm_id: u64, generation_id: u64) -> CollectorKey {
    CollectorKey { vm_id, generation_id }
}

fn transaction() -> Transaction {
    Transaction {
        tx_hash: vec![9; 32],
        input_cells: vec![vec![10], vec![11], vec![12]],
        input_cell_data: vec![Some(vec![20]), Some(vec![21]), None],
        witnesses: vec![vec![30], vec![31], vec![32], vec![33]],
        script_group: ScriptGroup { input_indices: vec![1, 2], output_indices: vec![3] },
    }
}

fn returned(code: i64) -> Syscall {
    Syscall { value: Some(SyscallValue::ReturnWithCode(code)) }
}

fn trace_of(traces: &KeyMap<Syscalls>, vm_id: u64, generation_id: u64) -> Vec<Syscall> {
    match traces.get(&key(vm_id, generation_id)) {
        Some(trace) => trace.syscalls.clone(),
        None => vec![],
    }
}

#[test]
fn the_first_virtual_machine_is_that_of_the_scheduler() {
    assert_eq!(ROOT_VM_ID, ckb_script::ROOT_VM_ID);
}

#[test]
fn kinds_of_collectors_differ() {
    assert_ne!(CollectorKind::Syscall, CollectorKind::TxParts);
    assert!(CollectorKind::Syscall < CollectorKind::TxParts);
}

#[test]
fn a_map_from_runs_keeps_the_latest_value() {
    let mut map: KeyMap<u32> = KeyMap::new();
    assert_eq!(map.len(), 0);
    map.insert(key(1, 0), 10);
    map.insert(key(1, 1), 11);
    map.insert(key(1, 0), 12);
    assert_eq!(map.len(), 2);
    assert_eq!(map.get(&key(1, 0)), Some(&12));
    assert_eq!(map.get(&key(2, 0)), None);
    assert!(map.contains_key(&key(1, 1)));
    assert_eq!(map.remove(&key(1, 1)), Some(11));
    assert_eq!(map.remove(&key(1, 1)), None);
    assert_eq!(map.keys(), vec![key(1, 0)]);
    assert_eq!(map.pop(), Some((key(1, 0), 12)));
    assert_eq!(map.pop(), None);
}

#[test]
fn a_replaced_program_starts_a_generation() {
    let mut tracker = GenerationTracker::new();
    assert_eq!(tracker.key(4), key(4, 0));
    tracker.track(4, 2043);
    tracker.track(5, 2043);
    tracker.track(6, 2601);
    assert_eq!(tracker.generation(4), 0);
    let mut pending = tracker.pending_vms();
    pending.sort();
    assert_eq!(pending, vec![4, 5]);

    let failed = machine(&[(A0, 1)]);
    let succeeded = machine(&[(A0, 0)]);
    let machines = vec![(4, succeeded)];
    assert!(!tracker.can_advance(&machines));
    let machines = vec![(4, machine(&[(A0, 0)])), (5, failed), (6, machine(&[]))];
    assert!(tracker.can_advance(&machines));
    assert_eq!(tracker.next_key(&machines, 4), key(4, 1));
    tracker.advance(&machines);
    assert_eq!(tracker.key(4), key(4, 1));
    assert_eq!(tracker.key(5), key(5, 0));
    assert_eq!(tracker.key(6), key(6, 0));
    assert_eq!(tracker.pending_vms(), Vec::<u64>::new());

    // Looked at once, a virtual machine is not looked at again.
    tracker.advance(&machines);
    assert_eq!(tracker.key(4), key(4, 1));
}

#[test]
fn a_generation_tracker_collects_nothing() {
    let mut tracker = GenerationTracker::default();
    let tx = transaction();
    let exec = machine(&[(A7, 2043)]);
    assert!(tracker.accepts_call(1, &tx, &exec));
    assert_eq!(tracker.begin_ecall(1, &tx, &exec), Ok(()));
    assert_eq!(tracker.finish_ecall((), SyscallReply::Yield, &exec), Ok(()));
    assert_eq!(tracker.watched_vms(), vec![1]);
    let machines = vec![(1, machine(&[]))];
    assert!(tracker.accepts_machines(&machines, &DataLengths::new()));
    assert_eq!(tracker.find_obstacle(&machines, &DataLengths::new()), None);
    assert_eq!(tracker.postprocess(&machines, &DataLengths::new()), Ok(()));
    assert_eq!(tracker.generation(1), 1);
    assert_eq!(tracker.seal().len(), 0);
}

#[test]
fn a_call_that_is_made_at_once_is_traced_at_once() {
    let tx = transaction();
    let mut collector = SyscallBasedCollector::new();
    let mut before = machine(&[(A7, 2071), (A0, 0x100), (A1, 0x200)]);
    assert!(collector.accepts_call(0, &tx, &before));
    let missing = MemoryRead::Load64 { addr: 0x200 };
    match collector.begin_ecall(0, &tx, &before) {
        Err(miss) => assert_eq!(miss, ReadMiss::Unknown(missing)),
        Ok(_) => panic!("the room for the data is not known"),
    }
    supply64(&mut before, 0x200, 4);
    let call = collector.begin_ecall(0, &tx, &before).unwrap();
    assert_eq!(call.key, key(0, 0));
    assert_eq!(
        call.content,
        Some(PartialSyscallContent::IoData { data_addr: 0x100, input_length: 4 })
    );

    let mut after = machine(&[(A7, 2071), (A0, 0), (A1, 0x200)]);
    let missing = MemoryRead::Load64 { addr: 0x200 };
    assert_eq!(
        collector.finish_ecall(call, SyscallReply::Processed, &after),
        Err(TraceError::Read(ReadMiss::Unknown(missing)))
    );
    supply64(&mut after, 0x200, 2);
    after.supply(MemoryRead::LoadBytes { addr: 0x100, size: 2 }, vec![5, 6]);
    assert_eq!(collector.finish_ecall(call, SyscallReply::Processed, &after), Ok(()));

    let traces = collector.seal();
    assert_eq!(
        trace_of(&traces, 0, 0),
        vec![Syscall {
            value: Some(SyscallValue::IoData(IoData {
                available_data: vec![5, 6],
                additional_length: 0
            }))
        }]
    );
}

#[test]
fn calls_that_are_not_made_are_not_traced() {
    let tx = transaction();
    let mut collector = SyscallBasedCollector::default();
    let unknown = machine(&[(A7, 93)]);
    let call = collector.begin_ecall(0, &tx, &unknown).unwrap();
    assert_eq!(call.content, None);
    assert_eq!(collector.finish_ecall(call, SyscallReply::Processed, &unknown), Ok(()));

    let version = machine(&[(A7, 2041), (A0, 1)]);
    let call = collector.begin_ecall(0, &tx, &version).unwrap();
    assert_eq!(collector.finish_ecall(call, SyscallReply::NotProcessed, &version), Ok(()));
    assert_eq!(collector.finish_ecall(call, SyscallReply::Failed, &version), Ok(()));
    assert_eq!(collector.seal().len(), 0);
}

#[test]
fn mapping_data_as_code_is_not_accepted() {
    let tx = transaction();
    let collector = SyscallBasedCollector::new();
    assert!(!collector.accepts_call(0, &tx, &machine(&[(A7, 2091)])));
    assert!(collector.accepts_call(0, &tx, &machine(&[(A7, 2092)])));
}

#[test]
fn a_suspended_call_is_traced_once_when_its_machine_is_runnable() {
    let tx = transaction();
    let lengths = DataLengths::new();
    let mut collector = SyscallBasedCollector::new();
    let read = machine(&[(A7, 2606)]);
    let call = collector.begin_ecall(3, &tx, &read).unwrap();
    assert_eq!(collector.finish_ecall(call, SyscallReply::Yield, &read), Ok(()));
    assert!(!collector.accepts_call(3, &tx, &read));
    assert!(collector.accepts_call(4, &tx, &read));
    assert_eq!(collector.watched_vms(), vec![3]);

    // Its virtual machine is not runnable yet.
    assert_eq!(collector.postprocess(&vec![(4, machine(&[]))], &lengths), Ok(()));
    assert!(!collector.accepts_call(3, &tx, &read));

    let mut machines = vec![(3, machine(&[(A0, 0), (A1, 0x70), (A2, 0x90)]))];
    let missing = MemoryRead::Load64 { addr: 0x90 };
    assert_eq!(
        collector.postprocess(&machines, &lengths),
        Err(PostprocessError::Read { vm_id: 3, missing: ReadMiss::Unknown(missing) })
    );
    assert!(!collector.accepts_call(3, &tx, &read));
    supply64(&mut machines[0].1, 0x90, 2);
    machines[0].1.supply(MemoryRead::LoadBytes { addr: 0x70, size: 2 }, vec![7, 8]);
    assert_eq!(collector.find_obstacle(&machines, &lengths), None);
    assert_eq!(collector.postprocess(&machines, &lengths), Ok(()));
    assert!(collector.accepts_call(3, &tx, &read));
    assert_eq!(collector.postprocess(&machines, &lengths), Ok(()));

    let traces = collector.seal();
    assert_eq!(
        trace_of(&traces, 3, 0),
        vec![Syscall {
            value: Some(SyscallValue::IoData(IoData {
                available_data: vec![7, 8],
                additional_length: 0
            }))
        }]
    );
}

#[test]
fn an_outcome_that_does_not_fit_is_not_accepted() {
    let tx = transaction();
    let lengths = DataLengths::new();
    let mut collector = SyscallBasedCollector::new();
    let pipe = machine(&[(A7, 2604), (A0, u64::MAX - 7)]);
    let call = collector.begin_ecall(3, &tx, &pipe).unwrap();
    assert_eq!(collector.finish_ecall(call, SyscallReply::Yield, &pipe), Ok(()));
    let mut machines = vec![(3, machine(&[(A0, 0)]))];
    assert!(collector.accepts_machines(&machines, &lengths));
    supply64(&mut machines[0].1, u64::MAX - 7, 1);
    assert!(!collector.accepts_machines(&machines, &lengths));
}

#[test]
fn a_replaced_program_has_a_trace_of_its_own() {
    let tx = transaction();
    let lengths = DataLengths::new();
    let mut collector = SyscallBasedCollector::new();
    let exec = machine(&[(A7, 2043)]);
    let call = collector.begin_ecall(0, &tx, &exec).unwrap();
    assert_eq!(collector.finish_ecall(call, SyscallReply::Yield, &exec), Ok(()));
    let machines = vec![(0, machine(&[(A0, 0)]))];
    assert!(!collector.accepts_machines(&vec![], &DataLengths::new()));
    assert!(collector.accepts_machines(&machines, &DataLengths::new()));
    assert_eq!(collector.postprocess(&machines, &lengths), Ok(()));
    assert_eq!(collector.key(0), key(0, 1));

    let version = machine(&[(A7, 2041), (A0, 2)]);
    let call = collector.begin_ecall(0, &tx, &version).unwrap();
    assert_eq!(collector.finish_ecall(call, SyscallReply::Processed, &version), Ok(()));

    let traces = collector.seal();
    assert_eq!(
        trace_of(&traces, 0, 0),
        vec![Syscall { value: Some(SyscallValue::Terminated(Terminated {})) }]
    );
    assert_eq!(trace_of(&traces, 0, 1), vec![returned(2)]);
}

#[test]
fn a_program_that_could_not_be_replaced_goes_on_with_its_trace() {
    let tx = transaction();
    let mut collector = SyscallBasedCollector::new();
    let exec = machine(&[(A7, 2043)]);
    let call = collector.begin_ecall(0, &tx, &exec).unwrap();
    assert_eq!(collector.finish_ecall(call, SyscallReply::Yield, &exec), Ok(()));
    let machines = vec![(0, machine(&[(A0, 3)]))];
    assert_eq!(collector.postprocess(&machines, &DataLengths::new()), Ok(()));
    assert_eq!(collector.key(0), key(0, 0));
    assert_eq!(trace_of(&collector.seal(), 0, 0), vec![returned(3)]);
}

#[test]
fn fulfilled_calls_are_appended() {
    let mut collector = SyscallBasedCollector::new();
    collector.fulfill(key(7, 0), returned(1));
    collector.fulfill(key(7, 0), returned(2));
    assert_eq!(trace_of(&collector.seal(), 7, 0), vec![returned(1), returned(2)]);
}

#[test]
fn inputs_are_located() {
    let group = transaction().script_group;
    assert_eq!(locate_input(7, INPUT, &group), Some(7));
    assert_eq!(locate_input(1, GROUP_INPUT, &group), Some(2));
    assert_eq!(locate_input(2, GROUP_INPUT, &group), None);
    assert_eq!(locate_input(0, OUTPUT, &group), None);
    assert_eq!(locate_input(0, GROUP_OUTPUT, &group), None);
    assert_eq!(locate_input(0, CELL_DEP, &group), None);
}

#[test]
fn witnesses_are_located() {
    let group = transaction().script_group;
    assert_eq!(locate_witness(7, INPUT, &group), Some(7));
    assert_eq!(locate_witness(8, OUTPUT, &group), Some(8));
    assert_eq!(locate_witness(0, GROUP_INPUT, &group), Some(1));
    assert_eq!(locate_witness(0, GROUP_OUTPUT, &group), Some(3));
    assert_eq!(locate_witness(1, GROUP_OUTPUT, &group), None);
    assert_eq!(locate_witness(0, CELL_DEP, &group), None);
}

fn call_parts(collector: &mut TxPartsBasedCollector, registers: &[(usize, u64)]) -> bool {
    let tx = transaction();
    let machine = machine(registers);
    assert!(collector.accepts_call(0, &tx, &machine));
    let call = collector.begin_ecall(0, &tx, &machine).unwrap();
    let traced = call.is_some();
    assert_eq!(collector.finish_ecall(call, SyscallReply::Processed, &machine), Ok(()));
    !traced
}

fn sealed_parts(collector: TxPartsBasedCollector) -> Parts {
    let traces = collector.seal();
    assert_eq!(traces.len(), 1);
    traces.get(&key(0, 0)).unwrap().clone()
}

#[test]
fn parts_of_the_transaction_answer_calls() {
    let mut collector = TxPartsBasedCollector::new();
    assert!(call_parts(&mut collector, &[(A7, 2061)]));
    // The first three witnesses, up to the one of the first output of the group.
    assert!(call_parts(&mut collector, &[(A7, 2074), (A3, 0), (A4, GROUP_OUTPUT)]));
    // The second input of the group is the third one of the transaction.
    assert!(call_parts(&mut collector, &[(A7, 2071), (A3, 1), (A4, GROUP_INPUT)]));
    assert!(call_parts(&mut collector, &[(A7, 2092), (A3, 1), (A4, INPUT)]));
    assert_eq!(
        sealed_parts(collector),
        Parts {
            tx_hash: vec![9; 32],
            input_cells: vec![vec![10], vec![11], vec![12]],
            input_cell_data: vec![vec![20], vec![21]],
            witnesses: vec![vec![30], vec![31], vec![32], vec![33]],
            other_syscalls: vec![],
        }
    );
}

#[test]
fn parts_are_extended_and_never_shortened() {
    let mut collector = TxPartsBasedCollector::new();
    assert!(call_parts(&mut collector, &[(A7, 2071), (A3, 1), (A4, INPUT)]));
    assert!(call_parts(&mut collector, &[(A7, 2071), (A3, 0), (A4, INPUT)]));
    assert!(call_parts(&mut collector, &[(A7, 2071), (A3, 900), (A4, INPUT)]));
    assert_eq!(sealed_parts(collector).input_cells, vec![vec![10], vec![11], vec![12]]);
}

#[test]
fn other_calls_are_traced_beside_the_parts() {
    let mut collector = TxPartsBasedCollector::default();
    assert!(call_parts(&mut collector, &[(A7, 2061)]));
    assert!(!call_parts(&mut collector, &[(A7, 2041), (A0, 2)]));
    assert!(!call_parts(&mut collector, &[(A7, 2608), (A0, 0)]));
    let parts = sealed_parts(collector);
    assert_eq!(parts.tx_hash, vec![9; 32]);
    assert_eq!(parts.other_syscalls, vec![returned(2), returned(0)]);
}

#[test]
fn a_run_without_parts_is_sealed_with_its_calls() {
    let mut collector = TxPartsBasedCollector::new();
    assert!(!call_parts(&mut collector, &[(A7, 2041), (A0, 1)]));
    let parts = sealed_parts(collector);
    assert_eq!(parts.tx_hash, Vec::<u8>::new());
    assert_eq!(parts.other_syscalls, vec![returned(1)]);
}

#[test]
fn a_call_for_another_source_is_traced() {
    let tx = transaction();
    let mut collector = TxPartsBasedCollector::new();
    let mut load = machine(&[(A7, 2071), (A1, 0x200), (A3, 0), (A4, CELL_DEP)]);
    supply64(&mut load, 0x200, 0);
    let call = collector.begin_ecall(0, &tx, &load).unwrap();
    assert!(call.is_some());
}

#[test]
fn parts_that_cannot_be_had_are_not_accepted() {
    let tx = transaction();
    let collector = TxPartsBasedCollector::new();
    // The data of the third cell cannot be loaded.
    let third = machine(&[(A7, 2092), (A3, 2), (A4, INPUT)]);
    assert!(!collector.accepts_call(0, &tx, &third));
    let second = machine(&[(A7, 2092), (A3, 1), (A4, INPUT)]);
    assert!(collector.accepts_call(0, &tx, &second));
    let last = machine(&[(A7, 2071), (A3, u64::MAX), (A4, INPUT)]);
    assert!(!collector.accepts_call(0, &tx, &last));
    let last = machine(&[(A7, 2074), (A3, u64::MAX), (A4, OUTPUT)]);
    assert!(!collector.accepts_call(0, &tx, &last));
}

#[test]
fn parts_and_suspended_calls() {
    let tx = transaction();
    let lengths = DataLengths::new();
    let mut collector = TxPartsBasedCollector::new();
    let wait = machine(&[(A7, 2602)]);
    let call = collector.begin_ecall(0, &tx, &wait).unwrap();
    assert_eq!(collector.finish_ecall(call, SyscallReply::Yield, &wait), Ok(()));
    assert_eq!(collector.watched_vms(), vec![0]);
    let mut machines = vec![(0, machine(&[(A1, 0x60)]))];
    assert!(collector.accepts_machines(&machines, &DataLengths::new()));
    assert!(collector.find_obstacle(&machines, &lengths).is_some());
    machines[0].1.supply(MemoryRead::Load8 { addr: 0x60 }, vec![4]);
    assert_eq!(collector.postprocess(&machines, &lengths), Ok(()));
    assert_eq!(
        sealed_parts(collector).other_syscalls,
        vec![Syscall { value: Some(SyscallValue::SuccessOutputData(4)) }]
    );
}

fn start_program(
    collector: &mut BinaryLocatorCollector<SyscallBasedCollector>,
    vm_id: u64,
    registers: &[(usize, u64)],
) {
    let tx = transaction();
    let machine = machine(registers);
    assert!(collector.accepts_call(vm_id, &tx, &machine));
    let call = collector.begin_ecall(vm_id, &tx, &machine).unwrap();
    assert_eq!(collector.finish_ecall(call, SyscallReply::Yield, &machine), Ok(()));
    assert!(!collector.accepts_call(vm_id, &tx, &machine));
}

fn make_call(collector: &mut BinaryLocatorCollector<SyscallBasedCollector>, vm_id: u64) {
    let tx = transaction();
    let machine = machine(&[(A7, 2041), (A0, 2)]);
    let call = collector.begin_ecall(vm_id, &tx, &machine).unwrap();
    assert_eq!(collector.finish_ecall(call, SyscallReply::Processed, &machine), Ok(()));
}

#[test]
fn the_first_program_is_located_as_a_whole() {
    let mut collector = BinaryLocatorCollector::new(SyscallBasedCollector::new());
    collector.record_root(5, 0x1_0000_0003);
    make_call(&mut collector, 0);
    let traces = collector.seal();
    assert_eq!(traces.len(), 1);
    let (locator, trace) = traces.get(&key(0, 0)).unwrap();
    assert_eq!(
        *locator,
        BinaryLocator { index: 5, source: CELL_DEP, offset: 0, length: 3, from_cell: true }
    );
    assert_eq!(trace.syscalls, vec![returned(2)]);
}

#[test]
fn a_run_without_a_locator_or_without_a_trace_is_left_out() {
    let mut collector: BinaryLocatorCollector<SyscallBasedCollector> =
        BinaryLocatorCollector::default();
    collector.record_root(5, 10);
    make_call(&mut collector, 9);
    assert_eq!(collector.seal().len(), 0);
}

#[test]
fn a_program_that_replaces_another_is_located() {
    let mut collector = BinaryLocatorCollector::new(SyscallBasedCollector::new());
    collector.record_root(5, 10);
    start_program(
        &mut collector,
        0,
        &[(A7, 2043), (A0, 1), (A1, INPUT), (A2, 1), (A3, 0x0000_0007_0000_0008)],
    );
    assert_eq!(collector.watched_vms(), vec![0, 0, 0, 0]);
    let machines = vec![(0, machine(&[(A0, 0)]))];
    assert!(!collector.accepts_machines(&vec![], &DataLengths::new()));
    assert!(collector.accepts_machines(&machines, &DataLengths::new()));
    assert_eq!(collector.postprocess(&machines, &DataLengths::new()), Ok(()));
    make_call(&mut collector, 0);
    let traces = collector.seal();
    assert_eq!(traces.len(), 2);
    let (locator, trace) = traces.get(&key(0, 1)).unwrap();
    assert_eq!(
        *locator,
        BinaryLocator { index: 1, source: INPUT, offset: 7, length: 8, from_cell: false }
    );
    assert_eq!(trace.syscalls, vec![returned(2)]);
}

#[test]
fn a_program_that_could_not_replace_another_is_not_located() {
    let mut collector = BinaryLocatorCollector::new(SyscallBasedCollector::new());
    collector.record_root(5, 10);
    start_program(&mut collector, 0, &[(A7, 2043), (A0, 1), (A1, INPUT), (A3, 8)]);
    let machines = vec![(0, machine(&[(A0, 3)]))];
    assert_eq!(collector.postprocess(&machines, &DataLengths::new()), Ok(()));
    let traces = collector.seal();
    assert_eq!(traces.keys(), vec![key(0, 0)]);
}

#[test]
fn a_program_in_a_machine_of_its_own_is_located_with_its_length() {
    let mut collector = BinaryLocatorCollector::new(SyscallBasedCollector::new());
    let mut lengths = DataLengths::new();
    start_program(&mut collector, 0, &[(A7, 2601), (A0, 4), (A1, CELL_DEP), (A3, 6 << 32)]);

    let mut machines = vec![(0, machine(&[(A0, 0), (A4, 0x1000)]))];
    let missing = MemoryRead::Load64 { addr: 0x1010 };
    assert_eq!(
        collector.postprocess(&machines, &lengths),
        Err(PostprocessError::Read { vm_id: 0, missing: ReadMiss::Unknown(missing) })
    );
    supply64(&mut machines[0].1, 0x1010, 0x3000);
    supply64(&mut machines[0].1, 0x3000, 2);
    let query = LengthQuery { piece: DataPieceId::CellDep(4), offset: 6 };
    assert_eq!(
        collector.postprocess(&machines, &lengths),
        Err(PostprocessError::Length(query))
    );
    lengths.supply(query, Some(500));
    assert_eq!(collector.postprocess(&machines, &lengths), Ok(()));
    make_call(&mut collector, 2);
    let traces = collector.seal();
    let (locator, _) = traces.get(&key(2, 0)).unwrap();
    assert_eq!(
        *locator,
        BinaryLocator { index: 4, source: CELL_DEP, offset: 6, length: 500, from_cell: true }
    );
}

fn spawned(registers: &[(usize, u64)], lengths: &DataLengths, process_id: u64) -> PostprocessError<ReadMiss> {
    let mut collector = BinaryLocatorCollector::new(SyscallBasedCollector::new());
    start_program(&mut collector, 0, registers);
    let mut machines = vec![(0, machine(&[(A0, 0), (A4, 0x1000)]))];
    supply64(&mut machines[0].1, 0x1010, 0x3000);
    supply64(&mut machines[0].1, 0x3000, process_id);
    collector.postprocess(&machines, lengths).unwrap_err()
}

#[test]
fn programs_that_cannot_be_located() {
    let lengths = DataLengths::new();
    // Headers hold no programs.
    assert_eq!(
        spawned(&[(A7, 2601), (A0, 0), (A1, 4)], &lengths, 2),
        PostprocessError::DataPiece("Invalid source value: 0x4".to_string())
    );
    match spawned(&[(A7, 2601), (A0, 1 << 32), (A1, CELL_DEP)], &lengths, 2) {
        PostprocessError::DataPiece(message) => {
            assert!(message.starts_with("Error casting index to u32"))
        }
        _ => panic!("the index does not fit"),
    }
    let mut lengths = DataLengths::new();
    let query = LengthQuery { piece: DataPieceId::Witness(4), offset: 0 };
    lengths.supply(query, None);
    let locator =
        BinaryLocator { index: 4, source: OUTPUT, offset: 0, length: 0, from_cell: false };
    assert_eq!(
        spawned(&[(A7, 2601), (A0, 4), (A1, OUTPUT), (A2, 1)], &lengths, 2),
        PostprocessError::InvalidLocator(locator)
    );
}

#[test]
fn traces_are_kept_of_a_script_that_succeeds() {
    let mut collector = SyscallBasedCollector::new();
    collector.fulfill(key(0, 0), returned(0));
    match conclude(collector, 0, 1234) {
        CollectorResult::Success { cycles, traces } => {
            assert_eq!(cycles, 1234);
            assert_eq!(trace_of(&traces, 0, 0), vec![returned(0)]);
        }
        CollectorResult::Failure { .. } => panic!("the script succeeded"),
    }
}

#[test]
fn traces_are_not_kept_of_a_script_that_fails() {
    let mut collector = SyscallBasedCollector::new();
    collector.fulfill(key(0, 0), returned(0));
    match conclude(collector, -5, 1234) {
        CollectorResult::Failure { exit_code } => assert_eq!(exit_code, -5),
        CollectorResult::Success { .. } => panic!("the script failed"),
    }
}

#[test]
fn a_turn_without_an_exit_goes_on_with_the_collector() {
    let mut collector = SyscallBasedCollector::new();
    collector.fulfill(key(0, 0), returned(7));
    let collector = match after_turn(collector, None) {
        Turn::Postprocess(collector) => collector,
        Turn::Finished(_) => panic!("nothing exited"),
    };
    assert_eq!(trace_of(&collector.seal(), 0, 0), vec![returned(7)]);
}

#[test]
fn a_turn_with_an_exit_ends_the_collection() {
    let mut collector = SyscallBasedCollector::new();
    collector.fulfill(key(0, 0), returned(7));
    match after_turn(collector, Some((0, 55))) {
        Turn::Finished(CollectorResult::Success { cycles, traces }) => {
            assert_eq!(cycles, 55);
            assert_eq!(trace_of(&traces, 0, 0), vec![returned(7)]);
        }
        _ => panic!("the script succeeded"),
    }
    match after_turn(SyscallBasedCollector::new(), Some((9, 55))) {
        Turn::Finished(CollectorResult::Failure { exit_code }) => assert_eq!(exit_code, 9),
        _ => panic!("the script failed"),
    }
}

#[test]
fn generations_count_replacements() {
    let mut tracker = GenerationTracker::new();
    tracker.increase_generation(3);
    tracker.mark_pending(3);
    tracker.increase_generation(4);
    assert_eq!(tracker.generation(3), 1);
    tracker.track(3, 2043);
    tracker.increase_generation(3);
    assert_eq!(tracker.key(3), key(3, 2));
    assert_eq!(tracker.key(3), key(3, 2));
    assert_eq!(tracker.key(4), key(4, 1));
    assert_eq!(tracker.key(5), key(5, 0));
}

#[test]
fn the_trace_of_a_program_ends_with_the_call_that_replaced_it() {
    let tx = transaction();
    let mut collector = SyscallBasedCollector::new();
    collector.fulfill(key(0, 0), returned(1));
    collector.fulfill(key(0, 1), returned(2));
    let exec = machine(&[(A7, 2043)]);
    let call = collector.begin_ecall(0, &tx, &exec).unwrap();
    assert_eq!(collector.finish_ecall(call, SyscallReply::Yield, &exec), Ok(()));
    let machines = vec![(0, machine(&[(A0, 0)]))];
    assert_eq!(collector.postprocess(&machines, &DataLengths::new()), Ok(()));
    assert_eq!(collector.key(0), key(0, 1));
    let traces = collector.seal();
    assert_eq!(
        trace_of(&traces, 0, 0),
        vec![
            returned(1),
            Syscall { value: Some(SyscallValue::Terminated(Terminated {})) }
        ]
    );
    assert_eq!(trace_of(&traces, 0, 1), vec![returned(2)]);
}

#[test]
fn a_machine_that_started_itself_is_not_accepted() {
    let lengths = DataLengths::new();
    let mut collector = BinaryLocatorCollector::new(SyscallBasedCollector::new());
    start_program(&mut collector, 0, &[(A7, 2601), (A0, 4), (A1, CELL_DEP), (A3, 8)]);
    let mut machines = vec![(0, machine(&[(A0, 0), (A4, 0x1000)]))];
    supply64(&mut machines[0].1, 0x1010, 0x3000);
    assert!(collector.accepts_machines(&machines, &lengths));
    supply64(&mut machines[0].1, 0x3000, 0);
    assert!(!collector.accepts_machines(&machines, &lengths));
}

#[test]
fn a_failed_read_leaves_calls_waiting_in_the_next_generation() {
    let tx = transaction();
    let lengths = DataLengths::new();
    let mut collector = SyscallBasedCollector::new();
    let exec = machine(&[(A7, 2043)]);
    let call = collector.begin_ecall(1, &tx, &exec).unwrap();
    assert_eq!(collector.finish_ecall(call, SyscallReply::Yield, &exec), Ok(()));
    let write = machine(&[(A7, 2605)]);
    let call = collector.begin_ecall(2, &tx, &write).unwrap();
    assert_eq!(collector.finish_ecall(call, SyscallReply::Yield, &write), Ok(()));
    let wait = machine(&[(A7, 2602)]);
    let call = collector.begin_ecall(3, &tx, &wait).unwrap();
    assert_eq!(collector.finish_ecall(call, SyscallReply::Yield, &wait), Ok(()));

    let mut machines = vec![
        (1, machine(&[(A0, 0)])),
        (2, machine(&[(A2, 0x90)])),
        (3, machine(&[(A1, 0x60)])),
    ];
    let read = MemoryRead::Load64 { addr: 0x90 };
    machines[1].1.supply_failure(read);
    // What is missing comes first, and nothing changes.
    let missing = ReadMiss::Unknown(MemoryRead::Load8 { addr: 0x60 });
    assert_eq!(
        collector.postprocess(&machines, &lengths),
        Err(PostprocessError::Read { vm_id: 3, missing })
    );
    assert_eq!(collector.key(1), key(1, 0));

    machines[2].1.supply(MemoryRead::Load8 { addr: 0x60 }, vec![4]);
    let failed = PostprocessError::Read { vm_id: 2, missing: ReadMiss::Failed(read) };
    assert!(!failed.is_missing());
    assert_eq!(collector.postprocess(&machines, &lengths), Err(failed));
    assert_eq!(collector.key(1), key(1, 1));
    let mut watched = collector.watched_vms();
    watched.sort();
    assert_eq!(watched, vec![1, 2, 3]);
    assert_eq!(collector.seal().len(), 0);
}

#[test]
fn a_program_that_cannot_be_located_is_not_asked_for_any_more() {
    let tx = transaction();
    let lengths = DataLengths::new();
    let mut collector = BinaryLocatorCollector::new(SyscallBasedCollector::new());
    // Headers hold no programs.
    start_program(&mut collector, 0, &[(A7, 2043), (A0, 0), (A1, 4)]);
    let machines = vec![(0, machine(&[(A0, 0)]))];
    assert_eq!(
        collector.postprocess(&machines, &lengths),
        Err(PostprocessError::DataPiece("Invalid source value: 0x4".to_string()))
    );
    // The call is traced, the generation is the next one, and nothing is left to look at.
    assert_eq!(collector.watched_vms(), Vec::<u64>::new());
    assert!(collector.accepts_call(0, &tx, &machine(&[(A7, 2041)])));
    make_call(&mut collector, 0);
    collector.record_root(5, 10);
    let traces = collector.seal();
    assert_eq!(traces.keys(), vec![key(0, 0)]);
    let (_, trace) = traces.get(&key(0, 0)).unwrap();
    assert_eq!(
        trace.syscalls,
        vec![Syscall { value: Some(SyscallValue::Terminated(Terminated {})) }]
    );
}

#[test]
fn programs_wait_while_the_other_collector_fails() {
    let lengths = DataLengths::new();
    let mut collector = BinaryLocatorCollector::new(SyscallBasedCollector::new());
    start_program(&mut collector, 0, &[(A7, 2601), (A0, 4), (A1, CELL_DEP), (A3, 8)]);
    let mut machines = vec![(0, machine(&[(A0, 0), (A4, 0x1000)]))];
    let read = MemoryRead::Load64 { addr: 0x1010 };
    machines[0].1.supply_failure(read);
    let failed = PostprocessError::Read { vm_id: 0, missing: ReadMiss::Failed(read) };
    assert_eq!(collector.find_obstacle(&machines, &lengths), Some(failed.clone()));
    assert_eq!(collector.postprocess(&machines, &lengths), Err(failed));
    // Both collectors still wait for the virtual machine.
    assert_eq!(collector.watched_vms(), vec![0, 0]);
}

#[test]
fn a_map_is_cloned_with_its_values() {
    let mut map: KeyMap<u32> = KeyMap::new();
    map.insert(key(1, 0), 10);
    map.insert(key(2, 0), 20);
    let copy = map.clone();
    map.insert(key(1, 0), 11);
    assert_eq!(copy.get(&key(1, 0)), Some(&10));
    assert_eq!(copy.get(&key(2, 0)), Some(&20));
    assert_eq!(copy.len(), 2);
    let result = CollectorResult::Success { cycles: 3, traces: copy };
    match result.clone() {
        CollectorResult::Success { cycles, traces } => {
            assert_eq!(cycles, 3);
            assert_eq!(traces.get(&key(2, 0)), Some(&20));
        }
        CollectorResult::Failure { .. } => panic!("the result is a success"),
    }
    assert!(format!("{:?}", result).contains("cycles: 3"));
}
