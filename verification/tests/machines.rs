use ckb_vm_syscall_tracer::data::DataPieceId;
use ckb_vm_syscall_tracer::machine::{
    Machine, MemoryRead, ReadMiss, RecordedMachine, A0, A1, A2, A3, A4, A7, REGISTER_COUNT,
};
use ckb_vm_syscall_tracer::readonly_machines::{
    DirtyPages, InspectableMachine, ReadonlyMachine, ReadonlySnapshotMachine, Snapshot,
    SnapshotMiss, SourcePages, SourceRead, PAGE_SIZE,
};

fn registers() -> [u64; REGISTER_COUNT] {
    let mut registers = [0u64; REGISTER_COUNT];
    for (i, register) in registers.iter_mut().enumerate() {
        *register = 100 + i as u64;
    }
    registers
}

fn pattern(length: usize) -> Vec<u8> {
    (0..length).map(|i| (i % 251) as u8).collect()
}

fn snapshot() -> Snapshot {
    Snapshot {
        pages_from_source: vec![
            SourcePages {
                addr: 0x3000,
                flag: 0,
                id: DataPieceId::CellDep(2),
                offset: 0x100,
                length: 0x2000,
            },
            SourcePages {
                addr: 0x2000,
                flag: 0,
                id: DataPieceId::Input(0),
                offset: 0,
                length: 0x1000,
            },
        ],
        dirty_pages: vec![
            DirtyPages { addr: 0x2000, flag: 1, content: pattern(0x1000) },
            DirtyPages { addr: 0x8000, flag: 1, content: pattern(0x800) },
        ],
        version: 2,
        registers: registers(),
        pc: 0x1_0002,
        cycles: 77,
        max_cycles: 99,
        load_reservation_address: 0xabcd,
    }
}

#[test]
fn the_registers_and_the_pages_are_those_of_the_virtual_machine() {
    assert_eq!(A0, ckb_vm::registers::A0);
    assert_eq!(A1, ckb_vm::registers::A1);
    assert_eq!(A2, ckb_vm::registers::A2);
    assert_eq!(A3, ckb_vm::registers::A3);
    assert_eq!(A4, ckb_vm::registers::A4);
    assert_eq!(A7, ckb_vm::registers::A7);
    assert_eq!(REGISTER_COUNT, ckb_vm::RISCV_GENERAL_REGISTER_NUMBER);
    assert_eq!(PAGE_SIZE as usize, ckb_vm::RISCV_PAGESIZE);
}

#[test]
fn a_snapshot_reads_zeros_where_it_holds_no_page() {
    let snapshot = snapshot();
    let machine = ReadonlySnapshotMachine::new(&snapshot);
    let mut content = [7u8; 16];
    assert_eq!(machine.load(0x10, &mut content), Ok(()));
    assert_eq!(content, [0u8; 16]);
}

#[test]
fn pages_of_the_snapshot_hide_pages_of_the_source() {
    let snapshot = snapshot();
    let machine = ReadonlySnapshotMachine::new(&snapshot);
    let mut content = [0u8; 4];
    assert_eq!(machine.load(0x2005, &mut content), Ok(()));
    assert_eq!(content, [5, 6, 7, 8]);
}

#[test]
fn a_read_crosses_pages() {
    let snapshot = snapshot();
    let machine = ReadonlySnapshotMachine::new(&snapshot);
    let mut content = [9u8; 8];
    assert_eq!(machine.load(0x1ffc, &mut content), Ok(()));
    assert_eq!(content, [0, 0, 0, 0, 0, 1, 2, 3]);
}

#[test]
fn a_page_of_the_source_has_to_be_supplied() {
    let snapshot = snapshot();
    let mut machine = ReadonlySnapshotMachine::new(&snapshot);
    let first = SourceRead { id: DataPieceId::CellDep(2), offset: 0x100 };
    let second = SourceRead { id: DataPieceId::CellDep(2), offset: 0x1100 };
    let mut content = [0u8; 8];

    // What was read before the page that is missing stays.
    assert_eq!(machine.load(0x2ffc, &mut content), Err(SnapshotMiss::Source(first)));
    assert_eq!(content, [76, 77, 78, 79, 0, 0, 0, 0]);

    machine.supply(first, vec![1u8; 4096]);
    assert_eq!(machine.load(0x2ffc, &mut content), Ok(()));
    assert_eq!(content, [76, 77, 78, 79, 1, 1, 1, 1]);

    assert_eq!(machine.load(0x3ffc, &mut content), Err(SnapshotMiss::Source(second)));
    machine.supply(second, vec![2u8; 4096]);
    assert_eq!(machine.load(0x3ffc, &mut content), Ok(()));
    assert_eq!(content, [1, 1, 1, 1, 2, 2, 2, 2]);
}

#[test]
fn a_page_that_is_only_partly_there_cannot_be_read() {
    let snapshot = snapshot();
    let machine = ReadonlySnapshotMachine::new(&snapshot);
    assert_eq!(machine.load8(0x8000), Err(SnapshotMiss::Unreadable));
    assert_eq!(machine.load64(0x8000), Err(SnapshotMiss::Unreadable));
    assert_eq!(machine.load_bytes(0x7ffe, 4), Err(SnapshotMiss::Unreadable));
}

#[test]
fn an_address_past_the_end_cannot_be_read() {
    let snapshot = snapshot();
    let machine = ReadonlySnapshotMachine::new(&snapshot);
    assert_eq!(machine.load64(u64::MAX - 3), Err(SnapshotMiss::Unreadable));
    assert_eq!(machine.load64(u64::MAX - 8), Ok(0));
    assert_eq!(machine.load_bytes(0, u64::MAX), Err(SnapshotMiss::Unreadable));
}

#[test]
fn numbers_are_read_least_significant_byte_first() {
    let snapshot = snapshot();
    let machine = ReadonlySnapshotMachine::new(&snapshot);
    assert_eq!(machine.load8(0x2003), Ok(3));
    assert_eq!(machine.load16(0x2003), Ok(0x0403));
    assert_eq!(machine.load32(0x2003), Ok(0x0605_0403));
    assert_eq!(machine.load64(0x2003), Ok(0x0a09_0807_0605_0403));
    assert_eq!(machine.load_bytes(0x2003, 3), Ok(vec![3, 4, 5]));
    assert_eq!(machine.load_bytes(0x2003, 0), Ok(vec![]));
}

#[test]
fn reading_across_pages_is_reading_byte_by_byte() {
    let snapshot = snapshot();
    let machine = ReadonlySnapshotMachine::new(&snapshot);
    let whole = machine.load_bytes(0x1ff0, 0x1010).unwrap();
    for (i, byte) in whole.iter().enumerate() {
        assert_eq!(machine.load8(0x1ff0 + i as u64), Ok(*byte));
    }
}

#[test]
fn a_snapshot_shows_the_state_of_its_machine() {
    let snapshot = snapshot();
    let machine = ReadonlySnapshotMachine::new(&snapshot);
    assert_eq!(machine.registers(), &registers());
    assert_eq!(machine.register(A7), 117);
    assert_eq!(machine.pc(), 0x1_0002);
    assert_eq!(machine.lr(), 0xabcd);
    assert_eq!(machine.version(), 2);
    assert_eq!(machine.cycles(), 77);
    assert_eq!(machine.max_cycles(), 99);
}

#[test]
fn a_readonly_machine_shows_the_machine_behind_it() {
    let snapshot = snapshot();
    let mut inner = ReadonlySnapshotMachine::new(&snapshot);
    let machine = ReadonlyMachine::new(&mut inner);
    assert_eq!(machine.register(A0), 110);
    assert_eq!(machine.registers(), &registers());
    assert_eq!(machine.load8(0x2003), Ok(3));
    assert_eq!(machine.load16(0x2003), Ok(0x0403));
    assert_eq!(machine.load32(0x2003), Ok(0x0605_0403));
    assert_eq!(machine.load64(0x2003), Ok(0x0a09_0807_0605_0403));
    assert_eq!(machine.load_bytes(0x2003, 2), Ok(vec![3, 4]));
    assert_eq!(machine.pc(), 0x1_0002);
    assert_eq!(machine.lr(), 0xabcd);
    assert_eq!(machine.version(), 2);
    assert_eq!(machine.cycles(), 77);
    assert_eq!(machine.max_cycles(), 99);
}

#[test]
fn a_recorded_machine_asks_for_what_it_does_not_know() {
    let mut machine = RecordedMachine::new(registers());
    assert_eq!(machine.register(A1), 111);
    let read = MemoryRead::Load64 { addr: 8 };
    assert_eq!(machine.load64(8), Err(ReadMiss::Unknown(read)));
    machine.supply(read, vec![1, 2, 0, 0, 0, 0, 0, 0]);
    assert_eq!(machine.load64(8), Ok(0x201));
    assert_eq!(machine.load8(8), Err(ReadMiss::Unknown(MemoryRead::Load8 { addr: 8 })));
    machine.supply(MemoryRead::Load8 { addr: 8 }, vec![5]);
    assert_eq!(machine.load8(8), Ok(5));
    let run = MemoryRead::LoadBytes { addr: 8, size: 3 };
    assert_eq!(machine.load_bytes(8, 3), Err(ReadMiss::Unknown(run)));
    machine.supply(run, vec![1, 2, 3]);
    assert_eq!(machine.load_bytes(8, 3), Ok(vec![1, 2, 3]));
    // The latest answer counts.
    machine.supply(run, vec![4, 5, 6]);
    assert_eq!(machine.load_bytes(8, 3), Ok(vec![4, 5, 6]));
    machine.supply_failure(run);
    assert_eq!(machine.load_bytes(8, 3), Err(ReadMiss::Failed(run)));
    assert_eq!(machine.load8(8), Ok(5));
}
