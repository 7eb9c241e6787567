use ckb_vm_syscall_tracer::codes::{Source, SyscallCode};
use ckb_vm_syscall_tracer::machine::{
    Machine, MemoryRead, ReadMiss, RecordedMachine, A0, A1, A2, A4, A7, REGISTER_COUNT,
};
use ckb_vm_syscall_tracer::partial_content::{
    apply_partial_content, build_partial_content, extract_spawned_process_id,
    PartialSyscallContent, TraceError,
};
use ckb_vm_syscall_tracer::traces::{Fds, IoData, Syscall, SyscallValue, Terminated};

fn machine(registers: &[(usize, u64)]) -> RecordedMachine {
    let mut all = [0u64; REGISTER_COUNT];
    for (register, value) in registers {
        all[*register] = *value;
    }
    RecordedMachine::new(all)
}

fn supply64(machine: &mut RecordedMachine, addr: u64, value: u64) {
    machine.supply(MemoryRead::Load64 { addr }, value.to_le_bytes().to_vec());
}

fn value(value: SyscallValue) -> Syscall {
    Syscall { value: Some(value) }
}

#[test]
fn numbers_of_system_calls() {
    let calls = vec![
        (SyscallCode::LoadTransaction, 2051),
        (SyscallCode::LoadScript, 2052),
        (SyscallCode::LoadTxHash, 2061),
        (SyscallCode::LoadScriptHash, 2062),
        (SyscallCode::LoadCell, 2071),
        (SyscallCode::LoadHeader, 2072),
        (SyscallCode::LoadInput, 2073),
        (SyscallCode::LoadWitness, 2074),
        (SyscallCode::LoadCellByField, 2081),
        (SyscallCode::LoadHeaderByField, 2082),
        (SyscallCode::LoadInputByField, 2083),
        (SyscallCode::LoadCellDataAsCode, 2091),
        (SyscallCode::LoadCellData, 2092),
        (SyscallCode::LoadBlockExtension, 2104),
        (SyscallCode::VmVersion, 2041),
        (SyscallCode::CurrentCycles, 2042),
        (SyscallCode::Exec, 2043),
        (SyscallCode::Spawn, 2601),
        (SyscallCode::Wait, 2602),
        (SyscallCode::ProcessId, 2603),
        (SyscallCode::Pipe, 2604),
        (SyscallCode::Write, 2605),
        (SyscallCode::Read, 2606),
        (SyscallCode::InheritedFd, 2607),
        (SyscallCode::Close, 2608),
        (SyscallCode::Debug, 2177),
    ];
    for (code, number) in calls {
        assert_eq!(u64::from(code), number);
        assert_eq!(code.number(), number);
        assert_eq!(SyscallCode::try_from(number), Ok(code));
    }
    assert_eq!(SyscallCode::try_from(2050u64), Err(2050));
    assert_eq!(SyscallCode::try_from(93u64), Err(93));
}

#[test]
fn numbers_of_sources() {
    let sources = vec![
        (Source::Input, 1),
        (Source::Output, 2),
        (Source::CellDep, 3),
        (Source::HeaderDep, 4),
        (Source::GroupInput, 0x0100_0000_0000_0001),
        (Source::GroupOutput, 0x0100_0000_0000_0002),
    ];
    for (source, number) in sources {
        assert_eq!(u64::from(source), number);
        assert_eq!(source.number(), number);
        assert_eq!(Source::try_from(number), Ok(source));
    }
    assert_eq!(Source::try_from(0u64), Err(0));
    assert_eq!(Source::try_from(5u64), Err(5));
}

#[test]
fn a_call_that_copies_data_is_noted_with_the_room_for_it() {
    let mut machine = machine(&[(A7, 2071), (A0, 0x100), (A1, 0x200)]);
    assert_eq!(
        build_partial_content(&machine),
        Err(ReadMiss::Unknown(MemoryRead::Load64 { addr: 0x200 }))
    );
    supply64(&mut machine, 0x200, 32);
    assert_eq!(
        build_partial_content(&machine),
        Ok(Some(PartialSyscallContent::IoData { data_addr: 0x100, input_length: 32 }))
    );
}

#[test]
fn other_calls_are_noted_by_their_numbers() {
    let calls = vec![
        (2041, Some(PartialSyscallContent::ReturnWithCode)),
        (2042, Some(PartialSyscallContent::ReturnWithCode)),
        (2043, Some(PartialSyscallContent::Exec)),
        (2601, Some(PartialSyscallContent::Spawn)),
        (2602, Some(PartialSyscallContent::Wait)),
        (2603, Some(PartialSyscallContent::ReturnWithCode)),
        (2604, Some(PartialSyscallContent::Pipe { fds_addr: 0x40 })),
        (2605, Some(PartialSyscallContent::Write)),
        (2606, Some(PartialSyscallContent::Read)),
        (2607, Some(PartialSyscallContent::InheritedFd { buffer_addr: 0x40 })),
        (2608, Some(PartialSyscallContent::ReturnWithCode)),
        (2177, None),
        (93, None),
    ];
    for (number, noted) in calls {
        let machine = machine(&[(A7, number), (A0, 0x40)]);
        assert_eq!(build_partial_content(&machine), Ok(noted));
    }
}

#[test]
fn a_call_that_only_returns_a_code() {
    let machine = machine(&[(A0, u64::MAX - 1)]);
    assert_eq!(
        apply_partial_content(&PartialSyscallContent::ReturnWithCode, &machine),
        Ok(value(SyscallValue::ReturnWithCode(-2)))
    );
}

#[test]
fn a_call_that_failed_is_traced_by_its_code() {
    let machine = machine(&[(A0, 3)]);
    let contents = vec![
        PartialSyscallContent::IoData { data_addr: 0, input_length: 8 },
        PartialSyscallContent::Exec,
        PartialSyscallContent::Spawn,
        PartialSyscallContent::Wait,
        PartialSyscallContent::Pipe { fds_addr: 8 },
        PartialSyscallContent::Write,
        PartialSyscallContent::Read,
    ];
    for content in contents {
        assert_eq!(
            apply_partial_content(&content, &machine),
            Ok(value(SyscallValue::ReturnWithCode(3)))
        );
    }
}

#[test]
fn copied_data_and_what_did_not_fit() {
    let content = PartialSyscallContent::IoData { data_addr: 0x100, input_length: 3 };
    let mut machine = machine(&[(A0, 0), (A1, 0x200)]);
    supply64(&mut machine, 0x200, 5);
    let missing = MemoryRead::LoadBytes { addr: 0x100, size: 3 };
    assert_eq!(
        apply_partial_content(&content, &machine),
        Err(TraceError::Read(ReadMiss::Unknown(missing)))
    );
    machine.supply(missing, vec![7, 8, 9]);
    assert_eq!(
        apply_partial_content(&content, &machine),
        Ok(value(SyscallValue::IoData(IoData {
            available_data: vec![7, 8, 9],
            additional_length: 2
        })))
    );
}

#[test]
fn copied_data_that_fits() {
    let content = PartialSyscallContent::IoData { data_addr: 0x100, input_length: 30 };
    let mut machine = machine(&[(A0, 0), (A1, 0x200)]);
    supply64(&mut machine, 0x200, 2);
    machine.supply(MemoryRead::LoadBytes { addr: 0x100, size: 2 }, vec![7, 8]);
    assert_eq!(
        apply_partial_content(&content, &machine),
        Ok(value(SyscallValue::IoData(IoData {
            available_data: vec![7, 8],
            additional_length: 0
        })))
    );
}

#[test]
fn a_replaced_program_does_not_return() {
    assert_eq!(
        apply_partial_content(&PartialSyscallContent::Exec, &machine(&[])),
        Ok(value(SyscallValue::Terminated(Terminated {})))
    );
}

#[test]
fn a_started_machine_is_traced_by_its_identifier() {
    let mut machine = machine(&[(A4, 0x1000)]);
    supply64(&mut machine, 0x1010, 0x3000);
    supply64(&mut machine, 0x3000, 42);
    assert_eq!(extract_spawned_process_id(&machine), Ok(42));
    assert_eq!(
        apply_partial_content(&PartialSyscallContent::Spawn, &machine),
        Ok(value(SyscallValue::SuccessOutputData(42)))
    );
}

#[test]
fn the_address_of_the_identifier_wraps() {
    let mut machine = machine(&[(A4, u64::MAX - 7)]);
    supply64(&mut machine, 8, 0x3000);
    supply64(&mut machine, 0x3000, 1);
    assert_eq!(extract_spawned_process_id(&machine), Ok(1));
}

#[test]
fn an_exit_code_is_a_byte() {
    let mut machine = machine(&[(A1, 0x60)]);
    machine.supply(MemoryRead::Load8 { addr: 0x60 }, vec![0xff]);
    assert_eq!(
        apply_partial_content(&PartialSyscallContent::Wait, &machine),
        Ok(value(SyscallValue::SuccessOutputData(255)))
    );
}

#[test]
fn a_pipe_has_two_ends() {
    let mut machine = machine(&[]);
    supply64(&mut machine, 0x80, 4);
    supply64(&mut machine, 0x88, 5);
    assert_eq!(
        apply_partial_content(&PartialSyscallContent::Pipe { fds_addr: 0x80 }, &machine),
        Ok(value(SyscallValue::Fds(Fds { fds: vec![4, 5] })))
    );
}

#[test]
fn a_pipe_at_the_end_of_memory() {
    let mut machine = machine(&[]);
    let fds_addr = u64::MAX - 7;
    supply64(&mut machine, fds_addr, 4);
    assert_eq!(
        apply_partial_content(&PartialSyscallContent::Pipe { fds_addr }, &machine),
        Err(TraceError::Overflow)
    );
}

#[test]
fn a_write_is_traced_by_its_length() {
    let mut machine = machine(&[(A2, 0x90)]);
    supply64(&mut machine, 0x90, 17);
    assert_eq!(
        apply_partial_content(&PartialSyscallContent::Write, &machine),
        Ok(value(SyscallValue::SuccessOutputData(17)))
    );
}

#[test]
fn a_read_is_traced_by_its_bytes() {
    let mut machine = machine(&[(A1, 0x70), (A2, 0x90)]);
    supply64(&mut machine, 0x90, 2);
    machine.supply(MemoryRead::LoadBytes { addr: 0x70, size: 2 }, vec![1, 2]);
    assert_eq!(
        apply_partial_content(&PartialSyscallContent::Read, &machine),
        Ok(value(SyscallValue::IoData(IoData {
            available_data: vec![1, 2],
            additional_length: 0
        })))
    );
}

#[test]
fn inherited_descriptors_are_read_whatever_was_returned() {
    let content = PartialSyscallContent::InheritedFd { buffer_addr: 0x70 };
    let mut machine = machine(&[(A0, 1), (A1, 0x90)]);
    supply64(&mut machine, 0x90, 3);
    supply64(&mut machine, 0x70, 2);
    supply64(&mut machine, 0x78, 3);
    assert_eq!(
        apply_partial_content(&content, &machine),
        Err(TraceError::Read(ReadMiss::Unknown(MemoryRead::Load64 { addr: 0x80 })))
    );
    supply64(&mut machine, 0x80, 4);
    assert_eq!(
        apply_partial_content(&content, &machine),
        Ok(value(SyscallValue::Fds(Fds { fds: vec![2, 3, 4] })))
    );
}

#[test]
fn more_inherited_descriptors_than_memory_can_hold() {
    let content = PartialSyscallContent::InheritedFd { buffer_addr: 0x70 };
    let mut machine = machine(&[(A1, 0x90)]);
    supply64(&mut machine, 0x90, u64::MAX / 2);
    assert_eq!(apply_partial_content(&content, &machine), Err(TraceError::Overflow));
}

#[test]
fn reads_that_are_not_needed_do_not_matter() {
    let content = PartialSyscallContent::Write;
    let mut machine = machine(&[(A2, 0x90)]);
    supply64(&mut machine, 0x90, 17);
    let traced = apply_partial_content(&content, &machine);
    supply64(&mut machine, 0x98, 18);
    machine.supply(MemoryRead::Load8 { addr: 0x90 }, vec![1]);
    assert_eq!(apply_partial_content(&content, &machine), traced);
    assert_eq!(machine.register(A2), 0x90);
}

#[test]
fn a_read_that_the_machine_refuses_is_reported() {
    let mut machine = machine(&[(A2, 0x90)]);
    let read = MemoryRead::Load64 { addr: 0x90 };
    machine.supply_failure(read);
    assert_eq!(
        apply_partial_content(&PartialSyscallContent::Write, &machine),
        Err(TraceError::Read(ReadMiss::Failed(read)))
    );
}
