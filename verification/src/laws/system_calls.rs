//! What is noted of a system call and what is traced of it, call by call. The number of a call
//! is in register 17, its arguments are in the registers from 10 on, and its result is in
//! register 10.
use vstd::prelude::*;

use crate::codes::{Source, SyscallCode};
use crate::machine::{Machine, MemoryRead, ReadMiss, Reads, RecordedMachine};
use crate::partial_content::{PartialSyscallContent, TraceError};
use crate::traces::{Syscall, ValueView};

verus! {

/// The numbers of the calls that load data of the transaction or the chain into memory.
pub open spec fn loads_data(number: u64) -> bool {
    ||| number == 2051
    ||| number == 2052
    ||| number == 2061
    ||| number == 2062
    ||| number == 2071
    ||| number == 2072
    ||| number == 2073
    ||| number == 2074
    ||| number == 2081
    ||| number == 2082
    ||| number == 2083
    ||| number == 2092
    ||| number == 2104
}

/// Each of the calls that load data is noted with the address of its first argument and with
/// the room that memory holds at the address of its second argument.
pub proof fn law_loading_call_is_noted_with_its_room<E>(registers: Seq<u64>, reads: Reads<E>)
    requires
        loads_data(registers[17]),
    ensures
        match reads(MemoryRead::Load64 { addr: registers[11] }) {
            Ok(room) => crate::partial_content::noted(registers, reads) == Ok::<
                Option<PartialSyscallContent>,
                E,
            >(
                Some(
                    PartialSyscallContent::IoData {
                        data_addr: registers[10],
                        input_length: crate::bytes::little_endian(room) as u64,
                    },
                ),
            ),
            Err(missing) => crate::partial_content::noted(registers, reads) == Err::<
                Option<PartialSyscallContent>,
                E,
            >(missing),
        },
{
}

/// The calls that load no data are noted by their numbers alone, whatever memory holds; the
/// two that fill a list of file descriptors with the address of their first argument. Nothing
/// is noted of a message and of a call that is none.
pub proof fn law_other_call_is_noted_by_its_number<E>(registers: Seq<u64>, reads: Reads<E>)
    requires
        !loads_data(registers[17]),
        registers[17] != 2091,
    ensures
        crate::partial_content::noted(registers, reads) == Ok::<Option<PartialSyscallContent>, E>(
            if registers[17] == 2041 || registers[17] == 2042 || registers[17] == 2603
                || registers[17] == 2608 {
                Some(PartialSyscallContent::ReturnWithCode)
            } else if registers[17] == 2043 {
                Some(PartialSyscallContent::Exec)
            } else if registers[17] == 2601 {
                Some(PartialSyscallContent::Spawn)
            } else if registers[17] == 2602 {
                Some(PartialSyscallContent::Wait)
            } else if registers[17] == 2604 {
                Some(PartialSyscallContent::Pipe { fds_addr: registers[10] })
            } else if registers[17] == 2605 {
                Some(PartialSyscallContent::Write)
            } else if registers[17] == 2606 {
                Some(PartialSyscallContent::Read)
            } else if registers[17] == 2607 {
                Some(PartialSyscallContent::InheritedFd { buffer_addr: registers[10] })
            } else {
                None
            },
        ),
{
}

/// Every call can be traced but the one that maps data as code.
pub proof fn law_only_mapping_code_is_not_traceable(registers: Seq<u64>)
    ensures
        crate::partial_content::traceable(registers) <==> registers[17] != 2091,
{
}

/// A call that loaded data is traced with the bytes that memory holds where it was told to put
/// them, as many as there were and as there was room for, and with how many more there were.
/// `room` and `length` are what memory held at the second argument before the call and holds
/// there after it.
pub proof fn law_loaded_bytes_are_traced<E, F>(
    registers: Seq<u64>,
    reads: Reads<E>,
    room: Seq<u8>,
    content: PartialSyscallContent,
    registers_after: Seq<u64>,
    reads_after: Reads<F>,
    length: Seq<u8>,
)
    requires
        loads_data(registers[17]),
        reads(MemoryRead::Load64 { addr: registers[11] }) == Ok::<Seq<u8>, E>(room),
        crate::partial_content::noted(registers, reads) == Ok::<Option<PartialSyscallContent>, E>(
            Some(content),
        ),
        registers_after[10] == 0,
        reads_after(MemoryRead::Load64 { addr: registers_after[11] }) == Ok::<Seq<u8>, F>(length),
    ensures
        ({
            let wanted = crate::bytes::little_endian(room) as u64;
            let there = crate::bytes::little_endian(length) as u64;
            let size = if wanted <= there {
                wanted
            } else {
                there
            };
            match reads_after(MemoryRead::LoadBytes { addr: registers[10], size }) {
                Ok(data) => crate::partial_content::outcome(content, registers_after, reads_after)
                    == Ok::<ValueView, TraceError<F>>(
                    ValueView::IoData {
                        available_data: data,
                        additional_length: (there - size) as u64,
                    },
                ),
                Err(missing) => crate::partial_content::outcome(
                    content,
                    registers_after,
                    reads_after,
                ) == Err::<ValueView, TraceError<F>>(TraceError::Read(missing)),
            }
        }),
{
    law_loading_call_is_noted_with_its_room(registers, reads);
}

/// A call that loaded data cannot be traced where its length cannot be read.
pub proof fn law_loaded_length_is_needed<F>(
    data_addr: u64,
    input_length: u64,
    registers: Seq<u64>,
    reads: Reads<F>,
    missing: F,
)
    requires
        registers[10] == 0,
        reads(MemoryRead::Load64 { addr: registers[11] }) == Err::<Seq<u8>, F>(missing),
    ensures
        crate::partial_content::outcome(
            PartialSyscallContent::IoData { data_addr, input_length },
            registers,
            reads,
        ) == Err::<ValueView, TraceError<F>>(TraceError::Read(missing)),
{
}

/// A call that returned anything but zero is traced by the code that it returned, which is the
/// register read as a signed number; so is every call that only returns a code. Inherited file
/// descriptors are the one exception.
pub proof fn law_returned_code_is_the_register<E>(
    content: PartialSyscallContent,
    registers: Seq<u64>,
    reads: Reads<E>,
)
    requires
        content is ReturnWithCode || registers[10] != 0 && !(content is InheritedFd),
    ensures
        crate::partial_content::outcome(content, registers, reads) matches Ok(
            ValueView::ReturnWithCode(code),
        ) && (code - registers[10] == 0 || code - registers[10] == -0x1_0000_0000_0000_0000),
{
}

/// A program that was replaced is traced as that.
pub proof fn law_replaced_program_terminates<E>(registers: Seq<u64>, reads: Reads<E>)
    requires
        registers[10] == 0,
    ensures
        crate::partial_content::outcome(PartialSyscallContent::Exec, registers, reads) == Ok::<
            ValueView,
            TraceError<E>,
        >(ValueView::Terminated),
{
}

/// The identifier of a virtual machine that was started lies at the address that lies sixteen
/// bytes after the address in register 14; a call that started one is traced by it.
pub proof fn law_started_machine_is_traced_by_its_identifier<E>(
    registers: Seq<u64>,
    reads: Reads<E>,
    at: u64,
)
    requires
        at == registers[14] + 16 || at == registers[14] + 16 - 0x1_0000_0000_0000_0000,
    ensures
        match reads(MemoryRead::Load64 { addr: at }) {
            Ok(pointer) => match reads(
                MemoryRead::Load64 { addr: crate::bytes::little_endian(pointer) as u64 },
            ) {
                Ok(identifier) => {
                    &&& crate::partial_content::spawned_process_id(registers, reads) == Ok::<
                        u64,
                        E,
                    >(crate::bytes::little_endian(identifier) as u64)
                    &&& registers[10] == 0 ==> crate::partial_content::outcome(
                        PartialSyscallContent::Spawn,
                        registers,
                        reads,
                    ) == Ok::<ValueView, TraceError<E>>(
                        ValueView::SuccessOutputData(
                            crate::bytes::little_endian(identifier) as u64,
                        ),
                    )
                },
                Err(missing) => {
                    &&& crate::partial_content::spawned_process_id(registers, reads) == Err::<
                        u64,
                        E,
                    >(missing)
                    &&& registers[10] == 0 ==> crate::partial_content::outcome(
                        PartialSyscallContent::Spawn,
                        registers,
                        reads,
                    ) == Err::<ValueView, TraceError<E>>(TraceError::Read(missing))
                },
            },
            Err(missing) => {
                &&& crate::partial_content::spawned_process_id(registers, reads) == Err::<u64, E>(
                    missing,
                )
                &&& registers[10] == 0 ==> crate::partial_content::outcome(
                    PartialSyscallContent::Spawn,
                    registers,
                    reads,
                ) == Err::<ValueView, TraceError<E>>(TraceError::Read(missing))
            },
        },
{
}

/// A call that waited for a virtual machine is traced by the exit code, the byte at its second
/// argument.
pub proof fn law_awaited_exit_code_is_a_byte<E>(registers: Seq<u64>, reads: Reads<E>)
    requires
        registers[10] == 0,
    ensures
        match reads(MemoryRead::Load8 { addr: registers[11] }) {
            Ok(exit_code) => crate::partial_content::outcome(
                PartialSyscallContent::Wait,
                registers,
                reads,
            ) == Ok::<ValueView, TraceError<E>>(
                ValueView::SuccessOutputData(exit_code[0] as u64),
            ),
            Err(missing) => crate::partial_content::outcome(
                PartialSyscallContent::Wait,
                registers,
                reads,
            ) == Err::<ValueView, TraceError<E>>(TraceError::Read(missing)),
        },
{
}

/// A call that wrote is traced by the length at its third argument.
pub proof fn law_written_length_is_traced<E>(registers: Seq<u64>, reads: Reads<E>)
    requires
        registers[10] == 0,
    ensures
        match reads(MemoryRead::Load64 { addr: registers[12] }) {
            Ok(length) => crate::partial_content::outcome(
                PartialSyscallContent::Write,
                registers,
                reads,
            ) == Ok::<ValueView, TraceError<E>>(
                ValueView::SuccessOutputData(crate::bytes::little_endian(length) as u64),
            ),
            Err(missing) => crate::partial_content::outcome(
                PartialSyscallContent::Write,
                registers,
                reads,
            ) == Err::<ValueView, TraceError<E>>(TraceError::Read(missing)),
        },
{
}

/// A call that read is traced with the bytes at its second argument, as many as the number at
/// its third argument says, and with none besides.
pub proof fn law_received_bytes_are_traced<E>(registers: Seq<u64>, reads: Reads<E>)
    requires
        registers[10] == 0,
    ensures
        match reads(MemoryRead::Load64 { addr: registers[12] }) {
            Ok(length) => match reads(
                MemoryRead::LoadBytes {
                    addr: registers[11],
                    size: crate::bytes::little_endian(length) as u64,
                },
            ) {
                Ok(data) => crate::partial_content::outcome(
                    PartialSyscallContent::Read,
                    registers,
                    reads,
                ) == Ok::<ValueView, TraceError<E>>(
                    ValueView::IoData { available_data: data, additional_length: 0 },
                ),
                Err(missing) => crate::partial_content::outcome(
                    PartialSyscallContent::Read,
                    registers,
                    reads,
                ) == Err::<ValueView, TraceError<E>>(TraceError::Read(missing)),
            },
            Err(missing) => crate::partial_content::outcome(
                PartialSyscallContent::Read,
                registers,
                reads,
            ) == Err::<ValueView, TraceError<E>>(TraceError::Read(missing)),
        },
{
}

/// A pipe is traced by the two numbers that lie one after the other where it was told to put
/// them.
pub proof fn law_pipe_is_traced_by_its_ends<E>(
    fds_addr: u64,
    registers: Seq<u64>,
    reads: Reads<E>,
)
    requires
        registers[10] == 0,
    ensures
        match reads(MemoryRead::Load64 { addr: fds_addr }) {
            Ok(first) => if fds_addr + 8 > u64::MAX {
                crate::partial_content::outcome(
                    PartialSyscallContent::Pipe { fds_addr },
                    registers,
                    reads,
                ) == Err::<ValueView, TraceError<E>>(TraceError::Overflow)
            } else {
                match reads(MemoryRead::Load64 { addr: (fds_addr + 8) as u64 }) {
                    Ok(second) => crate::partial_content::outcome(
                        PartialSyscallContent::Pipe { fds_addr },
                        registers,
                        reads,
                    ) == Ok::<ValueView, TraceError<E>>(
                        ValueView::Fds(
                            seq![
                                crate::bytes::little_endian(first) as u64,
                                crate::bytes::little_endian(second) as u64,
                            ],
                        ),
                    ),
                    Err(missing) => crate::partial_content::outcome(
                        PartialSyscallContent::Pipe { fds_addr },
                        registers,
                        reads,
                    ) == Err::<ValueView, TraceError<E>>(TraceError::Read(missing)),
                }
            },
            Err(missing) => crate::partial_content::outcome(
                PartialSyscallContent::Pipe { fds_addr },
                registers,
                reads,
            ) == Err::<ValueView, TraceError<E>>(TraceError::Read(missing)),
        },
{
    reveal_with_fuel(crate::partial_content::fds_at, 3);
    let first = reads(MemoryRead::Load64 { addr: fds_addr });
    let second = reads(MemoryRead::Load64 { addr: (fds_addr + 8) as u64 });
    if let Ok(first) = first {
        if let Ok(second) = second {
            let one = crate::bytes::little_endian(first) as u64;
            let two = crate::bytes::little_endian(second) as u64;
            assert(seq![one] + (seq![two] + Seq::<u64>::empty()) =~= seq![one, two]);
        }
    }
}

/// Whether the numbers that lie one after the other from `addr` on can be read, from the one at
/// `from` to the one before `to`.
pub open spec fn numbers_can_be_read<E>(reads: Reads<E>, addr: u64, from: int, to: int) -> bool {
    forall|j: int|
        from <= j < to ==> addr + 8 * j <= u64::MAX && (#[trigger] reads(
            MemoryRead::Load64 { addr: (addr + 8 * j) as u64 },
        )) is Ok
}

/// Numbers that lie one after the other are read as such, up to the first that cannot be read.
proof fn lemma_fds<E>(reads: Reads<E>, addr: u64, i: nat, count: nat)
    requires
        i <= count,
    ensures
        match crate::partial_content::fds_at(reads, addr, i, count) {
            Ok(fds) => {
                &&& fds.len() == count - i
                &&& numbers_can_be_read(reads, addr, i as int, count as int)
                &&& forall|j: int|
                    i <= j < count ==> ((#[trigger] reads(
                        MemoryRead::Load64 { addr: (addr + 8 * j) as u64 },
                    )) matches Ok(number) && fds[j - i] == crate::bytes::little_endian(
                        number,
                    ) as u64)
            },
            Err(error) => exists|j: int|
                i <= j < count && #[trigger] numbers_can_be_read(reads, addr, i as int, j)
                    && match error {
                    TraceError::Read(missing) => addr + 8 * j <= u64::MAX && reads(
                        MemoryRead::Load64 { addr: (addr + 8 * j) as u64 },
                    ) == Err::<Seq<u8>, E>(missing),
                    TraceError::Overflow => addr + 8 * j > u64::MAX,
                },
        },
    decreases count - i,
{
    if i < count {
        lemma_fds(reads, addr, i + 1, count);
        let read = MemoryRead::Load64 { addr: (addr + 8 * i as int) as u64 };
        match crate::partial_content::fds_at(reads, addr, i, count) {
            Ok(fds) => {
                let rest = crate::partial_content::fds_at(reads, addr, i + 1, count)->Ok_0;
                assert forall|j: int| i <= j < count implies ((#[trigger] reads(
                    MemoryRead::Load64 { addr: (addr + 8 * j) as u64 },
                )) matches Ok(number) && fds[j - i] == crate::bytes::little_endian(
                    number,
                ) as u64) by {
                    if j > i {
                        assert(fds[j - i] == rest[j - (i + 1)]);
                    }
                }
            },
            Err(error) => {
                if addr + 8 * i > u64::MAX || reads(read) is Err {
                    assert(numbers_can_be_read(reads, addr, i as int, i as int));
                } else {
                    let j = choose|j: int|
                        i + 1 <= j < count && #[trigger] numbers_can_be_read(
                            reads,
                            addr,
                            (i + 1) as int,
                            j,
                        ) && match error {
                            TraceError::Read(missing) => addr + 8 * j <= u64::MAX && reads(
                                MemoryRead::Load64 { addr: (addr + 8 * j) as u64 },
                            ) == Err::<Seq<u8>, E>(missing),
                            TraceError::Overflow => addr + 8 * j > u64::MAX,
                        };
                    assert(numbers_can_be_read(reads, addr, i as int, j));
                }
            },
        }
    }
}

/// Inherited file descriptors are traced by the numbers that lie one after the other where the
/// call was told to put them, as many as the number at its second argument says, whatever the
/// call returned. If one of them cannot be read, neither can the call be traced, and the first
/// such one says why.
pub proof fn law_inherited_descriptors_are_traced<E>(
    buffer_addr: u64,
    registers: Seq<u64>,
    reads: Reads<E>,
    count: Seq<u8>,
)
    requires
        reads(MemoryRead::Load64 { addr: registers[11] }) == Ok::<Seq<u8>, E>(count),
        crate::bytes::little_endian(count) <= isize::MAX / 8,
    ensures
        ({
            let n = crate::bytes::little_endian(count);
            match crate::partial_content::outcome(
                PartialSyscallContent::InheritedFd { buffer_addr },
                registers,
                reads,
            ) {
                Ok(ValueView::Fds(fds)) => {
                    &&& fds.len() == n
                    &&& numbers_can_be_read(reads, buffer_addr, 0, n as int)
                    &&& forall|j: int|
                        0 <= j < n ==> ((#[trigger] reads(
                            MemoryRead::Load64 { addr: (buffer_addr + 8 * j) as u64 },
                        )) matches Ok(number) && fds[j] == crate::bytes::little_endian(
                            number,
                        ) as u64)
                },
                Ok(_) => false,
                Err(error) => exists|j: int|
                    0 <= j < n && #[trigger] numbers_can_be_read(reads, buffer_addr, 0, j)
                        && match error {
                        TraceError::Read(missing) => buffer_addr + 8 * j <= u64::MAX && reads(
                            MemoryRead::Load64 { addr: (buffer_addr + 8 * j) as u64 },
                        ) == Err::<Seq<u8>, E>(missing),
                        TraceError::Overflow => buffer_addr + 8 * j > u64::MAX,
                    },
            }
        }),
{
    lemma_fds(reads, buffer_addr, 0, crate::bytes::little_endian(count));
}

/// A system call that is handed out is the outcome of the call, and an error is why there is
/// none.
pub proof fn law_handed_out_call_is_the_outcome<E>(
    result: Result<Syscall, TraceError<E>>,
    outcome: Result<ValueView, TraceError<E>>,
)
    requires
        crate::partial_content::is_outcome(result, outcome),
    ensures
        match outcome {
            Ok(value) => result matches Ok(syscall) && (syscall.value matches Some(found) && found@
                == value),
            Err(error) => result == Err::<Syscall, TraceError<E>>(error),
        },
{
}

/// A call is known by one number, and so is a source.
pub proof fn law_number_names_call_or_source(number: u64, code: SyscallCode, source: Source)
    ensures
        SyscallCode::spec_of_number(number) == Some(code) <==> number == (match code {
            SyscallCode::LoadTransaction => 2051u64,
            SyscallCode::LoadScript => 2052,
            SyscallCode::LoadTxHash => 2061,
            SyscallCode::LoadScriptHash => 2062,
            SyscallCode::LoadCell => 2071,
            SyscallCode::LoadHeader => 2072,
            SyscallCode::LoadInput => 2073,
            SyscallCode::LoadWitness => 2074,
            SyscallCode::LoadCellByField => 2081,
            SyscallCode::LoadHeaderByField => 2082,
            SyscallCode::LoadInputByField => 2083,
            SyscallCode::LoadCellDataAsCode => 2091,
            SyscallCode::LoadCellData => 2092,
            SyscallCode::LoadBlockExtension => 2104,
            SyscallCode::VmVersion => 2041,
            SyscallCode::CurrentCycles => 2042,
            SyscallCode::Exec => 2043,
            SyscallCode::Spawn => 2601,
            SyscallCode::Wait => 2602,
            SyscallCode::ProcessId => 2603,
            SyscallCode::Pipe => 2604,
            SyscallCode::Write => 2605,
            SyscallCode::Read => 2606,
            SyscallCode::InheritedFd => 2607,
            SyscallCode::Close => 2608,
            SyscallCode::Debug => 2177,
        }),
        Source::spec_of_number(number) == Some(source) <==> number == (match source {
            Source::Input => 1u64,
            Source::Output => 2,
            Source::CellDep => 3,
            Source::HeaderDep => 4,
            Source::GroupInput => 0x0100_0000_0000_0001,
            Source::GroupOutput => 0x0100_0000_0000_0002,
        }),
{
}

/// The count of inherited file descriptors has to be read, and may be no more than memory can
/// hold.
pub proof fn law_inherited_count_is_needed<E>(
    buffer_addr: u64,
    registers: Seq<u64>,
    reads: Reads<E>,
)
    ensures
        match reads(MemoryRead::Load64 { addr: registers[11] }) {
            Ok(count) => crate::bytes::little_endian(count) as u64 > isize::MAX / 8
                ==> crate::partial_content::outcome(
                PartialSyscallContent::InheritedFd { buffer_addr },
                registers,
                reads,
            ) == Err::<ValueView, TraceError<E>>(TraceError::Overflow),
            Err(missing) => crate::partial_content::outcome(
                PartialSyscallContent::InheritedFd { buffer_addr },
                registers,
                reads,
            ) == Err::<ValueView, TraceError<E>>(TraceError::Read(missing)),
        },
{
}

/// A recorded machine answers a read with the bytes that were supplied, says that it failed if
/// that was supplied, and says that it is unknown otherwise.
pub proof fn law_recorded_machine_answers_what_it_was_told(
    machine: &RecordedMachine,
    read: MemoryRead,
)
    ensures
        if !machine.known().contains_key(read) {
            (machine.reads())(read) == Err::<Seq<u8>, ReadMiss>(ReadMiss::Unknown(read))
        } else {
            match machine.known()[read] {
                Some(bytes) => (machine.reads())(read) == Ok::<Seq<u8>, ReadMiss>(bytes),
                None => (machine.reads())(read) == Err::<Seq<u8>, ReadMiss>(
                    ReadMiss::Failed(read),
                ),
            }
        },
        machine.register_file() == machine.spec_registers(),
{
}

/// One byte, a number of eight bytes and a run of bytes are what memory answers the reads of
/// them with.
pub proof fn law_reads_of_memory<E>(reads: Reads<E>, addr: u64, size: u64)
    ensures
        match reads(MemoryRead::Load8 { addr }) {
            Ok(bytes) => crate::machine::read8(reads, addr) == Ok::<u8, E>(bytes[0]),
            Err(missing) => crate::machine::read8(reads, addr) == Err::<u8, E>(missing),
        },
        match reads(MemoryRead::Load64 { addr }) {
            Ok(bytes) => crate::machine::read64(reads, addr) == Ok::<u64, E>(
                crate::bytes::little_endian(bytes) as u64,
            ),
            Err(missing) => crate::machine::read64(reads, addr) == Err::<u64, E>(missing),
        },
        crate::machine::read_bytes(reads, addr, size) == reads(
            MemoryRead::LoadBytes { addr, size },
        ),
{
}

} // verus!
