//! The trace of one system call: what is noted before the call, and what is read of the
//! virtual machine after it.
use vstd::prelude::*;

use crate::codes::SyscallCode;
use crate::machine::{Machine, MemoryRead, ReadMiss, Reads, RecordedMachine, A0, A1, A2, A4, A7};
use crate::traces::{Fds, IoData, Syscall, SyscallValue, Terminated, ValueView};

verus! {

/// What is known of a system call before it is made.
#[derive(Copy, Clone, Debug, PartialEq, Eq, Structural)]
pub enum PartialSyscallContent {
    /// A call that only returns a code.
    ReturnWithCode,
    /// A call that writes bytes at `data_addr`, at most `input_length` of them.
    IoData { data_addr: u64, input_length: u64 },
    /// A call that replaces the program.
    Exec,
    /// A call that starts a virtual machine.
    Spawn,
    /// A call that waits for a virtual machine.
    Wait,
    /// A call that writes two file descriptors at `fds_addr`.
    Pipe { fds_addr: u64 },
    /// A call that writes to a file descriptor.
    Write,
    /// A call that reads from a file descriptor.
    Read,
    /// A call that writes file descriptors at `buffer_addr`.
    InheritedFd { buffer_addr: u64 },
}

/// Why a system call cannot be traced.
#[derive(Copy, Clone, Debug, PartialEq, Eq)]
pub enum TraceError<E> {
    /// A read that could not be answered.
    Read(E),
    /// An address or a length does not fit. No virtual machine in order does that: whoever
    /// runs the virtual machines panics.
    Overflow,
}

/// The calls that copy data of the transaction or the chain into memory.
pub open spec fn copies_data(code: SyscallCode) -> bool {
    match code {
        SyscallCode::LoadTransaction
        | SyscallCode::LoadScript
        | SyscallCode::LoadTxHash
        | SyscallCode::LoadScriptHash
        | SyscallCode::LoadCell
        | SyscallCode::LoadHeader
        | SyscallCode::LoadInput
        | SyscallCode::LoadWitness
        | SyscallCode::LoadCellByField
        | SyscallCode::LoadHeaderByField
        | SyscallCode::LoadInputByField
        | SyscallCode::LoadCellData
        | SyscallCode::LoadBlockExtension => true,
        _ => false,
    }
}

/// What is noted before a call: nothing of an unknown call or a debug message, and of a call
/// that copies data also the room for it, which memory holds at the address in the second
/// argument.
pub open spec fn noted<E>(registers: Seq<u64>, reads: Reads<E>) -> Result<
    Option<PartialSyscallContent>,
    E,
> {
    match SyscallCode::spec_of_number(registers[A7 as int]) {
        None => Ok(None),
        Some(code) => if copies_data(code) {
            match crate::machine::read64(reads, registers[A1 as int]) {
                Ok(input_length) => Ok(
                    Some(
                        PartialSyscallContent::IoData {
                            data_addr: registers[A0 as int],
                            input_length,
                        },
                    ),
                ),
                Err(missing) => Err(missing),
            }
        } else {
            match code {
                SyscallCode::Exec => Ok(Some(PartialSyscallContent::Exec)),
                SyscallCode::Spawn => Ok(Some(PartialSyscallContent::Spawn)),
                SyscallCode::Wait => Ok(Some(PartialSyscallContent::Wait)),
                SyscallCode::Pipe => Ok(
                    Some(PartialSyscallContent::Pipe { fds_addr: registers[A0 as int] }),
                ),
                SyscallCode::Write => Ok(Some(PartialSyscallContent::Write)),
                SyscallCode::Read => Ok(Some(PartialSyscallContent::Read)),
                SyscallCode::InheritedFd => Ok(
                    Some(PartialSyscallContent::InheritedFd { buffer_addr: registers[A0 as int] }),
                ),
                SyscallCode::Debug => Ok(None),
                _ => Ok(Some(PartialSyscallContent::ReturnWithCode)),
            }
        },
    }
}

/// Whether the call that the registers ask for can be traced: mapping the data of a cell as
/// code cannot.
pub open spec fn traceable(registers: Seq<u64>) -> bool {
    registers[A7 as int] != SyscallCode::LoadCellDataAsCode.spec_number()
}

/// Notes what is known of a system call before it is made.
pub fn build_partial_content<M: Machine>(machine: &M) -> (result: Result<
    Option<PartialSyscallContent>,
    M::Missing,
>)
    requires
        traceable(machine.register_file()),
    ensures
        result == noted(machine.register_file(), machine.reads()),
{
    match SyscallCode::try_from(machine.register(A7)) {
        Ok(code) => match code {
            SyscallCode::LoadTransaction
            | SyscallCode::LoadScript
            | SyscallCode::LoadTxHash
            | SyscallCode::LoadScriptHash
            | SyscallCode::LoadCell
            | SyscallCode::LoadHeader
            | SyscallCode::LoadInput
            | SyscallCode::LoadWitness
            | SyscallCode::LoadCellByField
            | SyscallCode::LoadHeaderByField
            | SyscallCode::LoadInputByField
            | SyscallCode::LoadCellData
            | SyscallCode::LoadBlockExtension => {
                let data_addr: u64 = machine.register(A0);
                let length_addr: u64 = machine.register(A1);
                match machine.load64(length_addr) {
                    Ok(input_length) => Ok(
                        Some(PartialSyscallContent::IoData { data_addr, input_length }),
                    ),
                    Err(missing) => Err(missing),
                }
            },
            SyscallCode::Exec => Ok(Some(PartialSyscallContent::Exec)),
            SyscallCode::Spawn => Ok(Some(PartialSyscallContent::Spawn)),
            SyscallCode::Wait => Ok(Some(PartialSyscallContent::Wait)),
            SyscallCode::Pipe => Ok(
                Some(PartialSyscallContent::Pipe { fds_addr: machine.register(A0) }),
            ),
            SyscallCode::Write => Ok(Some(PartialSyscallContent::Write)),
            SyscallCode::Read => Ok(Some(PartialSyscallContent::Read)),
            SyscallCode::InheritedFd => Ok(
                Some(PartialSyscallContent::InheritedFd { buffer_addr: machine.register(A0) }),
            ),
            SyscallCode::Debug => Ok(None),
            // Mapping data as code is ruled out above.
            SyscallCode::LoadCellDataAsCode
            | SyscallCode::VmVersion
            | SyscallCode::CurrentCycles
            | SyscallCode::ProcessId
            | SyscallCode::Close => Ok(Some(PartialSyscallContent::ReturnWithCode)),
        },
        Err(_) => Ok(None),
    }
}

/// A register read as a signed number.
pub open spec fn signed(register: u64) -> i64 {
    if register <= i64::MAX {
        register as i64
    } else {
        (register - 0x1_0000_0000_0000_0000) as i64
    }
}

/// A register read as a signed number.
fn to_signed(register: u64) -> (value: i64)
    ensures
        value == signed(register),
{
    assert(register <= 0x7fff_ffff_ffff_ffff ==> (register as i64) == register) by (bit_vector);
    assert(register > 0x7fff_ffff_ffff_ffff ==> (register as i64) == register
        - 0x1_0000_0000_0000_0000) by (bit_vector);
    register as i64
}

/// The sum of two registers, which starts again at zero where it does not fit.
pub open spec fn wrapping_sum(x: u64, y: u64) -> u64 {
    if x + y <= u64::MAX {
        (x + y) as u64
    } else {
        (x + y - 0x1_0000_0000_0000_0000) as u64
    }
}

/// The identifier of a virtual machine that was started: it lies where the third field of the
/// structure behind the fifth argument points.
pub open spec fn spawned_process_id<E>(registers: Seq<u64>, reads: Reads<E>) -> Result<u64, E> {
    match crate::machine::read64(reads, wrapping_sum(registers[A4 as int], 16)) {
        Ok(process_id_addr) => crate::machine::read64(reads, process_id_addr),
        Err(missing) => Err(missing),
    }
}

/// The identifier of a virtual machine that was started.
pub fn extract_spawned_process_id<M: Machine>(machine: &M) -> (result: Result<u64, M::Missing>)
    ensures
        result == spawned_process_id(machine.register_file(), machine.reads()),
{
    let spgs_addr: u64 = machine.register(A4);
    let process_id_addr_addr: u64 = spgs_addr.wrapping_add(16);
    match machine.load64(process_id_addr_addr) {
        Ok(process_id_addr) => machine.load64(process_id_addr),
        Err(missing) => Err(missing),
    }
}

/// The file descriptors from the `i`th to the last of `count` that lie one after the other
/// from `addr` on.
pub open spec fn fds_at<E>(reads: Reads<E>, addr: u64, i: nat, count: nat) -> Result<
    Seq<u64>,
    TraceError<E>,
>
    decreases count - i,
{
    if i >= count {
        Ok(Seq::empty())
    } else if addr + 8 * i > u64::MAX {
        Err(TraceError::Overflow)
    } else {
        match crate::machine::read64(reads, (addr + 8 * i) as u64) {
            Err(missing) => Err(TraceError::Read(missing)),
            Ok(fd) => match fds_at(reads, addr, i + 1, count) {
                Ok(rest) => Ok(seq![fd] + rest),
                Err(error) => Err(error),
            },
        }
    }
}

/// The outcome of a call that copies data: the bytes that fitted into the room for them, and
/// how many more there were.
pub open spec fn copied_data<E>(
    data_addr: u64,
    input_length: u64,
    registers: Seq<u64>,
    reads: Reads<E>,
) -> Result<ValueView, TraceError<E>> {
    match crate::machine::read64(reads, registers[A1 as int]) {
        Err(missing) => Err(TraceError::Read(missing)),
        Ok(output_length) => {
            let length = if input_length < output_length {
                input_length
            } else {
                output_length
            };
            match crate::machine::read_bytes(reads, data_addr, length) {
                Err(missing) => Err(TraceError::Read(missing)),
                Ok(data) => Ok(
                    ValueView::IoData {
                        available_data: data,
                        additional_length: (output_length - length) as u64,
                    },
                ),
            }
        },
    }
}

/// The outcome of a call that reads from a file descriptor.
pub open spec fn received_data<E>(registers: Seq<u64>, reads: Reads<E>) -> Result<
    ValueView,
    TraceError<E>,
> {
    match crate::machine::read64(reads, registers[A2 as int]) {
        Err(missing) => Err(TraceError::Read(missing)),
        Ok(length) => match crate::machine::read_bytes(reads, registers[A1 as int], length) {
            Err(missing) => Err(TraceError::Read(missing)),
            Ok(data) => Ok(ValueView::IoData { available_data: data, additional_length: 0 }),
        },
    }
}

/// A number as the outcome of a call.
pub open spec fn number_value<E>(number: Result<u64, E>) -> Result<ValueView, TraceError<E>> {
    match number {
        Ok(number) => Ok(ValueView::SuccessOutputData(number)),
        Err(missing) => Err(TraceError::Read(missing)),
    }
}

/// File descriptors as the outcome of a call.
pub open spec fn fds_value<E>(fds: Result<Seq<u64>, TraceError<E>>) -> Result<
    ValueView,
    TraceError<E>,
> {
    match fds {
        Ok(fds) => Ok(ValueView::Fds(fds)),
        Err(error) => Err(error),
    }
}

/// A call that returned a code other than zero only returned that code; `value` is the
/// outcome of one that returned zero.
pub open spec fn unless_failed<E>(
    registers: Seq<u64>,
    value: Result<ValueView, TraceError<E>>,
) -> Result<ValueView, TraceError<E>> {
    if registers[A0 as int] != 0 {
        Ok(ValueView::ReturnWithCode(signed(registers[A0 as int])))
    } else {
        value
    }
}

/// The outcome of a call, read of the virtual machine after it. The inherited file
/// descriptors are read whatever the call returned; there may be no more of them than memory
/// can hold.
pub open spec fn outcome<E>(
    content: PartialSyscallContent,
    registers: Seq<u64>,
    reads: Reads<E>,
) -> Result<ValueView, TraceError<E>> {
    match content {
        PartialSyscallContent::ReturnWithCode => Ok(
            ValueView::ReturnWithCode(signed(registers[A0 as int])),
        ),
        PartialSyscallContent::IoData { data_addr, input_length } => unless_failed(
            registers,
            copied_data(data_addr, input_length, registers, reads),
        ),
        PartialSyscallContent::Exec => unless_failed(registers, Ok(ValueView::Terminated)),
        PartialSyscallContent::Spawn => unless_failed(
            registers,
            number_value(spawned_process_id(registers, reads)),
        ),
        PartialSyscallContent::Wait => unless_failed(
            registers,
            match crate::machine::read8(reads, registers[A1 as int]) {
                Ok(exit_code) => Ok(ValueView::SuccessOutputData(exit_code as u64)),
                Err(missing) => Err(TraceError::Read(missing)),
            },
        ),
        PartialSyscallContent::Pipe { fds_addr } => unless_failed(
            registers,
            fds_value(fds_at(reads, fds_addr, 0, 2)),
        ),
        PartialSyscallContent::Write => unless_failed(
            registers,
            number_value(crate::machine::read64(reads, registers[A2 as int])),
        ),
        PartialSyscallContent::Read => unless_failed(registers, received_data(registers, reads)),
        PartialSyscallContent::InheritedFd { buffer_addr } => {
            match crate::machine::read64(reads, registers[A1 as int]) {
                Err(missing) => Err(TraceError::Read(missing)),
                Ok(count) => if count > isize::MAX / 8 {
                    Err(TraceError::Overflow)
                } else {
                    fds_value(fds_at(reads, buffer_addr, 0, count as nat))
                },
            }
        },
    }
}

/// Whether `result` is `expected`.
pub open spec fn is_outcome<E>(
    result: Result<Syscall, TraceError<E>>,
    expected: Result<ValueView, TraceError<E>>,
) -> bool {
    match result {
        Ok(syscall) => match expected {
            Ok(value) => syscall@ == Some(value),
            Err(_) => false,
        },
        Err(error) => expected == Err::<ValueView, TraceError<E>>(error),
    }
}

/// A call that only returned a code.
fn return_syscall(code: i64) -> (syscall: Syscall)
    ensures
        syscall@ == Some(ValueView::ReturnWithCode(code)),
{
    Syscall { value: Some(SyscallValue::ReturnWithCode(code)) }
}

/// A call that produced a number.
fn output_syscall(data: u64) -> (syscall: Syscall)
    ensures
        syscall@ == Some(ValueView::SuccessOutputData(data)),
{
    Syscall { value: Some(SyscallValue::SuccessOutputData(data)) }
}

/// A call that produced bytes.
fn io_data_syscall(available_data: Vec<u8>, additional_length: u64) -> (syscall: Syscall)
    ensures
        syscall@ == Some(
            ValueView::IoData { available_data: available_data@, additional_length },
        ),
{
    Syscall { value: Some(SyscallValue::IoData(IoData { available_data, additional_length })) }
}

/// Reads `count` file descriptors that lie one after the other from `addr` on.
fn load_fds<M: Machine>(machine: &M, addr: u64, count: u64) -> (result: Result<
    Syscall,
    TraceError<M::Missing>,
>)
    requires
        count <= u64::MAX / 8,
    ensures
        is_outcome(result, fds_value(fds_at(machine.reads(), addr, 0, count as nat))),
{
    let mut fds: Vec<u64> = Vec::new();
    let mut i: u64 = 0;
    let ghost whole = fds_at(machine.reads(), addr, 0, count as nat);
    while i < count
        invariant
            i <= count <= u64::MAX / 8,
            whole == fds_at(machine.reads(), addr, 0, count as nat),
            match fds_at(machine.reads(), addr, i as nat, count as nat) {
                Ok(rest) => whole == Ok::<Seq<u64>, TraceError<M::Missing>>(fds@ + rest),
                Err(error) => whole == Err::<Seq<u64>, TraceError<M::Missing>>(error),
            },
        decreases count - i,
    {
        if addr > u64::MAX - i * 8 {
            return Err(TraceError::Overflow);
        }
        match machine.load64(addr + i * 8) {
            Ok(fd) => {
                let ghost before = fds@;
                fds.push(fd);
                proof {
                    if let Ok(rest) = fds_at(machine.reads(), addr, (i + 1) as nat, count as nat) {
                        assert(before + (seq![fd] + rest) =~= fds@ + rest);
                    }
                }
            },
            Err(missing) => {
                return Err(TraceError::Read(missing));
            },
        }
        i = i + 1;
    }
    assert(fds@ + Seq::<u64>::empty() =~= fds@);
    Ok(Syscall { value: Some(SyscallValue::Fds(Fds { fds })) })
}

/// Reads the outcome of a call of the virtual machine after it. The virtual machine must be
/// runnable again.
pub fn apply_partial_content<M: Machine>(content: &PartialSyscallContent, machine: &M) -> (result:
    Result<Syscall, TraceError<M::Missing>>)
    ensures
        is_outcome(result, outcome(*content, machine.register_file(), machine.reads())),
{
    let return_code: u64 = machine.register(A0);
    match content {
        PartialSyscallContent::ReturnWithCode => Ok(return_syscall(to_signed(return_code))),
        PartialSyscallContent::IoData { data_addr, input_length } => {
            if return_code != 0 {
                return Ok(return_syscall(to_signed(return_code)));
            }
            let output_length: u64 = match machine.load64(machine.register(A1)) {
                Ok(output_length) => output_length,
                Err(missing) => {
                    return Err(TraceError::Read(missing));
                },
            };
            let length: u64 = if *input_length < output_length {
                *input_length
            } else {
                output_length
            };
            match machine.load_bytes(*data_addr, length) {
                Ok(data) => {
                    let available: u64 = data.len() as u64;
                    Ok(io_data_syscall(data, output_length - available))
                },
                Err(missing) => Err(TraceError::Read(missing)),
            }
        },
        PartialSyscallContent::Exec => {
            if return_code != 0 {
                return Ok(return_syscall(to_signed(return_code)));
            }
            Ok(Syscall { value: Some(SyscallValue::Terminated(Terminated {  })) })
        },
        PartialSyscallContent::Spawn => {
            if return_code != 0 {
                return Ok(return_syscall(to_signed(return_code)));
            }
            match extract_spawned_process_id(machine) {
                Ok(process_id) => Ok(output_syscall(process_id)),
                Err(missing) => Err(TraceError::Read(missing)),
            }
        },
        PartialSyscallContent::Wait => {
            if return_code != 0 {
                return Ok(return_syscall(to_signed(return_code)));
            }
            match machine.load8(machine.register(A1)) {
                Ok(exit_code) => Ok(output_syscall(exit_code as u64)),
                Err(missing) => Err(TraceError::Read(missing)),
            }
        },
        PartialSyscallContent::Pipe { fds_addr } => {
            if return_code != 0 {
                return Ok(return_syscall(to_signed(return_code)));
            }
            load_fds(machine, *fds_addr, 2)
        },
        PartialSyscallContent::Write => {
            if return_code != 0 {
                return Ok(return_syscall(to_signed(return_code)));
            }
            match machine.load64(machine.register(A2)) {
                Ok(length) => Ok(output_syscall(length)),
                Err(missing) => Err(TraceError::Read(missing)),
            }
        },
        PartialSyscallContent::Read => {
            if return_code != 0 {
                return Ok(return_syscall(to_signed(return_code)));
            }
            let data_addr: u64 = machine.register(A1);
            let length: u64 = match machine.load64(machine.register(A2)) {
                Ok(length) => length,
                Err(missing) => {
                    return Err(TraceError::Read(missing));
                },
            };
            match machine.load_bytes(data_addr, length) {
                Ok(data) => Ok(io_data_syscall(data, 0)),
                Err(missing) => Err(TraceError::Read(missing)),
            }
        },
        PartialSyscallContent::InheritedFd { buffer_addr } => {
            let count: u64 = match machine.load64(machine.register(A1)) {
                Ok(count) => count,
                Err(missing) => {
                    return Err(TraceError::Read(missing));
                },
            };
            if count > isize::MAX as u64 / 8 {
                return Err(TraceError::Overflow);
            }
            load_fds(machine, *buffer_addr, count)
        },
    }
}

/// Whether `other` answers every read that `one` answers, with the same bytes.
pub open spec fn answers_as<E, F>(one: Reads<E>, other: Reads<F>) -> bool {
    forall|read: MemoryRead|
        (#[trigger] one(read)) matches Ok(bytes) ==> other(read) == Ok::<Seq<u8>, F>(bytes)
}

/// File descriptors that one memory gives, another one that answers as it does gives too.
proof fn lemma_fds_are_stable<E, F>(
    one: Reads<E>,
    other: Reads<F>,
    addr: u64,
    i: nat,
    count: nat,
)
    requires
        answers_as(one, other),
    ensures
        match fds_at(one, addr, i, count) {
            Ok(fds) => fds_at(other, addr, i, count) == Ok::<Seq<u64>, TraceError<F>>(fds),
            Err(TraceError::Overflow) => fds_at(other, addr, i, count) == Err::<
                Seq<u64>,
                TraceError<F>,
            >(TraceError::Overflow),
            Err(TraceError::Read(_)) => true,
        },
    decreases count - i,
{
    if i < count && addr + 8 * i <= u64::MAX {
        let read = MemoryRead::Load64 { addr: (addr + 8 * i) as u64 };
        assert(one(read) is Ok ==> other(read) is Ok);
        lemma_fds_are_stable(one, other, addr, i + 1, count);
    }
}

/// What is traced of a machine is what is traced of every machine with the same registers
/// whose memory answers the same reads in the same way. So it does not matter whether a
/// virtual machine is running or suspended when it is read, how many of its reads are
/// recorded beyond those that were needed, or in what order they were supplied.
pub proof fn law_trace_is_stable<M: Machine, N: Machine>(
    content: PartialSyscallContent,
    one: &M,
    other: &N,
)
    requires
        one.register_file() == other.register_file(),
        answers_as(one.reads(), other.reads()),
    ensures
        noted(one.register_file(), one.reads()) matches Ok(content) ==> noted(
            other.register_file(),
            other.reads(),
        ) == Ok::<Option<PartialSyscallContent>, N::Missing>(content),
        match outcome(content, one.register_file(), one.reads()) {
            Ok(value) => outcome(content, other.register_file(), other.reads()) == Ok::<
                ValueView,
                TraceError<N::Missing>,
            >(value),
            Err(TraceError::Overflow) => outcome(content, other.register_file(), other.reads())
                == Err::<ValueView, TraceError<N::Missing>>(TraceError::Overflow),
            Err(TraceError::Read(_)) => true,
        },
{
    let registers = one.register_file();
    let x = one.reads();
    let y = other.reads();
    let a1 = registers[A1 as int];
    let a2 = registers[A2 as int];
    assert(x(MemoryRead::Load64 { addr: a1 }) is Ok ==> y(MemoryRead::Load64 { addr: a1 }) is Ok);
    assert(x(MemoryRead::Load64 { addr: a2 }) is Ok ==> y(MemoryRead::Load64 { addr: a2 }) is Ok);
    assert(x(MemoryRead::Load8 { addr: a1 }) is Ok ==> y(MemoryRead::Load8 { addr: a1 }) is Ok);
    match content {
        PartialSyscallContent::IoData { data_addr, input_length } => {
            if let Ok(output_length) = crate::machine::read64(x, a1) {
                let length = if input_length < output_length {
                    input_length
                } else {
                    output_length
                };
                assert(x(MemoryRead::LoadBytes { addr: data_addr, size: length }) is Ok ==> y(
                    MemoryRead::LoadBytes { addr: data_addr, size: length },
                ) is Ok);
            }
        },
        PartialSyscallContent::Spawn => {
            let at = wrapping_sum(registers[A4 as int], 16);
            assert(x(MemoryRead::Load64 { addr: at }) is Ok ==> y(MemoryRead::Load64 { addr: at })
                is Ok);
            if let Ok(process_id_addr) = crate::machine::read64(x, at) {
                assert(x(MemoryRead::Load64 { addr: process_id_addr }) is Ok ==> y(
                    MemoryRead::Load64 { addr: process_id_addr },
                ) is Ok);
            }
        },
        PartialSyscallContent::Pipe { fds_addr } => {
            lemma_fds_are_stable(x, y, fds_addr, 0, 2);
        },
        PartialSyscallContent::Read => {
            if let Ok(length) = crate::machine::read64(x, a2) {
                assert(x(MemoryRead::LoadBytes { addr: a1, size: length }) is Ok ==> y(
                    MemoryRead::LoadBytes { addr: a1, size: length },
                ) is Ok);
            }
        },
        PartialSyscallContent::InheritedFd { buffer_addr } => {
            if let Ok(count) = crate::machine::read64(x, a1) {
                lemma_fds_are_stable(x, y, buffer_addr, 0, count as nat);
            }
        },
        _ => {},
    }
}

/// What keeps file descriptors from being read is the answer to a read.
proof fn lemma_missing_fd<E>(reads: Reads<E>, addr: u64, i: nat, count: nat)
    ensures
        fds_at(reads, addr, i, count) matches Err(TraceError::Read(missing)) ==> exists|
            read: MemoryRead,
        | #[trigger] reads(read) == Err::<Seq<u8>, E>(missing),
    decreases count - i,
{
    if i < count && addr + 8 * i <= u64::MAX {
        let read = MemoryRead::Load64 { addr: (addr + 8 * i) as u64 };
        assert(reads(read) is Err ==> reads(read) == Err::<Seq<u8>, E>(reads(read)->Err_0));
        lemma_missing_fd(reads, addr, i + 1, count);
    }
}

/// Whether a recorded machine cannot answer a read for the reason that is given.
pub open spec fn is_cause(machine: &RecordedMachine, miss: ReadMiss) -> bool {
    match miss {
        ReadMiss::Unknown(read) => !machine.known().contains_key(read),
        ReadMiss::Failed(read) => machine.known().contains_key(read) && machine.known()[read]
            is None,
    }
}

/// A read that is reported missing is one that the machine does not know, so supplying it
/// tells the machine something new; and one that is reported to have failed is known to be
/// refused by the virtual machine.
pub proof fn law_missing_read_is_unknown(content: PartialSyscallContent, machine: &RecordedMachine)
    ensures
        noted(machine.register_file(), machine.reads()) matches Err(miss) ==> is_cause(
            machine,
            miss,
        ),
        outcome(content, machine.register_file(), machine.reads()) matches Err(
            TraceError::Read(miss),
        ) ==> is_cause(machine, miss),
{
    match content {
        PartialSyscallContent::Pipe { fds_addr } => {
            lemma_missing_fd(machine.reads(), fds_addr, 0, 2);
        },
        PartialSyscallContent::InheritedFd { buffer_addr } => {
            if let Ok(count) = crate::machine::read64(
                machine.reads(),
                machine.register_file()[A1 as int],
            ) {
                lemma_missing_fd(machine.reads(), buffer_addr, 0, count as nat);
            }
        },
        _ => {},
    }
}

/// The bytes of a call that copied data, and how many more there were, add up to the length
/// that the call reported, and there are no more bytes than there was room for; so a replay
/// knows the whole length and every byte that was seen.
pub proof fn law_copied_data_is_complete<M: Machine>(
    data_addr: u64,
    input_length: u64,
    machine: &M,
)
    requires
        forall|read: MemoryRead|
            (#[trigger] (machine.reads())(read)) matches Ok(bytes) ==> bytes.len()
                == read.spec_size(),
        machine.register_file()[A0 as int] == 0,
        outcome(
            PartialSyscallContent::IoData { data_addr, input_length },
            machine.register_file(),
            machine.reads(),
        ) is Ok,
    ensures
        outcome(
            PartialSyscallContent::IoData { data_addr, input_length },
            machine.register_file(),
            machine.reads(),
        ) matches Ok(ValueView::IoData { available_data, additional_length }) && {
            let output_length = crate::machine::read64(
                machine.reads(),
                machine.register_file()[A1 as int],
            );
            &&& output_length == Ok::<u64, M::Missing>(
                (available_data.len() + additional_length) as u64,
            )
            &&& available_data.len() <= input_length
            &&& additional_length > 0 ==> available_data.len() == input_length
        },
{
    let output_length = crate::machine::read64(
        machine.reads(),
        machine.register_file()[A1 as int],
    );
    if let Ok(output_length) = output_length {
        let length = if input_length < output_length {
            input_length
        } else {
            output_length
        };
        let read = MemoryRead::LoadBytes { addr: data_addr, size: length };
        assert((machine.reads())(read) is Ok);
    }
}

/// A call that failed is traced by its code alone, which is not zero, whatever memory holds.
pub proof fn law_failed_call_returns_its_code<M: Machine>(
    content: PartialSyscallContent,
    machine: &M,
)
    requires
        machine.register_file()[A0 as int] != 0,
        !(content is InheritedFd),
    ensures
        outcome(content, machine.register_file(), machine.reads()) == Ok::<
            ValueView,
            TraceError<M::Missing>,
        >(ValueView::ReturnWithCode(signed(machine.register_file()[A0 as int]))),
        signed(machine.register_file()[A0 as int]) != 0,
{
}

} // verus!
