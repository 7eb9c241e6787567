//! The numbers that scripts use: which system call is made, and which part of the
//! transaction it is about.
use vstd::prelude::*;

verus! {

/// A system call of the virtual machine.
#[derive(Copy, Clone, Debug, PartialEq, Eq, Hash, Structural)]
pub enum SyscallCode {
    /// Reads the transaction being verified.
    LoadTransaction,
    /// Reads the script being run.
    LoadScript,
    /// Reads the hash of the transaction.
    LoadTxHash,
    /// Reads the hash of the script.
    LoadScriptHash,
    /// Reads a cell.
    LoadCell,
    /// Reads a block header.
    LoadHeader,
    /// Reads an input.
    LoadInput,
    /// Reads a witness.
    LoadWitness,
    /// Reads one field of a cell.
    LoadCellByField,
    /// Reads one field of a header.
    LoadHeaderByField,
    /// Reads one field of an input.
    LoadInputByField,
    /// Maps the data of a cell as executable pages.
    LoadCellDataAsCode,
    /// Reads the data of a cell.
    LoadCellData,
    /// Reads the extension field of a block.
    LoadBlockExtension,
    /// Asks for the version of the virtual machine.
    VmVersion,
    /// Asks for the cycles consumed so far.
    CurrentCycles,
    /// Replaces the running program.
    Exec,
    /// Starts a new virtual machine.
    Spawn,
    /// Waits for another virtual machine to exit.
    Wait,
    /// Asks for the identifier of the running virtual machine.
    ProcessId,
    /// Creates a pair of file descriptors.
    Pipe,
    /// Writes to a file descriptor.
    Write,
    /// Reads from a file descriptor.
    Read,
    /// Lists the inherited file descriptors.
    InheritedFd,
    /// Closes a file descriptor.
    Close,
    /// Prints a message.
    Debug,
}

impl SyscallCode {
    /// The number that stands for this value in a register.
    pub open spec fn spec_number(self) -> u64 {
        match self {
            SyscallCode::LoadTransaction => 2051,
            SyscallCode::LoadScript => 2052,
            SyscallCode::LoadTxHash => 2061,
            SyscallCode::LoadScriptHash => 2062,
            SyscallCode::LoadCell => 2071,
            SyscallCode::LoadHeader => 2072,
            SyscallCode::LoadInput => 2073,
            SyscallCode::LoadWitness => 2074,
            SyscallCode::LoadCellByField => 2081,
            SyscallCode::LoadHeaderByField => 2082,
            SyscallCode::LoadInputByField => 2083,
            SyscallCode::LoadCellDataAsCode => 2091,
            SyscallCode::LoadCellData => 2092,
            SyscallCode::LoadBlockExtension => 2104,
            SyscallCode::VmVersion => 2041,
            SyscallCode::CurrentCycles => 2042,
            SyscallCode::Exec => 2043,
            SyscallCode::Spawn => 2601,
            SyscallCode::Wait => 2602,
            SyscallCode::ProcessId => 2603,
            SyscallCode::Pipe => 2604,
            SyscallCode::Write => 2605,
            SyscallCode::Read => 2606,
            SyscallCode::InheritedFd => 2607,
            SyscallCode::Close => 2608,
            SyscallCode::Debug => 2177,
        }
    }

    /// The value that a register holding `number` stands for, if there is one.
    pub open spec fn spec_of_number(number: u64) -> Option<SyscallCode> {
        match number {
            2051 => Some(SyscallCode::LoadTransaction),
            2052 => Some(SyscallCode::LoadScript),
            2061 => Some(SyscallCode::LoadTxHash),
            2062 => Some(SyscallCode::LoadScriptHash),
            2071 => Some(SyscallCode::LoadCell),
            2072 => Some(SyscallCode::LoadHeader),
            2073 => Some(SyscallCode::LoadInput),
            2074 => Some(SyscallCode::LoadWitness),
            2081 => Some(SyscallCode::LoadCellByField),
            2082 => Some(SyscallCode::LoadHeaderByField),
            2083 => Some(SyscallCode::LoadInputByField),
            2091 => Some(SyscallCode::LoadCellDataAsCode),
            2092 => Some(SyscallCode::LoadCellData),
            2104 => Some(SyscallCode::LoadBlockExtension),
            2041 => Some(SyscallCode::VmVersion),
            2042 => Some(SyscallCode::CurrentCycles),
            2043 => Some(SyscallCode::Exec),
            2601 => Some(SyscallCode::Spawn),
            2602 => Some(SyscallCode::Wait),
            2603 => Some(SyscallCode::ProcessId),
            2604 => Some(SyscallCode::Pipe),
            2605 => Some(SyscallCode::Write),
            2606 => Some(SyscallCode::Read),
            2607 => Some(SyscallCode::InheritedFd),
            2608 => Some(SyscallCode::Close),
            2177 => Some(SyscallCode::Debug),
            _ => None,
        }
    }

    /// The number that stands for this value in a register.
    pub fn number(self) -> (number: u64)
        ensures
            number == self.spec_number(),
    {
        match self {
            SyscallCode::LoadTransaction => 2051,
            SyscallCode::LoadScript => 2052,
            SyscallCode::LoadTxHash => 2061,
            SyscallCode::LoadScriptHash => 2062,
            SyscallCode::LoadCell => 2071,
            SyscallCode::LoadHeader => 2072,
            SyscallCode::LoadInput => 2073,
            SyscallCode::LoadWitness => 2074,
            SyscallCode::LoadCellByField => 2081,
            SyscallCode::LoadHeaderByField => 2082,
            SyscallCode::LoadInputByField => 2083,
            SyscallCode::LoadCellDataAsCode => 2091,
            SyscallCode::LoadCellData => 2092,
            SyscallCode::LoadBlockExtension => 2104,
            SyscallCode::VmVersion => 2041,
            SyscallCode::CurrentCycles => 2042,
            SyscallCode::Exec => 2043,
            SyscallCode::Spawn => 2601,
            SyscallCode::Wait => 2602,
            SyscallCode::ProcessId => 2603,
            SyscallCode::Pipe => 2604,
            SyscallCode::Write => 2605,
            SyscallCode::Read => 2606,
            SyscallCode::InheritedFd => 2607,
            SyscallCode::Close => 2608,
            SyscallCode::Debug => 2177,
        }
    }
}

impl TryFrom<u64> for SyscallCode {
    type Error = u64;

    /// Reads `number` as a system call; the error is the number itself.
    fn try_from(number: u64) -> (result: Result<SyscallCode, u64>) {
        match number {
            2051 => Ok(SyscallCode::LoadTransaction),
            2052 => Ok(SyscallCode::LoadScript),
            2061 => Ok(SyscallCode::LoadTxHash),
            2062 => Ok(SyscallCode::LoadScriptHash),
            2071 => Ok(SyscallCode::LoadCell),
            2072 => Ok(SyscallCode::LoadHeader),
            2073 => Ok(SyscallCode::LoadInput),
            2074 => Ok(SyscallCode::LoadWitness),
            2081 => Ok(SyscallCode::LoadCellByField),
            2082 => Ok(SyscallCode::LoadHeaderByField),
            2083 => Ok(SyscallCode::LoadInputByField),
            2091 => Ok(SyscallCode::LoadCellDataAsCode),
            2092 => Ok(SyscallCode::LoadCellData),
            2104 => Ok(SyscallCode::LoadBlockExtension),
            2041 => Ok(SyscallCode::VmVersion),
            2042 => Ok(SyscallCode::CurrentCycles),
            2043 => Ok(SyscallCode::Exec),
            2601 => Ok(SyscallCode::Spawn),
            2602 => Ok(SyscallCode::Wait),
            2603 => Ok(SyscallCode::ProcessId),
            2604 => Ok(SyscallCode::Pipe),
            2605 => Ok(SyscallCode::Write),
            2606 => Ok(SyscallCode::Read),
            2607 => Ok(SyscallCode::InheritedFd),
            2608 => Ok(SyscallCode::Close),
            2177 => Ok(SyscallCode::Debug),
            _ => Err(number),
        }
    }
}

impl vstd::std_specs::convert::TryFromSpecImpl<u64> for SyscallCode {
    open spec fn obeys_try_from_spec() -> bool {
        true
    }

    open spec fn try_from_spec(number: u64) -> Result<SyscallCode, u64> {
        match SyscallCode::spec_of_number(number) {
            Some(value) => Ok(value),
            None => Err(number),
        }
    }
}

impl From<SyscallCode> for u64 {
    fn from(value: SyscallCode) -> (number: u64) {
        value.number()
    }
}

impl vstd::std_specs::convert::FromSpecImpl<SyscallCode> for u64 {
    open spec fn obeys_from_spec() -> bool {
        true
    }

    open spec fn from_spec(value: SyscallCode) -> u64 {
        value.spec_number()
    }
}

/// Where a system call looks for what it was asked for.
#[derive(Copy, Clone, Debug, PartialEq, Eq, Hash, Structural)]
pub enum Source {
    /// The inputs of the transaction.
    Input,
    /// The outputs of the transaction.
    Output,
    /// The cell dependencies of the transaction.
    CellDep,
    /// The header dependencies of the transaction.
    HeaderDep,
    /// The inputs of the running script group.
    GroupInput,
    /// The outputs of the running script group.
    GroupOutput,
}

impl Source {
    /// The number that stands for this value in a register.
    pub open spec fn spec_number(self) -> u64 {
        match self {
            Source::Input => 1,
            Source::Output => 2,
            Source::CellDep => 3,
            Source::HeaderDep => 4,
            Source::GroupInput => 0x0100000000000001,
            Source::GroupOutput => 0x0100000000000002,
        }
    }

    /// The value that a register holding `number` stands for, if there is one.
    pub open spec fn spec_of_number(number: u64) -> Option<Source> {
        match number {
            1 => Some(Source::Input),
            2 => Some(Source::Output),
            3 => Some(Source::CellDep),
            4 => Some(Source::HeaderDep),
            0x0100000000000001 => Some(Source::GroupInput),
            0x0100000000000002 => Some(Source::GroupOutput),
            _ => None,
        }
    }

    /// The number that stands for this value in a register.
    pub fn number(self) -> (number: u64)
        ensures
            number == self.spec_number(),
    {
        match self {
            Source::Input => 1,
            Source::Output => 2,
            Source::CellDep => 3,
            Source::HeaderDep => 4,
            Source::GroupInput => 0x0100000000000001,
            Source::GroupOutput => 0x0100000000000002,
        }
    }
}

impl TryFrom<u64> for Source {
    type Error = u64;

    /// Reads `number` as a source; the error is the number itself.
    fn try_from(number: u64) -> (result: Result<Source, u64>) {
        match number {
            1 => Ok(Source::Input),
            2 => Ok(Source::Output),
            3 => Ok(Source::CellDep),
            4 => Ok(Source::HeaderDep),
            0x0100000000000001 => Ok(Source::GroupInput),
            0x0100000000000002 => Ok(Source::GroupOutput),
            _ => Err(number),
        }
    }
}

impl vstd::std_specs::convert::TryFromSpecImpl<u64> for Source {
    open spec fn obeys_try_from_spec() -> bool {
        true
    }

    open spec fn try_from_spec(number: u64) -> Result<Source, u64> {
        match Source::spec_of_number(number) {
            Some(value) => Ok(value),
            None => Err(number),
        }
    }
}

impl From<Source> for u64 {
    fn from(value: Source) -> (number: u64) {
        value.number()
    }
}

impl vstd::std_specs::convert::FromSpecImpl<Source> for u64 {
    open spec fn obeys_from_spec() -> bool {
        true
    }

    open spec fn from_spec(value: Source) -> u64 {
        value.spec_number()
    }
}

/// A system call is read back from its number, and a number that is read as a system call
/// is that system call's own: the two directions undo each other, so no two system calls
/// share a number.
pub proof fn law_syscall_numbers(code: SyscallCode, number: u64)
    ensures
        SyscallCode::spec_of_number(code.spec_number()) == Some(code),
        SyscallCode::spec_of_number(number) == Some(code) <==> number == code.spec_number(),
{
}

/// A source is read back from its number, and a number that is read as a source is that
/// source's own.
pub proof fn law_source_numbers(source: Source, number: u64)
    ensures
        Source::spec_of_number(source.spec_number()) == Some(source),
        Source::spec_of_number(number) == Some(source) <==> number == source.spec_number(),
{
}

} // verus!
