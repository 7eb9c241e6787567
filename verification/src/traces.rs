//! What a trace holds: the outcome of every system call of a virtual machine, or the parts
//! of the transaction that it read together with the outcomes of its other system calls.
use vstd::prelude::*;

verus! {

/// The bytes that a system call handed to the virtual machine.
#[derive(Clone, Debug, PartialEq, Eq)]
pub struct IoData {
    /// The bytes that were written to memory.
    pub available_data: Vec<u8>,
    /// How many more bytes there were.
    pub additional_length: u64,
}

/// The program was replaced.
#[derive(Clone, Debug, PartialEq, Eq)]
pub struct Terminated {}

/// File descriptors.
#[derive(Clone, Debug, PartialEq, Eq)]
pub struct Fds {
    /// The file descriptors.
    pub fds: Vec<u64>,
}

/// The outcome of a system call.
#[derive(Clone, Debug, PartialEq, Eq)]
pub enum SyscallValue {
    /// The call only returned a code.
    ReturnWithCode(i64),
    /// The call succeeded and produced a number.
    SuccessOutputData(u64),
    /// The call succeeded and produced bytes.
    IoData(IoData),
    /// The call succeeded and does not return.
    Terminated(Terminated),
    /// The call succeeded and produced file descriptors.
    Fds(Fds),
}

/// A system call.
#[derive(Clone, Debug, PartialEq, Eq)]
pub struct Syscall {
    /// The outcome.
    pub value: Option<SyscallValue>,
}

/// The system calls of one run of a virtual machine, in order.
#[derive(Clone, Debug, PartialEq, Eq)]
pub struct Syscalls {
    /// The system calls.
    pub syscalls: Vec<Syscall>,
}

/// The parts of the transaction that one run of a virtual machine read, and its other system
/// calls.
#[derive(Clone, Debug, PartialEq, Eq)]
pub struct Parts {
    /// The hash of the transaction.
    pub tx_hash: Vec<u8>,
    /// The cells of the first inputs.
    pub input_cells: Vec<Vec<u8>>,
    /// The data of the cells of the first inputs.
    pub input_cell_data: Vec<Vec<u8>>,
    /// The first witnesses.
    pub witnesses: Vec<Vec<u8>>,
    /// The system calls that the parts do not answer.
    pub other_syscalls: Vec<Syscall>,
}

/// The outcome of a system call, as a value.
pub enum ValueView {
    /// The call only returned a code.
    ReturnWithCode(i64),
    /// The call succeeded and produced a number.
    SuccessOutputData(u64),
    /// The call succeeded and produced bytes.
    IoData { available_data: Seq<u8>, additional_length: u64 },
    /// The call succeeded and does not return.
    Terminated,
    /// The call succeeded and produced file descriptors.
    Fds(Seq<u64>),
}

impl View for SyscallValue {
    type V = ValueView;

    open spec fn view(&self) -> ValueView {
        match *self {
            SyscallValue::ReturnWithCode(code) => ValueView::ReturnWithCode(code),
            SyscallValue::SuccessOutputData(data) => ValueView::SuccessOutputData(data),
            SyscallValue::IoData(data) => ValueView::IoData {
                available_data: data.available_data@,
                additional_length: data.additional_length,
            },
            SyscallValue::Terminated(_) => ValueView::Terminated,
            SyscallValue::Fds(fds) => ValueView::Fds(fds.fds@),
        }
    }
}

impl View for Syscall {
    type V = Option<ValueView>;

    open spec fn view(&self) -> Option<ValueView> {
        match self.value {
            Some(value) => Some(value@),
            None => None,
        }
    }
}

/// System calls, as values.
pub open spec fn syscall_views(syscalls: Seq<Syscall>) -> Seq<Option<ValueView>> {
    syscalls.map_values(|syscall: Syscall| syscall@)
}

impl View for Syscalls {
    type V = Seq<Option<ValueView>>;

    open spec fn view(&self) -> Seq<Option<ValueView>> {
        syscall_views(self.syscalls@)
    }
}

/// Runs of bytes, as values.
pub open spec fn byte_strings(strings: Seq<Vec<u8>>) -> Seq<Seq<u8>> {
    strings.map_values(|bytes: Vec<u8>| bytes@)
}

/// Parts of a transaction, as values.
#[verifier::ext_equal]
pub struct PartsView {
    /// The hash of the transaction.
    pub tx_hash: Seq<u8>,
    /// The cells of the first inputs.
    pub input_cells: Seq<Seq<u8>>,
    /// The data of the cells of the first inputs.
    pub input_cell_data: Seq<Seq<u8>>,
    /// The first witnesses.
    pub witnesses: Seq<Seq<u8>>,
    /// The system calls that the parts do not answer.
    pub other_syscalls: Seq<Option<ValueView>>,
}

impl View for Parts {
    type V = PartsView;

    open spec fn view(&self) -> PartsView {
        PartsView {
            tx_hash: self.tx_hash@,
            input_cells: byte_strings(self.input_cells@),
            input_cell_data: byte_strings(self.input_cell_data@),
            witnesses: byte_strings(self.witnesses@),
            other_syscalls: syscall_views(self.other_syscalls@),
        }
    }
}

/// No parts.
pub open spec fn no_parts() -> PartsView {
    PartsView {
        tx_hash: Seq::empty(),
        input_cells: Seq::empty(),
        input_cell_data: Seq::empty(),
        witnesses: Seq::empty(),
        other_syscalls: Seq::empty(),
    }
}

impl Default for Syscalls {
    /// No system calls.
    fn default() -> (syscalls: Self)
        ensures
            syscalls@ == Seq::<Option<ValueView>>::empty(),
    {
        Syscalls { syscalls: Vec::new() }
    }
}

impl Default for Parts {
    /// No parts.
    fn default() -> (parts: Self)
        ensures
            parts@ == no_parts(),
    {
        let parts = Parts {
            tx_hash: Vec::new(),
            input_cells: Vec::new(),
            input_cell_data: Vec::new(),
            witnesses: Vec::new(),
            other_syscalls: Vec::new(),
        };
        assert(parts@ =~= no_parts());
        parts
    }
}

} // verus!
