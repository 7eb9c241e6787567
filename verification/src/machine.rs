//! What the tracer reads of a virtual machine: its registers and its memory.
//!
//! The tracer never touches a virtual machine itself. It works on a [`Machine`], which
//! answers a read or says what is missing to answer it. A [`RecordedMachine`] knows the
//! registers of a virtual machine and the reads that were supplied so far; whoever holds
//! the virtual machine supplies a missing read and asks again.
use vstd::prelude::*;

use crate::bytes::read_little_endian;

verus! {

/// The number of general purpose registers.
pub const REGISTER_COUNT: usize = 32;

/// The register of the first argument, and of the result of a system call.
pub const A0: usize = 10;

/// The register of the second argument.
pub const A1: usize = 11;

/// The register of the third argument.
pub const A2: usize = 12;

/// The register of the fourth argument.
pub const A3: usize = 13;

/// The register of the fifth argument.
pub const A4: usize = 14;

/// The register of the number of a system call.
pub const A7: usize = 17;

/// A read of memory.
#[derive(Copy, Clone, Debug, PartialEq, Eq, Structural)]
pub enum MemoryRead {
    /// One byte.
    Load8 { addr: u64 },
    /// A number of eight bytes.
    Load64 { addr: u64 },
    /// A run of bytes.
    LoadBytes { addr: u64, size: u64 },
}

impl MemoryRead {
    /// Where the read starts.
    pub open spec fn spec_addr(self) -> u64 {
        match self {
            MemoryRead::Load8 { addr } => addr,
            MemoryRead::Load64 { addr } => addr,
            MemoryRead::LoadBytes { addr, .. } => addr,
        }
    }

    /// How many bytes are read.
    pub open spec fn spec_size(self) -> u64 {
        match self {
            MemoryRead::Load8 { .. } => 1,
            MemoryRead::Load64 { .. } => 8,
            MemoryRead::LoadBytes { size, .. } => size,
        }
    }

    /// How many bytes are read.
    pub fn size(&self) -> (size: u64)
        ensures
            size == self.spec_size(),
    {
        match self {
            MemoryRead::Load8 { .. } => 1,
            MemoryRead::Load64 { .. } => 8,
            MemoryRead::LoadBytes { size, .. } => *size,
        }
    }
}

/// The answers of a memory: the bytes of a read, or why they are not known.
pub type Reads<E> = spec_fn(MemoryRead) -> Result<Seq<u8>, E>;

/// A byte of memory.
pub open spec fn read8<E>(reads: Reads<E>, addr: u64) -> Result<u8, E> {
    match reads(MemoryRead::Load8 { addr }) {
        Ok(bytes) => Ok(bytes[0]),
        Err(missing) => Err(missing),
    }
}

/// A number of eight bytes, least significant byte first.
pub open spec fn read64<E>(reads: Reads<E>, addr: u64) -> Result<u64, E> {
    match reads(MemoryRead::Load64 { addr }) {
        Ok(bytes) => Ok(crate::bytes::little_endian(bytes) as u64),
        Err(missing) => Err(missing),
    }
}

/// A run of bytes.
pub open spec fn read_bytes<E>(reads: Reads<E>, addr: u64, size: u64) -> Result<Seq<u8>, E> {
    reads(MemoryRead::LoadBytes { addr, size })
}

/// A virtual machine that can be read and not changed.
pub trait Machine {
    /// What is missing where a read cannot be answered.
    type Missing;

    /// The general purpose registers.
    spec fn register_file(&self) -> Seq<u64>;

    /// The answers of the memory.
    spec fn reads(&self) -> Reads<Self::Missing>;

    /// The value of a general purpose register.
    fn register(&self, index: usize) -> (value: u64)
        requires
            index < REGISTER_COUNT,
        ensures
            value == self.register_file()[index as int],
    ;

    /// Reads one byte.
    fn load8(&self, addr: u64) -> (result: Result<u8, Self::Missing>)
        ensures
            result == read8(self.reads(), addr),
    ;

    /// Reads a number of eight bytes.
    fn load64(&self, addr: u64) -> (result: Result<u64, Self::Missing>)
        ensures
            result == read64(self.reads(), addr),
    ;

    /// Reads a run of bytes.
    fn load_bytes(&self, addr: u64, size: u64) -> (result: Result<Vec<u8>, Self::Missing>)
        ensures
            match result {
                Ok(bytes) => read_bytes(self.reads(), addr, size) == Ok::<Seq<u8>, Self::Missing>(bytes@)
                    && bytes@.len() == size,
                Err(missing) => read_bytes(self.reads(), addr, size) == Err::<
                    Seq<u8>,
                    Self::Missing,
                >(missing),
            },
    ;
}

/// Why a recorded machine cannot answer a read.
#[derive(Copy, Clone, Debug, PartialEq, Eq, Structural)]
pub enum ReadMiss {
    /// The read was not supplied yet.
    Unknown(MemoryRead),
    /// The virtual machine refuses the read.
    Failed(MemoryRead),
}

/// The registers of a virtual machine, and the reads of its memory that are known: their
/// bytes, or that the virtual machine refuses them.
pub struct RecordedMachine {
    registers: [u64; REGISTER_COUNT],
    recorded: Vec<(MemoryRead, Option<Vec<u8>>)>,
}

/// The answer to a read, as a value.
pub open spec fn answer_view(answer: Option<Vec<u8>>) -> Option<Seq<u8>> {
    match answer {
        Some(bytes) => Some(bytes@),
        None => None,
    }
}

/// The reads in `recorded`, the latest of each.
pub open spec fn known_reads(recorded: Seq<(MemoryRead, Option<Vec<u8>>)>) -> Map<
    MemoryRead,
    Option<Seq<u8>>,
>
    decreases recorded.len(),
{
    if recorded.len() == 0 {
        Map::empty()
    } else {
        known_reads(recorded.drop_last()).insert(
            recorded.last().0,
            answer_view(recorded.last().1),
        )
    }
}

impl RecordedMachine {
    #[verifier::type_invariant]
    spec fn well_formed(self) -> bool {
        forall|i: int|
            0 <= i < self.recorded@.len() ==> ((#[trigger] self.recorded@[i]).1 matches Some(bytes)
                ==> bytes@.len() == self.recorded@[i].0.spec_size())
    }

    /// The values of the registers.
    pub closed spec fn spec_registers(&self) -> Seq<u64> {
        self.registers@
    }

    /// The reads that are known, with their bytes; a read that the virtual machine refuses has
    /// none.
    pub closed spec fn known(&self) -> Map<MemoryRead, Option<Seq<u8>>> {
        known_reads(self.recorded@)
    }

    /// A machine with these registers, of whose memory nothing is known.
    pub fn new(registers: [u64; REGISTER_COUNT]) -> (machine: Self)
        ensures
            machine.spec_registers() == registers@,
            machine.known() == Map::<MemoryRead, Option<Seq<u8>>>::empty(),
    {
        RecordedMachine { registers, recorded: Vec::new() }
    }

    /// Makes a read known. What was known of the same read is replaced.
    pub fn supply(&mut self, read: MemoryRead, bytes: Vec<u8>)
        requires
            bytes@.len() == read.spec_size(),
        ensures
            final(self).spec_registers() == old(self).spec_registers(),
            final(self).known() == old(self).known().insert(read, Some(bytes@)),
    {
        self.record(read, Some(bytes));
    }

    /// Makes known that the virtual machine refuses a read. What was known of the same read is
    /// replaced.
    pub fn supply_failure(&mut self, read: MemoryRead)
        ensures
            final(self).spec_registers() == old(self).spec_registers(),
            final(self).known() == old(self).known().insert(read, None),
    {
        self.record(read, None);
    }

    /// Makes the answer to a read known.
    fn record(&mut self, read: MemoryRead, answer: Option<Vec<u8>>)
        requires
            answer matches Some(bytes) ==> bytes@.len() == read.spec_size(),
        ensures
            final(self).spec_registers() == old(self).spec_registers(),
            final(self).known() == old(self).known().insert(read, answer_view(answer)),
    {
        proof {
            use_type_invariant(&*self);
        }
        let mut recorded: Vec<(MemoryRead, Option<Vec<u8>>)> = Vec::new();
        std::mem::swap(&mut recorded, &mut self.recorded);
        let ghost before = recorded@;
        recorded.push((read, answer));
        assert(recorded@.drop_last() =~= before);
        self.recorded = recorded;
    }

    /// The bytes of a read.
    pub fn lookup(&self, read: MemoryRead) -> (found: Result<&Vec<u8>, ReadMiss>)
        ensures
            match found {
                Ok(bytes) => self.known().contains_key(read) && self.known()[read] == Some(bytes@)
                    && bytes@.len() == read.spec_size(),
                Err(ReadMiss::Failed(failed)) => failed == read && self.known().contains_key(read)
                    && self.known()[read] is None,
                Err(ReadMiss::Unknown(unknown)) => unknown == read && !self.known().contains_key(
                    read,
                ),
            },
    {
        proof {
            use_type_invariant(self);
        }
        let mut i: usize = self.recorded.len();
        assert(self.recorded@.take(i as int) =~= self.recorded@);
        while i > 0
            invariant
                self.well_formed(),
                i <= self.recorded@.len(),
                self.known().contains_key(read) <==> known_reads(
                    self.recorded@.take(i as int),
                ).contains_key(read),
                self.known().contains_key(read) ==> self.known()[read] == known_reads(
                    self.recorded@.take(i as int),
                )[read],
            decreases i,
        {
            assert(self.recorded@.take(i as int).drop_last() =~= self.recorded@.take(i - 1));
            i = i - 1;
            if self.recorded[i].0 == read {
                return match &self.recorded[i].1 {
                    Some(bytes) => Ok(bytes),
                    None => Err(ReadMiss::Failed(read)),
                };
            }
        }
        Err(ReadMiss::Unknown(read))
    }
}

impl Machine for RecordedMachine {
    type Missing = ReadMiss;

    open spec fn register_file(&self) -> Seq<u64> {
        self.spec_registers()
    }

    open spec fn reads(&self) -> Reads<ReadMiss> {
        |read: MemoryRead|
            if self.known().contains_key(read) {
                match self.known()[read] {
                    Some(bytes) => Ok(bytes),
                    None => Err(ReadMiss::Failed(read)),
                }
            } else {
                Err(ReadMiss::Unknown(read))
            }
    }

    fn register(&self, index: usize) -> (value: u64) {
        self.registers[index]
    }

    fn load8(&self, addr: u64) -> (result: Result<u8, ReadMiss>) {
        match self.lookup(MemoryRead::Load8 { addr }) {
            Ok(bytes) => Ok(bytes[0]),
            Err(miss) => Err(miss),
        }
    }

    fn load64(&self, addr: u64) -> (result: Result<u64, ReadMiss>) {
        match self.lookup(MemoryRead::Load64 { addr }) {
            Ok(bytes) => Ok(read_little_endian(bytes.as_slice())),
            Err(miss) => Err(miss),
        }
    }

    fn load_bytes(&self, addr: u64, size: u64) -> (result: Result<Vec<u8>, ReadMiss>) {
        match self.lookup(MemoryRead::LoadBytes { addr, size }) {
            Ok(bytes) => {
                let copy = bytes.clone();
                assert(copy@ =~= bytes@);
                Ok(copy)
            },
            Err(miss) => Err(miss),
        }
    }
}

} // verus!
