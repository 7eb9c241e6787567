//! Where the program of a run comes from.
use vstd::prelude::*;

use crate::codes::SyscallCode;
use crate::data::{DataLengths, LengthQuery};
use crate::keys::{CollectorKey, VmId};
use crate::machine::{Machine, ReadMiss, Reads, RecordedMachine, A0, A1, A2, A3, A7};
use crate::outside::data_piece_id;
use crate::partial_content::extract_spawned_process_id;

verus! {

/// Where a program lies in the transaction.
#[derive(Copy, Clone, Debug, PartialEq, Eq, Hash, Structural)]
pub struct BinaryLocator {
    /// The index of the cell or the witness.
    pub index: u64,
    /// The source of the cell or the witness.
    pub source: u64,
    /// Where the program starts in the cell or the witness.
    pub offset: u32,
    /// The length of the program.
    pub length: u32,
    /// Whether the program is in a cell and not in a witness.
    pub from_cell: bool,
}

impl View for BinaryLocator {
    type V = BinaryLocator;

    open spec fn view(&self) -> BinaryLocator {
        *self
    }
}

/// A program that a system call asked for.
#[derive(Copy, Clone, Debug, PartialEq, Eq, Structural)]
pub enum PartialLocator {
    /// The program is to replace that of the virtual machine.
    Exec(BinaryLocator),
    /// The program is to run in a virtual machine of its own.
    Spawn(BinaryLocator),
}

/// Why what became of the system calls of suspended virtual machines cannot be told.
#[derive(Clone, Debug, PartialEq, Eq)]
pub enum PostprocessError<E> {
    /// A read of a virtual machine that could not be answered.
    Read {
        /// The virtual machine.
        vm_id: VmId,
        /// Why it could not be answered.
        missing: E,
    },
    /// A length that is not known.
    Length(LengthQuery),
    /// A program was asked for in what is no piece of data; the message says why.
    DataPiece(String),
    /// A program was asked for where there is no data, or more of it than a program can have.
    InvalidLocator(BinaryLocator),
}

/// Why what became of system calls cannot be told, as a value.
pub enum ErrorView<E> {
    /// A read of a virtual machine that could not be answered.
    Read { vm_id: VmId, missing: E },
    /// A length that is not known.
    Length(LengthQuery),
    /// A program was asked for in what is no piece of data.
    DataPiece(Seq<char>),
    /// A program was asked for where there is no data, or more of it than a program can have.
    InvalidLocator(BinaryLocator),
}

impl<E> View for PostprocessError<E> {
    type V = ErrorView<E>;

    open spec fn view(&self) -> ErrorView<E> {
        match *self {
            PostprocessError::Read { vm_id, missing } => ErrorView::Read { vm_id, missing },
            PostprocessError::Length(query) => ErrorView::Length(query),
            PostprocessError::DataPiece(message) => ErrorView::DataPiece(message@),
            PostprocessError::InvalidLocator(locator) => ErrorView::InvalidLocator(locator),
        }
    }
}

/// Whether something only has to be supplied: a read that is unknown, or a length.
pub open spec fn only_missing(error: ErrorView<ReadMiss>) -> bool {
    match error {
        ErrorView::Read { missing: ReadMiss::Unknown(_), .. } => true,
        ErrorView::Length(_) => true,
        _ => false,
    }
}

impl PostprocessError<ReadMiss> {
    /// Whether something only has to be supplied.
    pub fn is_missing(&self) -> (missing: bool)
        ensures
            missing == only_missing(self@),
    {
        match self {
            PostprocessError::Read { missing: ReadMiss::Unknown(_), .. } => true,
            PostprocessError::Length(_) => true,
            _ => false,
        }
    }
}

/// The program that the registers ask for: its index and source are the first two arguments,
/// the third one is zero if it is in a cell, and the fourth one holds its offset in the upper
/// half and its length in the lower half.
pub open spec fn requested(registers: Seq<u64>) -> BinaryLocator {
    BinaryLocator {
        index: registers[A0 as int],
        source: registers[A1 as int],
        offset: (registers[A3 as int] / 0x1_0000_0000) as u32,
        length: (registers[A3 as int] % 0x1_0000_0000) as u32,
        from_cell: registers[A2 as int] == 0,
    }
}

/// The program that the system call in the registers asks for, if it asks for one.
pub open spec fn requested_by_call(registers: Seq<u64>) -> Option<PartialLocator> {
    match SyscallCode::spec_of_number(registers[A7 as int]) {
        Some(SyscallCode::Exec) => Some(PartialLocator::Exec(requested(registers))),
        Some(SyscallCode::Spawn) => Some(PartialLocator::Spawn(requested(registers))),
        _ => None,
    }
}

/// Notes the program that a system call asks for, if it asks for one.
pub fn build_partial_locator<M: Machine>(machine: &M) -> (partial: Option<PartialLocator>)
    ensures
        partial == requested_by_call(machine.register_file()),
{
    let index: u64 = machine.register(A0);
    let source: u64 = machine.register(A1);
    let bounds: u64 = machine.register(A3);
    assert((bounds >> 32) as u32 == bounds / 0x1_0000_0000) by (bit_vector);
    assert(bounds as u32 == bounds % 0x1_0000_0000) by (bit_vector);
    let offset: u32 = (bounds >> 32) as u32;
    let length: u32 = bounds as u32;
    let from_cell = machine.register(A2) == 0;
    let locator = BinaryLocator { index, source, offset, length, from_cell };
    match SyscallCode::try_from(machine.register(A7)) {
        Ok(SyscallCode::Exec) => Some(PartialLocator::Exec(locator)),
        Ok(SyscallCode::Spawn) => Some(PartialLocator::Spawn(locator)),
        _ => None,
    }
}

/// The place that holds a program.
pub open spec fn place_of(locator: BinaryLocator) -> u64 {
    if locator.from_cell {
        0
    } else {
        1
    }
}

/// A locator that says how long its program is: a length of zero stands for all that there is
/// from the offset on, which must be something, and no more than a length can say.
pub open spec fn normalized<E>(
    locator: BinaryLocator,
    lengths: Map<LengthQuery, Option<u64>>,
) -> Result<BinaryLocator, ErrorView<E>> {
    if locator.length > 0 {
        Ok(locator)
    } else {
        match crate::data::piece_at(locator.source, locator.index, place_of(locator)) {
            None => Err(
                ErrorView::DataPiece(
                    crate::outside::data_piece_error(
                        locator.source,
                        locator.index,
                        place_of(locator),
                    ),
                ),
            ),
            Some(piece) => {
                let query = LengthQuery { piece, offset: locator.offset as u64 };
                if !lengths.contains_key(query) {
                    Err(ErrorView::Length(query))
                } else {
                    match lengths[query] {
                        Some(length) if 0 < length <= u32::MAX => Ok(
                            BinaryLocator { length: length as u32, ..locator },
                        ),
                        _ => Err(ErrorView::InvalidLocator(locator)),
                    }
                }
            },
        }
    }
}

/// How many bytes there are where a locator says, from its offset on, as far as that is known.
pub open spec fn reported_length(
    locator: BinaryLocator,
    lengths: Map<LengthQuery, Option<u64>>,
) -> Option<u64> {
    match crate::data::piece_at(locator.source, locator.index, place_of(locator)) {
        Some(piece) => {
            let query = LengthQuery { piece, offset: locator.offset as u64 };
            if lengths.contains_key(query) {
                lengths[query]
            } else {
                None
            }
        },
        None => None,
    }
}

/// Makes a locator say how long its program is.
pub fn normalize_locator<E>(locator: &BinaryLocator, lengths: &DataLengths) -> (result: Result<
    BinaryLocator,
    PostprocessError<E>,
>)
    ensures
        match result {
            Ok(found) => {
                &&& normalized::<E>(*locator, lengths@) == Ok::<BinaryLocator, ErrorView<E>>(found)
                &&& found.length != 0
                &&& locator.length == 0 ==> reported_length(*locator, lengths@) == Some(
                    found.length as u64,
                )
            },
            Err(error) => normalized::<E>(*locator, lengths@) == Err::<
                BinaryLocator,
                ErrorView<E>,
            >(error@),
        },
{
    if locator.length > 0 {
        return Ok(*locator);
    }
    let place: u64 = if locator.from_cell {
        0
    } else {
        1
    };
    match data_piece_id(locator.source, locator.index, place) {
        Ok(piece) => {
            let query = LengthQuery { piece, offset: locator.offset as u64 };
            match lengths.lookup(query) {
                Some(Some(length)) => {
                    if length == 0 || length > u32::MAX as u64 {
                        return Err(PostprocessError::InvalidLocator(*locator));
                    }
                    Ok(
                        BinaryLocator {
                            index: locator.index,
                            source: locator.source,
                            offset: locator.offset,
                            length: length as u32,
                            from_cell: locator.from_cell,
                        },
                    )
                },
                Some(None) => Err(PostprocessError::InvalidLocator(*locator)),
                None => Err(PostprocessError::Length(query)),
            }
        },
        Err(message) => Err(PostprocessError::DataPiece(message)),
    }
}

/// The virtual machine that runs a program that was asked for, with the locator of the
/// program. A program that was to replace that of the virtual machine runs if the virtual
/// machine is in another generation; one that was to run in a virtual machine of its own runs
/// in the one that was started.
pub open spec fn located<E>(
    old_key: CollectorKey,
    new_key: CollectorKey,
    partial: PartialLocator,
    registers: Seq<u64>,
    reads: Reads<E>,
    lengths: Map<LengthQuery, Option<u64>>,
) -> Result<Option<(VmId, BinaryLocator)>, ErrorView<E>> {
    match partial {
        PartialLocator::Exec(locator) => if old_key == new_key {
            Ok(None)
        } else {
            match normalized(locator, lengths) {
                Ok(locator) => Ok(Some((new_key.vm_id, locator))),
                Err(error) => Err(error),
            }
        },
        PartialLocator::Spawn(locator) => {
            match crate::partial_content::spawned_process_id(registers, reads) {
                Err(missing) => Err(ErrorView::Read { vm_id: new_key.vm_id, missing }),
                Ok(process_id) => match normalized(locator, lengths) {
                    Ok(locator) => Ok(Some((process_id, locator))),
                    Err(error) => Err(error),
                },
            }
        },
    }
}

/// Whether a program was to run in a virtual machine of its own and memory says that this is
/// the virtual machine that asked for it.
pub open spec fn starts_itself<E>(
    partial: PartialLocator,
    vm_id: VmId,
    registers: Seq<u64>,
    reads: Reads<E>,
) -> bool {
    &&& partial is Spawn
    &&& crate::partial_content::spawned_process_id(registers, reads) == Ok::<u64, E>(vm_id)
}

/// Tells whether a virtual machine was started under the identifier of the one that asked for
/// it, as far as memory is known.
pub fn spawned_itself<M: Machine>(partial: &PartialLocator, vm_id: VmId, machine: &M) -> (itself:
    bool)
    ensures
        itself == starts_itself(*partial, vm_id, machine.register_file(), machine.reads()),
{
    match partial {
        PartialLocator::Exec(_) => false,
        PartialLocator::Spawn(_) => match extract_spawned_process_id(machine) {
            Ok(process_id) => process_id == vm_id,
            Err(_) => false,
        },
    }
}

/// Tells which virtual machine runs a program that was asked for, if any, with the locator of
/// the program. No virtual machine may have started itself.
pub fn apply_partial_locator<M: Machine>(
    old_key: &CollectorKey,
    new_key: &CollectorKey,
    partial: &PartialLocator,
    machine: &M,
    lengths: &DataLengths,
) -> (result: Result<Option<(VmId, BinaryLocator)>, PostprocessError<M::Missing>>)
    requires
        old_key.vm_id == new_key.vm_id,
        !starts_itself(*partial, new_key.vm_id, machine.register_file(), machine.reads()),
    ensures
        match result {
            Ok(found) => located(
                *old_key,
                *new_key,
                *partial,
                machine.register_file(),
                machine.reads(),
                lengths@,
            ) == Ok::<Option<(VmId, BinaryLocator)>, ErrorView<M::Missing>>(found),
            Err(error) => located(
                *old_key,
                *new_key,
                *partial,
                machine.register_file(),
                machine.reads(),
                lengths@,
            ) == Err::<Option<(VmId, BinaryLocator)>, ErrorView<M::Missing>>(error@),
        },
{
    match partial {
        PartialLocator::Exec(locator) => {
            if *old_key != *new_key {
                match normalize_locator(locator, lengths) {
                    Ok(locator) => Ok(Some((new_key.vm_id, locator))),
                    Err(error) => Err(error),
                }
            } else {
                Ok(None)
            }
        },
        PartialLocator::Spawn(locator) => match extract_spawned_process_id(machine) {
            Ok(process_id) => match normalize_locator(locator, lengths) {
                Ok(locator) => Ok(Some((process_id, locator))),
                Err(error) => Err(error),
            },
            Err(missing) => Err(PostprocessError::Read { vm_id: new_key.vm_id, missing }),
        },
    }
}

/// A normalized locator names the same place and has a length: its own if it had one, and
/// otherwise that of all the data there. Normalizing it again changes nothing.
pub proof fn law_normalized_locator<E>(
    locator: BinaryLocator,
    lengths: Map<LengthQuery, Option<u64>>,
)
    requires
        normalized::<E>(locator, lengths) is Ok,
    ensures
        normalized::<E>(locator, lengths) matches Ok(found) && {
            &&& found.index == locator.index
            &&& found.source == locator.source
            &&& found.offset == locator.offset
            &&& found.from_cell == locator.from_cell
            &&& found.length != 0
            &&& locator.length != 0 ==> found == locator
            &&& locator.length == 0 ==> reported_length(locator, lengths) == Some(
                found.length as u64,
            )
            &&& normalized::<E>(found, lengths) == Ok::<BinaryLocator, ErrorView<E>>(found)
        },
{
}

/// What is reported missing to locate a program is not known: a read that the machine does not
/// know, or a length that was not supplied. So supplying it tells something new. A read that is
/// reported to have failed is known to be refused.
pub proof fn law_missing_for_locator_is_unknown(
    old_key: CollectorKey,
    new_key: CollectorKey,
    partial: PartialLocator,
    machine: &RecordedMachine,
    lengths: Map<LengthQuery, Option<u64>>,
)
    ensures
        match located(
            old_key,
            new_key,
            partial,
            machine.register_file(),
            machine.reads(),
            lengths,
        ) {
            Err(ErrorView::Read { vm_id, missing }) => {
                &&& vm_id == new_key.vm_id
                &&& crate::partial_content::is_cause(machine, missing)
            },
            Err(ErrorView::Length(query)) => !lengths.contains_key(query),
            _ => true,
        },
{
}

} // verus!
