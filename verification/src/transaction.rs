//! What collectors read of a transaction and of the script group that is run.
use vstd::prelude::*;

use crate::codes::Source;

verus! {

/// The inputs and outputs that a script is run for.
#[derive(Clone, Debug, PartialEq, Eq)]
pub struct ScriptGroup {
    /// The indices of its inputs in the transaction.
    pub input_indices: Vec<usize>,
    /// The indices of its outputs in the transaction.
    pub output_indices: Vec<usize>,
}

/// The parts of a transaction.
#[derive(Clone, Debug, PartialEq, Eq)]
pub struct Transaction {
    /// The hash of the transaction.
    pub tx_hash: Vec<u8>,
    /// The cells of the inputs.
    pub input_cells: Vec<Vec<u8>>,
    /// The data of the cells of the inputs, where it can be loaded.
    pub input_cell_data: Vec<Option<Vec<u8>>>,
    /// The witnesses.
    pub witnesses: Vec<Vec<u8>>,
    /// The script group that is run.
    pub script_group: ScriptGroup,
}

/// The parts of a transaction, as values.
#[verifier::ext_equal]
pub struct TransactionView {
    /// The hash of the transaction.
    pub tx_hash: Seq<u8>,
    /// The cells of the inputs.
    pub input_cells: Seq<Seq<u8>>,
    /// The data of the cells of the inputs, where it can be loaded.
    pub input_cell_data: Seq<Option<Seq<u8>>>,
    /// The witnesses.
    pub witnesses: Seq<Seq<u8>>,
    /// The indices of the inputs of the script group.
    pub input_indices: Seq<usize>,
    /// The indices of the outputs of the script group.
    pub output_indices: Seq<usize>,
}

/// Bytes that may be absent, as a value.
pub open spec fn optional_bytes(bytes: Option<Vec<u8>>) -> Option<Seq<u8>> {
    match bytes {
        Some(bytes) => Some(bytes@),
        None => None,
    }
}

impl View for Transaction {
    type V = TransactionView;

    open spec fn view(&self) -> TransactionView {
        TransactionView {
            tx_hash: self.tx_hash@,
            input_cells: crate::traces::byte_strings(self.input_cells@),
            input_cell_data: self.input_cell_data@.map_values(
                |bytes: Option<Vec<u8>>| optional_bytes(bytes),
            ),
            witnesses: crate::traces::byte_strings(self.witnesses@),
            input_indices: self.script_group.input_indices@,
            output_indices: self.script_group.output_indices@,
        }
    }
}

/// The entry of a list at an index, if there is one.
pub open spec fn entry_at(indices: Seq<usize>, index: usize) -> Option<usize> {
    if index < indices.len() {
        Some(indices[index as int])
    } else {
        None
    }
}

/// The entry of a list at an index, if there is one.
fn get_entry(indices: &Vec<usize>, index: usize) -> (entry: Option<usize>)
    ensures
        entry == entry_at(indices@, index),
{
    if index < indices.len() {
        Some(indices[index])
    } else {
        None
    }
}

/// The index in the transaction of the input that an index and a source name, if they name
/// one: an index into the inputs is taken as it is, one into the inputs of the script group
/// is looked up there.
pub open spec fn located_input(index: u64, source: u64, input_indices: Seq<usize>) -> Option<
    usize,
> {
    match Source::spec_of_number(source) {
        Some(Source::Input) => Some(index as usize),
        Some(Source::GroupInput) => entry_at(input_indices, index as usize),
        _ => None,
    }
}

/// The index in the transaction of the input that an index and a source name, if they name
/// one.
pub fn locate_input(index: u64, source: u64, script_group: &ScriptGroup) -> (located: Option<usize>)
    ensures
        located == located_input(index, source, script_group.input_indices@),
{
    if source == Source::Input.number() {
        return Some(index as usize);
    } else if source == Source::GroupInput.number() {
        return get_entry(&script_group.input_indices, index as usize);
    }
    None
}

/// The index of the witness that an index and a source name, if they name one: an index into
/// the inputs or the outputs is taken as it is, one into those of the script group is looked
/// up there.
pub open spec fn located_witness(
    index: u64,
    source: u64,
    input_indices: Seq<usize>,
    output_indices: Seq<usize>,
) -> Option<usize> {
    match Source::spec_of_number(source) {
        Some(Source::Input) => Some(index as usize),
        Some(Source::Output) => Some(index as usize),
        Some(Source::GroupInput) => entry_at(input_indices, index as usize),
        Some(Source::GroupOutput) => entry_at(output_indices, index as usize),
        _ => None,
    }
}

/// The index of the witness that an index and a source name, if they name one.
pub fn locate_witness(index: u64, source: u64, script_group: &ScriptGroup) -> (located: Option<
    usize,
>)
    ensures
        located == located_witness(
            index,
            source,
            script_group.input_indices@,
            script_group.output_indices@,
        ),
{
    if source == Source::Input.number() || source == Source::Output.number() {
        return Some(index as usize);
    } else if source == Source::GroupInput.number() {
        return get_entry(&script_group.input_indices, index as usize);
    } else if source == Source::GroupOutput.number() {
        return get_entry(&script_group.output_indices, index as usize);
    }
    None
}

} // verus!
