//! Calls into other crates. What is said of them here is not proved.
use ckb_mock_tx_types::ReprMockTransaction;
use ckb_script::types::DataPieceId as ScriptDataPieceId;
use ckb_types::packed::{Byte32, CellOutput, Script};
use ckb_types::prelude::Entity;
use hex::FromHexError;
use vstd::prelude::*;

use crate::byte32::HexError;
use crate::command_line::{CellScripts, TransactionCells};
use crate::data::DataPieceId;

verus! {

/// The end of what `ckb_script` says of an index that does not fit in thirty-two bits, which is
/// a text of the standard library.
pub uninterp spec fn index_error(index: u64) -> Seq<char>;

/// What is said of a source, an index and a place that name no piece of data: that the index
/// does not fit, or else that the source, in hexadecimal digits, is invalid.
pub open spec fn data_piece_error(source: u64, index: u64, place: u64) -> Seq<char> {
    if index > u32::MAX {
        "Error casting index to u32: "@ + index_error(index)
    } else {
        "Invalid source value: 0x"@ + crate::text::hexadecimal(source as nat)
    }
}

/// Calls `<ckb_script::types::DataPieceId as TryFrom<(u64, u64, u64)>>::try_from`. It is
/// claimed to succeed on exactly the sources, indices and places that name a piece of data,
/// with that piece. Otherwise its message is claimed to say that the index does not fit, with
/// an end that depends on the index alone, or else that the source is invalid.
#[verifier::external_body]
pub(crate) fn data_piece_id(source: u64, index: u64, place: u64) -> (result: Result<
    DataPieceId,
    String,
>)
    ensures
        match result {
            Ok(piece) => crate::data::piece_at(source, index, place) == Some(piece),
            Err(message) => {
                &&& crate::data::piece_at(source, index, place) is None
                &&& index > u32::MAX ==> message@ == "Error casting index to u32: "@ + index_error(
                    index,
                )
                &&& index <= u32::MAX ==> message@ == "Invalid source value: 0x"@
                    + crate::text::hexadecimal(source as nat)
            },
        },
{
    Ok(match ScriptDataPieceId::try_from((source, index, place))? {
        ScriptDataPieceId::Input(i) => DataPieceId::Input(i),
        ScriptDataPieceId::Output(i) => DataPieceId::Output(i),
        ScriptDataPieceId::CellDep(i) => DataPieceId::CellDep(i),
        ScriptDataPieceId::GroupInput(i) => DataPieceId::GroupInput(i),
        ScriptDataPieceId::GroupOutput(i) => DataPieceId::GroupOutput(i),
        ScriptDataPieceId::Witness(i) => DataPieceId::Witness(i),
        ScriptDataPieceId::WitnessGroupInput(i) => DataPieceId::WitnessGroupInput(i),
        ScriptDataPieceId::WitnessGroupOutput(i) => DataPieceId::WitnessGroupOutput(i),
    })
}

/// Calls `hex::decode`. It is claimed to succeed on exactly the strings of hexadecimal digits
/// of even length, with the bytes whose digits they are; to report an odd length before all
/// else; and otherwise to report the first byte that is no digit, and where it is.
#[verifier::external_body]
pub(crate) fn hex_decode(digits: &[u8]) -> (result: Result<Vec<u8>, HexError>)
    ensures
        match result {
            Ok(bytes) => {
                &&& digits@.len() % 2 == 0
                &&& crate::byte32::all_hex_digits(digits@)
                &&& bytes@ == crate::byte32::bytes_of_digits(digits@)
            },
            Err(HexError::OddLength) => digits@.len() % 2 != 0,
            Err(HexError::InvalidHexCharacter { c, index }) => {
                &&& digits@.len() % 2 == 0
                &&& index < digits@.len()
                &&& crate::byte32::all_hex_digits(digits@.take(index as int))
                &&& crate::byte32::hex_digit(digits@[index as int]) is None
                &&& c == digits@[index as int] as char
            },
            Err(HexError::InvalidStringLength) => false,
        },
{
    match hex::decode(digits) {
        Ok(bytes) => Ok(bytes),
        Err(FromHexError::InvalidHexCharacter { c, index }) => {
            Err(HexError::InvalidHexCharacter { c, index })
        },
        Err(FromHexError::OddLength) => Err(HexError::OddLength),
        Err(FromHexError::InvalidStringLength) => Err(HexError::InvalidStringLength),
    }
}

/// Calls `<ckb_types::packed::Byte32 as Entity>::from_slice`. It is claimed to succeed on
/// exactly the slices of thirty-two bytes, with a value that holds those bytes, and otherwise
/// to say how many bytes there are.
#[verifier::external_body]
pub(crate) fn byte32_from_slice(slice: &[u8]) -> (result: Result<Vec<u8>, String>)
    ensures
        match result {
            Ok(bytes) => slice@.len() == 32 && bytes@ == slice@,
            Err(message) => slice@.len() != 32 && message@
                == "Byte32Reader total size doesn't match, expect 32, actual "@
                + crate::text::decimal(slice@.len()),
        },
{
    match Byte32::from_slice(slice) {
        Ok(value) => Ok(value.as_slice().to_vec()),
        Err(error) => Err(error.to_string()),
    }
}

/// The scripts of the cells of a transaction that is written as a text, first those of its
/// inputs and then those of its outputs; or what is wrong with the text.
pub uninterp spec fn parsed_transaction(text: Seq<char>) -> Result<
    (Seq<(Seq<u8>, Option<Seq<u8>>)>, Seq<(Seq<u8>, Option<Seq<u8>>)>),
    Seq<char>,
>;

/// Calls `serde_json::from_str` for a `ckb_mock_tx_types::ReprMockTransaction`, and takes of
/// each cell the bytes of its scripts. What the text holds, or what is wrong with it, is
/// claimed to depend on the text alone.
#[verifier::external_body]
pub(crate) fn parse_transaction(text: &str) -> (result: Result<TransactionCells, String>)
    ensures
        match result {
            Ok(cells) => parsed_transaction(text@) == Ok::<
                (Seq<(Seq<u8>, Option<Seq<u8>>)>, Seq<(Seq<u8>, Option<Seq<u8>>)>),
                Seq<char>,
            >(cells@),
            Err(message) => parsed_transaction(text@) == Err::<
                (Seq<(Seq<u8>, Option<Seq<u8>>)>, Seq<(Seq<u8>, Option<Seq<u8>>)>),
                Seq<char>,
            >(message@),
        },
{
    let tx = match serde_json::from_str::<ReprMockTransaction>(text) {
        Ok(tx) => tx,
        Err(error) => return Err(error.to_string()),
    };
    let scripts = |cell: CellOutput| CellScripts {
        lock_script: cell.lock().as_slice().to_vec(),
        type_script: cell.type_().to_opt().map(|script| script.as_slice().to_vec()),
    };
    Ok(TransactionCells {
        inputs: tx.mock_info.inputs.into_iter().map(|i| scripts(i.output.into())).collect(),
        outputs: tx.tx.outputs.into_iter().map(|cell| scripts(cell.into())).collect(),
    })
}

/// The hash of a script that consists of these bytes.
pub uninterp spec fn script_hash(script: Seq<u8>) -> Seq<u8>;

/// Calls `ckb_types::packed::Script::calc_script_hash`. The hash is claimed to depend on the
/// bytes of the script alone, and to have thirty-two bytes.
#[verifier::external_body]
pub(crate) fn calc_script_hash(script: &[u8]) -> (hash: Vec<u8>)
    ensures
        hash@ == script_hash(script@),
        hash@.len() == 32,
{
    let script = Script::new_unchecked(script.to_vec().into());
    script.calc_script_hash().as_slice().to_vec()
}

} // verus!
