//! What the tracer decides from its command line, and the texts that it writes.
use vstd::prelude::*;
use vstd::string::StringExecFns;

use crate::keys::CollectorKey;
use crate::outside::{calc_script_hash, parse_transaction};
use crate::text::{trim_line_breaks, write_decimal};

verus! {

/// Reads whether a program is in a cell: `t` and `true` say that it is, anything else that it
/// is not.
pub fn parse_from_cell(s: &str) -> (result: Result<bool, String>)
    ensures
        result == Ok::<bool, String>(s@ == "t"@ || s@ == "true"@),
{
    let s = s.to_owned();
    if s == "t".to_owned() || s == "true".to_owned() {
        Ok(true)
    } else {
        Ok(false)
    }
}

/// The name of a run.
pub open spec fn run_name(key: CollectorKey) -> Seq<char> {
    "vm_"@ + crate::text::decimal(key.vm_id as nat) + "_"@ + crate::text::decimal(
        key.generation_id as nat,
    )
}

/// The name of a run: `vm_`, the virtual machine, `_` and the generation.
pub fn vm_name(key: &CollectorKey) -> (name: String)
    ensures
        name@ == run_name(*key),
{
    let mut name = "vm_".to_owned();
    name.append(write_decimal(key.vm_id).as_str());
    name.append("_");
    name.append(write_decimal(key.generation_id).as_str());
    name
}

/// The name of the file that holds the trace of a run.
pub fn trace_file_name(key: &CollectorKey) -> (name: String)
    ensures
        name@ == run_name(*key) + ".traces"@,
{
    let mut name = vm_name(key);
    name.append(".traces");
    name
}

/// Two strings of digits that are each followed by the same other character have the same
/// length if they go on alike.
proof fn lemma_digits_end(one: Seq<char>, other: Seq<char>, rest: Seq<char>, other_rest: Seq<char>)
    requires
        crate::text::all_decimal_digits(one),
        crate::text::all_decimal_digits(other),
        one + seq!['_'] + rest == other + seq!['_'] + other_rest,
    ensures
        one == other,
        rest == other_rest,
{
    let whole = one + seq!['_'] + rest;
    let same = other + seq!['_'] + other_rest;
    assert(whole[one.len() as int] == '_');
    assert(same[other.len() as int] == '_');
    if one.len() < other.len() {
        assert(same[one.len() as int] == other[one.len() as int]);
        assert(crate::text::decimal_digit(other[one.len() as int]) is Some);
    }
    if other.len() < one.len() {
        assert(whole[other.len() as int] == one[other.len() as int]);
        assert(crate::text::decimal_digit(one[other.len() as int]) is Some);
    }
    assert(one =~= whole.take(one.len() as int));
    assert(other =~= same.take(other.len() as int));
    assert(rest =~= whole.skip(one.len() as int + 1));
    assert(other_rest =~= same.skip(other.len() as int + 1));
}

/// No two runs have the same name, so that no trace is written over another one.
pub proof fn law_run_names_differ(one: CollectorKey, other: CollectorKey)
    requires
        run_name(one) == run_name(other),
    ensures
        one == other,
{
    let vm = crate::text::decimal(one.vm_id as nat);
    let other_vm = crate::text::decimal(other.vm_id as nat);
    let generation = crate::text::decimal(one.generation_id as nat);
    let other_generation = crate::text::decimal(other.generation_id as nat);
    crate::text::lemma_decimal(one.vm_id as nat);
    crate::text::lemma_decimal(other.vm_id as nat);
    crate::text::lemma_decimal(one.generation_id as nat);
    crate::text::lemma_decimal(other.generation_id as nat);
    reveal_strlit("_");
    let prefix = "vm_"@;
    assert("_"@ =~= seq!['_']);
    assert(run_name(one).skip(prefix.len() as int) =~= vm + seq!['_'] + generation);
    assert(run_name(other).skip(prefix.len() as int) =~= other_vm + seq!['_'] + other_generation);
    lemma_digits_end(vm, other_vm, generation, other_generation);
}

/// The line to print for a message of a script, if the message is not empty: line breaks at
/// its end are left out.
pub fn script_log(message: &str) -> (line: Option<String>)
    ensures
        match line {
            Some(line) => {
                &&& crate::text::without_line_breaks(message@).len() > 0
                &&& line@ == "Script log: "@ + crate::text::without_line_breaks(message@)
            },
            None => crate::text::without_line_breaks(message@).len() == 0,
        },
{
    let message = trim_line_breaks(message);
    if message.is_empty() {
        return None;
    }
    let mut line = "Script log: ".to_owned();
    line.append(message);
    Some(line)
}

/// The scripts of a cell.
#[derive(Copy, Clone, Debug, PartialEq, Eq, PartialOrd, Ord, Structural)]
pub enum GroupKind {
    /// The script that guards the cell.
    Lock,
    /// The script that rules its data.
    Type,
}

/// The cells of a transaction.
#[derive(Copy, Clone, Debug, PartialEq, Eq, PartialOrd, Ord, Structural)]
pub enum CellKind {
    /// The cells that it consumes.
    Input,
    /// The cells that it makes.
    Output,
}

/// The scripts of a cell.
#[derive(Clone, Debug, PartialEq, Eq)]
pub struct CellScripts {
    /// The script that guards the cell.
    pub lock_script: Vec<u8>,
    /// The script that rules its data, if it has one.
    pub type_script: Option<Vec<u8>>,
}

impl View for CellScripts {
    type V = (Seq<u8>, Option<Seq<u8>>);

    open spec fn view(&self) -> (Seq<u8>, Option<Seq<u8>>) {
        (self.lock_script@, crate::transaction::optional_bytes(self.type_script))
    }
}

/// The scripts of the cells of a transaction.
#[derive(Clone, Debug, PartialEq, Eq)]
pub struct TransactionCells {
    /// The scripts of the cells that it consumes.
    pub inputs: Vec<CellScripts>,
    /// The scripts of the cells that it makes.
    pub outputs: Vec<CellScripts>,
}

/// Cells, as values.
pub open spec fn cell_views(cells: Seq<CellScripts>) -> Seq<(Seq<u8>, Option<Seq<u8>>)> {
    cells.map_values(|cell: CellScripts| cell@)
}

impl View for TransactionCells {
    type V = (Seq<(Seq<u8>, Option<Seq<u8>>)>, Seq<(Seq<u8>, Option<Seq<u8>>)>);

    open spec fn view(&self) -> Self::V {
        (cell_views(self.inputs@), cell_views(self.outputs@))
    }
}

/// The script of a cell of a transaction, if there is such a cell with such a script.
pub open spec fn script_of_cell(
    cells: (Seq<(Seq<u8>, Option<Seq<u8>>)>, Seq<(Seq<u8>, Option<Seq<u8>>)>),
    cell_kind: CellKind,
    cell_index: usize,
    group_kind: GroupKind,
) -> Option<Seq<u8>> {
    let cells = match cell_kind {
        CellKind::Input => cells.0,
        CellKind::Output => cells.1,
    };
    if cell_index >= cells.len() {
        None
    } else {
        match group_kind {
            GroupKind::Lock => Some(cells[cell_index as int].0),
            GroupKind::Type => cells[cell_index as int].1,
        }
    }
}

/// Takes the script of a cell of a transaction, if there is such a cell with such a script.
pub fn select_cell_script(
    cells: &TransactionCells,
    cell_kind: CellKind,
    cell_index: usize,
    group_kind: GroupKind,
) -> (script: Option<Vec<u8>>)
    ensures
        match script {
            Some(script) => script_of_cell(cells@, cell_kind, cell_index, group_kind) == Some(
                script@,
            ),
            None => script_of_cell(cells@, cell_kind, cell_index, group_kind) is None,
        },
{
    let cells = match cell_kind {
        CellKind::Input => &cells.inputs,
        CellKind::Output => &cells.outputs,
    };
    if cell_index >= cells.len() {
        return None;
    }
    match group_kind {
        GroupKind::Lock => {
            let script = cells[cell_index].lock_script.clone();
            assert(script@ =~= cells@[cell_index as int].lock_script@);
            Some(script)
        },
        GroupKind::Type => match &cells[cell_index].type_script {
            Some(type_script) => {
                let script = type_script.clone();
                assert(script@ =~= type_script@);
                Some(script)
            },
            None => None,
        },
    }
}

/// The hash of the script to run: the hash that was given, or else the hash of the script of
/// the cell that was given, if there is such a cell with such a script.
pub open spec fn selected_hash(
    script_hash: Option<Vec<u8>>,
    cells: (Seq<(Seq<u8>, Option<Seq<u8>>)>, Seq<(Seq<u8>, Option<Seq<u8>>)>),
    cell_kind: CellKind,
    cell_index: Option<usize>,
    group_kind: GroupKind,
) -> Option<Seq<u8>> {
    match (script_hash, cell_index) {
        (Some(hash), _) => Some(hash@),
        (None, Some(index)) => match script_of_cell(cells, cell_kind, index, group_kind) {
            Some(script) => Some(crate::outside::script_hash(script)),
            None => None,
        },
        (None, None) => None,
    }
}

/// Tells which script to run, by its hash.
pub fn select_script_hash(
    script_hash: Option<Vec<u8>>,
    cells: &TransactionCells,
    cell_kind: CellKind,
    cell_index: Option<usize>,
    group_kind: GroupKind,
) -> (selected: Option<Vec<u8>>)
    ensures
        match selected {
            Some(hash) => {
                &&& selected_hash(script_hash, cells@, cell_kind, cell_index, group_kind) == Some(
                    hash@,
                )
                &&& script_hash is None ==> hash@.len() == 32
            },
            None => selected_hash(
                script_hash,
                cells@,
                cell_kind,
                cell_index,
                group_kind,
            ) is None,
        },
{
    if let Some(hash) = script_hash {
        return Some(hash);
    }
    match cell_index {
        Some(index) => match select_cell_script(cells, cell_kind, index, group_kind) {
            Some(script) => Some(calc_script_hash(script.as_slice())),
            None => None,
        },
        None => None,
    }
}

/// Tells which script of the transaction in a text to run, by its hash. The error is what is
/// wrong with the text.
pub fn select_script(
    text: &str,
    script_hash: Option<Vec<u8>>,
    cell_kind: CellKind,
    cell_index: Option<usize>,
    group_kind: GroupKind,
) -> (result: Result<Option<Vec<u8>>, String>)
    ensures
        match crate::outside::parsed_transaction(text@) {
            Ok(cells) => match result {
                Ok(Some(hash)) => {
                    &&& selected_hash(script_hash, cells, cell_kind, cell_index, group_kind)
                        == Some(hash@)
                    &&& script_hash is None ==> hash@.len() == 32
                },
                Ok(None) => selected_hash(
                    script_hash,
                    cells,
                    cell_kind,
                    cell_index,
                    group_kind,
                ) is None,
                Err(_) => false,
            },
            Err(message) => result matches Err(error) && error@ == message,
        },
{
    match parse_transaction(text) {
        Ok(cells) => Ok(
            select_script_hash(script_hash, &cells, cell_kind, cell_index, group_kind),
        ),
        Err(message) => Err(message),
    }
}

} // verus!
