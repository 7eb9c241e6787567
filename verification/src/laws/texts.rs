//! What texts say: numbers in digits, names of runs, and hashes.
use vstd::prelude::*;

use crate::command_line::{CellKind, GroupKind, TransactionCells};
use crate::keys::CollectorKey;

verus! {

/// Digits stand for the number whose decimal places they are, the last one for its units.
pub proof fn law_digits_are_decimal_places(digits: Seq<char>, i: int)
    requires
        0 <= i < digits.len(),
        forall|j: int| 0 <= j < digits.len() ==> '0' <= #[trigger] digits[j] <= '9',
    ensures
        digits[digits.len() - 1 - i] as int - 48 == (crate::text::decimal_value(digits) as int
            / vstd::arithmetic::power::pow(10, i as nat)) % 10,
        crate::text::decimal_value(digits) < vstd::arithmetic::power::pow(10, digits.len()),
    decreases digits.len(),
{
    let number = crate::text::decimal_value(digits) as int;
    let shorter = digits.drop_last();
    let rest = crate::text::decimal_value(shorter) as int;
    let last = digits.last() as int - 48;
    reveal(vstd::arithmetic::power::pow);
    assert(digits.last() == digits[digits.len() - 1]);
    assert(number == 10 * rest + last);
    assert(number / 10 == rest && number % 10 == last);
    assert(vstd::arithmetic::power::pow(10, 0) == 1);
    assert forall|j: int| 0 <= j < shorter.len() implies '0' <= #[trigger] shorter[j] <= '9' by {
        assert(shorter[j] == digits[j]);
    }
    if shorter.len() > 0 {
        let k = if i > 0 {
            i - 1
        } else {
            0
        };
        law_digits_are_decimal_places(shorter, k);
        let power = vstd::arithmetic::power::pow(10, k as nat);
        vstd::arithmetic::power::lemma_pow_positive(10, k as nat);
        vstd::arithmetic::div_mod::lemma_div_denominator(number, 10, power);
        if i > 0 {
            assert(shorter[shorter.len() - 1 - k] == digits[digits.len() - 1 - i]);
            assert(vstd::arithmetic::power::pow(10, i as nat) == 10 * power);
        } else {
            assert(number / 1 == number);
        }
    } else {
        assert(rest == 0);
    }
}

/// A number is written in its decimal places, with no zero before them.
pub proof fn law_number_is_written_in_its_places(number: nat, i: int)
    requires
        0 <= i < crate::text::decimal(number).len(),
    ensures
        crate::text::decimal(number).len() > 0,
        crate::text::decimal(number)[crate::text::decimal(number).len() - 1 - i] as int - 48 == (
        number as int / vstd::arithmetic::power::pow(10, i as nat)) % 10,
        number < vstd::arithmetic::power::pow(10, crate::text::decimal(number).len()),
        crate::text::decimal(number).len() > 1 ==> crate::text::decimal(number)[0] != '0',
    decreases number,
{
    lemma_written_in_digits(number);
    law_digits_are_decimal_places(crate::text::decimal(number), i);
}

/// A number is written in digits that stand for it.
proof fn lemma_written_in_digits(number: nat)
    ensures
        crate::text::decimal(number).len() > 0,
        forall|j: int|
            0 <= j < crate::text::decimal(number).len() ==> '0' <= #[trigger] crate::text::decimal(
                number,
            )[j] <= '9',
        crate::text::decimal_value(crate::text::decimal(number)) == number,
        number > 0 ==> crate::text::decimal(number)[0] != '0',
    decreases number,
{
    crate::text::lemma_decimal(number);
    assert forall|j: int| 0 <= j < crate::text::decimal(number).len() implies '0'
        <= #[trigger] crate::text::decimal(number)[j] <= '9' by {
        assert(crate::text::decimal_digit(crate::text::decimal(number)[j]) is Some);
    }
    if number >= 10 {
        lemma_written_in_digits(number / 10);
        assert(crate::text::decimal(number)[0] == crate::text::decimal(number / 10)[0]);
    }
}

/// A number is read back from its digits, whether a plus sign stands before them or not, and
/// however many zeros do.
pub proof fn law_written_number_is_read_back(number: u64, zeros: nat)
    ensures
        ({
            let digits = Seq::new(zeros, |i: int| '0') + crate::text::decimal(number as nat);
            &&& crate::text::unsigned(digits) == Some(number)
            &&& crate::text::unsigned(seq!['+'] + digits) == Some(number)
        }),
    decreases zeros,
{
    let digits = Seq::new(zeros, |i: int| '0') + crate::text::decimal(number as nat);
    lemma_written_in_digits(number as nat);
    lemma_leading_zeros(crate::text::decimal(number as nat), zeros);
    law_number_is_read_from_digits(digits, digits);
    law_number_is_read_from_digits(seq!['+'] + digits, digits);
}

/// Zeros before digits change nothing.
proof fn lemma_leading_zeros(digits: Seq<char>, zeros: nat)
    requires
        forall|j: int| 0 <= j < digits.len() ==> '0' <= #[trigger] digits[j] <= '9',
    ensures
        crate::text::decimal_value(Seq::new(zeros, |i: int| '0') + digits)
            == crate::text::decimal_value(digits),
    decreases digits.len() + zeros,
{
    let whole = Seq::new(zeros, |i: int| '0') + digits;
    if digits.len() > 0 {
        let shorter = digits.drop_last();
        assert forall|j: int| 0 <= j < shorter.len() implies '0' <= #[trigger] shorter[j]
            <= '9' by {
            assert(shorter[j] == digits[j]);
        }
        lemma_leading_zeros(shorter, zeros);
        assert(whole.drop_last() =~= Seq::new(zeros, |i: int| '0') + shorter);
    } else if zeros > 0 {
        lemma_leading_zeros(digits, (zeros - 1) as nat);
        assert(whole.drop_last() =~= Seq::new((zeros - 1) as nat, |i: int| '0') + digits);
    } else {
        assert(whole =~= digits);
    }
}

/// A text of digits, with a plus sign before them or not, is read as the number that they
/// stand for, if and only if it fits.
pub proof fn law_number_is_read_from_digits(text: Seq<char>, digits: Seq<char>)
    requires
        digits.len() > 0,
        forall|j: int| 0 <= j < digits.len() ==> '0' <= #[trigger] digits[j] <= '9',
        text == digits || text == seq!['+'] + digits,
    ensures
        crate::text::unsigned(text) == if crate::text::decimal_value(digits) <= u64::MAX {
            Some(crate::text::decimal_value(digits) as u64)
        } else {
            None
        },
{
    assert(digits[0] != '+');
    if text != digits {
        assert(text.skip(1) =~= digits);
    }
    assert forall|j: int| 0 <= j < digits.len() implies crate::text::decimal_digit(
        #[trigger] digits[j],
    ) is Some by {}
}

/// No number is read from a text without digits, or with a character that is none but for a
/// plus sign at its start.
pub proof fn law_no_number_in_other_text(text: Seq<char>, i: int)
    requires
        ({
            ||| text.len() == 0
            ||| text == seq!['+']
            ||| 0 <= i < text.len() && !('0' <= text[i] <= '9') && !(i == 0 && text[0] == '+')
        }),
    ensures
        crate::text::unsigned(text) is None,
{
    if text == seq!['+'] {
        assert(text.skip(1).len() == 0);
    } else if text.len() > 0 {
        if text[0] == '+' {
            assert(text.skip(1)[i - 1] == text[i]);
            assert(crate::text::decimal_digit(text.skip(1)[i - 1]) is None);
        } else {
            assert(crate::text::decimal_digit(text[i]) is None);
        }
    }
}

/// The line breaks at the end of a text are taken away, all of them and nothing else.
pub proof fn law_line_breaks_are_taken_away(text: Seq<char>, count: nat)
    requires
        text.len() > 0 ==> text.last() != '\n',
    ensures
        crate::text::without_line_breaks(text + Seq::new(count, |i: int| '\n')) == text,
    decreases count,
{
    let whole = text + Seq::new(count, |i: int| '\n');
    if count > 0 {
        law_line_breaks_are_taken_away(text, (count - 1) as nat);
        assert(whole.drop_last() =~= text + Seq::new((count - 1) as nat, |i: int| '\n'));
        assert(whole.last() == '\n');
    } else {
        assert(whole =~= text);
    }
}

/// The name of a run is `vm_`, the identifier of the virtual machine in digits, `_`, and the
/// generation in digits.
pub proof fn law_run_is_named_by_machine_and_generation(key: CollectorKey)
    ensures
        ({
            let machine = crate::text::decimal(key.vm_id as nat);
            let generation = crate::text::decimal(key.generation_id as nat);
            crate::command_line::run_name(key) == seq!['v', 'm', '_'] + machine + seq!['_']
                + generation
        }),
{
    reveal_strlit("vm_");
    reveal_strlit("_");
    assert("vm_"@ =~= seq!['v', 'm', '_']);
    assert("_"@ =~= seq!['_']);
}

/// A number is written in its hexadecimal places, from `0` to `9` and from `a` to `f`, with no
/// zero before them.
pub proof fn law_number_is_written_in_hexadecimal_places(number: nat, i: int)
    requires
        0 <= i < crate::text::hexadecimal(number).len(),
    ensures
        ({
            let digits = crate::text::hexadecimal(number);
            let place = (number as int / vstd::arithmetic::power::pow(16, i as nat)) % 16;
            &&& digits[digits.len() - 1 - i] as int == if place < 10 {
                48 + place
            } else {
                97 + place - 10
            }
            &&& number < vstd::arithmetic::power::pow(16, digits.len())
            &&& number > 0 ==> digits[0] != '0'
        }),
    decreases number,
{
    reveal(vstd::arithmetic::power::pow);
    let digits = crate::text::hexadecimal(number);
    if number < 16 {
        assert(digits.len() == 1);
        assert(vstd::arithmetic::power::pow(16, 1) == 16);
        assert(vstd::arithmetic::power::pow(16, 0) == 1);
    } else {
        let shorter = crate::text::hexadecimal(number / 16);
        let k = if i > 0 {
            i - 1
        } else {
            0
        };
        assert(shorter.len() > 0);
        law_number_is_written_in_hexadecimal_places(number / 16, k);
        let power = vstd::arithmetic::power::pow(16, k as nat);
        vstd::arithmetic::power::lemma_pow_positive(16, k as nat);
        vstd::arithmetic::div_mod::lemma_div_denominator(number as int, 16, power);
        assert(i > 0 ==> shorter[shorter.len() - 1 - k] == digits[digits.len() - 1 - i]);
        assert(digits[0] == shorter[0]);
        assert(vstd::arithmetic::power::pow(16, digits.len()) == 16
            * vstd::arithmetic::power::pow(16, shorter.len()));
    }
}

/// The digits of a byte are two, the first for its sixteens: every byte is read back from
/// them, in capitals or not, and other characters are no digits.
pub proof fn law_byte_is_read_back_from_its_digits(byte: u8, capitals: bool, other: u8)
    ensures
        ({
            let letter = if capitals {
                0x41int
            } else {
                0x61
            };
            let high = byte as int / 16;
            let low = byte as int % 16;
            let first = if high < 10 {
                0x30 + high
            } else {
                letter + high - 10
            };
            let second = if low < 10 {
                0x30 + low
            } else {
                letter + low - 10
            };
            crate::byte32::bytes_of_digits(seq![first as u8, second as u8]) == seq![byte]
        }),
        crate::byte32::all_hex_digits(Seq::empty()),
        crate::byte32::all_hex_digits(seq![other]) <==> (0x30 <= other <= 0x39 || 0x41 <= other
            <= 0x46 || 0x61 <= other <= 0x66),
        crate::byte32::hex_digit(other) is None <==> !(0x30 <= other <= 0x39 || 0x41 <= other
            <= 0x46 || 0x61 <= other <= 0x66),
{
    assert(seq![other][0] == other);
}

/// Bytes are read from digits one after the other: what is read from the digits of some bytes
/// and then of others is the one and then the other.
pub proof fn law_bytes_are_read_in_order(digits: Seq<u8>, more: Seq<u8>)
    requires
        digits.len() % 2 == 0,
        more.len() % 2 == 0,
    ensures
        crate::byte32::bytes_of_digits(digits + more) == crate::byte32::bytes_of_digits(digits)
            + crate::byte32::bytes_of_digits(more),
        crate::byte32::bytes_of_digits(digits).len() == digits.len() / 2,
        crate::byte32::all_hex_digits(digits + more) <==> crate::byte32::all_hex_digits(digits)
            && crate::byte32::all_hex_digits(more),
{
    let whole = crate::byte32::bytes_of_digits(digits + more);
    let one = crate::byte32::bytes_of_digits(digits);
    let other = crate::byte32::bytes_of_digits(more);
    let half = digits.len() as int / 2;
    assert forall|i: int| 0 <= i < whole.len() implies whole[i] == (one + other)[i] by {
        if i < half {
            assert((digits + more)[2 * i] == digits[2 * i]);
            assert((digits + more)[2 * i + 1] == digits[2 * i + 1]);
        } else {
            assert((digits + more)[2 * i] == more[2 * (i - half)]);
            assert((digits + more)[2 * i + 1] == more[2 * (i - half) + 1]);
        }
    }
    assert(whole =~= one + other);
    if crate::byte32::all_hex_digits(digits + more) {
        assert forall|i: int| 0 <= i < digits.len() implies crate::byte32::hex_digit(
            #[trigger] digits[i],
        ) is Some by {
            assert((digits + more)[i] == digits[i]);
        }
        assert forall|i: int| 0 <= i < more.len() implies crate::byte32::hex_digit(
            #[trigger] more[i],
        ) is Some by {
            assert((digits + more)[digits.len() + i] == more[i]);
        }
    }
}

/// A prefix `0x` is taken away once, and nothing else is.
pub proof fn law_prefix_is_taken_away_once(bytes: Seq<u8>)
    ensures
        crate::byte32::without_prefix(seq![0x30u8, 0x78u8] + bytes) == bytes,
        bytes.len() < 2 || bytes[0] != 0x30 || bytes[1] != 0x78
            ==> crate::byte32::without_prefix(bytes) == bytes,
{
    assert((seq![0x30u8, 0x78u8] + bytes).skip(2) =~= bytes);
}

/// The script of a cell is its lock script or its type script, and the cell is an input or an
/// output, as it is asked for; there is none where there is no such cell, or where the cell
/// has no type script.
pub proof fn law_script_of_cell(cells: TransactionCells, index: usize)
    ensures
        ({
            let inputs = cells.inputs@;
            let outputs = cells.outputs@;
            let none = None::<Seq<u8>>;
            &&& crate::command_line::script_of_cell(
                cells@,
                CellKind::Input,
                index,
                GroupKind::Lock,
            ) == if index < inputs.len() {
                Some(inputs[index as int].lock_script@)
            } else {
                none
            }
            &&& crate::command_line::script_of_cell(
                cells@,
                CellKind::Output,
                index,
                GroupKind::Lock,
            ) == if index < outputs.len() {
                Some(outputs[index as int].lock_script@)
            } else {
                none
            }
            &&& match crate::command_line::script_of_cell(
                cells@,
                CellKind::Input,
                index,
                GroupKind::Type,
            ) {
                Some(script) => index < inputs.len() && (
                inputs[index as int].type_script matches Some(type_script) && type_script@
                    == script),
                None => index >= inputs.len() || inputs[index as int].type_script is None,
            }
            &&& match crate::command_line::script_of_cell(
                cells@,
                CellKind::Output,
                index,
                GroupKind::Type,
            ) {
                Some(script) => index < outputs.len() && (
                outputs[index as int].type_script matches Some(type_script) && type_script@
                    == script),
                None => index >= outputs.len() || outputs[index as int].type_script is None,
            }
        }),
{
}

/// The hash that was given is the one selected, whatever else was asked for. Where none was
/// given, the hash of the script of the cell is, if the cell was named and has that script.
pub proof fn law_given_hash_goes_first(
    hash: Vec<u8>,
    cells: TransactionCells,
    cell_kind: CellKind,
    index: usize,
    named: Option<usize>,
    group_kind: GroupKind,
)
    ensures
        crate::command_line::selected_hash(Some(hash), cells@, cell_kind, named, group_kind)
            == Some(hash@),
        crate::command_line::selected_hash(None, cells@, cell_kind, None, group_kind) is None,
        match crate::command_line::script_of_cell(cells@, cell_kind, index, group_kind) {
            Some(script) => crate::command_line::selected_hash(
                None,
                cells@,
                cell_kind,
                Some(index),
                group_kind,
            ) == Some(crate::outside::script_hash(script)),
            None => crate::command_line::selected_hash(
                None,
                cells@,
                cell_kind,
                Some(index),
                group_kind,
            ) is None,
        },
{
}

} // verus!
