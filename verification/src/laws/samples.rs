//! What a line says of a sample.
use vstd::prelude::*;

use crate::samply::SampleError;

verus! {

/// The first place of a character that is not in what stands before it.
proof fn lemma_first_index(s: Seq<char>, c: char, i: int, place: int)
    requires
        0 <= i <= place <= s.len(),
        forall|j: int| i <= j < place ==> #[trigger] s[j] != c,
        place < s.len() ==> s[place] == c,
    ensures
        crate::samply::first_index(s, c, i) == place,
    decreases place - i,
{
    if i < place {
        lemma_first_index(s, c, i + 1, place);
    }
}

/// The last place of a character that is not in what stands after it.
proof fn lemma_last_index(s: Seq<char>, c: char, end: int, place: int)
    requires
        -1 <= place < end <= s.len(),
        forall|j: int| place < j < end ==> #[trigger] s[j] != c,
        place >= 0 ==> s[place] == c,
    ensures
        crate::samply::last_index(s, c, end) == if place >= 0 {
            Some(place)
        } else {
            None
        },
    decreases end - place,
{
    if end - 1 > place {
        lemma_last_index(s, c, end - 1, place);
    }
}

/// The function that is shown for a part of a stack is what stands after its first colon,
/// whatever file stands before it; and the whole part where it holds no colon.
pub proof fn law_function_stands_after_the_file(part: Seq<char>, file: Seq<char>, name: Seq<char>)
    requires
        !file.contains(':'),
    ensures
        part == file + seq![':'] + name ==> crate::samply::function_of(part) == name,
        part == file ==> crate::samply::function_of(part) == part,
{
    assert forall|j: int| 0 <= j < file.len() implies #[trigger] file[j] != ':' by {
        if file[j] == ':' {
            assert(file.contains(':'));
        }
    }
    if part == file {
        lemma_first_index(part, ':', 0, part.len() as int);
    }
    if part == file + seq![':'] + name {
        assert forall|j: int| 0 <= j < file.len() implies #[trigger] part[j] != ':' by {
            assert(part[j] == file[j]);
        }
        lemma_first_index(part, ':', 0, file.len() as int);
        assert(part.skip(file.len() as int + 1) =~= name);
    }
}

/// The first separator that is not in what stands before it.
proof fn lemma_first_separator(s: Seq<char>, i: int, place: int)
    requires
        0 <= i <= place <= s.len(),
        forall|j: int|
            i <= j < place ==> !(j + 1 < s.len() && #[trigger] s[j] == ';' && s[j + 1] == ' '),
        place < s.len() ==> place + 1 < s.len() && s[place] == ';' && s[place + 1] == ' ',
    ensures
        crate::samply::first_separator(s, i) == place,
    decreases place - i,
{
    if i < place {
        lemma_first_separator(s, i + 1, place);
    }
}

/// A stack is split where its parts were put together, if none of them holds a semicolon with
/// a space after it.
pub proof fn law_joined_parts_are_split(parts: Seq<Seq<char>>)
    requires
        parts.len() > 0,
        forall|k: int, j: int|
            0 <= k < parts.len() && 0 <= j && j + 1 < parts[k].len() ==> !(
            #[trigger] parts[k][j] == ';' && parts[k][j + 1] == ' '),
    ensures
        crate::samply::split_stack(crate::samply::join_stack(parts)) == parts,
    decreases parts.len(),
{
    let s = crate::samply::join_stack(parts);
    let first = parts[0];
    assert forall|j: int| 0 <= j && j + 1 < first.len() implies !(#[trigger] first[j] == ';'
        && first[j + 1] == ' ') by {
        assert(parts[0][j] == first[j]);
    }
    if parts.len() == 1 {
        lemma_first_separator(s, 0, s.len() as int);
        assert(parts =~= seq![s]);
    } else {
        let rest = crate::samply::join_stack(parts.drop_first());
        assert(s == first + seq![';', ' '] + rest);
        assert forall|j: int| 0 <= j < first.len() implies !(j + 1 < s.len() && #[trigger] s[j]
            == ';' && s[j + 1] == ' ') by {
            assert(s[j] == first[j]);
            if j + 1 < first.len() {
                assert(s[j + 1] == first[j + 1]);
            } else {
                assert(s[j + 1] == ';');
            }
        }
        assert(s[first.len() as int] == ';');
        assert(s[first.len() as int + 1] == ' ');
        lemma_first_separator(s, 0, first.len() as int);
        assert(s.take(first.len() as int) =~= first);
        assert(s.skip(first.len() as int + 2) =~= rest);
        assert forall|k: int, j: int|
            0 <= k < parts.drop_first().len() && 0 <= j && j + 1
                < parts.drop_first()[k].len() implies !(#[trigger] parts.drop_first()[k][j] == ';'
            && parts.drop_first()[k][j + 1] == ' ') by {
            assert(parts.drop_first()[k] == parts[k + 1]);
            assert(parts[k + 1][j] == parts.drop_first()[k][j]);
        }
        law_joined_parts_are_split(parts.drop_first());
        assert(parts =~= seq![first] + parts.drop_first());
    }
}

/// A line says nothing of cycles if it holds no space. Otherwise the cycles stand after its
/// last space, and if they are a number, the functions of its stack before it are those of the
/// parts of the stack.
pub proof fn law_cycles_stand_after_the_last_space(
    line: Seq<char>,
    stack: Seq<char>,
    cycles: Seq<char>,
)
    requires
        !cycles.contains(' '),
    ensures
        line == cycles ==> crate::samply::sample_in(line) == Err::<
            (Seq<Seq<char>>, u64),
            SampleError,
        >(SampleError::NoCycles),
        line == stack + seq![' '] + cycles ==> match crate::text::unsigned(cycles) {
            None => crate::samply::sample_in(line) == Err::<(Seq<Seq<char>>, u64), SampleError>(
                SampleError::InvalidCycles,
            ),
            Some(number) => {
                &&& crate::samply::sample_in(line) matches Ok((functions, read))
                &&& read == number
                &&& functions.len() == crate::samply::split_stack(stack).len()
                &&& forall|k: int|
                    0 <= k < functions.len() ==> #[trigger] functions[k]
                        == crate::samply::function_of(crate::samply::split_stack(stack)[k])
            },
        },
{
    assert forall|j: int| 0 <= j < cycles.len() implies #[trigger] cycles[j] != ' ' by {
        if cycles[j] == ' ' {
            assert(cycles.contains(' '));
        }
    }
    if line == cycles && line.len() > 0 {
        lemma_last_index(line, ' ', line.len() as int, -1);
    }
    if line == stack + seq![' '] + cycles {
        assert forall|j: int| stack.len() < j < line.len() implies #[trigger] line[j] != ' ' by {
            assert(line[j] == cycles[j - stack.len() - 1]);
        }
        lemma_last_index(line, ' ', line.len() as int, stack.len() as int);
        assert(line.take(stack.len() as int) =~= stack);
        assert(line.skip(stack.len() as int + 1) =~= cycles);
    }
}

/// The sample of a stack is read from the line that writes it: each part of the stack a file,
/// a colon and a function, the parts with a semicolon and a space between them, and the cycles
/// in digits after a space. The functions come in the order in which they stand.
pub proof fn law_written_sample_is_read_back(
    files: Seq<Seq<char>>,
    names: Seq<Seq<char>>,
    parts: Seq<Seq<char>>,
    cycles: u64,
)
    requires
        parts.len() > 0,
        files.len() == parts.len(),
        names.len() == parts.len(),
        forall|k: int| 0 <= k < parts.len() ==> !(#[trigger] files[k]).contains(':'),
        forall|k: int|
            0 <= k < parts.len() ==> #[trigger] parts[k] == files[k] + seq![':'] + names[k],
        forall|k: int, j: int|
            0 <= k < parts.len() && 0 <= j && j + 1 < parts[k].len() ==> !(
            #[trigger] parts[k][j] == ';' && parts[k][j + 1] == ' '),
    ensures
        crate::samply::sample_in(
            crate::samply::join_stack(parts) + seq![' '] + crate::text::decimal(cycles as nat),
        ) == Ok::<(Seq<Seq<char>>, u64), SampleError>((names, cycles)),
{
    let stack = crate::samply::join_stack(parts);
    let digits = crate::text::decimal(cycles as nat);
    let line = stack + seq![' '] + digits;
    law_joined_parts_are_split(parts);
    crate::text::lemma_decimal(cycles as nat);
    assert(!digits.contains(' ')) by {
        if digits.contains(' ') {
            let j = choose|j: int| 0 <= j < digits.len() && digits[j] == ' ';
            assert(crate::text::decimal_digit(digits[j]) is Some);
        }
    }
    crate::laws::texts::law_written_number_is_read_back(cycles, 0);
    assert(Seq::new(0, |i: int| '0') + digits =~= digits);
    law_cycles_stand_after_the_last_space(line, stack, digits);
    let functions = (crate::samply::sample_in(line)->Ok_0).0;
    assert forall|k: int| 0 <= k < parts.len() implies functions[k] == names[k] by {
        assert(parts[k] == files[k] + seq![':'] + names[k]);
        law_function_stands_after_the_file(parts[k], files[k], names[k]);
    }
    assert(functions =~= names);
}

/// The time of a sample is the number of nanoseconds that its cycles take and not one more: at
/// so many cycles in a second, as many nanoseconds take no more cycles, and one more does.
pub proof fn law_time_takes_the_cycles(cycles: u64, frequency: u64)
    requires
        frequency > 0,
    ensures
        ({
            let nanos = crate::samply::nanos_of(cycles, frequency);
            nanos * frequency <= cycles * 1_000_000_000 < (nanos + 1) * frequency
        }),
{
    let total = 1_000_000_000 * cycles;
    vstd::arithmetic::div_mod::lemma_fundamental_div_mod(total, frequency as int);
    let nanos = total / frequency as int;
    let left = total % frequency as int;
    assert(nanos * frequency <= total < (nanos + 1) * frequency) by (nonlinear_arith)
        requires
            total == frequency * nanos + left,
            0 <= left < frequency,
    ;
}

/// The texts of strings are those of each of them, in their order.
pub proof fn law_texts_of_strings(strings: Seq<String>, i: int)
    requires
        0 <= i < strings.len(),
    ensures
        crate::samply::string_views(strings).len() == strings.len(),
        crate::samply::string_views(strings)[i] == strings[i]@,
{
}

/// A text that is known is shown as it is.
pub proof fn law_known_text_is_shown(text: Option<String>)
    ensures
        match text {
            Some(text) => crate::samply::or_unknown(Some(text)) == text@,
            None => crate::samply::or_unknown(text) == "<Unknown>"@,
        },
{
}

} // verus!
