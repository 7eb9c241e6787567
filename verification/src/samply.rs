//! Samples of a program in lines: the functions on the stack, and the cycles spent there.
use vstd::prelude::*;
use vstd::string::StrSliceExecFns;

use crate::text::{characters, parse_unsigned};

verus! {

/// A function and where it is written, as far as they are known.
#[derive(Debug, Clone, PartialEq, Eq, Hash)]
pub struct Symbol {
    /// The name of the function.
    pub name: Option<String>,
    /// The file that it is in.
    pub file: Option<String>,
}

/// A text that may be unknown.
pub open spec fn or_unknown(text: Option<String>) -> Seq<char> {
    match text {
        Some(text) => text@,
        None => "<Unknown>"@,
    }
}

impl Symbol {
    /// The name of the function, or that it is unknown.
    pub fn name(&self) -> (name: String)
        ensures
            name@ == or_unknown(self.name),
    {
        match &self.name {
            Some(name) => name.clone(),
            None => "<Unknown>".to_owned(),
        }
    }

    /// The file that the function is in, or that it is unknown.
    pub fn file(&self) -> (file: String)
        ensures
            file@ == or_unknown(self.file),
    {
        match &self.file {
            Some(file) => file.clone(),
            None => "<Unknown>".to_owned(),
        }
    }
}

/// The name under which a function is shown: the name that it has.
pub fn normalize_function_name(name: &str) -> (normalized: String)
    ensures
        normalized@ == name@,
{
    name.to_owned()
}

/// A sample.
#[derive(Clone, Debug, PartialEq, Eq)]
pub struct Sample {
    /// The functions on the stack, outermost first.
    pub stack: Vec<String>,
    /// The cycles spent there.
    pub cycles: u64,
}

/// Why a line holds no sample.
#[derive(Copy, Clone, Debug, PartialEq, Eq, Structural)]
pub enum SampleError {
    /// There are no cycles in it.
    NoCycles,
    /// What stands in place of the cycles is no number.
    InvalidCycles,
}

/// Whether a separator of functions starts at `i`.
pub open spec fn separates(s: Seq<char>, i: int) -> bool {
    0 <= i && i + 1 < s.len() && s[i] == ';' && s[i + 1] == ' '
}

/// Where the first separator at or after `i` starts; the length where there is none.
pub open spec fn first_separator(s: Seq<char>, i: int) -> int
    decreases s.len() - i,
{
    if i >= s.len() {
        s.len() as int
    } else if separates(s, i) {
        i
    } else {
        first_separator(s, i + 1)
    }
}

/// The parts between separators.
pub open spec fn split_stack(s: Seq<char>) -> Seq<Seq<char>>
    decreases s.len(),
{
    let i = first_separator(s, 0);
    if 0 <= i && i + 2 <= s.len() {
        seq![s.take(i)] + split_stack(s.skip(i + 2))
    } else {
        seq![s]
    }
}

/// Where a character is first in `s` at or after `i`; the length where it is not.
pub open spec fn first_index(s: Seq<char>, c: char, i: int) -> int
    decreases s.len() - i,
{
    if i >= s.len() {
        s.len() as int
    } else if s[i] == c {
        i
    } else {
        first_index(s, c, i + 1)
    }
}

/// Where a character is last in the first `end` characters of `s`, if it is there.
pub open spec fn last_index(s: Seq<char>, c: char, end: int) -> Option<int>
    decreases end,
{
    if end <= 0 {
        None
    } else if s[end - 1] == c {
        Some(end - 1)
    } else {
        last_index(s, c, end - 1)
    }
}

/// The name of a function in a part of a stack: what follows the first colon, or all of it
/// where there is none.
pub open spec fn function_of(part: Seq<char>) -> Seq<char> {
    let i = first_index(part, ':', 0);
    if i < part.len() {
        part.skip(i + 1)
    } else {
        part
    }
}

/// The sample in a line: the stack stands before the last space, and the cycles after it.
pub open spec fn sample_in(line: Seq<char>) -> Result<(Seq<Seq<char>>, u64), SampleError> {
    match last_index(line, ' ', line.len() as int) {
        None => Err(SampleError::NoCycles),
        Some(i) => match crate::text::unsigned(line.skip(i + 1)) {
            None => Err(SampleError::InvalidCycles),
            Some(cycles) => Ok(
                (
                    split_stack(line.take(i)).map_values(|part: Seq<char>| function_of(part)),
                    cycles,
                ),
            ),
        },
    }
}

/// Strings, as values.
pub open spec fn string_views(strings: Seq<String>) -> Seq<Seq<char>> {
    strings.map_values(|s: String| s@)
}

/// A search can go on from where nothing was found.
proof fn lemma_first_separator_bounds(s: Seq<char>, i: int)
    requires
        0 <= i <= s.len(),
    ensures
        i <= first_separator(s, i) <= s.len(),
        first_separator(s, i) < s.len() ==> separates(s, first_separator(s, i)),
    decreases s.len() - i,
{
    if i < s.len() && !separates(s, i) {
        lemma_first_separator_bounds(s, i + 1);
    }
}

/// Where the first separator of the rest of a string is.
proof fn lemma_first_separator_skip(s: Seq<char>, start: int, i: int)
    requires
        0 <= start <= i <= s.len(),
    ensures
        first_separator(s.skip(start), i - start) == first_separator(s, i) - start,
    decreases s.len() - i,
{
    if i < s.len() {
        assert(separates(s.skip(start), i - start) == separates(s, i));
        if !separates(s, i) {
            lemma_first_separator_skip(s, start, i + 1);
        }
    }
}

/// Reads the name of the function in the part of a line from `start` to `end`.
fn function_in(line: &str, characters: &Vec<char>, start: usize, end: usize) -> (name: String)
    requires
        characters@ == line@,
        start <= end <= line@.len(),
    ensures
        name@ == function_of(line@.subrange(start as int, end as int)),
{
    let ghost part = line@.subrange(start as int, end as int);
    let mut i: usize = start;
    while i < end
        invariant
            characters@ == line@,
            start <= i <= end <= line@.len(),
            part == line@.subrange(start as int, end as int),
            first_index(part, ':', 0) == first_index(part, ':', i - start),
        decreases end - i,
    {
        assert(part[i - start] == characters@[i as int]);
        if characters[i] == ':' {
            let name = line.substring_char(i + 1, end);
            assert(name@ =~= part.skip(i - start + 1));
            return normalize_function_name(name);
        }
        i = i + 1;
    }
    normalize_function_name(line.substring_char(start, end))
}

/// Reads the names of the functions in the first `end` characters of a line.
fn stack_in(line: &str, characters: &Vec<char>, end: usize) -> (stack: Vec<String>)
    requires
        characters@ == line@,
        end <= line@.len(),
    ensures
        string_views(stack@) == split_stack(line@.take(end as int)).map_values(
            |part: Seq<char>| function_of(part),
        ),
{
    let ghost whole = line@.take(end as int);
    let ghost names = |part: Seq<char>| function_of(part);
    let mut stack: Vec<String> = Vec::new();
    let mut start: usize = 0;
    let mut i: usize = 0;
    assert(whole.skip(0) =~= whole);
    assert(string_views(stack@) + split_stack(whole).map_values(names) =~= split_stack(
        whole,
    ).map_values(names));
    while i < end
        invariant
            characters@ == line@,
            start <= i <= end <= line@.len(),
            whole == line@.take(end as int),
            names == (|part: Seq<char>| function_of(part)),
            first_separator(whole, start as int) == first_separator(whole, i as int),
            string_views(stack@) + split_stack(whole.skip(start as int)).map_values(names)
                == split_stack(whole).map_values(names),
        decreases end - i,
    {
        if characters[i] == ';' && i + 1 < end && characters[i + 1] == ' ' {
            let ghost rest = whole.skip(start as int);
            let ghost before = stack@;
            let name = function_in(line, characters, start, i);
            stack.push(name);
            proof {
                assert(separates(whole, i as int));
                lemma_first_separator_skip(whole, start as int, start as int);
                assert(first_separator(rest, 0) == i - start);
                assert(rest.take(i - start) =~= line@.subrange(start as int, i as int));
                assert(rest.skip(i - start + 2) =~= whole.skip(i + 2));
                assert(split_stack(rest) == seq![rest.take(i - start)] + split_stack(
                    whole.skip(i + 2),
                ));
                assert(string_views(stack@) =~= string_views(before).push(name@));
                assert(split_stack(rest).map_values(names) =~= seq![name@] + split_stack(
                    whole.skip(i + 2),
                ).map_values(names));
                assert(string_views(stack@) + split_stack(whole.skip(i + 2)).map_values(names)
                    =~= string_views(before) + split_stack(rest).map_values(names));
            }
            i = i + 2;
            start = i;
        } else {
            assert(!separates(whole, i as int));
            i = i + 1;
        }
    }
    let ghost rest = whole.skip(start as int);
    let ghost before = stack@;
    let name = function_in(line, characters, start, end);
    stack.push(name);
    proof {
        lemma_first_separator_skip(whole, start as int, start as int);
        assert(first_separator(rest, 0) == rest.len());
        assert(rest =~= line@.subrange(start as int, end as int));
        assert(split_stack(rest) == seq![rest]);
        assert(string_views(stack@) =~= string_views(before) + split_stack(rest).map_values(names));
    }
    stack
}

/// Reads a sample from a line.
pub fn parse_sample(line: &str) -> (result: Result<Sample, SampleError>)
    ensures
        match result {
            Ok(sample) => sample_in(line@) == Ok::<(Seq<Seq<char>>, u64), SampleError>(
                (string_views(sample.stack@), sample.cycles),
            ),
            Err(error) => sample_in(line@) == Err::<(Seq<Seq<char>>, u64), SampleError>(error),
        },
{
    let characters = characters(line);
    let mut end: usize = characters.len();
    while end > 0
        invariant
            characters@ == line@,
            end <= line@.len(),
            last_index(line@, ' ', line@.len() as int) == last_index(line@, ' ', end as int),
        decreases end,
    {
        if characters[end - 1] == ' ' {
            return match parse_unsigned(&characters, end) {
                Some(cycles) => Ok(Sample { stack: stack_in(line, &characters, end - 1), cycles }),
                None => Err(SampleError::InvalidCycles),
            };
        }
        end = end - 1;
    }
    Err(SampleError::NoCycles)
}

/// The time that a number of cycles takes at a number of cycles in a second, in nanoseconds
/// and without what is left of one.
pub open spec fn nanos_of(cycles: u64, frequency: u64) -> int {
    (1_000_000_000 * cycles) / frequency as int
}

/// The time that a number of cycles takes at a number of cycles in a second, in nanoseconds
/// and without what is left of one.
pub fn sample_nanos(cycles: u64, frequency: u64) -> (nanos: u64)
    requires
        frequency > 0,
        1_000_000_000 * cycles <= u64::MAX,
    ensures
        nanos == (1_000_000_000 * cycles) / frequency as int,
        nanos == nanos_of(cycles, frequency),
{
    1_000_000_000 * cycles / frequency
}

/// The parts of a stack with separators between them.
pub open spec fn join_stack(parts: Seq<Seq<char>>) -> Seq<char>
    decreases parts.len(),
{
    if parts.len() == 0 {
        Seq::empty()
    } else if parts.len() == 1 {
        parts[0]
    } else {
        parts[0] + seq![';', ' '] + join_stack(parts.drop_first())
    }
}

/// Splitting a stack loses nothing: there is a part at least, no part holds a separator, and
/// the parts with separators between them are the stack again.
pub proof fn law_split_stack(s: Seq<char>)
    ensures
        split_stack(s).len() > 0,
        join_stack(split_stack(s)) == s,
        forall|k: int, i: int|
            0 <= k < split_stack(s).len() ==> !#[trigger] separates(split_stack(s)[k], i),
    decreases s.len(),
{
    let i = first_separator(s, 0);
    lemma_first_separator_bounds(s, 0);
    lemma_no_separator_before(s, 0);
    if i + 2 <= s.len() {
        let rest = split_stack(s.skip(i + 2));
        law_split_stack(s.skip(i + 2));
        assert(split_stack(s) == seq![s.take(i)] + rest);
        assert(split_stack(s).drop_first() =~= rest);
        assert(s =~= s.take(i) + seq![';', ' '] + s.skip(i + 2));
        assert forall|k: int, j: int| 0 <= k < split_stack(s).len() implies !#[trigger] separates(
            split_stack(s)[k],
            j,
        ) by {
            if k == 0 {
                if separates(s.take(i), j) {
                    assert(separates(s, j));
                }
            } else {
                assert(split_stack(s)[k] == rest[k - 1]);
            }
        }
    } else {
        assert forall|j: int| !separates(s, j) by {}
    }
}

/// There is no separator before the first one.
proof fn lemma_no_separator_before(s: Seq<char>, i: int)
    requires
        0 <= i <= s.len(),
    ensures
        forall|j: int| i <= j < first_separator(s, i) ==> !separates(s, j),
    decreases s.len() - i,
{
    if i < s.len() && !separates(s, i) {
        lemma_no_separator_before(s, i + 1);
    }
}

} // verus!
