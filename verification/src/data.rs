//! Pieces of data that belong to a transaction.
use vstd::prelude::*;

use crate::codes::Source;

verus! {

/// A piece of data of a transaction.
#[derive(Copy, Clone, Debug, PartialEq, Eq, Hash, Structural)]
pub enum DataPieceId {
    /// The data of the nth input cell.
    Input(u32),
    /// The data of the nth output cell.
    Output(u32),
    /// The data of the nth cell dependency.
    CellDep(u32),
    /// The data of the nth input cell of the script group.
    GroupInput(u32),
    /// The data of the nth output cell of the script group.
    GroupOutput(u32),
    /// The nth witness.
    Witness(u32),
    /// The witness of the nth input of the script group.
    WitnessGroupInput(u32),
    /// The witness of the nth output of the script group.
    WitnessGroupOutput(u32),
}

/// Asks how many bytes a piece of data has from an offset on.
#[derive(Copy, Clone, Debug, PartialEq, Eq, Structural)]
pub struct LengthQuery {
    /// The piece of data.
    pub piece: DataPieceId,
    /// Where to count from.
    pub offset: u64,
}

/// The lengths of pieces of data that are known. A length is absent where there is no such
/// data.
pub struct DataLengths {
    lengths: Vec<(LengthQuery, Option<u64>)>,
}

/// The lengths in a list, the latest of each.
pub open spec fn known_lengths(lengths: Seq<(LengthQuery, Option<u64>)>) -> Map<
    LengthQuery,
    Option<u64>,
>
    decreases lengths.len(),
{
    if lengths.len() == 0 {
        Map::empty()
    } else {
        known_lengths(lengths.drop_last()).insert(lengths.last().0, lengths.last().1)
    }
}

impl View for DataLengths {
    type V = Map<LengthQuery, Option<u64>>;

    closed spec fn view(&self) -> Map<LengthQuery, Option<u64>> {
        known_lengths(self.lengths@)
    }
}

impl DataLengths {
    /// No lengths.
    pub fn new() -> (lengths: Self)
        ensures
            lengths@ == Map::<LengthQuery, Option<u64>>::empty(),
    {
        DataLengths { lengths: Vec::new() }
    }

    /// Makes a length known. What was known of the same query is replaced.
    pub fn supply(&mut self, query: LengthQuery, length: Option<u64>)
        ensures
            final(self)@ == old(self)@.insert(query, length),
    {
        self.lengths.push((query, length));
        assert(self.lengths@.drop_last() =~= old(self).lengths@);
    }

    /// A length, if it is known.
    pub fn lookup(&self, query: LengthQuery) -> (found: Option<Option<u64>>)
        ensures
            match found {
                Some(length) => self@.contains_key(query) && self@[query] == length,
                None => !self@.contains_key(query),
            },
    {
        let mut i: usize = self.lengths.len();
        assert(self.lengths@.take(i as int) =~= self.lengths@);
        while i > 0
            invariant
                i <= self.lengths@.len(),
                self@.contains_key(query) <==> known_lengths(
                    self.lengths@.take(i as int),
                ).contains_key(query),
                self@.contains_key(query) ==> self@[query] == known_lengths(
                    self.lengths@.take(i as int),
                )[query],
            decreases i,
        {
            assert(self.lengths@.take(i as int).drop_last() =~= self.lengths@.take(i - 1));
            i = i - 1;
            if self.lengths[i].0 == query {
                return Some(self.lengths[i].1);
            }
        }
        None
    }
}

/// The piece of data that a source, an index and a place name: the place is zero for the data
/// of a cell and one for a witness.
pub open spec fn piece_at(source: u64, index: u64, place: u64) -> Option<DataPieceId> {
    if index > u32::MAX {
        None
    } else if place == 0 {
        match Source::spec_of_number(source) {
            Some(Source::Input) => Some(DataPieceId::Input(index as u32)),
            Some(Source::Output) => Some(DataPieceId::Output(index as u32)),
            Some(Source::CellDep) => Some(DataPieceId::CellDep(index as u32)),
            Some(Source::GroupInput) => Some(DataPieceId::GroupInput(index as u32)),
            Some(Source::GroupOutput) => Some(DataPieceId::GroupOutput(index as u32)),
            _ => None,
        }
    } else if place == 1 {
        match Source::spec_of_number(source) {
            Some(Source::Input) => Some(DataPieceId::Witness(index as u32)),
            Some(Source::Output) => Some(DataPieceId::Witness(index as u32)),
            Some(Source::GroupInput) => Some(DataPieceId::WitnessGroupInput(index as u32)),
            Some(Source::GroupOutput) => Some(DataPieceId::WitnessGroupOutput(index as u32)),
            _ => None,
        }
    } else {
        None
    }
}

} // verus!
