//! Views of a virtual machine through which it can be read and not changed.
use vstd::prelude::*;

use crate::bytes::read_little_endian;
use crate::data::DataPieceId;
use crate::machine::{Machine, MemoryRead, REGISTER_COUNT};

verus! {

/// A machine of which only the reads are left: whatever is done through this view, the
/// machine behind it stays as it is.
pub struct ReadonlyMachine<'a, M>(&'a M);

impl<'a, M> ReadonlyMachine<'a, M> {
    /// The machine behind the view.
    pub closed spec fn inner(&self) -> M {
        *self.0
    }

    /// A view of `machine`.
    pub fn new(machine: &'a mut M) -> (view: Self)
        ensures
            view.inner() == *old(machine),
            *final(machine) == *old(machine),
    {
        ReadonlyMachine(machine)
    }
}

impl<'a, M: Machine> Machine for ReadonlyMachine<'a, M> {
    type Missing = M::Missing;

    open spec fn register_file(&self) -> Seq<u64> {
        self.inner().register_file()
    }

    open spec fn reads(&self) -> crate::machine::Reads<M::Missing> {
        self.inner().reads()
    }

    fn register(&self, index: usize) -> (value: u64) {
        self.0.register(index)
    }

    fn load8(&self, addr: u64) -> (result: Result<u8, M::Missing>) {
        self.0.load8(addr)
    }

    fn load64(&self, addr: u64) -> (result: Result<u64, M::Missing>) {
        self.0.load64(addr)
    }

    fn load_bytes(&self, addr: u64, size: u64) -> (result: Result<Vec<u8>, M::Missing>) {
        self.0.load_bytes(addr, size)
    }
}

/// A virtual machine whose whole state can be read.
pub trait InspectableMachine: Machine {
    /// A number of `size` bytes at an address, least significant byte first.
    spec fn number_at(&self, addr: u64, size: nat) -> Result<nat, Self::Missing>;

    /// The address reserved by a load that awaits its conditional store.
    spec fn reservation(&self) -> u64;

    /// The program counter.
    spec fn program_counter(&self) -> u64;

    /// The version of the virtual machine.
    spec fn machine_version(&self) -> u32;

    /// The cycles consumed so far.
    spec fn consumed_cycles(&self) -> u64;

    /// The limit on the cycles.
    spec fn cycle_limit(&self) -> u64;

    /// Reads a number of two bytes.
    fn load16(&self, addr: u64) -> (result: Result<u16, Self::Missing>)
        ensures
            match result {
                Ok(value) => self.number_at(addr, 2) == Ok::<nat, Self::Missing>(value as nat),
                Err(missing) => self.number_at(addr, 2) == Err::<nat, Self::Missing>(missing),
            },
    ;

    /// Reads a number of four bytes.
    fn load32(&self, addr: u64) -> (result: Result<u32, Self::Missing>)
        ensures
            match result {
                Ok(value) => self.number_at(addr, 4) == Ok::<nat, Self::Missing>(value as nat),
                Err(missing) => self.number_at(addr, 4) == Err::<nat, Self::Missing>(missing),
            },
    ;

    /// The address reserved by a load that awaits its conditional store.
    fn lr(&self) -> (lr: u64)
        ensures
            lr == self.reservation(),
    ;

    /// The program counter.
    fn pc(&self) -> (pc: u64)
        ensures
            pc == self.program_counter(),
    ;

    /// The general purpose registers.
    fn registers(&self) -> (registers: &[u64; REGISTER_COUNT])
        ensures
            registers@ == self.register_file(),
    ;

    /// The version of the virtual machine.
    fn version(&self) -> (version: u32)
        ensures
            version == self.machine_version(),
    ;

    /// The cycles consumed so far.
    fn cycles(&self) -> (cycles: u64)
        ensures
            cycles == self.consumed_cycles(),
    ;

    /// The limit on the cycles.
    fn max_cycles(&self) -> (max_cycles: u64)
        ensures
            max_cycles == self.cycle_limit(),
    ;
}

impl<'a, M: InspectableMachine> InspectableMachine for ReadonlyMachine<'a, M> {
    open spec fn number_at(&self, addr: u64, size: nat) -> Result<nat, M::Missing> {
        self.inner().number_at(addr, size)
    }

    open spec fn reservation(&self) -> u64 {
        self.inner().reservation()
    }

    open spec fn program_counter(&self) -> u64 {
        self.inner().program_counter()
    }

    open spec fn machine_version(&self) -> u32 {
        self.inner().machine_version()
    }

    open spec fn consumed_cycles(&self) -> u64 {
        self.inner().consumed_cycles()
    }

    open spec fn cycle_limit(&self) -> u64 {
        self.inner().cycle_limit()
    }

    fn load16(&self, addr: u64) -> (result: Result<u16, M::Missing>) {
        self.0.load16(addr)
    }

    fn load32(&self, addr: u64) -> (result: Result<u32, M::Missing>) {
        self.0.load32(addr)
    }

    fn lr(&self) -> (lr: u64) {
        self.0.lr()
    }

    fn pc(&self) -> (pc: u64) {
        self.0.pc()
    }

    fn registers(&self) -> (registers: &[u64; REGISTER_COUNT]) {
        self.0.registers()
    }

    fn version(&self) -> (version: u32) {
        self.0.version()
    }

    fn cycles(&self) -> (cycles: u64) {
        self.0.cycles()
    }

    fn max_cycles(&self) -> (max_cycles: u64) {
        self.0.max_cycles()
    }
}

/// The size of a page of memory.
pub const PAGE_SIZE: u64 = 4096;

/// Pages whose content is kept in the snapshot.
pub struct DirtyPages {
    /// The address of the first page.
    pub addr: u64,
    /// The flags of the pages.
    pub flag: u8,
    /// The content of the pages.
    pub content: Vec<u8>,
}

/// Pages whose content is a part of a piece of data of the transaction.
pub struct SourcePages {
    /// The address of the first page.
    pub addr: u64,
    /// The flags of the pages.
    pub flag: u8,
    /// The piece of data.
    pub id: DataPieceId,
    /// Where the content starts in the piece of data.
    pub offset: u64,
    /// The length of the content.
    pub length: u64,
}

/// A suspended virtual machine.
pub struct Snapshot {
    /// The pages that are parts of pieces of data.
    pub pages_from_source: Vec<SourcePages>,
    /// The pages that are kept in the snapshot.
    pub dirty_pages: Vec<DirtyPages>,
    /// The version of the virtual machine.
    pub version: u32,
    /// The general purpose registers.
    pub registers: [u64; REGISTER_COUNT],
    /// The program counter.
    pub pc: u64,
    /// The cycles consumed so far.
    pub cycles: u64,
    /// The limit on the cycles.
    pub max_cycles: u64,
    /// The address reserved by a load that awaits its conditional store.
    pub load_reservation_address: u64,
}

/// A page-sized part of a piece of data.
#[derive(Copy, Clone, Debug, PartialEq, Eq, Structural)]
pub struct SourceRead {
    /// The piece of data.
    pub id: DataPieceId,
    /// Where the part starts.
    pub offset: u64,
}

/// Why memory of a snapshot cannot be read.
#[derive(Copy, Clone, Debug, PartialEq, Eq, Structural)]
pub enum SnapshotMiss {
    /// A page is a part of a piece of data that was not supplied yet.
    Source(SourceRead),
    /// A page is only partly covered, or an address does not fit. No snapshot in order is like
    /// that: whoever reads it panics.
    Unreadable,
}

/// What a list of pages says of one page.
pub enum PageLookup<T> {
    /// The list does not cover the page.
    Absent,
    /// The list covers the start of the page and not all of it, or an address does not fit.
    Broken,
    /// The list covers the page.
    Found(T),
}

/// What the pages kept in a snapshot say of the page at `start`. The first entry that covers
/// its start decides.
pub open spec fn dirty_page(pages: Seq<DirtyPages>, start: int) -> PageLookup<Seq<u8>>
    decreases pages.len(),
{
    if pages.len() == 0 {
        PageLookup::Absent
    } else {
        let first = pages[0];
        let end = first.addr + first.content@.len();
        if end > u64::MAX {
            PageLookup::Broken
        } else if first.addr <= start < end {
            if start + PAGE_SIZE <= end {
                let offset = start - first.addr;
                PageLookup::Found(first.content@.subrange(offset, offset + PAGE_SIZE))
            } else {
                PageLookup::Broken
            }
        } else {
            dirty_page(pages.drop_first(), start)
        }
    }
}

/// Which part of a piece of data the page at `start` is. The first entry that covers its
/// start decides.
pub open spec fn source_page(pages: Seq<SourcePages>, start: int) -> PageLookup<SourceRead>
    decreases pages.len(),
{
    if pages.len() == 0 {
        PageLookup::Absent
    } else {
        let first = pages[0];
        let end = first.addr + first.length;
        if end > u64::MAX {
            PageLookup::Broken
        } else if first.addr <= start < end {
            let offset = first.offset + (start - first.addr);
            if start + PAGE_SIZE <= end && offset <= u64::MAX {
                PageLookup::Found(SourceRead { id: first.id, offset: offset as u64 })
            } else {
                PageLookup::Broken
            }
        } else {
            source_page(pages.drop_first(), start)
        }
    }
}

/// The content of the page at `start`: what the snapshot keeps, else the part of the piece of
/// data, else zeros.
pub open spec fn page_content(
    snapshot: Snapshot,
    supplied: Map<SourceRead, Seq<u8>>,
    start: int,
) -> Result<Seq<u8>, SnapshotMiss> {
    match dirty_page(snapshot.dirty_pages@, start) {
        PageLookup::Found(content) => Ok(content),
        PageLookup::Broken => Err(SnapshotMiss::Unreadable),
        PageLookup::Absent => match source_page(snapshot.pages_from_source@, start) {
            PageLookup::Found(read) => if supplied.contains_key(read) {
                Ok(supplied[read])
            } else {
                Err(SnapshotMiss::Source(read))
            },
            PageLookup::Broken => Err(SnapshotMiss::Unreadable),
            PageLookup::Absent => Ok(Seq::new(PAGE_SIZE as nat, |i: int| 0u8)),
        },
    }
}

/// Reads `size` bytes from `addr` on, page by page: the bytes that were read, and what
/// stopped the read before its end.
pub open spec fn load_pages(
    snapshot: Snapshot,
    supplied: Map<SourceRead, Seq<u8>>,
    addr: int,
    size: nat,
) -> (Seq<u8>, Option<SnapshotMiss>)
    decreases size,
{
    if size == 0 {
        (Seq::empty(), None)
    } else {
        let offset = addr % (PAGE_SIZE as int);
        match page_content(snapshot, supplied, addr - offset) {
            Err(miss) => (Seq::empty(), Some(miss)),
            Ok(page) => {
                let read = if size < PAGE_SIZE - offset {
                    size as int
                } else {
                    PAGE_SIZE - offset
                };
                let bytes = page.subrange(offset, offset + read);
                if addr + read > u64::MAX {
                    (bytes, Some(SnapshotMiss::Unreadable))
                } else {
                    let rest = load_pages(snapshot, supplied, addr + read, (size - read) as nat);
                    (bytes + rest.0, rest.1)
                }
            },
        }
    }
}

/// The parts in `supplied`, the latest of each.
pub open spec fn known_parts(supplied: Seq<(SourceRead, Vec<u8>)>) -> Map<SourceRead, Seq<u8>>
    decreases supplied.len(),
{
    if supplied.len() == 0 {
        Map::empty()
    } else {
        known_parts(supplied.drop_last()).insert(supplied.last().0, supplied.last().1@)
    }
}

/// A suspended virtual machine, read from its snapshot and from the parts of pieces of data
/// that were supplied.
pub struct ReadonlySnapshotMachine<'a> {
    snapshot: &'a Snapshot,
    supplied: Vec<(SourceRead, Vec<u8>)>,
    lr: u64,
    pc: u64,
    registers: [u64; REGISTER_COUNT],
}

/// A copy of `bytes` from `start` to `end`.
fn copy_range(bytes: &Vec<u8>, start: usize, end: usize) -> (copy: Vec<u8>)
    requires
        start <= end <= bytes@.len(),
    ensures
        copy@ == bytes@.subrange(start as int, end as int),
{
    let mut copy: Vec<u8> = Vec::new();
    let mut i: usize = start;
    while i < end
        invariant
            start <= i <= end <= bytes@.len(),
            copy@ =~= bytes@.subrange(start as int, i as int),
        decreases end - i,
    {
        copy.push(bytes[i]);
        i = i + 1;
    }
    copy
}

impl<'a> ReadonlySnapshotMachine<'a> {
    #[verifier::type_invariant]
    spec fn well_formed(self) -> bool {
        &&& forall|i: int|
            0 <= i < self.supplied@.len() ==> (#[trigger] self.supplied@[i]).1@.len() == PAGE_SIZE
        &&& self.lr == self.snapshot.load_reservation_address
        &&& self.pc == self.snapshot.pc
        &&& self.registers@ == self.snapshot.registers@
    }

    /// The snapshot behind the view.
    pub closed spec fn spec_snapshot(&self) -> Snapshot {
        *self.snapshot
    }

    /// The parts of pieces of data that were supplied.
    pub closed spec fn spec_supplied(&self) -> Map<SourceRead, Seq<u8>> {
        known_parts(self.supplied@)
    }

    /// A view of `snapshot`, with no part of a piece of data supplied.
    pub fn new(snapshot: &'a Snapshot) -> (machine: Self)
        ensures
            machine.spec_snapshot() == *snapshot,
            machine.spec_supplied() == Map::<SourceRead, Seq<u8>>::empty(),
            parts_are_pages(machine.spec_supplied()),
    {
        let mut registers: [u64; REGISTER_COUNT] = [0; REGISTER_COUNT];
        let mut i: usize = 0;
        while i < REGISTER_COUNT
            invariant
                i <= REGISTER_COUNT,
                forall|j: int| 0 <= j < i ==> registers@[j] == snapshot.registers@[j],
            decreases REGISTER_COUNT - i,
        {
            registers[i] = snapshot.registers[i];
            i = i + 1;
        }
        assert(registers@ =~= snapshot.registers@);
        ReadonlySnapshotMachine {
            snapshot,
            supplied: Vec::new(),
            lr: snapshot.load_reservation_address,
            pc: snapshot.pc,
            registers,
        }
    }

    /// Supplies a part of a piece of data.
    pub fn supply(&mut self, read: SourceRead, part: Vec<u8>)
        requires
            part@.len() == PAGE_SIZE,
        ensures
            final(self).spec_snapshot() == old(self).spec_snapshot(),
            final(self).spec_supplied() == old(self).spec_supplied().insert(read, part@),
            parts_are_pages(final(self).spec_supplied()),
    {
        proof {
            use_type_invariant(&*self);
            self.lemma_parts();
        }
        let mut supplied: Vec<(SourceRead, Vec<u8>)> = Vec::new();
        std::mem::swap(&mut supplied, &mut self.supplied);
        let ghost before = supplied@;
        supplied.push((read, part));
        assert(supplied@.drop_last() =~= before);
        self.supplied = supplied;
    }
}

/// The parts that were supplied are pages.
proof fn lemma_known_parts_are_pages(supplied: Seq<(SourceRead, Vec<u8>)>, read: SourceRead)
    requires
        forall|i: int|
            0 <= i < supplied.len() ==> (#[trigger] supplied[i]).1@.len() == PAGE_SIZE,
        known_parts(supplied).contains_key(read),
    ensures
        known_parts(supplied)[read].len() == PAGE_SIZE,
    decreases supplied.len(),
{
    assert(supplied.last() == supplied[supplied.len() - 1]);
    if supplied.last().0 != read {
        assert forall|i: int| 0 <= i < supplied.drop_last().len() implies (
        #[trigger] supplied.drop_last()[i]).1@.len() == PAGE_SIZE by {
            assert(supplied.drop_last()[i] == supplied[i]);
        }
        lemma_known_parts_are_pages(supplied.drop_last(), read);
    }
}

/// Pages kept in a snapshot are found whole.
proof fn lemma_dirty_page_is_page(pages: Seq<DirtyPages>, start: int)
    ensures
        dirty_page(pages, start) matches PageLookup::Found(content) ==> content.len() == PAGE_SIZE,
    decreases pages.len(),
{
    if pages.len() > 0 {
        lemma_dirty_page_is_page(pages.drop_first(), start);
    }
}

/// Reading stops at the end, or before it for a reason.
proof fn lemma_load_pages_len(
    snapshot: Snapshot,
    supplied: Map<SourceRead, Seq<u8>>,
    addr: int,
    size: nat,
)
    requires
        0 <= addr,
        forall|start: int|
            (#[trigger] page_content(snapshot, supplied, start)) matches Ok(page) ==> page.len()
                == PAGE_SIZE,
    ensures
        load_pages(snapshot, supplied, addr, size).0.len() <= size,
        load_pages(snapshot, supplied, addr, size).1 is None ==> load_pages(
            snapshot,
            supplied,
            addr,
            size,
        ).0.len() == size,
    decreases size,
{
    if size > 0 {
        let offset = addr % (PAGE_SIZE as int);
        let content = page_content(snapshot, supplied, addr - offset);
        if content is Ok {
            let read = if size < PAGE_SIZE - offset {
                size as int
            } else {
                PAGE_SIZE - offset
            };
            if addr + read <= u64::MAX {
                lemma_load_pages_len(snapshot, supplied, addr + read, (size - read) as nat);
            }
        }
    }
}

impl<'a> ReadonlySnapshotMachine<'a> {
    /// What the read of `size` bytes from `addr` on gives.
    pub open spec fn spec_load(&self, addr: u64, size: nat) -> (Seq<u8>, Option<SnapshotMiss>) {
        load_pages(self.spec_snapshot(), self.spec_supplied(), addr as int, size)
    }

    /// Every part that was supplied is a page.
    proof fn lemma_parts(&self)
        requires
            self.well_formed(),
        ensures
            parts_are_pages(self.spec_supplied()),
    {
        assert forall|read: SourceRead| #[trigger]
            self.spec_supplied().contains_key(read) implies self.spec_supplied()[read].len()
            == PAGE_SIZE by {
            lemma_known_parts_are_pages(self.supplied@, read);
        }
    }

    /// Every page that can be read is a page.
    proof fn lemma_pages(&self)
        requires
            self.well_formed(),
        ensures
            forall|start: int|
                (#[trigger] page_content(self.spec_snapshot(), self.spec_supplied(), start))
                    matches Ok(page) ==> page.len() == PAGE_SIZE,
    {
        assert forall|start: int|
            (#[trigger] page_content(self.spec_snapshot(), self.spec_supplied(), start))
                matches Ok(page) implies page_content(
            self.spec_snapshot(),
            self.spec_supplied(),
            start,
        )->Ok_0.len() == PAGE_SIZE by {
            lemma_dirty_page_is_page(self.spec_snapshot().dirty_pages@, start);
            if let PageLookup::Found(read) = source_page(
                self.spec_snapshot().pages_from_source@,
                start,
            ) {
                if self.spec_supplied().contains_key(read) {
                    lemma_known_parts_are_pages(self.supplied@, read);
                }
            }
        }
    }

    /// The bytes of a part of a piece of data, if it was supplied.
    fn find_supplied(&self, read: SourceRead) -> (found: Option<&Vec<u8>>)
        ensures
            match found {
                Some(part) => self.spec_supplied().contains_key(read)
                    && self.spec_supplied()[read] == part@,
                None => !self.spec_supplied().contains_key(read),
            },
    {
        let mut i: usize = self.supplied.len();
        assert(self.supplied@.take(i as int) =~= self.supplied@);
        while i > 0
            invariant
                i <= self.supplied@.len(),
                self.spec_supplied().contains_key(read) <==> known_parts(
                    self.supplied@.take(i as int),
                ).contains_key(read),
                self.spec_supplied().contains_key(read) ==> self.spec_supplied()[read]
                    == known_parts(self.supplied@.take(i as int))[read],
            decreases i,
        {
            assert(self.supplied@.take(i as int).drop_last() =~= self.supplied@.take(i - 1));
            i = i - 1;
            if self.supplied[i].0 == read {
                return Some(&self.supplied[i].1);
            }
        }
        None
    }

    /// The page that the snapshot keeps at `start`.
    fn find_dirty(&self, start: u64) -> (found: PageLookup<Vec<u8>>)
        ensures
            match found {
                PageLookup::Found(content) => dirty_page(
                    self.spec_snapshot().dirty_pages@,
                    start as int,
                ) == PageLookup::Found(content@),
                PageLookup::Broken => dirty_page(self.spec_snapshot().dirty_pages@, start as int)
                    is Broken,
                PageLookup::Absent => dirty_page(self.spec_snapshot().dirty_pages@, start as int)
                    is Absent,
            },
    {
        let pages = &self.snapshot.dirty_pages;
        let mut i: usize = 0;
        assert(pages@.skip(0) =~= pages@);
        while i < pages.len()
            invariant
                i <= pages@.len(),
                pages@ == self.spec_snapshot().dirty_pages@,
                dirty_page(pages@, start as int) == dirty_page(pages@.skip(i as int), start as int),
            decreases pages@.len() - i,
        {
            assert(pages@.skip(i as int).drop_first() =~= pages@.skip(i + 1));
            let first = &pages[i];
            let length: u64 = first.content.len() as u64;
            if length > u64::MAX - first.addr {
                return PageLookup::Broken;
            }
            let end: u64 = first.addr + length;
            if first.addr <= start && start < end {
                if end - start >= PAGE_SIZE {
                    let offset: usize = (start - first.addr) as usize;
                    return PageLookup::Found(
                        copy_range(&first.content, offset, offset + PAGE_SIZE as usize),
                    );
                }
                return PageLookup::Broken;
            }
            i = i + 1;
        }
        PageLookup::Absent
    }

    /// The part of a piece of data that lies at `start`.
    fn find_source(&self, start: u64) -> (found: PageLookup<SourceRead>)
        ensures
            found == source_page(self.spec_snapshot().pages_from_source@, start as int),
    {
        let pages = &self.snapshot.pages_from_source;
        let mut i: usize = 0;
        assert(pages@.skip(0) =~= pages@);
        while i < pages.len()
            invariant
                i <= pages@.len(),
                pages@ == self.spec_snapshot().pages_from_source@,
                source_page(pages@, start as int) == source_page(
                    pages@.skip(i as int),
                    start as int,
                ),
            decreases pages@.len() - i,
        {
            assert(pages@.skip(i as int).drop_first() =~= pages@.skip(i + 1));
            let first = &pages[i];
            if first.length > u64::MAX - first.addr {
                return PageLookup::Broken;
            }
            let end: u64 = first.addr + first.length;
            if first.addr <= start && start < end {
                let skipped: u64 = start - first.addr;
                if end - start >= PAGE_SIZE && first.offset <= u64::MAX - skipped {
                    return PageLookup::Found(
                        SourceRead { id: first.id, offset: first.offset + skipped },
                    );
                }
                return PageLookup::Broken;
            }
            i = i + 1;
        }
        PageLookup::Absent
    }

    /// The content of a page.
    fn fetch_page(&self, page: u64) -> (result: Result<Vec<u8>, SnapshotMiss>)
        requires
            page <= u64::MAX / PAGE_SIZE,
        ensures
            match result {
                Ok(content) => page_content(
                    self.spec_snapshot(),
                    self.spec_supplied(),
                    page * PAGE_SIZE,
                ) == Ok::<Seq<u8>, SnapshotMiss>(content@),
                Err(miss) => page_content(
                    self.spec_snapshot(),
                    self.spec_supplied(),
                    page * PAGE_SIZE,
                ) == Err::<Seq<u8>, SnapshotMiss>(miss),
            },
    {
        let start: u64 = page * PAGE_SIZE;
        match self.find_dirty(start) {
            PageLookup::Found(content) => Ok(content),
            PageLookup::Broken => Err(SnapshotMiss::Unreadable),
            PageLookup::Absent => match self.find_source(start) {
                PageLookup::Found(read) => match self.find_supplied(read) {
                    Some(part) => {
                        let content = copy_range(part, 0, part.len());
                        assert(content@ =~= part@);
                        Ok(content)
                    },
                    None => Err(SnapshotMiss::Source(read)),
                },
                PageLookup::Broken => Err(SnapshotMiss::Unreadable),
                PageLookup::Absent => {
                    let zeros: Vec<u8> = vec![0u8; PAGE_SIZE as usize];
                    assert(zeros@ =~= Seq::new(PAGE_SIZE as nat, |i: int| 0u8));
                    Ok(zeros)
                },
            },
        }
    }

    /// Fills `content` with the memory from `addr` on. Where a page cannot be read, what was
    /// read before it stays in `content`.
    pub fn load(&self, addr: u64, content: &mut [u8]) -> (result: Result<(), SnapshotMiss>)
        ensures
            parts_are_pages(self.spec_supplied()),
            ({
                let (bytes, stop) = self.spec_load(addr, old(content)@.len());
                &&& final(content)@ == bytes + old(content)@.skip(bytes.len() as int)
                &&& bytes.len() <= old(content)@.len()
                &&& match stop {
                    None => result is Ok && bytes.len() == old(content)@.len(),
                    Some(miss) => result == Err::<(), SnapshotMiss>(miss),
                }
            }),
    {
        proof {
            use_type_invariant(self);
            self.lemma_parts();
            self.lemma_pages();
            lemma_load_pages_len(
                self.spec_snapshot(),
                self.spec_supplied(),
                addr as int,
                old(content)@.len(),
            );
        }
        let size: usize = content.len();
        let mut at: u64 = addr;
        let mut loaded: usize = 0;
        let ghost whole = self.spec_load(addr, size as nat);
        let ghost mut done: Seq<u8> = Seq::empty();
        assert(done + whole.0 =~= whole.0);
        assert(content@ =~= done + old(content)@.skip(0));
        while loaded < size
            invariant
                loaded <= size,
                parts_are_pages(self.spec_supplied()),
                size == old(content)@.len(),
                content@ == done + old(content)@.skip(loaded as int),
                done.len() == loaded,
                forall|start: int|
                    (#[trigger] page_content(self.spec_snapshot(), self.spec_supplied(), start))
                        matches Ok(page) ==> page.len() == PAGE_SIZE,
                whole == self.spec_load(addr, size as nat),
                whole.0 == done + self.spec_load(at, (size - loaded) as nat).0,
                whole.1 == self.spec_load(at, (size - loaded) as nat).1,
                whole.0.len() <= size,
                whole.1 is None ==> whole.0.len() == size,
            decreases size - loaded,
        {
            let page: u64 = at / PAGE_SIZE;
            let offset: u64 = at % PAGE_SIZE;
            let data = match self.fetch_page(page) {
                Ok(data) => data,
                Err(miss) => {
                    assert(whole.0 =~= done);
                    return Err(miss);
                },
            };
            let available: usize = (PAGE_SIZE - offset) as usize;
            let read: usize = if size - loaded < available {
                size - loaded
            } else {
                available
            };
            let ghost before = content@;
            let mut i: usize = 0;
            while i < read
                invariant
                    i <= read <= size - loaded,
                    offset + read <= PAGE_SIZE,
                    data@.len() == PAGE_SIZE,
                    loaded + read <= size == before.len(),
                    content@.len() == before.len(),
                    forall|j: int|
                        0 <= j < before.len() ==> #[trigger] content@[j] == (if loaded <= j < loaded
                            + i {
                            data@[offset + (j - loaded)]
                        } else {
                            before[j]
                        }),
                decreases read - i,
            {
                content[loaded + i] = data[offset as usize + i];
                i = i + 1;
            }
            let ghost bytes = data@.subrange(offset as int, offset + read);
            proof {
                let next = done + bytes;
                assert(content@ =~= next + old(content)@.skip(loaded + read));
            }
            if at > u64::MAX - read as u64 {
                assert(whole.0 =~= done + bytes);
                return Err(SnapshotMiss::Unreadable);
            }
            proof {
                let rest = self.spec_load((at + read) as u64, (size - loaded - read) as nat);
                assert(done + (bytes + rest.0) =~= (done + bytes) + rest.0);
                done = done + bytes;
            }
            loaded = loaded + read;
            at = at + read as u64;
        }
        assert(whole.0 =~= done);
        assert(old(content)@.skip(size as int) =~= Seq::<u8>::empty());
        Ok(())
    }
}

/// The byte at `addr`: the byte at its offset in its page.
pub open spec fn memory_byte(
    snapshot: Snapshot,
    supplied: Map<SourceRead, Seq<u8>>,
    addr: int,
) -> Result<u8, SnapshotMiss> {
    let offset = addr % (PAGE_SIZE as int);
    match page_content(snapshot, supplied, addr - offset) {
        Ok(page) => Ok(page[offset]),
        Err(miss) => Err(miss),
    }
}

/// Every part that was supplied is a page.
pub open spec fn parts_are_pages(supplied: Map<SourceRead, Seq<u8>>) -> bool {
    forall|read: SourceRead| #[trigger]
        supplied.contains_key(read) ==> supplied[read].len() == PAGE_SIZE
}

/// The bytes of one page.
proof fn lemma_bytes_of_page(
    snapshot: Snapshot,
    supplied: Map<SourceRead, Seq<u8>>,
    addr: int,
    i: int,
)
    requires
        0 <= addr,
        0 <= i < PAGE_SIZE - addr % (PAGE_SIZE as int),
    ensures
        memory_byte(snapshot, supplied, addr + i) == match page_content(
            snapshot,
            supplied,
            addr - addr % (PAGE_SIZE as int),
        ) {
            Ok(page) => Ok(page[addr % (PAGE_SIZE as int) + i]),
            Err(miss) => Err(miss),
        },
{
    assert((addr + i) % (PAGE_SIZE as int) == addr % (PAGE_SIZE as int) + i);
}

/// What a read gives, and what stops it.
proof fn lemma_load_is_bytewise(
    snapshot: Snapshot,
    supplied: Map<SourceRead, Seq<u8>>,
    addr: int,
    size: nat,
)
    requires
        parts_are_pages(supplied),
        0 <= addr <= u64::MAX,
    ensures
        ({
            let (bytes, stop) = load_pages(snapshot, supplied, addr, size);
            &&& bytes.len() <= size
            &&& forall|i: int|
                0 <= i < bytes.len() ==> #[trigger] memory_byte(snapshot, supplied, addr + i)
                    == Ok::<u8, SnapshotMiss>(bytes[i])
            &&& stop is None ==> bytes.len() == size && (size == 0 || addr + size <= u64::MAX)
            &&& stop matches Some(miss) ==> {
                ||| miss is Unreadable && addr + bytes.len() > u64::MAX
                ||| bytes.len() < size && memory_byte(snapshot, supplied, addr + bytes.len())
                    == Err::<u8, SnapshotMiss>(miss)
            }
        }),
    decreases size,
{
    if size > 0 {
        let offset = addr % (PAGE_SIZE as int);
        let (bytes, stop) = load_pages(snapshot, supplied, addr, size);
        lemma_dirty_page_is_page(snapshot.dirty_pages@, addr - offset);
        lemma_bytes_of_page(snapshot, supplied, addr, 0);
        if let Ok(page) = page_content(snapshot, supplied, addr - offset) {
            assert(page.len() == PAGE_SIZE);
            let read = if size < PAGE_SIZE - offset {
                size as int
            } else {
                PAGE_SIZE - offset
            };
            let head = page.subrange(offset, offset + read);
            let tail = load_pages(snapshot, supplied, addr + read, (size - read) as nat);
            if addr + read <= u64::MAX {
                lemma_load_is_bytewise(snapshot, supplied, addr + read, (size - read) as nat);
                assert(addr + bytes.len() == addr + read + tail.0.len());
            }
            assert forall|i: int| 0 <= i < bytes.len() implies #[trigger] memory_byte(
                snapshot,
                supplied,
                addr + i,
            ) == Ok::<u8, SnapshotMiss>(bytes[i]) by {
                if i < read {
                    lemma_bytes_of_page(snapshot, supplied, addr, i);
                } else {
                    assert(addr + i == addr + read + (i - read));
                    assert(bytes[i] == tail.0[i - read]);
                }
            }
        }
    }
}

/// Reading across pages is reading byte by byte. The bytes that a read gives are the bytes
/// at their addresses; it gives all of them if and only if every one can be read and the
/// address after the last one fits; and what stops it is what keeps the next byte from being
/// read, or an address that does not fit.
pub proof fn law_load_is_bytewise(
    snapshot: Snapshot,
    supplied: Map<SourceRead, Seq<u8>>,
    addr: u64,
    size: nat,
)
    requires
        parts_are_pages(supplied),
    ensures
        ({
            let (bytes, stop) = load_pages(snapshot, supplied, addr as int, size);
            &&& bytes.len() <= size
            &&& forall|i: int|
                0 <= i < bytes.len() ==> #[trigger] memory_byte(snapshot, supplied, addr + i)
                    == Ok::<u8, SnapshotMiss>(bytes[i])
            &&& stop is None <==> {
                &&& size == 0 || addr + size <= u64::MAX
                &&& forall|i: int|
                    0 <= i < size ==> (#[trigger] memory_byte(snapshot, supplied, addr + i)) is Ok
            }
            &&& stop is None ==> bytes.len() == size
            &&& stop matches Some(miss) ==> {
                ||| miss is Unreadable && addr + bytes.len() > u64::MAX
                ||| bytes.len() < size && memory_byte(snapshot, supplied, addr + bytes.len())
                    == Err::<u8, SnapshotMiss>(miss)
            }
        }),
{
    lemma_load_is_bytewise(snapshot, supplied, addr as int, size);
}

impl<'a> ReadonlySnapshotMachine<'a> {
    /// A number of `size` bytes at `addr`.
    pub open spec fn spec_number(&self, addr: u64, size: nat) -> Result<nat, SnapshotMiss> {
        match self.spec_load(addr, size) {
            (bytes, None) => Ok(crate::bytes::little_endian(bytes)),
            (_, Some(miss)) => Err(miss),
        }
    }

    /// Reads a number of `size` bytes.
    fn load_number(&self, addr: u64, size: usize) -> (result: Result<u64, SnapshotMiss>)
        requires
            size <= 8,
        ensures
            match result {
                Ok(value) => self.spec_number(addr, size as nat) == Ok::<nat, SnapshotMiss>(
                    value as nat,
                ) && value < vstd::arithmetic::power::pow(256, size as nat),
                Err(miss) => self.spec_number(addr, size as nat) == Err::<nat, SnapshotMiss>(miss),
            },
    {
        let mut buffer: Vec<u8> = vec![0u8; size];
        match self.load(addr, buffer.as_mut_slice()) {
            Ok(()) => {
                assert(buffer@ =~= self.spec_load(addr, size as nat).0);
                Ok(read_little_endian(buffer.as_slice()))
            },
            Err(miss) => Err(miss),
        }
    }
}

impl<'a> Machine for ReadonlySnapshotMachine<'a> {
    type Missing = SnapshotMiss;

    open spec fn register_file(&self) -> Seq<u64> {
        self.spec_snapshot().registers@
    }

    /// A read that is too long to be held cannot be answered.
    open spec fn reads(&self) -> crate::machine::Reads<SnapshotMiss> {
        |read: MemoryRead|
            if read.spec_size() > isize::MAX {
                Err(SnapshotMiss::Unreadable)
            } else {
                match self.spec_load(read.spec_addr(), read.spec_size() as nat) {
                    (bytes, None) => Ok(bytes),
                    (_, Some(miss)) => Err(miss),
                }
            }
    }

    fn register(&self, index: usize) -> (value: u64) {
        proof {
            use_type_invariant(self);
        }
        self.registers[index]
    }

    fn load8(&self, addr: u64) -> (result: Result<u8, SnapshotMiss>) {
        let mut buffer: Vec<u8> = vec![0u8; 1];
        match self.load(addr, buffer.as_mut_slice()) {
            Ok(()) => Ok(buffer[0]),
            Err(miss) => Err(miss),
        }
    }

    fn load64(&self, addr: u64) -> (result: Result<u64, SnapshotMiss>) {
        self.load_number(addr, 8)
    }

    fn load_bytes(&self, addr: u64, size: u64) -> (result: Result<Vec<u8>, SnapshotMiss>) {
        if size > isize::MAX as u64 {
            return Err(SnapshotMiss::Unreadable);
        }
        let mut buffer: Vec<u8> = vec![0u8; size as usize];
        match self.load(addr, buffer.as_mut_slice()) {
            Ok(()) => {
                assert(buffer@ =~= self.spec_load(addr, size as nat).0);
                Ok(buffer)
            },
            Err(miss) => Err(miss),
        }
    }
}

impl<'a> InspectableMachine for ReadonlySnapshotMachine<'a> {
    open spec fn number_at(&self, addr: u64, size: nat) -> Result<nat, SnapshotMiss> {
        self.spec_number(addr, size)
    }

    open spec fn reservation(&self) -> u64 {
        self.spec_snapshot().load_reservation_address
    }

    open spec fn program_counter(&self) -> u64 {
        self.spec_snapshot().pc
    }

    open spec fn machine_version(&self) -> u32 {
        self.spec_snapshot().version
    }

    open spec fn consumed_cycles(&self) -> u64 {
        self.spec_snapshot().cycles
    }

    open spec fn cycle_limit(&self) -> u64 {
        self.spec_snapshot().max_cycles
    }

    fn load16(&self, addr: u64) -> (result: Result<u16, SnapshotMiss>) {
        match self.load_number(addr, 2) {
            Ok(value) => {
                proof {
                    reveal_with_fuel(vstd::arithmetic::power::pow, 3);
                }
                Ok(value as u16)
            },
            Err(miss) => Err(miss),
        }
    }

    fn load32(&self, addr: u64) -> (result: Result<u32, SnapshotMiss>) {
        match self.load_number(addr, 4) {
            Ok(value) => {
                proof {
                    reveal_with_fuel(vstd::arithmetic::power::pow, 5);
                }
                Ok(value as u32)
            },
            Err(miss) => Err(miss),
        }
    }

    fn lr(&self) -> (lr: u64) {
        proof {
            use_type_invariant(self);
        }
        self.lr
    }

    fn pc(&self) -> (pc: u64) {
        proof {
            use_type_invariant(self);
        }
        self.pc
    }

    fn registers(&self) -> (registers: &[u64; REGISTER_COUNT]) {
        proof {
            use_type_invariant(self);
        }
        &self.registers
    }

    fn version(&self) -> (version: u32) {
        self.snapshot.version
    }

    fn cycles(&self) -> (cycles: u64) {
        self.snapshot.cycles
    }

    fn max_cycles(&self) -> (max_cycles: u64) {
        self.snapshot.max_cycles
    }
}

} // verus!
