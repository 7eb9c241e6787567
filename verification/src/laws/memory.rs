//! What the memory of a virtual machine holds: the numbers in it, and the pages of a snapshot.
use vstd::prelude::*;

use crate::machine::{Machine, MemoryRead};
use crate::readonly_machines::{
    DirtyPages, InspectableMachine, PageLookup, ReadonlyMachine, ReadonlySnapshotMachine, Snapshot,
    SnapshotMiss, SourcePages, SourceRead,
};

verus! {

/// The bytes of a number are its digits to the base 256, the least significant first, and it
/// has no others.
pub proof fn law_bytes_are_digits(bytes: Seq<u8>, i: int)
    requires
        0 <= i < bytes.len(),
    ensures
        bytes[i] == (crate::bytes::little_endian(bytes) as int / vstd::arithmetic::power::pow(
            256,
            i as nat,
        )) % 256,
        crate::bytes::little_endian(bytes) < vstd::arithmetic::power::pow(256, bytes.len()),
    decreases i,
{
    let number = crate::bytes::little_endian(bytes) as int;
    let rest = crate::bytes::little_endian(bytes.drop_first()) as int;
    let first = bytes[0] as int;
    crate::bytes::lemma_little_endian_bound(bytes);
    reveal(vstd::arithmetic::power::pow);
    assert(number == first + 256 * rest);
    assert(number / 256 == rest && number % 256 == first);
    if i > 0 {
        law_bytes_are_digits(bytes.drop_first(), i - 1);
        let power = vstd::arithmetic::power::pow(256, (i - 1) as nat);
        vstd::arithmetic::power::lemma_pow_positive(256, (i - 1) as nat);
        vstd::arithmetic::div_mod::lemma_div_denominator(number, 256, power);
        assert(bytes.drop_first()[i - 1] == bytes[i]);
    }
}

/// Bytes that are all zero hold zero, and one byte holds itself.
pub proof fn law_small_numbers(bytes: Seq<u8>)
    ensures
        bytes.len() == 0 ==> crate::bytes::little_endian(bytes) == 0,
        bytes.len() == 1 ==> crate::bytes::little_endian(bytes) == bytes[0],
{
    reveal_with_fuel(crate::bytes::little_endian, 2);
}

/// The entry of the pages in a snapshot that decides on a page.
proof fn lemma_deciding_dirty_entry(pages: Seq<DirtyPages>, start: int, k: int)
    requires
        0 <= k < pages.len(),
        forall|j: int|
            0 <= j < k ==> (#[trigger] pages[j]).addr + pages[j].content@.len() <= u64::MAX && !(
            pages[j].addr <= start < pages[j].addr + pages[j].content@.len()),
        pages[k].addr + pages[k].content@.len() > u64::MAX || pages[k].addr <= start
            < pages[k].addr + pages[k].content@.len(),
    ensures
        ({
            let end = pages[k].addr + pages[k].content@.len();
            if end > u64::MAX || start + 4096 > end {
                crate::readonly_machines::dirty_page(pages, start) is Broken
            } else {
                crate::readonly_machines::dirty_page(pages, start) == PageLookup::Found(
                    Seq::new(4096, |i: int| pages[k].content@[start - pages[k].addr + i]),
                )
            }
        }),
    decreases k,
{
    if k > 0 {
        assert(pages[0].addr + pages[0].content@.len() <= u64::MAX);
        assert forall|j: int| 0 <= j < k - 1 implies (#[trigger] pages.drop_first()[j]).addr
            + pages.drop_first()[j].content@.len() <= u64::MAX && !(pages.drop_first()[j].addr
            <= start < pages.drop_first()[j].addr + pages.drop_first()[j].content@.len()) by {
            assert(pages.drop_first()[j] == pages[j + 1]);
        }
        assert(pages.drop_first()[k - 1] == pages[k]);
        lemma_deciding_dirty_entry(pages.drop_first(), start, k - 1);
    } else {
        let end = pages[0].addr + pages[0].content@.len();
        if end <= u64::MAX && start + 4096 <= end {
            let offset = start - pages[0].addr;
            assert(pages[0].content@.subrange(offset, offset + 4096) =~= Seq::new(
                4096,
                |i: int| pages[0].content@[start - pages[0].addr + i],
            ));
        }
    }
}

/// No entry of the pages in a snapshot decides on a page.
proof fn lemma_no_dirty_entry(pages: Seq<DirtyPages>, start: int)
    requires
        forall|j: int|
            0 <= j < pages.len() ==> (#[trigger] pages[j]).addr + pages[j].content@.len()
                <= u64::MAX && !(pages[j].addr <= start < pages[j].addr
                + pages[j].content@.len()),
    ensures
        crate::readonly_machines::dirty_page(pages, start) is Absent,
    decreases pages.len(),
{
    if pages.len() > 0 {
        assert(pages[0].addr + pages[0].content@.len() <= u64::MAX);
        assert forall|j: int| 0 <= j < pages.drop_first().len() implies (
        #[trigger] pages.drop_first()[j]).addr + pages.drop_first()[j].content@.len() <= u64::MAX
            && !(pages.drop_first()[j].addr <= start < pages.drop_first()[j].addr
            + pages.drop_first()[j].content@.len()) by {
            assert(pages.drop_first()[j] == pages[j + 1]);
        }
        lemma_no_dirty_entry(pages.drop_first(), start);
    }
}

/// The entry of the pages from pieces of data that decides on a page.
proof fn lemma_deciding_source_entry(pages: Seq<SourcePages>, start: int, k: int)
    requires
        0 <= k < pages.len(),
        forall|j: int|
            0 <= j < k ==> (#[trigger] pages[j]).addr + pages[j].length <= u64::MAX && !(
            pages[j].addr <= start < pages[j].addr + pages[j].length),
        pages[k].addr + pages[k].length > u64::MAX || pages[k].addr <= start < pages[k].addr
            + pages[k].length,
    ensures
        ({
            let end = pages[k].addr + pages[k].length;
            let offset = pages[k].offset + (start - pages[k].addr);
            if end > u64::MAX || start + 4096 > end || offset > u64::MAX {
                crate::readonly_machines::source_page(pages, start) is Broken
            } else {
                crate::readonly_machines::source_page(pages, start) == PageLookup::Found(
                    SourceRead { id: pages[k].id, offset: offset as u64 },
                )
            }
        }),
    decreases k,
{
    if k > 0 {
        assert(pages[0].addr + pages[0].length <= u64::MAX);
        assert forall|j: int| 0 <= j < k - 1 implies (#[trigger] pages.drop_first()[j]).addr
            + pages.drop_first()[j].length <= u64::MAX && !(pages.drop_first()[j].addr <= start
            < pages.drop_first()[j].addr + pages.drop_first()[j].length) by {
            assert(pages.drop_first()[j] == pages[j + 1]);
        }
        assert(pages.drop_first()[k - 1] == pages[k]);
        lemma_deciding_source_entry(pages.drop_first(), start, k - 1);
    }
}

/// No entry of the pages from pieces of data decides on a page.
proof fn lemma_no_source_entry(pages: Seq<SourcePages>, start: int)
    requires
        forall|j: int|
            0 <= j < pages.len() ==> (#[trigger] pages[j]).addr + pages[j].length <= u64::MAX && !(
            pages[j].addr <= start < pages[j].addr + pages[j].length),
    ensures
        crate::readonly_machines::source_page(pages, start) is Absent,
    decreases pages.len(),
{
    if pages.len() > 0 {
        assert(pages[0].addr + pages[0].length <= u64::MAX);
        assert forall|j: int| 0 <= j < pages.drop_first().len() implies (
        #[trigger] pages.drop_first()[j]).addr + pages.drop_first()[j].length <= u64::MAX && !(
        pages.drop_first()[j].addr <= start < pages.drop_first()[j].addr
            + pages.drop_first()[j].length) by {
            assert(pages.drop_first()[j] == pages[j + 1]);
        }
        lemma_no_source_entry(pages.drop_first(), start);
    }
}

/// Where an entry that is kept in the snapshot is the first to hold the start of the page of
/// an address, the byte at the address is the one as far into the content of the entry as the
/// address is from the address of the entry, in whichever of its pages that is. If the entry
/// does not hold the whole page, or goes past the last address, no byte of the page can be
/// read.
pub proof fn law_kept_byte_is_read_in_place(
    snapshot: Snapshot,
    supplied: Map<SourceRead, Seq<u8>>,
    k: int,
    addr: u64,
)
    requires
        0 <= k < snapshot.dirty_pages@.len(),
        ({
            let start = addr - addr % 4096;
            let entry = snapshot.dirty_pages@[k];
            &&& forall|j: int|
                0 <= j < k ==> (#[trigger] snapshot.dirty_pages@[j]).addr
                    + snapshot.dirty_pages@[j].content@.len() <= u64::MAX && !(
                snapshot.dirty_pages@[j].addr <= start < snapshot.dirty_pages@[j].addr
                    + snapshot.dirty_pages@[j].content@.len())
            &&& entry.addr + entry.content@.len() > u64::MAX || entry.addr <= start < entry.addr
                + entry.content@.len()
        }),
    ensures
        ({
            let start = addr - addr % 4096;
            let entry = snapshot.dirty_pages@[k];
            let end = entry.addr + entry.content@.len();
            crate::readonly_machines::memory_byte(snapshot, supplied, addr as int) == if end
                > u64::MAX || start + 4096 > end {
                Err::<u8, SnapshotMiss>(SnapshotMiss::Unreadable)
            } else {
                Ok::<u8, SnapshotMiss>(entry.content@[addr - entry.addr])
            }
        }),
{
    lemma_deciding_dirty_entry(snapshot.dirty_pages@, addr - addr % 4096, k);
}

/// Where no entry that is kept in the snapshot holds the start of the page of an address, and
/// an entry from a piece of data is the first to hold it, the page is the part of the piece
/// that is as far into the content of the entry as the page is from the address of the entry.
/// The byte at the address is in that part; a part that was not supplied is what is missing.
/// If the entry does not hold the whole page, or an end or an offset does not fit, no byte of
/// the page can be read.
pub proof fn law_byte_of_piece_is_read_in_place(
    snapshot: Snapshot,
    supplied: Map<SourceRead, Seq<u8>>,
    k: int,
    addr: u64,
)
    requires
        0 <= k < snapshot.pages_from_source@.len(),
        ({
            let start = addr - addr % 4096;
            let entry = snapshot.pages_from_source@[k];
            &&& forall|j: int|
                0 <= j < snapshot.dirty_pages@.len() ==> (#[trigger] snapshot.dirty_pages@[j]).addr
                    + snapshot.dirty_pages@[j].content@.len() <= u64::MAX && !(
                snapshot.dirty_pages@[j].addr <= start < snapshot.dirty_pages@[j].addr
                    + snapshot.dirty_pages@[j].content@.len())
            &&& forall|j: int|
                0 <= j < k ==> (#[trigger] snapshot.pages_from_source@[j]).addr
                    + snapshot.pages_from_source@[j].length <= u64::MAX && !(
                snapshot.pages_from_source@[j].addr <= start < snapshot.pages_from_source@[j].addr
                    + snapshot.pages_from_source@[j].length)
            &&& entry.addr + entry.length > u64::MAX || entry.addr <= start < entry.addr
                + entry.length
        }),
    ensures
        ({
            let start = addr - addr % 4096;
            let entry = snapshot.pages_from_source@[k];
            let end = entry.addr + entry.length;
            let offset = entry.offset + (start - entry.addr);
            let part = SourceRead { id: entry.id, offset: offset as u64 };
            crate::readonly_machines::memory_byte(snapshot, supplied, addr as int) == if end
                > u64::MAX || start + 4096 > end || offset > u64::MAX {
                Err::<u8, SnapshotMiss>(SnapshotMiss::Unreadable)
            } else if supplied.contains_key(part) {
                Ok::<u8, SnapshotMiss>(supplied[part][addr - start])
            } else {
                Err::<u8, SnapshotMiss>(SnapshotMiss::Source(part))
            }
        }),
{
    lemma_no_dirty_entry(snapshot.dirty_pages@, addr - addr % 4096);
    lemma_deciding_source_entry(snapshot.pages_from_source@, addr - addr % 4096, k);
}

/// Where no entry holds the start of the page of an address, the byte at the address is zero.
pub proof fn law_byte_of_no_entry_is_zero(
    snapshot: Snapshot,
    supplied: Map<SourceRead, Seq<u8>>,
    addr: u64,
)
    requires
        ({
            let start = addr - addr % 4096;
            &&& forall|j: int|
                0 <= j < snapshot.dirty_pages@.len() ==> (#[trigger] snapshot.dirty_pages@[j]).addr
                    + snapshot.dirty_pages@[j].content@.len() <= u64::MAX && !(
                snapshot.dirty_pages@[j].addr <= start < snapshot.dirty_pages@[j].addr
                    + snapshot.dirty_pages@[j].content@.len())
            &&& forall|j: int|
                0 <= j < snapshot.pages_from_source@.len() ==> (
                #[trigger] snapshot.pages_from_source@[j]).addr
                    + snapshot.pages_from_source@[j].length <= u64::MAX && !(
                snapshot.pages_from_source@[j].addr <= start < snapshot.pages_from_source@[j].addr
                    + snapshot.pages_from_source@[j].length)
        }),
    ensures
        crate::readonly_machines::memory_byte(snapshot, supplied, addr as int) == Ok::<
            u8,
            SnapshotMiss,
        >(0),
{
    lemma_no_dirty_entry(snapshot.dirty_pages@, addr - addr % 4096);
    lemma_no_source_entry(snapshot.pages_from_source@, addr - addr % 4096);
}

/// A snapshot answers a read with as many bytes as it asks for, each the byte at its address,
/// if and only if each of them can be read, the address after the last one fits, and they are
/// no more than memory can hold. Where a byte cannot be read, the snapshot says what keeps one
/// of them from being read, the bytes before which can be.
pub proof fn law_snapshot_answers_byte_by_byte(
    machine: &ReadonlySnapshotMachine<'_>,
    read: MemoryRead,
    addr: u64,
    size: u64,
)
    requires
        crate::readonly_machines::parts_are_pages(machine.spec_supplied()),
        ({
            ||| read == (MemoryRead::LoadBytes { addr, size })
            ||| read == (MemoryRead::Load64 { addr }) && size == 8
            ||| read == (MemoryRead::Load8 { addr }) && size == 1
        }),
    ensures
        (machine.reads())(read) is Ok <==> {
            &&& size <= isize::MAX
            &&& size == 0 || addr + size <= u64::MAX
            &&& forall|i: int|
                0 <= i < size ==> (#[trigger] crate::readonly_machines::memory_byte(
                    machine.spec_snapshot(),
                    machine.spec_supplied(),
                    addr + i,
                )) is Ok
        },
        match (machine.reads())(read) {
            Ok(bytes) => {
                &&& bytes.len() == size
                &&& forall|i: int|
                    0 <= i < size ==> #[trigger] crate::readonly_machines::memory_byte(
                        machine.spec_snapshot(),
                        machine.spec_supplied(),
                        addr + i,
                    ) == Ok::<u8, SnapshotMiss>(bytes[i])
            },
            Err(miss) => {
                ||| miss is Unreadable && (size > isize::MAX || addr + size > u64::MAX)
                ||| exists|n: int|
                    {
                        &&& 0 <= n < size
                        &&& #[trigger] crate::readonly_machines::memory_byte(
                            machine.spec_snapshot(),
                            machine.spec_supplied(),
                            addr + n,
                        ) == Err::<u8, SnapshotMiss>(miss)
                        &&& forall|i: int|
                            0 <= i < n ==> (#[trigger] crate::readonly_machines::memory_byte(
                                machine.spec_snapshot(),
                                machine.spec_supplied(),
                                addr + i,
                            )) is Ok
                    }
            },
        },
{
    crate::readonly_machines::law_load_is_bytewise(
        machine.spec_snapshot(),
        machine.spec_supplied(),
        addr,
        size as nat,
    );
    let (bytes, stop) = machine.spec_load(addr, size as nat);
    if let Some(miss) = stop {
        let n = bytes.len() as int;
        assert(forall|i: int|
            0 <= i < n ==> (#[trigger] crate::readonly_machines::memory_byte(
                machine.spec_snapshot(),
                machine.spec_supplied(),
                addr + i,
            )) is Ok);
    }
}

/// Where the reads start and how long they are.
pub proof fn law_extent_of_reads(addr: u64, size: u64)
    ensures
        (MemoryRead::Load8 { addr }).spec_addr() == addr,
        (MemoryRead::Load8 { addr }).spec_size() == 1,
        (MemoryRead::Load64 { addr }).spec_addr() == addr,
        (MemoryRead::Load64 { addr }).spec_size() == 8,
        (MemoryRead::LoadBytes { addr, size }).spec_addr() == addr,
        (MemoryRead::LoadBytes { addr, size }).spec_size() == size,
{
}

/// A number in a snapshot is the number that its bytes hold.
pub proof fn law_snapshot_numbers_are_their_bytes(
    machine: &ReadonlySnapshotMachine<'_>,
    addr: u64,
    size: u64,
)
    requires
        size <= 8,
    ensures
        match (machine.reads())(MemoryRead::LoadBytes { addr, size }) {
            Ok(bytes) => machine.number_at(addr, size as nat) == Ok::<nat, SnapshotMiss>(
                crate::bytes::little_endian(bytes),
            ),
            Err(miss) => machine.number_at(addr, size as nat) == Err::<nat, SnapshotMiss>(miss),
        },
{
}

/// What else is read of a snapshot is what it holds.
pub proof fn law_snapshot_state_is_what_it_holds(machine: &ReadonlySnapshotMachine<'_>)
    ensures
        machine.register_file() == machine.spec_snapshot().registers@,
        machine.reservation() == machine.spec_snapshot().load_reservation_address,
        machine.program_counter() == machine.spec_snapshot().pc,
        machine.machine_version() == machine.spec_snapshot().version,
        machine.consumed_cycles() == machine.spec_snapshot().cycles,
        machine.cycle_limit() == machine.spec_snapshot().max_cycles,
{
}

/// A view of a virtual machine shows what the virtual machine shows.
pub proof fn law_view_shows_the_machine<M: InspectableMachine>(
    view: &ReadonlyMachine<'_, M>,
    read: MemoryRead,
    addr: u64,
    size: nat,
)
    ensures
        view.register_file() == view.inner().register_file(),
        (view.reads())(read) == (view.inner().reads())(read),
        view.number_at(addr, size) == view.inner().number_at(addr, size),
        view.reservation() == view.inner().reservation(),
        view.program_counter() == view.inner().program_counter(),
        view.machine_version() == view.inner().machine_version(),
        view.consumed_cycles() == view.inner().consumed_cycles(),
        view.cycle_limit() == view.inner().cycle_limit(),
{
}

} // verus!
