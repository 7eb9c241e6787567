use ckb_vm_syscall_tracer::data::{DataLengths, DataPieceId, LengthQuery};
use ckb_vm_syscall_tracer::keys::CollectorKey;
use ckb_vm_syscall_tracer::locator::{
    apply_partial_locator, build_partial_locator, normalize_locator, spawned_itself,
    BinaryLocator, PartialLocator, PostprocessError,
};
use ckb_vm_syscall_tracer::machine::{
    MemoryRead, ReadMiss, RecordedMachine, A0, A1, A2, A3, A4, A7, REGISTER_COUNT,
};

fn machine(registers: &[(usize, u64)]) -> RecordedMachine {
    let mut all = [0u64; REGISTER_COUNT];
    for (register, value) in registers {
        all[*register] = *value;
    }
    RecordedMachine::new(all)
}

fn locator(source: u64, length: u32, from_cell: bool) -> BinaryLocator {
    BinaryLocator { index: 3, source, offset: 16, length, from_cell }
}

fn normalize(
    locator: BinaryLocator,
    lengths: &DataLengths,
) -> Result<BinaryLocator, PostprocessError<ReadMiss>> {
    normalize_locator(&locator, lengths)
}

#[test]
fn the_bounds_hold_the_offset_and_the_length() {
    let registers =
        [(A7, 2601), (A0, 7), (A1, 3), (A2, 0), (A3, 0x0102_0304_0506_0708)];
    let expected = BinaryLocator {
        index: 7,
        source: 3,
        offset: 0x0102_0304,
        length: 0x0506_0708,
        from_cell: true,
    };
    assert_eq!(
        build_partial_locator(&machine(&registers)),
        Some(PartialLocator::Spawn(expected))
    );
    let registers = [(A7, 2043), (A0, 7), (A1, 3), (A2, 0), (A3, 0x0102_0304_0506_0708)];
    assert_eq!(
        build_partial_locator(&machine(&registers)),
        Some(PartialLocator::Exec(expected))
    );
    assert_eq!(build_partial_locator(&machine(&[(A7, 2602)])), None);
    assert_eq!(build_partial_locator(&machine(&[(A7, 1)])), None);
}

#[test]
fn a_locator_with_a_length_stays_as_it_is() {
    let given = locator(99, 1, true);
    assert_eq!(normalize(given, &DataLengths::new()), Ok(given));
}

#[test]
fn every_piece_of_data_can_be_located() {
    let group_input = 0x0100_0000_0000_0001;
    let group_output = 0x0100_0000_0000_0002;
    let pieces = vec![
        (1, true, DataPieceId::Input(3)),
        (2, true, DataPieceId::Output(3)),
        (3, true, DataPieceId::CellDep(3)),
        (group_input, true, DataPieceId::GroupInput(3)),
        (group_output, true, DataPieceId::GroupOutput(3)),
        (1, false, DataPieceId::Witness(3)),
        (2, false, DataPieceId::Witness(3)),
        (group_input, false, DataPieceId::WitnessGroupInput(3)),
        (group_output, false, DataPieceId::WitnessGroupOutput(3)),
    ];
    for (source, from_cell, piece) in pieces {
        let given = locator(source, 0, from_cell);
        let query = LengthQuery { piece, offset: 16 };
        let mut lengths = DataLengths::new();
        assert_eq!(normalize(given, &lengths), Err(PostprocessError::Length(query)));
        lengths.supply(query, Some(90));
        let found = locator(source, 90, from_cell);
        assert_eq!(normalize(given, &lengths), Ok(found));
        assert_eq!(normalize(found, &lengths), Ok(found));
    }
    assert!(matches!(
        normalize(locator(3, 0, false), &DataLengths::new()),
        Err(PostprocessError::DataPiece(_))
    ));
}

#[test]
fn a_place_without_a_program_is_no_locator() {
    let query = LengthQuery { piece: DataPieceId::CellDep(3), offset: 16 };
    let mut lengths = DataLengths::new();
    for length in [Some(0), Some(0x1_0000_0000), Some(0x2_0000_0005), None] {
        // The latest length counts.
        lengths.supply(query, length);
        assert_eq!(
            normalize(locator(3, 0, true), &lengths),
            Err(PostprocessError::InvalidLocator(locator(3, 0, true)))
        );
    }
    lengths.supply(query, Some(0xffff_ffff));
    assert_eq!(normalize(locator(3, 0, true), &lengths), Ok(locator(3, u32::MAX, true)));
    lengths.supply(query, Some(1));
    assert_eq!(normalize(locator(3, 0, true), &lengths), Ok(locator(3, 1, true)));
    assert_eq!(normalize(locator(3, 7, true), &lengths), Ok(locator(3, 7, true)));
    lengths.supply(query, None);
    assert_eq!(
        normalize(locator(3, 0, true), &lengths),
        Err(PostprocessError::InvalidLocator(locator(3, 0, true)))
    );
}

#[test]
fn a_replacing_program_runs_in_another_generation() {
    let old_key = CollectorKey { vm_id: 2, generation_id: 0 };
    let new_key = CollectorKey { vm_id: 2, generation_id: 1 };
    let given = locator(3, 9, true);
    let partial = PartialLocator::Exec(given);
    let lengths = DataLengths::new();
    let machine = machine(&[]);
    assert_eq!(
        apply_partial_locator(&old_key, &new_key, &partial, &machine, &lengths),
        Ok(Some((2, given)))
    );
    assert_eq!(
        apply_partial_locator(&old_key, &old_key, &partial, &machine, &lengths),
        Ok(None)
    );
}

#[test]
fn a_started_program_runs_where_memory_says() {
    let key = CollectorKey { vm_id: 2, generation_id: 0 };
    let given = locator(3, 9, true);
    let partial = PartialLocator::Spawn(given);
    let lengths = DataLengths::new();
    let mut machine = machine(&[(A4, 0x1000)]);
    assert_eq!(
        apply_partial_locator(&key, &key, &partial, &machine, &lengths),
        Err(PostprocessError::Read {
            vm_id: 2,
            missing: ReadMiss::Unknown(MemoryRead::Load64 { addr: 0x1010 })
        })
    );
    machine.supply(MemoryRead::Load64 { addr: 0x1010 }, 0x50u64.to_le_bytes().to_vec());
    machine.supply(MemoryRead::Load64 { addr: 0x50 }, 6u64.to_le_bytes().to_vec());
    assert_eq!(
        apply_partial_locator(&key, &key, &partial, &machine, &lengths),
        Ok(Some((6, given)))
    );
}

#[test]
fn a_machine_that_started_itself_is_told() {
    let given = locator(3, 9, true);
    let mut machine = machine(&[(A4, 0x1000)]);
    let spawn = PartialLocator::Spawn(given);
    assert!(!spawned_itself(&spawn, 6, &machine));
    machine.supply(MemoryRead::Load64 { addr: 0x1010 }, 0x50u64.to_le_bytes().to_vec());
    machine.supply(MemoryRead::Load64 { addr: 0x50 }, 6u64.to_le_bytes().to_vec());
    assert!(spawned_itself(&spawn, 6, &machine));
    assert!(!spawned_itself(&spawn, 5, &machine));
    assert!(!spawned_itself(&PartialLocator::Exec(given), 6, &machine));
}
