use ckb_types::packed::Script;
use ckb_types::prelude::{Builder, Entity, Pack};
use ckb_vm_syscall_tracer::byte32::{parse_byte32, Byte32Error, HexError};
use ckb_vm_syscall_tracer::command_line::{
    parse_from_cell, script_log, select_cell_script, select_script, select_script_hash,
    trace_file_name, vm_name, CellKind, CellScripts, GroupKind, TransactionCells,
};
use ckb_vm_syscall_tracer::keys::CollectorKey;
use ckb_vm_syscall_tracer::samply::{
    normalize_function_name, parse_sample, sample_nanos, Sample, SampleError, Symbol,
};
use ckb_vm_syscall_tracer::text::{characters, parse_unsigned, trim_line_breaks, write_decimal};

fn hash_text() -> String {
    (0u8..32).map(|byte| format!("{:02x}", byte * 8 + 1)).collect()
}

fn hash_bytes() -> Vec<u8> {
    (0u8..32).map(|byte| byte * 8 + 1).collect()
}

#[test]
fn hashes_are_read() {
    assert_eq!(parse_byte32(&hash_text()), Ok(hash_bytes()));
    assert_eq!(parse_byte32(&format!("0x{}", hash_text())), Ok(hash_bytes()));
    assert_eq!(parse_byte32(&hash_text().to_uppercase()), Ok(hash_bytes()));
}

#[test]
fn texts_that_are_no_hashes() {
    assert_eq!(parse_byte32("0x123"), Err(Byte32Error::Hex(HexError::OddLength)));
    assert_eq!(
        parse_byte32("0x12g4"),
        Err(Byte32Error::Hex(HexError::InvalidHexCharacter { c: 'g', index: 2 }))
    );
    // Only a lower case prefix is left out.
    assert_eq!(
        parse_byte32("0X12"),
        Err(Byte32Error::Hex(HexError::InvalidHexCharacter { c: 'X', index: 1 }))
    );
    assert_eq!(
        parse_byte32("0x1234"),
        Err(Byte32Error::Creation(
            "Byte32Reader total size doesn't match, expect 32, actual 2".to_string()
        ))
    );
    assert!(matches!(parse_byte32(""), Err(Byte32Error::Creation(_))));
}

#[test]
fn whether_a_program_is_in_a_cell() {
    assert_eq!(parse_from_cell("t"), Ok(true));
    assert_eq!(parse_from_cell("true"), Ok(true));
    assert_eq!(parse_from_cell("T"), Ok(false));
    assert_eq!(parse_from_cell("false"), Ok(false));
    assert_eq!(parse_from_cell(""), Ok(false));
}

#[test]
fn runs_have_names() {
    let key = CollectorKey { vm_id: 12, generation_id: 0 };
    assert_eq!(vm_name(&key), "vm_12_0");
    assert_eq!(trace_file_name(&key), "vm_12_0.traces");
    let key = CollectorKey { vm_id: u64::MAX, generation_id: 305 };
    assert_eq!(vm_name(&key), "vm_18446744073709551615_305");
}

#[test]
fn names_of_runs_differ() {
    let mut names = vec![];
    for vm_id in 0..12 {
        for generation_id in 0..12 {
            let name = vm_name(&CollectorKey { vm_id, generation_id });
            assert!(!names.contains(&name));
            names.push(name);
        }
    }
}

#[test]
fn messages_of_scripts() {
    assert_eq!(script_log("hi\n"), Some("Script log: hi".to_string()));
    assert_eq!(script_log("a\nb\n\n"), Some("Script log: a\nb".to_string()));
    assert_eq!(script_log(" \n"), Some("Script log:  ".to_string()));
    assert_eq!(script_log("\n\n"), None);
    assert_eq!(script_log(""), None);
}

fn script(args: &str) -> Script {
    Script::new_builder()
        .code_hash([0x11u8; 32].pack())
        .hash_type(2u8.into())
        .args(args.as_bytes().pack())
        .build()
}

fn script_json(args: &str) -> String {
    let args: String = args.bytes().map(|byte| format!("{:02x}", byte)).collect();
    format!(
        "{{\"code_hash\": \"0x{}\", \"hash_type\": \"data1\", \"args\": \"0x{}\"}}",
        "11".repeat(32),
        args
    )
}

fn cell_json(lock: &str, type_: Option<&str>) -> String {
    let type_ = match type_ {
        Some(args) => script_json(args),
        None => "null".to_string(),
    };
    format!("{{\"capacity\": \"0x1\", \"lock\": {}, \"type\": {}}}", script_json(lock), type_)
}

// The first input has only a lock, the second one and the output have a type too.
fn transaction_json() -> String {
    let input = |cell: String| {
        format!(
            "{{\"input\": {{\"since\": \"0x0\", \"previous_output\": \
             {{\"tx_hash\": \"0x{}\", \"index\": \"0x0\"}}}}, \
             \"output\": {}, \"data\": \"0x\", \"header\": null}}",
            "22".repeat(32),
            cell
        )
    };
    format!(
        "{{\"mock_info\": {{\"inputs\": [{}, {}], \"cell_deps\": [], \"header_deps\": []}}, \
         \"tx\": {{\"version\": \"0x0\", \"cell_deps\": [], \"header_deps\": [], \
         \"inputs\": [], \"outputs\": [{}], \"outputs_data\": [\"0x\"], \
         \"witnesses\": []}}}}",
        input(cell_json("a", None)),
        input(cell_json("b", Some("c"))),
        cell_json("d", Some("e"))
    )
}

fn hash_of(args: &str) -> Option<Vec<u8>> {
    Some(script(args).calc_script_hash().as_slice().to_vec())
}

fn cells() -> TransactionCells {
    TransactionCells {
        inputs: vec![
            CellScripts { lock_script: vec![1], type_script: None },
            CellScripts { lock_script: vec![2], type_script: Some(vec![3]) },
        ],
        outputs: vec![CellScripts { lock_script: vec![4], type_script: Some(vec![5]) }],
    }
}

#[test]
fn the_script_of_a_cell_is_taken() {
    let lock = |kind: CellKind, index: usize| {
        select_cell_script(&cells(), kind, index, GroupKind::Lock)
    };
    assert_eq!(lock(CellKind::Input, 0), Some(vec![1]));
    assert_eq!(lock(CellKind::Input, 1), Some(vec![2]));
    assert_eq!(lock(CellKind::Input, 2), None);
    assert_eq!(lock(CellKind::Output, 0), Some(vec![4]));
    assert_eq!(lock(CellKind::Output, 1), None);
    let type_of = |kind: CellKind, index: usize| {
        select_cell_script(&cells(), kind, index, GroupKind::Type)
    };
    assert_eq!(type_of(CellKind::Input, 0), None);
    assert_eq!(type_of(CellKind::Input, 1), Some(vec![3]));
    assert_eq!(type_of(CellKind::Output, 0), Some(vec![5]));
}

#[test]
fn a_hash_that_is_given_is_taken() {
    let given = Some(vec![9]);
    assert_eq!(
        select_script_hash(
            given.clone(),
            &cells(),
            CellKind::Input,
            Some(0),
            GroupKind::Lock
        ),
        given
    );
    assert_eq!(
        select_script(
            &transaction_json(),
            given.clone(),
            CellKind::Input,
            Some(0),
            GroupKind::Lock
        ),
        Ok(given)
    );
}

#[test]
fn scripts_are_hashed() {
    let bytes = script("x").as_slice().to_vec();
    let cells = TransactionCells {
        inputs: vec![CellScripts { lock_script: bytes, type_script: None }],
        outputs: vec![],
    };
    let lock = |index: Option<usize>| {
        select_script_hash(None, &cells, CellKind::Input, index, GroupKind::Lock)
    };
    assert_eq!(lock(Some(0)), hash_of("x"));
    assert_eq!(lock(Some(1)), None);
    assert_eq!(lock(None), None);
}

#[test]
fn a_script_is_taken_from_the_text_of_a_transaction() {
    let text = transaction_json();
    let select = |cell_kind: CellKind, index: Option<usize>, group_kind: GroupKind| {
        select_script(&text, None, cell_kind, index, group_kind)
    };
    assert_eq!(select(CellKind::Input, Some(0), GroupKind::Lock), Ok(hash_of("a")));
    assert_eq!(select(CellKind::Input, Some(0), GroupKind::Type), Ok(None));
    assert_eq!(select(CellKind::Input, Some(1), GroupKind::Lock), Ok(hash_of("b")));
    assert_eq!(select(CellKind::Input, Some(1), GroupKind::Type), Ok(hash_of("c")));
    assert_eq!(select(CellKind::Input, Some(2), GroupKind::Lock), Ok(None));
    assert_eq!(select(CellKind::Output, Some(0), GroupKind::Lock), Ok(hash_of("d")));
    assert_eq!(select(CellKind::Output, Some(0), GroupKind::Type), Ok(hash_of("e")));
    assert_eq!(select(CellKind::Input, None, GroupKind::Lock), Ok(None));
}

#[test]
fn a_text_that_is_no_transaction() {
    let select = |text: &str| {
        select_script(text, Some(vec![9]), CellKind::Input, None, GroupKind::Lock)
    };
    assert_eq!(
        select(""),
        Err("EOF while parsing a value at line 1 column 0".to_string())
    );
    assert!(select("{}").is_err());
}

#[test]
fn symbols_have_names_and_files() {
    let known = Symbol { name: Some("main".to_string()), file: Some("main.c".to_string()) };
    assert_eq!(known.name(), "main");
    assert_eq!(known.file(), "main.c");
    let unknown = Symbol { name: None, file: None };
    assert_eq!(unknown.name(), "<Unknown>");
    assert_eq!(unknown.file(), "<Unknown>");
    assert_ne!(known, unknown);
    assert_eq!(known.clone(), known);
}

#[test]
fn function_names_stay_as_they_are() {
    assert_eq!(normalize_function_name("core::fmt::write"), "core::fmt::write");
    assert_eq!(normalize_function_name(""), "");
}

fn sample(stack: &[&str], cycles: u64) -> Result<Sample, SampleError> {
    Ok(Sample { stack: stack.iter().map(|name| name.to_string()).collect(), cycles })
}

#[test]
fn samples_are_read_from_lines() {
    assert_eq!(parse_sample("main.c:main; lib.c:f 120"), sample(&["main", "f"], 120));
    assert_eq!(parse_sample("main 7"), sample(&["main"], 7));
    assert_eq!(parse_sample("a.rs:x::y; g 1"), sample(&["x::y", "g"], 1));
    assert_eq!(parse_sample("a b; c d +5"), sample(&["a b", "c d"], 5));
    assert_eq!(parse_sample("; ; x 5"), sample(&["", "", "x"], 5));
    assert_eq!(parse_sample("a;b;  c 5"), sample(&["a;b", " c"], 5));
    assert_eq!(parse_sample("a:  00018446744073709551615"), sample(&[" "], u64::MAX));
    assert_eq!(parse_sample(" 0"), sample(&[""], 0));
    assert_eq!(parse_sample("f\u{fc}r:\u{df}; \u{1f600} 3"), sample(&["\u{df}", "\u{1f600}"], 3));
}

#[test]
fn lines_without_samples() {
    assert_eq!(parse_sample("main"), Err(SampleError::NoCycles));
    assert_eq!(parse_sample(""), Err(SampleError::NoCycles));
    assert_eq!(parse_sample("main "), Err(SampleError::InvalidCycles));
    assert_eq!(parse_sample("main x"), Err(SampleError::InvalidCycles));
    assert_eq!(parse_sample("main +"), Err(SampleError::InvalidCycles));
    assert_eq!(parse_sample("main -1"), Err(SampleError::InvalidCycles));
    assert_eq!(parse_sample("main 18446744073709551616"), Err(SampleError::InvalidCycles));
}

#[test]
fn the_stack_of_a_sample_joins_to_its_line() {
    let lines = vec!["a; b; c", "a;b", "; ", ";  ;", "x"];
    for line in lines {
        let read = parse_sample(&format!("{} 1", line)).unwrap();
        assert_eq!(read.stack.join("; "), line);
    }
}

#[test]
fn cycles_take_time() {
    assert_eq!(sample_nanos(500_000_000, 500_000_000), 1_000_000_000);
    assert_eq!(sample_nanos(1, 500_000_000), 2);
    assert_eq!(sample_nanos(1, 3_000_000_000), 0);
    assert_eq!(sample_nanos(18_446_744_073, 1), 18_446_744_073_000_000_000);
}

#[test]
fn decimal_numbers() {
    assert_eq!(write_decimal(0), "0");
    assert_eq!(write_decimal(90), "90");
    assert_eq!(write_decimal(1234567890), "1234567890");
    assert_eq!(characters("a\u{e9}"), vec!['a', '\u{e9}']);
    assert_eq!(parse_unsigned(&characters("x42"), 1), Some(42));
    assert_eq!(parse_unsigned(&characters("x"), 1), None);
    for number in [0u64, 9, 10, 99, 100, 65535, u64::MAX] {
        assert_eq!(parse_unsigned(&characters(&write_decimal(number)), 0), Some(number));
    }
    assert_eq!(trim_line_breaks("a\r\n"), "a\r");
}
