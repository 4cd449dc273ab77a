use std::path::PathBuf;

use otel_rust_agent::errors::Error;
use otel_rust_agent::image::RawSymbol;
use otel_rust_agent::names::RequiredFunctionSet;
use otel_rust_agent::process::{
    Analyzer, FunctionInfo, ImageStep, TargetDetails, FUNCTION_SYMBOL_TYPE,
};

const FUNC: u8 = 0x12;
const OBJECT: u8 = 0x11;

struct Symbol {
    name: &'static str,
    info: u8,
    address: u64,
    size: u64,
}

fn symbol(name: &'static str, info: u8, address: u64, size: u64) -> Symbol {
    Symbol { name, info, address, size }
}

fn put16(out: &mut Vec<u8>, value: u16) {
    out.extend_from_slice(&value.to_le_bytes());
}

fn put32(out: &mut Vec<u8>, value: u32) {
    out.extend_from_slice(&value.to_le_bytes());
}

fn put64(out: &mut Vec<u8>, value: u64) {
    out.extend_from_slice(&value.to_le_bytes());
}

/// A string table that starts with the empty string, with the offset of each name.
fn string_table(names: &[&str]) -> (Vec<u8>, Vec<u32>) {
    let mut bytes = vec![0u8];
    let mut offsets = Vec::new();
    for name in names {
        offsets.push(bytes.len() as u32);
        bytes.extend_from_slice(name.as_bytes());
        bytes.push(0);
    }
    (bytes, offsets)
}

/// A symbol table that starts with the null symbol.
fn symbol_table(symbols: &[Symbol], offsets: &[u32]) -> Vec<u8> {
    let mut bytes = vec![0u8; 24];
    for (entry, offset) in symbols.iter().zip(offsets) {
        put32(&mut bytes, *offset);
        bytes.push(entry.info);
        bytes.push(0);
        put16(&mut bytes, 1);
        put64(&mut bytes, entry.address);
        put64(&mut bytes, entry.size);
    }
    bytes
}

fn section_header(out: &mut Vec<u8>, kind: u32, offset: u64, size: u64, link: u32, entsize: u64) {
    put32(out, 0);
    put32(out, kind);
    put64(out, 0);
    put64(out, 0);
    put64(out, offset);
    put64(out, size);
    put32(out, link);
    put32(out, 0);
    put64(out, 1);
    put64(out, entsize);
}

fn program_header(out: &mut Vec<u8>, kind: u32, offset: u64, size: u64) {
    put32(out, kind);
    put32(out, 4);
    put64(out, offset);
    put64(out, offset);
    put64(out, offset);
    put64(out, size);
    put64(out, size);
    put64(out, 1);
}

/// A little-endian 64-bit ELF image with a static and a dynamic symbol table.
fn image(statics: &[Symbol], dynamics: &[Symbol], libraries: &[&'static str]) -> Vec<u8> {
    let static_names: Vec<&str> = statics.iter().map(|s| s.name).collect();
    let (strtab, static_offsets) = string_table(&static_names);
    let symtab = symbol_table(statics, &static_offsets);
    let mut dynamic_names: Vec<&str> = dynamics.iter().map(|s| s.name).collect();
    dynamic_names.extend_from_slice(libraries);
    let (dynstr, dynamic_offsets) = string_table(&dynamic_names);
    let dynsym = symbol_table(dynamics, &dynamic_offsets);

    let body = 64 + 2 * 56;
    let strtab_at = body as u64;
    let symtab_at = strtab_at + strtab.len() as u64;
    let dynstr_at = symtab_at + symtab.len() as u64;
    let dynsym_at = dynstr_at + dynstr.len() as u64;
    let hash_at = dynsym_at + dynsym.len() as u64;
    let dynamic_at = hash_at + 8;
    let dynamic_len = 16 * (5 + libraries.len() as u64);
    let sections_at = dynamic_at + dynamic_len;
    let total = sections_at + 3 * 64;

    let mut out = vec![0x7f, b'E', b'L', b'F', 2, 1, 1, 0, 0, 0, 0, 0, 0, 0, 0, 0];
    put16(&mut out, 2);
    put16(&mut out, 62);
    put32(&mut out, 1);
    put64(&mut out, 0);
    put64(&mut out, 64);
    put64(&mut out, sections_at);
    put32(&mut out, 0);
    put16(&mut out, 64);
    put16(&mut out, 56);
    put16(&mut out, 2);
    put16(&mut out, 64);
    put16(&mut out, 3);
    put16(&mut out, 0);
    program_header(&mut out, 1, 0, total);
    program_header(&mut out, 2, dynamic_at, dynamic_len);
    assert_eq!(out.len(), body);
    out.extend_from_slice(&strtab);
    out.extend_from_slice(&symtab);
    out.extend_from_slice(&dynstr);
    out.extend_from_slice(&dynsym);
    put32(&mut out, 1);
    put32(&mut out, 1 + dynamics.len() as u32);
    for index in 0..libraries.len() {
        put64(&mut out, 1);
        put64(&mut out, dynamic_offsets[dynamics.len() + index] as u64);
    }
    put64(&mut out, 4);
    put64(&mut out, hash_at);
    put64(&mut out, 5);
    put64(&mut out, dynstr_at);
    put64(&mut out, 6);
    put64(&mut out, dynsym_at);
    put64(&mut out, 10);
    put64(&mut out, dynstr.len() as u64);
    put64(&mut out, 0);
    put64(&mut out, 0);
    section_header(&mut out, 0, 0, 0, 0, 0);
    section_header(&mut out, 2, symtab_at, symtab.len() as u64, 2, 24);
    section_header(&mut out, 3, strtab_at, strtab.len() as u64, 0, 0);
    assert_eq!(out.len() as u64, total);
    out
}

fn required(names: &[&str]) -> RequiredFunctionSet {
    let mut set = RequiredFunctionSet::new();
    for name in names {
        set.insert(name.to_string());
    }
    set
}

fn analyze(bytes: &[u8], names: &[&str]) -> Result<TargetDetails, Error> {
    Analyzer::new().analyze(7, PathBuf::from("/usr/bin/target"), bytes, required(names))
}

fn summary(functions: &[FunctionInfo]) -> Vec<(String, String, u64, u64)> {
    functions
        .iter()
        .map(|f| (f.name.clone(), f.demangled_name.clone(), f.address, f.size))
        .collect()
}

fn record(name: &str, readable: &str, address: u64, size: u64) -> (String, String, u64, u64) {
    (name.to_string(), readable.to_string(), address, size)
}

#[test]
fn analyze_collects_every_function_when_nothing_is_required() {
    let bytes = image(
        &[
            symbol("_ZN3pkg3fooE", FUNC, 0x1000, 16),
            symbol("counter", OBJECT, 0x2000, 8),
            symbol("_ZN3pkg5emptyE", FUNC, 0x1100, 0),
            symbol("main", FUNC, 0x1200, 32),
        ],
        &[symbol("malloc", FUNC, 0x3000, 64)],
        &["libc.so.6"],
    );
    let details = analyze(&bytes, &[]).unwrap();
    assert_eq!(details.pid, 7);
    assert_eq!(details.exe_path, PathBuf::from("/usr/bin/target"));
    assert_eq!(details.libraries, vec!["libc.so.6".to_string()]);
    assert_eq!(
        summary(&details.functions),
        vec![
            record("_ZN3pkg3fooE", "pkg::foo", 0x1000, 16),
            record("main", "main", 0x1200, 32),
            record("malloc", "malloc", 0x3000, 64),
        ]
    );
}

#[test]
fn analyze_keeps_only_required_names_raw_or_readable() {
    let bytes = image(
        &[
            symbol("_ZN3pkg3fooE", FUNC, 0x1000, 16),
            symbol("_ZN3pkg3barE", FUNC, 0x1100, 24),
            symbol("main", FUNC, 0x1200, 32),
        ],
        &[symbol("malloc", FUNC, 0x3000, 64), symbol("free", FUNC, 0x3100, 48)],
        &[],
    );
    let details = analyze(&bytes, &["pkg::foo", "_ZN3pkg3barE", "free"]).unwrap();
    assert_eq!(
        summary(&details.functions),
        vec![
            record("_ZN3pkg3fooE", "pkg::foo", 0x1000, 16),
            record("_ZN3pkg3barE", "pkg::bar", 0x1100, 24),
            record("free", "free", 0x3100, 48),
        ]
    );
    assert!(details.libraries.is_empty());
}

#[test]
fn analyze_with_names_that_the_image_lacks_retains_nothing() {
    let bytes = image(&[symbol("main", FUNC, 0x1200, 32)], &[], &["libm.so.6"]);
    let details = analyze(&bytes, &["hyper::server::conn::Http::serve_connection"]).unwrap();
    assert!(details.functions.is_empty());
    assert_eq!(details.libraries, vec!["libm.so.6".to_string()]);
}

#[test]
fn analyze_never_retains_zero_size_or_non_function_entries() {
    let bytes = image(
        &[
            symbol("table", OBJECT, 0x2000, 128),
            symbol("stub", FUNC, 0x1000, 0),
            symbol("section", 0x03, 0x4000, 8),
        ],
        &[symbol("environ", OBJECT, 0x5000, 8), symbol("abort", FUNC, 0, 0)],
        &[],
    );
    let details = analyze(&bytes, &[]).unwrap();
    assert!(details.functions.is_empty());
    let details = analyze(&bytes, &["table", "stub", "environ", "abort"]).unwrap();
    assert!(details.functions.is_empty());
}

#[test]
fn analyze_lists_static_functions_before_dynamic_ones() {
    let bytes = image(
        &[symbol("b", FUNC, 0x20, 2), symbol("a", FUNC, 0x10, 1)],
        &[symbol("d", FUNC, 0x40, 4), symbol("c", FUNC, 0x30, 3)],
        &["libz.so.1", "liba.so.2"],
    );
    let details = analyze(&bytes, &[]).unwrap();
    assert_eq!(
        summary(&details.functions),
        vec![
            record("b", "b", 0x20, 2),
            record("a", "a", 0x10, 1),
            record("d", "d", 0x40, 4),
            record("c", "c", 0x30, 3),
        ]
    );
    assert_eq!(details.libraries, vec!["libz.so.1".to_string(), "liba.so.2".to_string()]);
}

#[test]
fn analyze_skips_an_entry_whose_name_does_not_resolve() {
    let mut bytes = image(&[symbol("main", FUNC, 0x1200, 32)], &[], &[]);
    let symtab_at = 64 + 2 * 56 + 6;
    let name_offset_at = symtab_at + 24;
    bytes[name_offset_at..name_offset_at + 4].copy_from_slice(&500u32.to_le_bytes());
    let details = analyze(&bytes, &[]).unwrap();
    assert!(details.functions.is_empty());
}

#[test]
fn analyze_demangles_both_mangling_schemes() {
    let bytes = image(
        &[
            symbol("_ZN4test1a2bcE", FUNC, 0x10, 1),
            symbol("_RNvC6_123foo3bar", FUNC, 0x20, 2),
            symbol("_ZN3foo17h05af221e174051e9E", FUNC, 0x30, 3),
        ],
        &[],
        &[],
    );
    let details = analyze(&bytes, &[]).unwrap();
    assert_eq!(
        summary(&details.functions),
        vec![
            record("_ZN4test1a2bcE", "test::a::bc", 0x10, 1),
            record("_RNvC6_123foo3bar", "123foo::bar", 0x20, 2),
            record("_ZN3foo17h05af221e174051e9E", "foo::h05af221e174051e9", 0x30, 3),
        ]
    );
}

#[test]
fn analyze_refuses_bytes_that_are_no_elf_image() {
    match analyze(b"#!/bin/sh\necho no image here\n", &[]) {
        Err(Error::BinaryAnalysis(detail)) => {
            assert!(detail.starts_with("Failed to parse ELF: "), "{}", detail);
            assert!(detail.len() > "Failed to parse ELF: ".len());
        }
        other => panic!("unexpected outcome: {:?}", other),
    }
}

#[test]
fn analyze_refuses_an_empty_image() {
    assert!(matches!(analyze(&[], &[]), Err(Error::BinaryAnalysis(_))));
}

#[test]
fn analyze_refuses_a_truncated_image() {
    let bytes = image(&[symbol("main", FUNC, 0x1200, 32)], &[], &[]);
    assert!(matches!(analyze(&bytes[..100], &[]), Err(Error::BinaryAnalysis(_))));
}

#[test]
fn the_function_symbol_type_is_that_of_elf() {
    assert_eq!(FUNCTION_SYMBOL_TYPE, 2);
    assert_eq!(FUNCTION_SYMBOL_TYPE, goblin::elf::sym::STT_FUNC);
}

#[test]
fn function_symbol_needs_function_type_and_positive_size() {
    let entry = |info: u8, size: u64| RawSymbol { name_offset: 1, info, address: 0x1000, size };
    assert!(Analyzer::is_function_symbol(&entry(0x02, 1)));
    assert!(Analyzer::is_function_symbol(&entry(0x12, 1)));
    assert!(Analyzer::is_function_symbol(&entry(0x22, u64::MAX)));
    assert!(!Analyzer::is_function_symbol(&entry(0x12, 0)));
    assert!(!Analyzer::is_function_symbol(&entry(0x11, 8)));
    assert!(!Analyzer::is_function_symbol(&entry(0x20, 8)));
    assert!(!Analyzer::is_function_symbol(&entry(0x0a, 8)));
}

#[test]
fn match_symbol_follows_the_matching_policy() {
    let entry = RawSymbol { name_offset: 9, info: 0x12, address: 0x4010, size: 77 };
    let kept = Analyzer::match_symbol(&entry, "_ZN3pkg3fooE", "pkg::foo".to_string(), &required(&[]))
        .unwrap();
    assert_eq!(summary(&[kept]), vec![record("_ZN3pkg3fooE", "pkg::foo", 0x4010, 77)]);
    let by_readable = required(&["pkg::foo"]);
    assert!(Analyzer::match_symbol(&entry, "_ZN3pkg3fooE", "pkg::foo".to_string(), &by_readable)
        .is_some());
    let by_raw = required(&["_ZN3pkg3fooE"]);
    assert!(Analyzer::match_symbol(&entry, "_ZN3pkg3fooE", "pkg::foo".to_string(), &by_raw).is_some());
    let other = required(&["pkg::bar", "pkg::fo", "pkg::foo2"]);
    assert!(Analyzer::match_symbol(&entry, "_ZN3pkg3fooE", "pkg::foo".to_string(), &other).is_none());
}

#[test]
fn image_failure_names_the_step_that_failed() {
    match Analyzer::image_failure(ImageStep::Lookup, 4242, "No such file or directory") {
        Error::ProcessNotFound(detail) => {
            assert_eq!(detail, "PID 4242 not found: No such file or directory")
        }
        other => panic!("unexpected error: {:?}", other),
    }
    match Analyzer::image_failure(ImageStep::ExecutablePath, 1, "denied") {
        Error::BinaryAnalysis(detail) => assert_eq!(detail, "Failed to get exe path: denied"),
        other => panic!("unexpected error: {:?}", other),
    }
    match Analyzer::image_failure(ImageStep::Open, 1, "denied") {
        Error::BinaryAnalysis(detail) => assert_eq!(detail, "Failed to open binary: denied"),
        other => panic!("unexpected error: {:?}", other),
    }
    match Analyzer::image_failure(ImageStep::MemoryMap, 1, "out of memory") {
        Error::BinaryAnalysis(detail) => assert_eq!(detail, "Failed to mmap binary: out of memory"),
        other => panic!("unexpected error: {:?}", other),
    }
}

#[test]
fn function_names_are_the_readable_names_of_the_inventory() {
    let bytes = image(
        &[symbol("_ZN3pkg3fooE", FUNC, 0x1000, 16), symbol("main", FUNC, 0x1200, 32)],
        &[symbol("_ZN3pkg3fooE", FUNC, 0x1000, 16)],
        &[],
    );
    let details = analyze(&bytes, &[]).unwrap();
    assert_eq!(details.functions.len(), 3);
    let names = details.function_names();
    assert_eq!(names.len(), 2);
    assert!(names.contains("pkg::foo"));
    assert!(names.contains("main"));
    assert!(!names.contains("_ZN3pkg3fooE"));
}
