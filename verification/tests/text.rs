use yobatis::genc::{
    error_about, write_guard_end, write_guard_start, write_includes, GenCError,
};
use yobatis::mapper::ParseMapperError;
use yobatis::text::{chars_of, decimal, escape_line_breaks, spaces};

#[test]
fn spaces_gives_that_many_blanks() {
    assert_eq!(spaces(0), "");
    assert_eq!(spaces(4), "    ");
    assert_eq!(spaces(12).len(), 12);
    assert!(spaces(12).chars().all(|c| c == ' '));
}

#[test]
fn decimal_writes_numbers_without_leading_zeros() {
    assert_eq!(decimal(0), "0");
    assert_eq!(decimal(7), "7");
    assert_eq!(decimal(10), "10");
    assert_eq!(decimal(105), "105");
    assert_eq!(decimal(1234567890), "1234567890");
    assert_eq!(decimal(u64::MAX), "18446744073709551615");
}

#[test]
fn escaping_replaces_line_breaks_only() {
    assert_eq!(escape_line_breaks("a\nb"), "a\\nb");
    assert_eq!(escape_line_breaks("a\r\nb\r"), "a\\r\\nb\\r");
    assert_eq!(escape_line_breaks("plain \"text\" \\ \t"), "plain \"text\" \\ \t");
    assert_eq!(escape_line_breaks(""), "");
    assert_eq!(escape_line_breaks("\n"), "\\n");
    assert!(!escape_line_breaks("x\n\ny\r").contains(['\n', '\r']));
}

#[test]
fn chars_are_taken_one_for_one() {
    assert_eq!(chars_of("aé✓"), vec!['a', 'é', '✓']);
    assert!(chars_of("").is_empty());
}

#[test]
fn guard_is_made_from_the_upper_case_namespace() {
    let mut header = String::from("x");
    write_guard_start(&mut header, "user_mapper");
    assert_eq!(header, "x#ifndef YB_USER_MAPPER_H__\n#define YB_USER_MAPPER_H__\n\n");
    let mut header = String::new();
    write_guard_end(&mut header, "user_mapper");
    assert_eq!(header, "#endif // YB_USER_MAPPER_H__\n\n");
}

#[test]
fn source_brings_in_its_header_and_the_runtime() {
    let mut source = String::new();
    write_includes(&mut source, "yb_user_mapper.h");
    assert_eq!(source, "#include \"yb_user_mapper.h\"\n\n#include \"yb_common.h\"\n\n");
}

#[test]
fn errors_carry_their_message() {
    let e = GenCError::new("broken".to_string());
    assert_eq!(e.message(), "broken");
    assert_eq!(e.clone().message(), "broken");
    assert_eq!(error_about("unsupported type: ", "blob").message(), "unsupported type: blob");
    let p = ParseMapperError::new("bad".to_string());
    assert_eq!(p.message(), "bad");
    assert_eq!(p.clone().message(), "bad");
}
