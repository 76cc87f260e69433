use yobatis::mapper::{Mapper, SqlElement, YoIf, YoInclude, YoInsert, YoSql, YoTrim};
use yobatis::emit::write_insert_fn;
use yobatis::render::{write_append_if_stmt, write_sql_gen_stmt, write_trim_stmt};

fn text(s: &str) -> Box<SqlElement> {
    Box::new(SqlElement::YoText(s.to_string()))
}

fn include_of(refid: &str) -> Box<SqlElement> {
    Box::new(SqlElement::YoInclude(YoInclude { refid: refid.to_string() }))
}

fn if_of(test: &str, content: Vec<Box<SqlElement>>) -> YoIf {
    YoIf { test: test.to_string(), content }
}

fn trim_of(
    prefix: &str,
    suffix: &str,
    prefix_overrides: &str,
    suffix_overrides: &str,
    content: Vec<Box<SqlElement>>,
) -> YoTrim {
    YoTrim {
        prefix: prefix.to_string(),
        suffix: suffix.to_string(),
        suffix_overrides: suffix_overrides.to_string(),
        prefix_overrides: prefix_overrides.to_string(),
        content,
    }
}

fn table_with_fragment(id: &str, fragment: &str) -> Mapper {
    let mut table = Mapper::new();
    table.sqls.insert(id.to_string(), YoSql { id: id.to_string(), text: fragment.to_string() });
    table
}

#[test]
fn literal_text_is_appended_to_the_buffer() {
    let table = Mapper::new();
    let mut out = String::from("// before\n");
    let mut inc = 0;
    let r = write_sql_gen_stmt(&mut out, "    ", &table, &vec![text("SELECT 1")], "cmd", &mut inc);
    assert!(r.is_ok());
    assert_eq!(out, "// before\n    yb_string_append_c_str(cmd, \"SELECT 1\");\n");
    assert_eq!(inc, 0);
}

#[test]
fn line_breaks_in_literal_text_are_escaped() {
    let table = Mapper::new();
    let mut out = String::new();
    let mut inc = 0;
    let r = write_sql_gen_stmt(
        &mut out,
        "",
        &table,
        &vec![text("SELECT a,\r\n  b\nFROM t")],
        "cmd",
        &mut inc,
    );
    assert!(r.is_ok());
    assert_eq!(out, "yb_string_append_c_str(cmd, \"SELECT a,\\r\\n  b\\nFROM t\");\n");
    assert_eq!(out.matches('\n').count(), 1);
    assert!(!out.contains('\r'));
}

#[test]
fn include_appends_the_text_of_its_fragment() {
    let table = table_with_fragment("cols", "a,\nb");
    let mut out = String::new();
    let mut inc = 0;
    let r = write_sql_gen_stmt(&mut out, "    ", &table, &vec![include_of("cols")], "cmd", &mut inc);
    assert!(r.is_ok());
    assert_eq!(out, "    yb_string_append_c_str(cmd, \"a,\\nb\");\n");
}

#[test]
fn include_without_fragment_is_an_error_and_appends_nothing() {
    let table = table_with_fragment("cols", "a, b");
    let mut out = String::from("kept");
    let mut inc = 3;
    let body = vec![text("SELECT "), include_of("missing"), text(" FROM t")];
    let r = write_sql_gen_stmt(&mut out, "    ", &table, &body, "cmd", &mut inc);
    match r {
        Err(e) => assert_eq!(e.message(), "include sql not found: missing"),
        Ok(()) => panic!("an include without fragment must fail"),
    }
    assert_eq!(out, "kept");
    assert_eq!(inc, 3);
}

#[test]
fn conditional_appends_its_content_inside_the_guarded_block_only() {
    let table = Mapper::new();
    let mut out = String::new();
    let mut inc = 0;
    let elem = if_of("x", vec![text("TEXT")]);
    let r = write_append_if_stmt(&mut out, "    ", &table, &elem, "cmd", &mut inc);
    assert!(r.is_ok());
    assert_eq!(
        out,
        "    if (n->x) {\n        yb_string_t tmp_0 = yb_string_new();\n        yb_string_append_c_str(tmp_0, \"TEXT\");\n        yb_string_append(cmd, tmp_0);\n        yb_string_free(tmp_0);\n    }\n"
    );
    assert_eq!(inc, 1);
    assert!(out.starts_with("    if (n->x) {\n"));
    assert!(out.ends_with("    }\n"));
    assert_eq!(out.matches("cmd").count(), 1);
}

#[test]
fn trim_hands_its_settings_to_the_runtime() {
    let table = Mapper::new();
    let mut out = String::new();
    let mut inc = 0;
    let elem = trim_of("", "", "", ",", vec![text("a = 1, b = 2, ")]);
    let r = write_trim_stmt(&mut out, "    ", &table, &elem, "cmd", &mut inc);
    assert!(r.is_ok());
    assert_eq!(
        out,
        "    yb_string_t tmp_0 = yb_string_new();\n    yb_string_append_c_str(tmp_0, \"a = 1, b = 2, \");\n    yb_string_trim(tmp_0, \"\", \"\", \"\", \",\", cmd);\n    yb_string_free(tmp_0);\n"
    );
    assert_eq!(inc, 1);
}

#[test]
fn trim_passes_prefix_suffix_and_overrides_in_that_order() {
    let table = Mapper::new();
    let mut out = String::new();
    let mut inc = 7;
    let elem = trim_of("(", ")", "AND |OR ", ",", vec![]);
    let r = write_trim_stmt(&mut out, "", &table, &elem, "tmp_6", &mut inc);
    assert!(r.is_ok());
    assert_eq!(
        out,
        "yb_string_t tmp_7 = yb_string_new();\nyb_string_trim(tmp_7, \"(\", \")\", \"AND |OR \", \",\", tmp_6);\nyb_string_free(tmp_7);\n"
    );
    assert_eq!(inc, 8);
}

#[test]
fn nested_elements_get_buffers_of_their_own() {
    let table = Mapper::new();
    let mut out = String::new();
    let mut inc = 0;
    let body = vec![
        text("UPDATE t SET "),
        Box::new(SqlElement::YoTrim(trim_of(
            "",
            "",
            "",
            ",",
            vec![
                Box::new(SqlElement::YoIf(if_of("a != YB_INT_NULL", vec![text("a = #{a}, ")]))),
                Box::new(SqlElement::YoIf(if_of("b != YB_INT_NULL", vec![text("b = #{b}, ")]))),
            ],
        ))),
        Box::new(SqlElement::YoIf(if_of("c", vec![text(" WHERE c = #{c}")]))),
    ];
    let r = write_sql_gen_stmt(&mut out, "    ", &table, &body, "cmd", &mut inc);
    assert!(r.is_ok());
    let expected = [
        "    yb_string_append_c_str(cmd, \"UPDATE t SET \");\n",
        "    yb_string_t tmp_0 = yb_string_new();\n",
        "    if (n->a != YB_INT_NULL) {\n",
        "        yb_string_t tmp_1 = yb_string_new();\n",
        "        yb_string_append_c_str(tmp_1, \"a = #{a}, \");\n",
        "        yb_string_append(tmp_0, tmp_1);\n",
        "        yb_string_free(tmp_1);\n",
        "    }\n",
        "    if (n->b != YB_INT_NULL) {\n",
        "        yb_string_t tmp_2 = yb_string_new();\n",
        "        yb_string_append_c_str(tmp_2, \"b = #{b}, \");\n",
        "        yb_string_append(tmp_0, tmp_2);\n",
        "        yb_string_free(tmp_2);\n",
        "    }\n",
        "    yb_string_trim(tmp_0, \"\", \"\", \"\", \",\", cmd);\n",
        "    yb_string_free(tmp_0);\n",
        "    if (n->c) {\n",
        "        yb_string_t tmp_3 = yb_string_new();\n",
        "        yb_string_append_c_str(tmp_3, \" WHERE c = #{c}\");\n",
        "        yb_string_append(cmd, tmp_3);\n",
        "        yb_string_free(tmp_3);\n",
        "    }\n",
    ];
    assert_eq!(out, expected.concat());
    assert_eq!(inc, 4);
}

#[test]
fn buffer_numbers_continue_past_nine() {
    let table = Mapper::new();
    let mut out = String::new();
    let mut inc = 9;
    let elem = if_of("x", vec![Box::new(SqlElement::YoIf(if_of("y", vec![])))]);
    let r = write_append_if_stmt(&mut out, "", &table, &elem, "cmd", &mut inc);
    assert!(r.is_ok());
    assert!(out.contains("yb_string_t tmp_9 = yb_string_new();\n"));
    assert!(out.contains("yb_string_t tmp_10 = yb_string_new();\n"));
    assert!(out.contains("yb_string_append(tmp_9, tmp_10);\n"));
    assert_eq!(inc, 11);
}

#[test]
fn counter_at_its_limit_is_an_error() {
    let table = Mapper::new();
    let mut out = String::from("kept");
    let mut inc = u64::MAX;
    let elem = if_of("x", vec![]);
    match write_append_if_stmt(&mut out, "", &table, &elem, "cmd", &mut inc) {
        Err(e) => assert_eq!(e.message(), "too many temporary buffers"),
        Ok(()) => panic!("no number is left for the buffer"),
    }
    assert_eq!(out, "kept");
    assert_eq!(inc, u64::MAX);
    let elem = trim_of("", "", "", "", vec![]);
    assert!(write_trim_stmt(&mut out, "", &table, &elem, "cmd", &mut inc).is_err());
    assert_eq!(out, "kept");
}

#[test]
fn failing_statement_leaves_both_files_as_they_were() {
    let table = table_with_fragment("cols", "a, b");
    let insert = YoInsert {
        id: "ins".to_string(),
        parameter_type: "p".to_string(),
        content: vec![
            text("INSERT INTO t ("),
            Box::new(SqlElement::YoIf(if_of("x", vec![include_of("missing")]))),
        ],
    };
    let mut header = String::from("h");
    let mut source = String::from("c");
    match write_insert_fn(&mut header, &mut source, &insert, &table) {
        Err(e) => assert_eq!(e.message(), "include sql not found: missing"),
        Ok(()) => panic!("the statement must not compile"),
    }
    assert_eq!(header, "h");
    assert_eq!(source, "c");
}
