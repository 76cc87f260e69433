use yobatis::dynamic::{build_sql, prepare_statement, trim_text};
use yobatis::info::ColumnType;
use yobatis::mapper::{Mapper, SqlElement, YoIf, YoInclude, YoSql, YoTrim};
use yobatis::parse::parse_mapper_text;

fn lit(s: &str) -> Box<SqlElement> {
    Box::new(SqlElement::YoText(s.to_string()))
}

fn cond(test: &str, content: Vec<Box<SqlElement>>) -> Box<SqlElement> {
    Box::new(SqlElement::YoIf(YoIf { test: test.to_string(), content }))
}

fn holds(tests: &[&str]) -> Vec<String> {
    tests.iter().map(|t| t.to_string()).collect()
}

fn built(table: &Mapper, body: &Vec<Box<SqlElement>>, tests: &[&str]) -> String {
    match build_sql(table, body, &holds(tests)) {
        Ok(text) => text,
        Err(e) => panic!("{}", e.message()),
    }
}

#[test]
fn trim_takes_off_the_trailing_override_once() {
    assert_eq!(trim_text("a = 1, b = 2, ", "", "", "", ","), "a = 1, b = 2");
}

#[test]
fn trim_keeps_an_override_that_ends_the_rest() {
    assert_eq!(trim_text("a,,", "", "", "", ","), "a,");
    assert_eq!(trim_text(",,a", "", "", ",", ""), ",a");
}

#[test]
fn trim_wraps_in_prefix_and_suffix() {
    assert_eq!(trim_text("id,name,", "(", ")", "", ","), "(id,name)");
    assert_eq!(trim_text("#{id},#{name},", "VALUES (", ")", "", ","), "VALUES (#{id},#{name})");
    assert_eq!(trim_text("", "(", ")", "", ","), "()");
    assert_eq!(trim_text("  \n\t ", "[", "]", "x", "y"), "[]");
}

#[test]
fn trim_takes_the_first_override_that_fits() {
    assert_eq!(trim_text("AND a = 1 OR ", "WHERE ", "", "AND |OR ", "AND|OR"), "WHERE a = 1 ");
    assert_eq!(trim_text("OR a = 1", "", "", "AND |OR ", ""), "a = 1");
    assert_eq!(trim_text("ANDROID", "", "", "AND|ANDROID", ""), "ROID");
    assert_eq!(trim_text("and a = 1", "", "", "AND ", ""), "and a = 1");
    assert_eq!(trim_text("a|", "", "", "", "|"), "a|");
}

#[test]
fn trim_without_overrides_only_strips_blanks() {
    assert_eq!(trim_text("  a = 1,  ", "<", ">", "", ""), "<a = 1,>");
    assert_eq!(trim_text("a", "", "", "b", "c"), "a");
    assert_eq!(trim_text(",", "", "", ",", ","), "");
}

#[test]
fn conditional_counts_only_where_its_test_holds() {
    let table = Mapper::new();
    let body = vec![lit("A"), cond("x", vec![lit("TEXT")]), lit("B")];
    assert_eq!(built(&table, &body, &["x"]), "ATEXTB");
    assert_eq!(built(&table, &body, &[]), "AB");
    assert_eq!(built(&table, &body, &["y"]), "AB");
    let without = vec![lit("A"), lit("B")];
    assert_eq!(built(&table, &body, &[]), built(&table, &without, &[]));
}

#[test]
fn nested_conditionals_need_every_test_on_the_way() {
    let table = Mapper::new();
    let body = vec![cond("x", vec![lit("1"), cond("y", vec![lit("2")])])];
    assert_eq!(built(&table, &body, &["x", "y"]), "12");
    assert_eq!(built(&table, &body, &["x"]), "1");
    assert_eq!(built(&table, &body, &["y"]), "");
}

#[test]
fn include_stands_for_its_fragment_at_run_time() {
    let mut table = Mapper::new();
    table.sqls.insert("cols".to_string(), YoSql { id: "cols".to_string(), text: "a, b".to_string() });
    let body = vec![
        lit("SELECT "),
        Box::new(SqlElement::YoInclude(YoInclude { refid: "cols".to_string() })),
        lit(" FROM t"),
    ];
    assert_eq!(built(&table, &body, &[]), "SELECT a, b FROM t");
    let bad = vec![Box::new(SqlElement::YoInclude(YoInclude { refid: "nope".to_string() }))];
    match build_sql(&table, &bad, &vec![]) {
        Err(e) => assert_eq!(e.message(), "include sql not found: nope"),
        Ok(_) => panic!("an include without fragment must fail"),
    }
}

#[test]
fn trim_applies_to_the_text_of_its_content() {
    let table = Mapper::new();
    let body = vec![
        lit("UPDATE t SET "),
        Box::new(SqlElement::YoTrim(YoTrim {
            prefix: "".to_string(),
            suffix: "".to_string(),
            suffix_overrides: ",".to_string(),
            prefix_overrides: "".to_string(),
            content: vec![cond("a", vec![lit("a = 1, ")]), cond("b", vec![lit("b = 2, ")])],
        })),
        lit(" WHERE id = 3"),
    ];
    assert_eq!(built(&table, &body, &["a", "b"]), "UPDATE t SET a = 1, b = 2 WHERE id = 3");
    assert_eq!(built(&table, &body, &["b"]), "UPDATE t SET b = 2 WHERE id = 3");
    assert_eq!(built(&table, &body, &[]), "UPDATE t SET  WHERE id = 3");
}

#[test]
fn where_clause_with_two_placeholders_binds_two_integers() {
    let document = "<mapper namespace=\"m\">\
        <resultMap id=\"r\" type=\"p\"><result column=\"id\" property=\"id\" yo_type=\"int64_t\"/><result column=\"age\" property=\"age\" yo_type=\"int64_t\"/></resultMap>\
        <select id=\"s\" parameterType=\"p\" resultMap=\"r\">SELECT * FROM t WHERE id = #{id} AND age = #{age}</select></mapper>";
    let mapper = match parse_mapper_text(document) {
        Ok(mapper) => mapper,
        Err(e) => panic!("{}", e.message()),
    };
    let select = mapper.selects.get("s").unwrap();
    let prepared =
        match prepare_statement(&mapper, &select.parameter_type, &select.content, &vec![]) {
            Ok(prepared) => prepared,
            Err(e) => panic!("{}", e.message()),
        };
    assert_eq!(prepared.sql, "SELECT * FROM t WHERE id = ? AND age = ?");
    assert_eq!(prepared.binds.len(), 2);
    assert_eq!(prepared.binds[0].property, "id");
    assert_eq!(prepared.binds[0].kind, ColumnType::INT);
    assert_eq!(prepared.binds[1].property, "age");
    assert_eq!(prepared.binds[1].kind, ColumnType::INT);
}

#[test]
fn selective_update_binds_only_what_its_tests_let_through() {
    let document = "<mapper namespace=\"m\">\
        <resultMap id=\"r\" type=\"p\"><result column=\"id\" property=\"id\" yo_type=\"int64_t\"/><result column=\"name\" property=\"name\" yo_type=\"yb_string_t\"/><result column=\"score\" property=\"score\" yo_type=\"double\"/></resultMap>\
        <update id=\"u\" parameterType=\"p\">UPDATE `t` SET <trim suffixOverrides=\",\"><if test=\"name != YB_STRING_NULL\">`name` = #{name}, </if><if test=\"score != YB_FLOAT_NULL\">`score` = #{score}, </if></trim> WHERE id = #{id}</update></mapper>";
    let mapper = match parse_mapper_text(document) {
        Ok(mapper) => mapper,
        Err(e) => panic!("{}", e.message()),
    };
    let update = mapper.updates.get("u").unwrap();
    let prepared = match prepare_statement(
        &mapper,
        &update.parameter_type,
        &update.content,
        &holds(&["score != YB_FLOAT_NULL"]),
    ) {
        Ok(prepared) => prepared,
        Err(e) => panic!("{}", e.message()),
    };
    assert_eq!(prepared.sql, "UPDATE `t` SET `score` = ? WHERE id = ?");
    assert_eq!(prepared.binds.len(), 2);
    assert_eq!(prepared.binds[0].property, "score");
    assert_eq!(prepared.binds[0].kind, ColumnType::FLOAT);
    assert_eq!(prepared.binds[1].property, "id");
    assert_eq!(prepared.binds[1].kind, ColumnType::INT);
    match prepare_statement(&mapper, "other", &update.content, &vec![]) {
        Err(e) => assert_eq!(e.message(), "parameter type not found: other"),
        Ok(_) => panic!("the parameter type does not exist"),
    }
}
