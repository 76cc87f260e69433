use yobatis::info::ColumnType;
use yobatis::mapper::{Mapper, SqlElement, YoIf, YoResult, YoResultMap, YoSql, YoInclude};
use yobatis::pairing::text_is_closed;
use yobatis::placeholder::{
    bind_placeholder, check_placeholders, collect_literals, prepare_sql, scan_placeholders,
};

fn field(property: &str, yo_type: &str) -> YoResult {
    YoResult {
        column: property.to_string(),
        property: property.to_string(),
        yo_type: yo_type.to_string(),
    }
}

fn person() -> YoResultMap {
    YoResultMap {
        id: "BaseResultMap".to_string(),
        type_: "person_t".to_string(),
        results: vec![field("id", "int64_t"), field("age", "int64_t")],
    }
}

#[test]
fn placeholders_become_question_marks_in_order() {
    let prepared = prepare_sql("... WHERE id = #{id} AND age = #{age}", &person());
    let prepared = match prepared {
        Ok(p) => p,
        Err(e) => panic!("{}", e.message()),
    };
    assert_eq!(prepared.sql, "... WHERE id = ? AND age = ?");
    assert_eq!(prepared.binds.len(), 2);
    assert_eq!(prepared.binds[0].property, "id");
    assert_eq!(prepared.binds[0].kind, ColumnType::INT);
    assert_eq!(prepared.binds[1].property, "age");
    assert_eq!(prepared.binds[1].kind, ColumnType::INT);
}

#[test]
fn binds_follow_the_text_not_the_fields() {
    let prepared = prepare_sql("#{age}#{id}#{age}", &person());
    let prepared = match prepared {
        Ok(p) => p,
        Err(e) => panic!("{}", e.message()),
    };
    assert_eq!(prepared.sql, "???");
    let names: Vec<&str> = prepared.binds.iter().map(|b| b.property.as_str()).collect();
    assert_eq!(names, vec!["age", "id", "age"]);
}

#[test]
fn text_without_placeholder_stays_as_it_is() {
    let (sql, names) = scan_placeholders("SELECT '#', '{}', '# {x}' FROM t");
    assert_eq!(sql, "SELECT '#', '{}', '# {x}' FROM t");
    assert!(names.is_empty());
    let (sql, names) = scan_placeholders("");
    assert_eq!(sql, "");
    assert!(names.is_empty());
}

#[test]
fn first_closing_brace_ends_the_name() {
    let (sql, names) = scan_placeholders("a #{x}} b #{y{z}");
    assert_eq!(sql, "a ?} b ?");
    assert_eq!(names, vec!["x".to_string(), "y{z".to_string()]);
}

#[test]
fn placeholder_without_closing_brace_runs_to_the_end() {
    let (sql, names) = scan_placeholders("a = #{rest of it");
    assert_eq!(sql, "a = ?");
    assert_eq!(names, vec!["rest of it".to_string()]);
    let (sql, names) = scan_placeholders("a = #{");
    assert_eq!(sql, "a = ?");
    assert_eq!(names, vec!["".to_string()]);
}

#[test]
fn marker_needs_both_characters() {
    let (sql, names) = scan_placeholders("#");
    assert_eq!(sql, "#");
    assert!(names.is_empty());
    let (sql, names) = scan_placeholders("##{a}#");
    assert_eq!(sql, "#?#");
    assert_eq!(names, vec!["a".to_string()]);
    let (sql, names) = scan_placeholders("#{#{a}}");
    assert_eq!(sql, "?}");
    assert_eq!(names, vec!["#{a".to_string()]);
}

#[test]
fn characters_beyond_ascii_are_kept() {
    let (sql, names) = scan_placeholders("naïve = #{ключ} ✓");
    assert_eq!(sql, "naïve = ? ✓");
    assert_eq!(names, vec!["ключ".to_string()]);
}

#[test]
fn unknown_name_is_an_error() {
    match prepare_sql("id = #{id} AND name = #{name}", &person()) {
        Err(e) => assert_eq!(e.message(), "placeholder not found in parameter type: name"),
        Ok(_) => panic!("no field is called name"),
    }
}

#[test]
fn field_of_unknown_type_cannot_be_bound() {
    let shape = YoResultMap {
        id: "r".to_string(),
        type_: "t".to_string(),
        results: vec![field("a", "float"), field("b", "double")],
    };
    match bind_placeholder("a", &shape) {
        Err(e) => assert_eq!(e.message(), "unsupported type: float"),
        Ok(_) => panic!("float is none of the three types"),
    }
    match bind_placeholder("b", &shape) {
        Ok(bind) => {
            assert_eq!(bind.property, "b");
            assert_eq!(bind.kind, ColumnType::FLOAT);
        }
        Err(e) => panic!("{}", e.message()),
    }
}

#[test]
fn first_field_of_a_name_gives_the_kind() {
    let shape = YoResultMap {
        id: "r".to_string(),
        type_: "t".to_string(),
        results: vec![field("a", "yb_string_t"), field("a", "int64_t")],
    };
    match bind_placeholder("a", &shape) {
        Ok(bind) => assert_eq!(bind.kind, ColumnType::STRING),
        Err(e) => panic!("{}", e.message()),
    }
}

#[test]
fn literals_are_collected_in_document_order() {
    let mut table = Mapper::new();
    table.sqls.insert("f".to_string(), YoSql { id: "f".to_string(), text: "F".to_string() });
    let body: Vec<Box<SqlElement>> = vec![
        Box::new(SqlElement::YoText("A".to_string())),
        Box::new(SqlElement::YoIf(YoIf {
            test: "t".to_string(),
            content: vec![
                Box::new(SqlElement::YoInclude(YoInclude { refid: "f".to_string() })),
                Box::new(SqlElement::YoInclude(YoInclude { refid: "none".to_string() })),
                Box::new(SqlElement::YoText("B".to_string())),
            ],
        })),
        Box::new(SqlElement::YoText("C".to_string())),
    ];
    let mut out = vec!["first".to_string()];
    collect_literals(&table, &body, &mut out);
    assert_eq!(out, vec!["first", "A", "F", "B", "C"]);
}

#[test]
fn placeholders_of_a_body_are_checked_against_the_fields() {
    let table = Mapper::new();
    let good: Vec<Box<SqlElement>> = vec![
        Box::new(SqlElement::YoText("id = #{id}".to_string())),
        Box::new(SqlElement::YoIf(YoIf {
            test: "age".to_string(),
            content: vec![Box::new(SqlElement::YoText(" AND age = #{age}".to_string()))],
        })),
    ];
    assert!(check_placeholders(&table, &good, &person()).is_ok());
    let bad: Vec<Box<SqlElement>> = vec![
        Box::new(SqlElement::YoText("id = #{id}".to_string())),
        Box::new(SqlElement::YoIf(YoIf {
            test: "age".to_string(),
            content: vec![Box::new(SqlElement::YoText(" AND size = #{size}".to_string()))],
        })),
        Box::new(SqlElement::YoText(" AND x = #{x}".to_string())),
    ];
    match check_placeholders(&table, &bad, &person()) {
        Err(e) => assert_eq!(e.message(), "placeholder not found in parameter type: size"),
        Ok(()) => panic!("no field is called size"),
    }
}

#[test]
fn closed_texts_keep_their_placeholders_to_themselves() {
    assert!(text_is_closed(""));
    assert!(text_is_closed("a = #{a}"));
    assert!(text_is_closed("#{a}#{b} # x"));
    assert!(text_is_closed("{}}#x"));
    assert!(!text_is_closed("a = #{a"));
    assert!(!text_is_closed("a = #{"));
    assert!(!text_is_closed("a = #"));
    assert!(!text_is_closed("#{a} #"));
    assert!(text_is_closed("#{a#}"));
}

#[test]
fn closed_pieces_are_prepared_as_one_text_as_they_are_one_by_one() {
    let shape = person();
    let pieces = ["id = #{id}", " AND ", "age > #{age} OR age = #{age}", ""];
    let mut sql = String::new();
    let mut names = Vec::new();
    for piece in pieces {
        assert!(text_is_closed(piece));
        let prepared = prepare_sql(piece, &shape).unwrap();
        sql.push_str(&prepared.sql);
        names.extend(prepared.binds.into_iter().map(|b| b.property));
    }
    let whole = prepare_sql(&pieces.concat(), &shape).unwrap();
    assert_eq!(whole.sql, sql);
    assert_eq!(whole.sql, "id = ? AND age > ? OR age = ?");
    let whole_names: Vec<String> = whole.binds.into_iter().map(|b| b.property).collect();
    assert_eq!(whole_names, names);

    let open = ["id = #{i", "d}"];
    assert!(!text_is_closed(open[0]));
    assert!(prepare_sql(open[0], &shape).is_err());
    assert!(prepare_sql(&open.concat(), &shape).is_ok());
}
