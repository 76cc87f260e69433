use yobatis::info::{col_type_of, gen_col_type_null_str, gen_col_type_str, ColumnType};
use yobatis::mapper::{YoResult, YoResultMap};
use yobatis::record::{
    write_result_map, write_result_map_define, write_result_map_free, write_result_map_new,
};

fn record(fields: &[(&str, &str)]) -> YoResultMap {
    YoResultMap {
        id: "BaseResultMap".to_string(),
        type_: "yb_user_t".to_string(),
        results: fields
            .iter()
            .map(|(property, yo_type)| YoResult {
                column: property.to_string(),
                property: property.to_string(),
                yo_type: yo_type.to_string(),
            })
            .collect(),
    }
}

#[test]
fn record_type_lists_one_member_for_each_field() {
    let rm = record(&[("id", "int64_t"), ("name", "yb_string_t"), ("score", "double")]);
    let mut header = String::new();
    let mut source = String::new();
    assert!(write_result_map_define(&mut header, &mut source, &rm).is_ok());
    assert_eq!(
        header,
        "struct yb_user_t_s {\n    int64_t id;\n    yb_string_t name;\n    double score;\n};\ntypedef struct yb_user_t_s* yb_user_t;\n"
    );
    assert_eq!(source, "");
}

#[test]
fn constructor_sets_every_member_to_its_unset_value() {
    let rm = record(&[("id", "int64_t"), ("name", "yb_string_t"), ("score", "double")]);
    let mut header = String::new();
    let mut source = String::new();
    assert!(write_result_map_new(&mut header, &mut source, &rm).is_ok());
    assert_eq!(header, "yb_user_t yb_user_t_new();\n");
    assert_eq!(
        source,
        "yb_user_t yb_user_t_new() {\n    yb_user_t n = (yb_user_t)malloc(sizeof(struct yb_user_t_s));\n    n->id = YB_INT_NULL;\n    n->name = YB_STRING_NULL;\n    n->score = YB_FLOAT_NULL;\n    return n;\n}\n\n"
    );
    for field in &rm.results {
        let kind = col_type_of(&field.yo_type).unwrap();
        let line = format!("    n->{} = {};\n", field.property, gen_col_type_null_str(&kind));
        assert_eq!(source.matches(&line).count(), 1);
    }
}

#[test]
fn constructor_refuses_a_field_of_unknown_type() {
    let rm = record(&[("id", "int64_t"), ("when", "time_t"), ("what", "blob")]);
    let mut header = String::from("h");
    let mut source = String::from("c");
    match write_result_map_new(&mut header, &mut source, &rm) {
        Err(e) => assert_eq!(e.message(), "unsupported type: time_t"),
        Ok(()) => panic!("time_t is none of the three types"),
    }
    assert_eq!(header, "h");
    assert_eq!(source, "c");
    match write_result_map(&mut header, &mut source, &rm) {
        Err(e) => assert_eq!(e.message(), "unsupported type: time_t"),
        Ok(()) => panic!("time_t is none of the three types"),
    }
    assert_eq!(header, "h");
    assert_eq!(source, "c");
}

#[test]
fn destructor_releases_text_members_only() {
    let rm = record(&[
        ("id", "int64_t"),
        ("name", "yb_string_t"),
        ("score", "double"),
        ("note", "yb_string_t"),
    ]);
    let mut header = String::new();
    let mut source = String::new();
    assert!(write_result_map_free(&mut header, &mut source, &rm).is_ok());
    assert_eq!(header, "void yb_user_t_free(yb_user_t);\n");
    assert_eq!(
        source,
        "void yb_user_t_free(yb_user_t n) {\n    if (n->name != YB_STRING_NULL) {\n        yb_string_free(n->name);\n    }\n    if (n->note != YB_STRING_NULL) {\n        yb_string_free(n->note);\n    }\n    free(n);\n}\n\n"
    );
    assert_eq!(source.matches("yb_string_free(").count(), 2);
    assert_eq!(source.matches("free(n);").count(), 1);
    assert!(!source.contains("n->id"));
    assert!(!source.contains("n->score"));
}

#[test]
fn record_without_fields_still_has_its_three_parts() {
    let rm = record(&[]);
    let mut header = String::new();
    let mut source = String::new();
    assert!(write_result_map(&mut header, &mut source, &rm).is_ok());
    assert_eq!(
        header,
        "struct yb_user_t_s {\n};\ntypedef struct yb_user_t_s* yb_user_t;\nyb_user_t yb_user_t_new();\nvoid yb_user_t_free(yb_user_t);\n"
    );
    assert_eq!(
        source,
        "yb_user_t yb_user_t_new() {\n    yb_user_t n = (yb_user_t)malloc(sizeof(struct yb_user_t_s));\n    return n;\n}\n\nvoid yb_user_t_free(yb_user_t n) {\n    free(n);\n}\n\n"
    );
}

#[test]
fn kinds_and_their_c_names_go_both_ways() {
    for kind in [ColumnType::INT, ColumnType::STRING, ColumnType::FLOAT] {
        assert_eq!(col_type_of(&gen_col_type_str(&kind)), Some(kind));
    }
    assert_eq!(gen_col_type_str(&ColumnType::INT), "int64_t");
    assert_eq!(gen_col_type_str(&ColumnType::STRING), "yb_string_t");
    assert_eq!(gen_col_type_str(&ColumnType::FLOAT), "double");
    assert_eq!(gen_col_type_null_str(&ColumnType::INT), "YB_INT_NULL");
    assert_eq!(gen_col_type_null_str(&ColumnType::STRING), "YB_STRING_NULL");
    assert_eq!(gen_col_type_null_str(&ColumnType::FLOAT), "YB_FLOAT_NULL");
    assert_eq!(col_type_of("int"), None);
    assert_eq!(col_type_of(""), None);
}
