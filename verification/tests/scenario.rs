use yobatis::compile::{compile_mapper, is_mapper_file, CompileError};
use yobatis::genc::{gen_mapper_src, MapperSource};
use yobatis::info::ColumnType;
use yobatis::mapper::{YoResult, YoResultMap};
use yobatis::parse::parse_mapper_text;
use yobatis::placeholder::prepare_sql;

const DOCUMENT: &str = "<mapper namespace=\"t_mapper\"><resultMap id=\"BaseResultMap\" type=\"yb_t_t\"><result column=\"id\" property=\"id\" yo_type=\"int64_t\"/><result column=\"name\" property=\"name\" yo_type=\"yb_string_t\"/></resultMap><insert id=\"t_insert\" parameterType=\"yb_t_t\">INSERT INTO t (id, name) VALUES (#{id}, #{name})</insert></mapper>";

const PREPARE_HEAD: [&str; 13] = [
    "    for (int64_t i = 0; i < yb_string_length(cmd); ++i) {\n",
    "        if (i < yb_string_length(cmd) - 1 && yb_string_data(cmd)[i] == '#' && yb_string_data(cmd)[i+1] == '{') {\n",
    "            yb_string_append_data(prepare_sql, yb_string_data(cmd)+pre, i-pre);\n",
    "            pre = i + 2;\n",
    "            while (pre < yb_string_length(cmd) && yb_string_data(cmd)[pre] != '}') {\n",
    "                ++pre;\n",
    "            }\n",
    "            yb_string_t val_tmp = yb_string_new();\n",
    "            yb_string_ref_data(val_tmp, yb_string_data(cmd)+i+2, pre - i - 2);\n",
    "            i = pre;\n",
    "            if (pre < yb_string_length(cmd)) {\n                ++pre;\n",
    "            }\n",
    "            yb_string_append_c_str(prepare_sql, \"?\");\n",
];

const RUN: [&str; 8] = [
    "    MYSQL_STMT* stmt = mysql_stmt_init(NULL);\n",
    "    mysql_stmt_prepare(stmt, yb_string_data(prepare_sql), yb_string_length(prepare_sql));\n",
    "    mysql_stmt_bind_param(stmt, bind);\n",
    "    mysql_stmt_execute(stmt);\n",
    "    mysql_stmt_close(stmt);\n",
    "    yb_string_free(prepare_sql);\n",
    "    yb_string_free(cmd);\n",
    "    return YB_OK;\n}\n\n",
];

fn shape() -> YoResultMap {
    YoResultMap {
        id: "BaseResultMap".to_string(),
        type_: "yb_t_t".to_string(),
        results: vec![
            YoResult {
                column: "id".to_string(),
                property: "id".to_string(),
                yo_type: "int64_t".to_string(),
            },
            YoResult {
                column: "name".to_string(),
                property: "name".to_string(),
                yo_type: "yb_string_t".to_string(),
            },
        ],
    }
}

fn compiled(document: &str) -> MapperSource {
    match compile_mapper(document) {
        Ok(files) => files,
        Err(CompileError::Parse(e)) => panic!("parse: {}", e.message()),
        Err(CompileError::Generate(e)) => panic!("generate: {}", e.message()),
    }
}

fn assert_text(actual: &str, expected: &[&str]) {
    let mut rest = actual;
    for piece in expected {
        if !rest.starts_with(piece) {
            let shown: String = rest.chars().take(piece.len() + 20).collect();
            panic!("expected {:?}, found {:?}", piece, shown);
        }
        rest = &rest[piece.len()..];
    }
    assert_eq!(rest, "");
}

#[test]
fn insert_with_two_fields_compiles_to_record_and_function() {
    let files = compiled(DOCUMENT);
    assert_eq!(files.filename_h, "yb_t_mapper.h");
    assert_eq!(files.filename_c, "yb_t_mapper.c");
    assert_text(
        &files.header,
        &[
            "#ifndef YB_T_MAPPER_H__\n",
            "#define YB_T_MAPPER_H__\n\n",
            "struct yb_t_t_s {\n",
            "    int64_t id;\n",
            "    yb_string_t name;\n",
            "};\n",
            "typedef struct yb_t_t_s* yb_t_t;\n",
            "yb_t_t yb_t_t_new();\n",
            "void yb_t_t_free(yb_t_t);\n",
            "int t_insert(MYSQL* conn, yb_t_t n);\n",
            "#endif // YB_T_MAPPER_H__\n\n",
        ],
    );
    let mut expected = vec![
        "#include \"yb_t_mapper.h\"\n\n",
        "#include \"yb_common.h\"\n\n",
        "yb_t_t yb_t_t_new() {\n",
        "    yb_t_t n = (yb_t_t)malloc(sizeof(struct yb_t_t_s));\n",
        "    n->id = YB_INT_NULL;\n",
        "    n->name = YB_STRING_NULL;\n",
        "    return n;\n}\n\n",
        "void yb_t_t_free(yb_t_t n) {\n",
        "    if (n->name != YB_STRING_NULL) {\n",
        "        yb_string_free(n->name);\n",
        "    }\n",
        "    free(n);\n}\n\n",
        "int t_insert(MYSQL* conn, yb_t_t n) {\n",
        "    yb_string_t cmd = yb_string_new();\n",
        "    yb_string_append_c_str(cmd, \"INSERT INTO t (id, name) VALUES (#{id}, #{name})\");\n",
        "    MYSQL_BIND bind[2*2];\n",
        "    memset(bind, 0, sizeof(MYSQL_BIND)*2*2);\n",
        "    int bind_num = 0;\n",
        "    yb_string_t prepare_sql = yb_string_new();\n",
        "    int64_t pre = 0;\n",
    ];
    expected.extend_from_slice(&PREPARE_HEAD);
    expected.extend_from_slice(&[
        "            if (yb_string_compare_cstr(val_tmp, \"id\")) {\n",
        "\n                bind[bind_num].buffer_type = MYSQL_TYPE_LONGLONG;\n",
        "                bind[bind_num].buffer = &n->id;\n",
        "                ++bind_num;\n",
        "            }\n",
        "            else if (yb_string_compare_cstr(val_tmp, \"name\")) {\n",
        "\n                bind[bind_num].buffer_type = MYSQL_TYPE_STRING;\n",
        "                bind[bind_num].buffer = yb_string_data(n->name);\n",
        "                bind[bind_num].buffer_length = yb_string_length(n->name);\n",
        "                ++bind_num;\n",
        "            }\n",
        "        }\n",
        "    }\n",
        "    yb_string_append_data(prepare_sql, yb_string_data(cmd)+pre, yb_string_length(cmd)-pre);\n",
    ]);
    expected.extend_from_slice(&RUN);
    assert_text(&files.source, &expected);
}

#[test]
fn insert_with_two_fields_binds_integer_then_text() {
    let prepared = prepare_sql("INSERT INTO t (id, name) VALUES (#{id}, #{name})", &shape());
    let prepared = match prepared {
        Ok(p) => p,
        Err(e) => panic!("{}", e.message()),
    };
    assert_eq!(prepared.sql, "INSERT INTO t (id, name) VALUES (?, ?)");
    assert_eq!(prepared.binds.len(), 2);
    assert_eq!(prepared.binds[0].property, "id");
    assert_eq!(prepared.binds[0].kind, ColumnType::INT);
    assert_eq!(prepared.binds[1].property, "name");
    assert_eq!(prepared.binds[1].kind, ColumnType::STRING);
}

#[test]
fn compiling_twice_gives_the_same_files() {
    let first = compiled(DOCUMENT);
    let second = compiled(DOCUMENT);
    assert_eq!(first.filename_h, second.filename_h);
    assert_eq!(first.filename_c, second.filename_c);
    assert_eq!(first.header, second.header);
    assert_eq!(first.source, second.source);
}

#[test]
fn statements_come_out_by_kind_and_in_document_order() {
    let document = "<mapper namespace=\"m\">\
        <select id=\"s1\" parameterType=\"p\" resultMap=\"r\">S</select>\
        <update id=\"u2\" parameterType=\"p\">U</update>\
        <insert id=\"i2\" parameterType=\"p\">I</insert>\
        <update id=\"u1\" parameterType=\"p\">U</update>\
        <delete id=\"d1\" parameterType=\"p\">D</delete>\
        <insert id=\"i1\" parameterType=\"p\">I</insert>\
        <resultMap id=\"r\" type=\"p\"><result column=\"c\" property=\"c\" yo_type=\"double\"/></resultMap>\
        </mapper>";
    let files = compiled(document);
    assert_text(
        &files.header,
        &[
            "#ifndef YB_M_H__\n#define YB_M_H__\n\n",
            "struct p_s {\n    double c;\n};\ntypedef struct p_s* p;\n",
            "p p_new();\n",
            "void p_free(p);\n",
            "int i2(MYSQL* conn, p n);\n",
            "int i1(MYSQL* conn, p n);\n",
            "int u2(MYSQL* conn, p n);\n",
            "int u1(MYSQL* conn, p n);\n",
            "int s1(MYSQL* conn, p n, p out);\n",
            "#endif // YB_M_H__\n\n",
        ],
    );
    assert!(!files.source.contains("d1"));
}

#[test]
fn select_function_takes_the_rows_and_sets_up_their_columns() {
    let document = "<mapper namespace=\"m\">\
        <resultMap id=\"r\" type=\"row_t\"><result column=\"a\" property=\"a\" yo_type=\"double\"/><result column=\"b\" property=\"b\" yo_type=\"int64_t\"/><result column=\"c\" property=\"c\" yo_type=\"int64_t\"/></resultMap>\
        <resultMap id=\"k\" type=\"key_t\"><result column=\"a\" property=\"a\" yo_type=\"double\"/></resultMap>\
        <select id=\"find\" parameterType=\"key_t\" resultMap=\"r\">SELECT 1</select>\
        </mapper>";
    let files = compiled(document);
    assert!(files.header.contains("int find(MYSQL* conn, key_t n, row_t out);\n"));
    let start = files.source.find("int find(").unwrap();
    let mut expected = vec![
        "int find(MYSQL* conn, key_t n, row_t out) {\n",
        "    yb_string_t cmd = yb_string_new();\n",
        "    yb_string_append_c_str(cmd, \"SELECT 1\");\n",
        "    MYSQL_BIND bind[1*2];\n",
        "    memset(bind, 0, sizeof(MYSQL_BIND)*1*2);\n",
        "    int bind_num = 0;\n",
        "    MYSQL_BIND bind_out[3*2];\n",
        "    memset(bind, 0, sizeof(MYSQL_BIND)*3*2);\n",
        "    int bind_out_num = 0;\n",
        "    yb_string_t prepare_sql = yb_string_new();\n",
        "    int64_t pre = 0;\n",
    ];
    expected.extend_from_slice(&PREPARE_HEAD);
    expected.extend_from_slice(&[
        "            if (yb_string_compare_cstr(val_tmp, \"a\")) {\n",
        "\n                bind[bind_num].buffer_type = MYSQL_TYPE_DOUBLE;\n",
        "                bind[bind_num].buffer = &n->a;\n",
        "                ++bind_num;\n",
        "            }\n",
        "        }\n",
        "    }\n",
        "    yb_string_append_data(prepare_sql, yb_string_data(cmd)+pre, yb_string_length(cmd)-pre);\n",
    ]);
    expected.extend_from_slice(&RUN);
    assert_text(&files.source[start..], &expected);
}

#[test]
fn missing_include_fails_the_document() {
    let document = "<mapper namespace=\"m\">\
        <resultMap id=\"r\" type=\"p\"><result column=\"c\" property=\"c\" yo_type=\"double\"/></resultMap>\
        <insert id=\"ok\" parameterType=\"p\">I</insert>\
        <update id=\"bad\" parameterType=\"p\">UPDATE <if test=\"c != YB_FLOAT_NULL\"><include refid=\"missing\"/></if></update>\
        </mapper>";
    match compile_mapper(document) {
        Err(CompileError::Generate(e)) => {
            assert_eq!(e.message(), "include sql not found: missing")
        }
        _ => panic!("the document must not compile"),
    }
}

#[test]
fn text_that_is_no_document_is_a_parse_error() {
    match compile_mapper("<mapper><insert></mapper>") {
        Err(CompileError::Parse(e)) => {
            assert_eq!(e.message(), "the document is not well-formed XML")
        }
        _ => panic!("the text must not parse"),
    }
    assert!(parse_mapper_text("").is_err());
}

#[test]
fn unknown_parameter_type_is_an_error() {
    let document = "<mapper namespace=\"m\"><insert id=\"i\" parameterType=\"int64_t\">I</insert></mapper>";
    match compile_mapper(document) {
        Err(CompileError::Generate(e)) => {
            assert_eq!(e.message(), "parameter type not found: int64_t")
        }
        _ => panic!("the document must not compile"),
    }
}

#[test]
fn unknown_result_map_of_a_select_is_an_error() {
    let document = "<mapper namespace=\"m\">\
        <resultMap id=\"r\" type=\"p\"><result column=\"c\" property=\"c\" yo_type=\"double\"/></resultMap>\
        <select id=\"s\" parameterType=\"p\" resultMap=\"rows\">S</select></mapper>";
    match compile_mapper(document) {
        Err(CompileError::Generate(e)) => assert_eq!(e.message(), "result map not found: rows"),
        _ => panic!("the document must not compile"),
    }
}

#[test]
fn placeholder_without_a_field_is_an_error() {
    let document = "<mapper namespace=\"m\">\
        <resultMap id=\"r\" type=\"p\"><result column=\"c\" property=\"c\" yo_type=\"double\"/></resultMap>\
        <insert id=\"i\" parameterType=\"p\">INSERT INTO t (c, d) VALUES (#{c}, #{d})</insert></mapper>";
    match compile_mapper(document) {
        Err(CompileError::Generate(e)) => {
            assert_eq!(e.message(), "placeholder not found in parameter type: d")
        }
        _ => panic!("the document must not compile"),
    }
}

#[test]
fn placeholder_in_an_included_fragment_is_checked() {
    let document = "<mapper namespace=\"m\">\
        <sql id=\"cond\">x = #{x}</sql>\
        <resultMap id=\"r\" type=\"p\"><result column=\"c\" property=\"c\" yo_type=\"double\"/></resultMap>\
        <update id=\"u\" parameterType=\"p\">UPDATE t SET c = #{c} WHERE <trim><include refid=\"cond\"/></trim></update></mapper>";
    match compile_mapper(document) {
        Err(CompileError::Generate(e)) => {
            assert_eq!(e.message(), "placeholder not found in parameter type: x")
        }
        _ => panic!("the document must not compile"),
    }
}

#[test]
fn field_of_unknown_type_is_an_error() {
    let document = "<mapper namespace=\"m\">\
        <resultMap id=\"r\" type=\"p\"><result column=\"c\" property=\"c\" yo_type=\"float\"/></resultMap>\
        </mapper>";
    match compile_mapper(document) {
        Err(CompileError::Generate(e)) => assert_eq!(e.message(), "unsupported type: float"),
        _ => panic!("the document must not compile"),
    }
}

#[test]
fn generating_from_a_parsed_mapper_matches_compiling_its_text() {
    let mapper = match parse_mapper_text(DOCUMENT) {
        Ok(mapper) => mapper,
        Err(e) => panic!("{}", e.message()),
    };
    let files = match gen_mapper_src(&mapper) {
        Ok(files) => files,
        Err(e) => panic!("{}", e.message()),
    };
    let compiled = compiled(DOCUMENT);
    assert_eq!(files.header, compiled.header);
    assert_eq!(files.source, compiled.source);
}

#[test]
fn only_names_with_the_mapper_suffix_are_mapper_files() {
    assert!(is_mapper_file("user-mapper.xml"));
    assert!(is_mapper_file("-mapper.xml"));
    assert!(!is_mapper_file("db.xml"));
    assert!(!is_mapper_file("user-mapper.xml.bak"));
    assert!(!is_mapper_file("mapper.xml"));
    assert!(!is_mapper_file(""));
}

#[test]
fn several_documents_compile_in_their_order_or_not_at_all() {
    let second = "<mapper namespace=\"second\"><sql id=\"s\">x</sql></mapper>";
    let texts = vec![DOCUMENT.to_string(), second.to_string()];
    let mappers = yobatis::parse::parse_mappers(&texts).unwrap();
    assert_eq!(mappers.len(), 2);
    assert_eq!(mappers[0].namespace, "t_mapper");
    assert_eq!(mappers[1].namespace, "second");
    let sources = yobatis::genc::gen_c(mappers).unwrap();
    assert_eq!(sources.len(), 2);
    assert_eq!(sources[0].filename_h, "yb_t_mapper.h");
    assert_eq!(sources[0].source, compiled(DOCUMENT).source);
    assert_eq!(sources[1].filename_c, "yb_second.c");
    assert_eq!(
        sources[1].header,
        "#ifndef YB_SECOND_H__\n#define YB_SECOND_H__\n\n#endif // YB_SECOND_H__\n\n"
    );
    assert_eq!(sources[1].source, "#include \"yb_second.h\"\n\n#include \"yb_common.h\"\n\n");

    let broken = vec![second.to_string(), "<mapper namespace=\"b\"><sql/></mapper>".to_string()];
    match yobatis::parse::parse_mappers(&broken) {
        Err(e) => assert_eq!(e.message(), "missing attribute id of element sql"),
        Ok(_) => panic!("the second document lacks an id"),
    }
    let bad = "<mapper namespace=\"bad\"><insert id=\"i\" parameterType=\"none\">I</insert></mapper>";
    let mappers = yobatis::parse::parse_mappers(&vec![second.to_string(), bad.to_string()]).unwrap();
    match yobatis::genc::gen_c(mappers) {
        Err(e) => assert_eq!(e.message(), "parameter type not found: none"),
        Ok(_) => panic!("the second mapper must not compile"),
    }
    assert!(yobatis::parse::parse_mappers(&vec![]).unwrap().is_empty());
}
