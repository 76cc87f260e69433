use yobatis::compile::{compile_mapper, CompileError};
use yobatis::dom::XmlAttr;
use yobatis::dynamic::prepare_statement;
use yobatis::info::{ColumnInfo, ColumnType, DBInfo, TableInfo};
use yobatis::parse::parse_mapper_text;
use yobatis::schema::{
    column_info, column_type_from_matches, create_database_if_missing, create_table_if_missing,
    parse_column_type, show_create_database, show_create_table, show_full_columns, show_tables,
};
use yobatis::starter::{
    gen_base_column_list, gen_db_xml, gen_delete_by_primary_key, gen_insert_all,
    gen_insert_selective, gen_result_map, gen_select_by_primary_key, gen_table_events,
    gen_table_xml, gen_update_by_primary_key, gen_update_by_primary_key_selective, generate,
    normalize_name, render_events, XmlEvent,
};

fn column(name: &str, type_: ColumnType, primary_key: bool) -> ColumnInfo {
    ColumnInfo {
        name: name.to_string(),
        type_,
        nullable: !primary_key,
        default: String::new(),
        comment: String::new(),
        primary_key,
    }
}

fn users() -> TableInfo {
    TableInfo {
        name: "app users".to_string(),
        columns: vec![
            column("id", ColumnType::INT, true),
            column("full name", ColumnType::STRING, false),
            column("score", ColumnType::FLOAT, false),
        ],
        create: "CREATE TABLE `app users` (...)".to_string(),
    }
}

fn open(name: &str, attrs: &[(&str, &str)]) -> String {
    let mut s = format!("<{}", name);
    for (k, v) in attrs {
        s.push_str(&format!(" {}={:?}", k, v));
    }
    s.push('>');
    s
}

fn shown(events: &[XmlEvent]) -> Vec<String> {
    events
        .iter()
        .map(|e| match e {
            XmlEvent::StartElement { name, attrs } => {
                let pairs: Vec<(&str, &str)> =
                    attrs.iter().map(|a: &XmlAttr| (a.name.as_str(), a.value.as_str())).collect();
                open(name, &pairs)
            }
            XmlEvent::EndElement => "</>".to_string(),
            XmlEvent::Characters(text) => text.clone(),
        })
        .collect()
}

#[test]
fn names_are_made_fit_for_c() {
    assert_eq!(normalize_name("user"), "user");
    assert_eq!(normalize_name("app users"), "app_users");
    assert_eq!(normalize_name("a-b.c d"), "a_b_c_d");
    assert_eq!(normalize_name("Zahl_9"), "Zahl_9");
    assert_eq!(normalize_name("größe"), "gr__e");
    assert_eq!(normalize_name(""), "");
}

#[test]
fn result_map_has_one_result_for_each_column() {
    let mut events = Vec::new();
    gen_result_map(&users(), "app_users", &mut events);
    assert_eq!(
        shown(&events),
        vec![
            open("resultMap", &[("id", "BaseResultMap"), ("type", "yb_app_users_t")]),
            open("result", &[("column", "id"), ("property", "id"), ("yo_type", "int64_t")]),
            "</>".to_string(),
            open(
                "result",
                &[("column", "full name"), ("property", "full_name"), ("yo_type", "yb_string_t")]
            ),
            "</>".to_string(),
            open("result", &[("column", "score"), ("property", "score"), ("yo_type", "double")]),
            "</>".to_string(),
            "</>".to_string(),
        ]
    );
}

#[test]
fn column_list_separates_the_names_by_commas() {
    let mut events = vec![XmlEvent::Characters("kept".to_string())];
    gen_base_column_list(&users(), &mut events);
    assert_eq!(
        shown(&events),
        vec!["kept", "<sql id=\"base_column_list\">", "id", ", ", "full_name", ", ", "score", "</>"]
    );
    let empty = TableInfo { name: "t".to_string(), columns: vec![], create: String::new() };
    let mut events = Vec::new();
    gen_base_column_list(&empty, &mut events);
    assert_eq!(shown(&events), vec!["<sql id=\"base_column_list\">", "</>"]);
}

#[test]
fn insert_all_lists_columns_and_placeholders() {
    let mut events = Vec::new();
    gen_insert_all(&users(), "app_users", &mut events);
    assert_eq!(
        shown(&events),
        vec![
            "<insert id=\"app_users_insert\" parameterType=\"yb_app_users_t\">",
            "INSERT INTO `",
            "app users",
            "` (",
            "id",
            ", ",
            "full_name",
            ", ",
            "score",
            ") VALUES (",
            "#{id}",
            ", ",
            "#{full_name}",
            ", ",
            "#{score}",
            ")",
            "</>",
        ]
    );
}

#[test]
fn insert_selective_guards_every_column() {
    let table = TableInfo {
        name: "t".to_string(),
        columns: vec![column("a", ColumnType::INT, true), column("b", ColumnType::STRING, false)],
        create: String::new(),
    };
    let mut events = Vec::new();
    gen_insert_selective(&table, "t", &mut events);
    assert_eq!(
        shown(&events),
        vec![
            "<insert id=\"t_insert_selective\" parameterType=\"yb_t_t\">",
            "INSERT INTO `",
            "t",
            "` ",
            "<trim prefix=\"(\" suffix=\")\" suffixOverrides=\",\">",
            "<if test=\"a != YB_INT_NULL\">",
            "a",
            ",",
            "</>",
            "<if test=\"b != YB_STRING_NULL\">",
            "b",
            ",",
            "</>",
            "</>",
            "<trim prefix=\"VALUES (\" suffix=\")\" suffixOverrides=\",\">",
            "<if test=\"a != YB_INT_NULL\">",
            "#{a}",
            ",",
            "</>",
            "<if test=\"b != YB_STRING_NULL\">",
            "#{b}",
            ",",
            "</>",
            "</>",
            "</>",
        ]
    );
}

#[test]
fn update_by_key_sets_every_column() {
    let mut events = Vec::new();
    gen_update_by_primary_key(&users(), "app_users", "id", &mut events);
    assert_eq!(
        shown(&events),
        vec![
            "<update id=\"app_users_update_by_id\" parameterType=\"yb_app_users_t\">",
            "UPDATE `",
            "app users",
            "` SET ",
            "`id` = #{id}",
            ", ",
            "`full name` = #{full_name}",
            ", ",
            "`score` = #{score}",
            " WHERE ",
            "id",
            " = #{",
            "id",
            "}",
            "</>",
        ]
    );
}

#[test]
fn selective_update_leaves_the_key_out() {
    let mut events = Vec::new();
    gen_update_by_primary_key_selective(&users(), "app_users", "id", &mut events);
    assert_eq!(
        shown(&events),
        vec![
            "<update id=\"app_users_update_by_id_selective\" parameterType=\"yb_app_users_t\">",
            "UPDATE `",
            "app users",
            "` SET ",
            "<trim suffixOverrides=\",\">",
            "<if test=\"full_name != YB_STRING_NULL\">",
            "`full name` = #{full_name}, ",
            "</>",
            "<if test=\"score != YB_FLOAT_NULL\">",
            "`score` = #{score}, ",
            "</>",
            "</>",
            " WHERE ",
            "id",
            " = #{",
            "id",
            "}",
            "</>",
        ]
    );
}

#[test]
fn select_and_delete_take_the_kind_of_the_key() {
    let mut events = Vec::new();
    gen_select_by_primary_key(&users(), "app_users", "full name", &mut events);
    assert_eq!(
        shown(&events),
        vec![
            "<select id=\"app_users_select_by_full_name\" resultMap=\"BaseResultMap\" parameterType=\"yb_string_t\">",
            "SELECT ",
            "<include refid=\"base_column_list\">",
            "</>",
            " FROM `",
            "app users",
            "` WHERE ",
            "full name = #{full_name}",
            "</>",
        ]
    );
    let mut events = Vec::new();
    gen_delete_by_primary_key(&users(), "app_users", "score", &mut events);
    assert_eq!(
        shown(&events),
        vec![
            "<delete id=\"app_users_delete_by_score\" parameterType=\"double\">",
            "DELETE FROM `",
            "app users",
            "` WHERE `",
            "score",
            "` = #{",
            "score",
            "}",
            "</>",
        ]
    );
    let mut events = Vec::new();
    gen_delete_by_primary_key(&users(), "app_users", "nowhere", &mut events);
    assert_eq!(
        shown(&events)[0],
        "<delete id=\"app_users_delete_by_nowhere\" parameterType=\"int64_t\">"
    );
}

#[test]
fn table_mapper_has_keyed_statements_for_primary_keys_only() {
    let events = gen_table_events(&users());
    let ids: Vec<String> = events
        .iter()
        .filter_map(|e| match e {
            XmlEvent::StartElement { name, attrs }
                if ["insert", "update", "select", "delete", "sql", "resultMap", "mapper"]
                    .contains(&name.as_str()) =>
            {
                Some(format!("{} {}", name, attrs[0].value))
            }
            _ => None,
        })
        .collect();
    assert_eq!(
        ids,
        vec![
            "mapper app_users_mapper",
            "resultMap BaseResultMap",
            "sql base_column_list",
            "insert app_users_insert",
            "insert app_users_insert_selective",
            "update app_users_update_by_id",
            "update app_users_update_by_id_selective",
            "select app_users_select_by_id",
            "delete app_users_delete_by_id",
        ]
    );
    let starts = events.iter().filter(|e| matches!(e, XmlEvent::StartElement { .. })).count();
    let ends = events.iter().filter(|e| matches!(e, XmlEvent::EndElement)).count();
    assert_eq!(starts, ends);
    match events.last() {
        Some(XmlEvent::Characters(text)) => assert_eq!(text, "\n"),
        _ => panic!("the document ends with a line break"),
    }
}

#[test]
fn database_document_holds_name_and_statement() {
    let inf = DBInfo {
        name: "shop".to_string(),
        create: "CREATE DATABASE IF NOT EXISTS `shop` <utf8>".to_string(),
        tables: vec![],
    };
    let file = match gen_db_xml(&inf) {
        Ok(file) => file,
        Err(e) => panic!("{}", e.message()),
    };
    assert_eq!(file.filename, "db.xml");
    assert_eq!(
        file.text,
        "<?xml version=\"1.0\" encoding=\"UTF-8\"?>\n<db>\n  <name>shop</name>\n  <create>CREATE DATABASE IF NOT EXISTS `shop` &lt;utf8&gt;</create>\n</db>\n"
    );
}

#[test]
fn unbalanced_events_are_refused() {
    match render_events(&vec![XmlEvent::EndElement]) {
        Err(e) => assert_eq!(e.message(), "the events do not form a document"),
        Ok(text) => panic!("nothing is open: {:?}", text),
    }
    let text = render_events(&vec![
        XmlEvent::StartElement {
            name: "a".to_string(),
            attrs: vec![XmlAttr { name: "k".to_string(), value: "<\"v\">".to_string() }],
        },
        XmlEvent::Characters("x & y".to_string()),
        XmlEvent::EndElement,
    ]);
    match text {
        Ok(text) => assert_eq!(
            text,
            "<?xml version=\"1.0\" encoding=\"UTF-8\"?>\n<a k=\"&lt;&quot;v&quot;&gt;\">x &amp; y</a>"
        ),
        Err(e) => panic!("{}", e.message()),
    }
}

#[test]
fn starter_files_are_the_database_and_one_mapper_for_each_table() {
    let inf = DBInfo {
        name: "shop".to_string(),
        create: "CREATE DATABASE `shop`".to_string(),
        tables: vec![
            users(),
            TableInfo {
                name: "orders".to_string(),
                columns: vec![column("n", ColumnType::INT, false)],
                create: String::new(),
            },
        ],
    };
    let files = match generate(&inf) {
        Ok(files) => files,
        Err(e) => panic!("{}", e.message()),
    };
    let names: Vec<&str> = files.iter().map(|f| f.filename.as_str()).collect();
    assert_eq!(names, vec!["db.xml", "app_users-mapper.xml", "orders-mapper.xml"]);
    let one = gen_table_xml(&inf.tables[1]).unwrap();
    assert_eq!(one.filename, files[2].filename);
    assert_eq!(one.text, files[2].text);
}

#[test]
fn starter_mapper_reads_back_as_a_mapper() {
    let table = TableInfo {
        name: "orders".to_string(),
        columns: vec![
            column("id", ColumnType::INT, false),
            column("note", ColumnType::STRING, false),
            column("total", ColumnType::FLOAT, false),
        ],
        create: String::new(),
    };
    let file = gen_table_xml(&table).unwrap();
    let mapper = match parse_mapper_text(&file.text) {
        Ok(mapper) => mapper,
        Err(e) => panic!("{}", e.message()),
    };
    assert_eq!(mapper.namespace, "orders_mapper");
    let shape = mapper.type_maps.get("yb_orders_t").unwrap();
    assert_eq!(shape.results.len(), 3);
    assert_eq!(shape.results[1].yo_type, "yb_string_t");
    assert_eq!(mapper.sqls.get("base_column_list").unwrap().text, "id, note, total");
    assert_eq!(mapper.inserts.len(), 2);
    let selective = mapper.inserts.get("orders_insert_selective").unwrap();
    let holds = vec!["id != YB_INT_NULL".to_string(), "total != YB_FLOAT_NULL".to_string()];
    let prepared =
        prepare_statement(&mapper, &selective.parameter_type, &selective.content, &holds).unwrap();
    assert_eq!(
        prepared.sql,
        "INSERT INTO `orders` (id,\n      \n      total)\n    VALUES (?,\n      \n      ?)\n  "
    );
    assert_eq!(prepared.binds.len(), 2);
    assert_eq!(prepared.binds[0].kind, ColumnType::INT);
    assert_eq!(prepared.binds[1].kind, ColumnType::FLOAT);
    match compile_mapper(&file.text) {
        Ok(files) => {
            assert_eq!(files.filename_c, "yb_orders_mapper.c");
            assert!(files.header.contains("int orders_insert(MYSQL* conn, yb_orders_t n);\n"));
            assert!(files
                .header
                .contains("int orders_insert_selective(MYSQL* conn, yb_orders_t n);\n"));
        }
        Err(CompileError::Parse(e)) => panic!("parse: {}", e.message()),
        Err(CompileError::Generate(e)) => panic!("generate: {}", e.message()),
    }
}

#[test]
fn statements_for_the_server_quote_the_name() {
    assert_eq!(show_create_database("shop"), "SHOW CREATE DATABASE `shop`");
    assert_eq!(show_tables("shop"), "SHOW TABLES FROM `shop`");
    assert_eq!(show_create_table("app users"), "SHOW CREATE TABLE `app users`");
    assert_eq!(show_full_columns("orders"), "SHOW FULL COLUMNS FROM `orders`");
}

#[test]
fn creation_is_guarded_once() {
    assert_eq!(
        create_database_if_missing("CREATE DATABASE `shop` /* CREATE DATABASE */"),
        "CREATE DATABASE IF NOT EXISTS `shop` /* CREATE DATABASE */"
    );
    assert_eq!(
        create_table_if_missing("CREATE TABLE `t` (\n  `id` int\n)"),
        "CREATE TABLE IF NOT EXISTS `t` (\n  `id` int\n)"
    );
    assert_eq!(create_table_if_missing("create table t"), "create table t");
    assert_eq!(create_database_if_missing(""), "");
}

#[test]
fn column_types_fall_into_three_kinds() {
    assert_eq!(parse_column_type("int(11)"), ColumnType::INT);
    assert_eq!(parse_column_type("bigint(20) unsigned"), ColumnType::INT);
    assert_eq!(parse_column_type("bit(1)"), ColumnType::INT);
    assert_eq!(parse_column_type("double"), ColumnType::FLOAT);
    assert_eq!(parse_column_type("decimal(10,2)"), ColumnType::FLOAT);
    assert_eq!(parse_column_type("float"), ColumnType::FLOAT);
    assert_eq!(parse_column_type("numeric(5)"), ColumnType::FLOAT);
    assert_eq!(parse_column_type("varchar(255)"), ColumnType::STRING);
    assert_eq!(parse_column_type("datetime"), ColumnType::STRING);
    assert_eq!(parse_column_type("point"), ColumnType::INT);
    assert_eq!(parse_column_type(""), ColumnType::STRING);
    assert_eq!(column_type_from_matches(Some(true), Some(true)), ColumnType::INT);
    assert_eq!(column_type_from_matches(Some(false), Some(true)), ColumnType::FLOAT);
    assert_eq!(column_type_from_matches(None, Some(true)), ColumnType::FLOAT);
    assert_eq!(column_type_from_matches(Some(false), Some(false)), ColumnType::STRING);
    assert_eq!(column_type_from_matches(None, None), ColumnType::STRING);
}

#[test]
fn row_of_the_column_list_becomes_a_column() {
    let c = column_info(
        "id".to_string(),
        "bigint(20)",
        "NO",
        "PRI",
        None,
        "the key".to_string(),
    );
    assert_eq!(c.name, "id");
    assert_eq!(c.type_, ColumnType::INT);
    assert!(!c.nullable);
    assert!(c.primary_key);
    assert_eq!(c.default, "");
    assert_eq!(c.comment, "the key");
    let c = column_info(
        "note".to_string(),
        "text",
        "YES",
        "MUL",
        Some("none".to_string()),
        String::new(),
    );
    assert_eq!(c.type_, ColumnType::STRING);
    assert!(c.nullable);
    assert!(!c.primary_key);
    assert_eq!(c.default, "none");
}
