//! Starter mapper documents: for each table of a database a mapper with a
//! result map, the list of columns, and the usual statements, ready to be
//! edited by hand. The documents are written by the `xml-rs` crate.

use crate::dom::{XmlAttr, XmlAttrView};
use crate::info::{
    col_type_null_text, col_type_text, gen_col_type_null_str, gen_col_type_str, ColumnInfo,
    ColumnInfoView, ColumnType, DBInfo, DBInfoView, TableInfo, TableInfoView,
};
use crate::pattern::{regex_replace_all, replace_all};
use crate::text::same_text;
use vstd::prelude::*;
use vstd::string::StringExecFns;

verus! {

/// One step in writing a document: an element opens, the open element closes,
/// or text is written.
#[derive(Debug)]
pub enum XmlEvent {
    StartElement { name: String, attrs: Vec<XmlAttr> },
    EndElement,
    Characters(String),
}

/// The contents of an [`XmlEvent`].
pub enum XmlEventView {
    StartElement { name: Seq<char>, attrs: Seq<XmlAttrView> },
    EndElement,
    Characters(Seq<char>),
}

impl View for XmlEvent {
    type V = XmlEventView;

    open spec fn view(&self) -> XmlEventView {
        match self {
            XmlEvent::StartElement { name, attrs } => XmlEventView::StartElement {
                name: name@,
                attrs: attrs@.map_values(|a: XmlAttr| a@),
            },
            XmlEvent::EndElement => XmlEventView::EndElement,
            XmlEvent::Characters(text) => XmlEventView::Characters(text@),
        }
    }
}

/// The contents of a list of events.
pub open spec fn events_view(events: Seq<XmlEvent>) -> Seq<XmlEventView> {
    events.map_values(|e: XmlEvent| e@)
}

/// The attribute with the given name and value.
pub open spec fn attr(name: Seq<char>, value: Seq<char>) -> XmlAttrView {
    XmlAttrView { name, value }
}

/// The event that opens an element.
pub open spec fn start(name: Seq<char>, attrs: Seq<XmlAttrView>) -> XmlEventView {
    XmlEventView::StartElement { name, attrs }
}

/// The event that closes the open element.
pub open spec fn end() -> XmlEventView {
    XmlEventView::EndElement
}

/// The event that writes text.
pub open spec fn chars(text: Seq<char>) -> XmlEventView {
    XmlEventView::Characters(text)
}

/// `xml::writer::Error`, the error of the writer of `xml-rs`; nothing is known
/// of what is inside.
#[verifier::external_type_specification]
#[verifier::external_body]
pub struct ExEmitterError(xml::writer::Error);

/// The text of the document that `xml-rs` writes for the events, with the given
/// settings of its writer; `None` where the writer refuses an event.
pub uninterp spec fn document_text(
    events: Seq<XmlEventView>,
    indent: bool,
    declaration: bool,
    autopad: bool,
) -> Option<Seq<char>>;

/// Makes a writer of `xml-rs` with the given settings over a buffer in memory,
/// hands it the events in their order through `EventWriter::write`, and returns
/// what the buffer then holds. The writer returns an error where an element is
/// closed that was not opened. What is written depends on the events and the
/// settings alone.
#[verifier::external_body]
fn write_document(events: &Vec<XmlEvent>, indent: bool, declaration: bool, autopad: bool) -> (r:
    Result<String, xml::writer::Error>)
    ensures
        match r {
            Ok(text) => document_text(events_view(events@), indent, declaration, autopad) == Some(
                text@,
            ),
            Err(_) => document_text(events_view(events@), indent, declaration, autopad) is None,
        },
{
    let config = xml::EmitterConfig::new().perform_indent(indent)
        .write_document_declaration(declaration).autopad_comments(autopad);
    let mut writer = config.create_writer(Vec::new());
    for event in events {
        match event {
            XmlEvent::StartElement { name, attrs } => writer.write(attrs.iter().fold(
                xml::writer::XmlEvent::start_element(name.as_str()),
                |element, a| element.attr(a.name.as_str(), a.value.as_str()),
            ))?,
            XmlEvent::EndElement => writer.write(xml::writer::XmlEvent::end_element())?,
            XmlEvent::Characters(text) => writer.write(xml::writer::XmlEvent::characters(text))?,
        }
    }
    Ok(String::from_utf8_lossy(&writer.into_inner()).into_owned())
}

/// Why a starter document could not be written.
#[derive(Debug)]
pub struct StarterError {
    message: String,
}

impl View for StarterError {
    type V = Seq<char>;

    closed spec fn view(&self) -> Seq<char> {
        self.message@
    }
}

impl StarterError {
    /// The message of the error.
    pub fn message(&self) -> (r: &String)
        ensures
            r@ == self@,
    {
        &self.message
    }
}

/// The message of the error for events that the writer refuses.
pub open spec fn refused_message() -> Seq<char> {
    "the events do not form a document"@
}

/// The text of the document for the events, indented and with its declaration.
pub open spec fn rendered(events: Seq<XmlEventView>) -> Result<Seq<char>, Seq<char>> {
    match document_text(events, true, true, true) {
        Some(text) => Ok(text),
        None => Err(refused_message()),
    }
}

/// Writes the document for the events, indented and with its declaration.
pub fn render_events(events: &Vec<XmlEvent>) -> (r: Result<String, StarterError>)
    ensures
        match r {
            Ok(text) => rendered(events_view(events@)) == Ok::<Seq<char>, Seq<char>>(text@),
            Err(e) => rendered(events_view(events@)) == Err::<Seq<char>, Seq<char>>(e@),
        },
{
    match write_document(events, true, true, true) {
        Ok(text) => Ok(text),
        Err(_) => Err(
            StarterError { message: String::from_str("the events do not form a document") },
        ),
    }
}

/// A name with every character that is no letter, digit or underscore replaced
/// by an underscore, by the regular expression `[^0-9a-zA-Z_]`.
pub open spec fn normalized(name: Seq<char>) -> Seq<char> {
    match regex_replace_all("[^0-9a-zA-Z_]"@, name, "_"@) {
        Some(replaced) => replaced,
        None => name,
    }
}

/// Makes a name fit for C: every character that is no letter, digit or
/// underscore becomes an underscore.
pub fn normalize_name(name: &str) -> (r: String)
    ensures
        r@ == normalized(name@),
{
    match replace_all("[^0-9a-zA-Z_]", name, "_") {
        Some(replaced) => replaced,
        None => String::from_str(name),
    }
}

fn attribute(name: &str, value: &str) -> (r: XmlAttr)
    ensures
        r@ == attr(name@, value@),
{
    XmlAttr { name: String::from_str(name), value: String::from_str(value) }
}

fn attrs1(a: XmlAttr) -> (r: Vec<XmlAttr>)
    ensures
        r@.map_values(|a: XmlAttr| a@) == seq![a@],
{
    let mut r = Vec::new();
    r.push(a);
    proof {
        assert(r@.map_values(|a: XmlAttr| a@) =~= seq![a@]);
    }
    r
}

fn attrs2(a: XmlAttr, b: XmlAttr) -> (r: Vec<XmlAttr>)
    ensures
        r@.map_values(|a: XmlAttr| a@) == seq![a@, b@],
{
    let mut r = Vec::new();
    r.push(a);
    r.push(b);
    proof {
        assert(r@.map_values(|a: XmlAttr| a@) =~= seq![a@, b@]);
    }
    r
}

fn attrs3(a: XmlAttr, b: XmlAttr, c: XmlAttr) -> (r: Vec<XmlAttr>)
    ensures
        r@.map_values(|a: XmlAttr| a@) == seq![a@, b@, c@],
{
    let mut r = Vec::new();
    r.push(a);
    r.push(b);
    r.push(c);
    proof {
        assert(r@.map_values(|a: XmlAttr| a@) =~= seq![a@, b@, c@]);
    }
    r
}

fn start_element(writer: &mut Vec<XmlEvent>, name: &str, attrs: Vec<XmlAttr>)
    ensures
        events_view(final(writer)@) == events_view(old(writer)@).push(
            start(name@, attrs@.map_values(|a: XmlAttr| a@)),
        ),
{
    let event = XmlEvent::StartElement { name: String::from_str(name), attrs };
    writer.push(event);
    proof {
        assert(events_view(writer@) =~= events_view(old(writer)@).push(event@));
    }
}

fn end_element(writer: &mut Vec<XmlEvent>)
    ensures
        events_view(final(writer)@) == events_view(old(writer)@).push(end()),
{
    writer.push(XmlEvent::EndElement);
    proof {
        assert(events_view(writer@) =~= events_view(old(writer)@).push(end()));
    }
}

fn characters(writer: &mut Vec<XmlEvent>, text: &str)
    ensures
        events_view(final(writer)@) == events_view(old(writer)@).push(chars(text@)),
{
    writer.push(XmlEvent::Characters(String::from_str(text)));
    proof {
        assert(events_view(writer@) =~= events_view(old(writer)@).push(chars(text@)));
    }
}

/// The name of the record type of a table.
pub open spec fn record_type_name(name_norm: Seq<char>) -> Seq<char> {
    "yb_"@ + name_norm + "_t"@
}

fn record_type(name_norm: &str) -> (r: String)
    ensures
        r@ == record_type_name(name_norm@),
{
    let mut r = String::from_str("yb_");
    r.append(name_norm);
    r.append("_t");
    r
}

/// The placeholder for a member.
pub open spec fn placeholder(name: Seq<char>) -> Seq<char> {
    "#{"@ + name + "}"@
}

fn placeholder_text(name: &str) -> (r: String)
    ensures
        r@ == placeholder(name@),
{
    let mut r = String::from_str("#{");
    r.append(name);
    r.append("}");
    r
}

/// The assignment of a member's placeholder to its column.
pub open spec fn assignment(column: Seq<char>) -> Seq<char> {
    "`"@ + column + "` = #{"@ + normalized(column) + "}"@
}

/// The test that tells whether a member is set.
pub open spec fn is_set_test(column: ColumnInfoView) -> Seq<char> {
    normalized(column.name) + " != "@ + col_type_null_text(column.type_)
}

fn is_set_test_text(column: &ColumnInfo) -> (r: String)
    ensures
        r@ == is_set_test(column@),
{
    let null_name = gen_col_type_null_str(&column.type_);
    let mut r = normalize_name(column.name.as_str());
    r.append(" != ");
    r.append(null_name.as_str());
    r
}

/// The events after the `<result>` elements of the first `n` columns.
pub open spec fn result_events(acc: Seq<XmlEventView>, columns: Seq<ColumnInfoView>, n: nat) -> Seq<
    XmlEventView,
>
    decreases n,
{
    if n == 0 || n > columns.len() {
        acc
    } else {
        result_events(acc, columns, (n - 1) as nat).push(
            start(
                "result"@,
                seq![
                    attr("column"@, columns[n - 1].name),
                    attr("property"@, normalized(columns[n - 1].name)),
                    attr("yo_type"@, col_type_text(columns[n - 1].type_)),
                ],
            ),
        ).push(end())
    }
}

/// The events after the result map of a table: one field for each column, named
/// by the normalized name of the column.
pub open spec fn result_map_events(
    acc: Seq<XmlEventView>,
    inf: TableInfoView,
    name_norm: Seq<char>,
) -> Seq<XmlEventView> {
    result_events(
        acc.push(
            start(
                "resultMap"@,
                seq![attr("id"@, "BaseResultMap"@), attr("type"@, record_type_name(name_norm))],
            ),
        ),
        inf.columns,
        inf.columns.len(),
    ).push(end())
}

/// Writes the result map of a table.
pub fn gen_result_map(inf: &TableInfo, name_norm: &str, writer: &mut Vec<XmlEvent>)
    ensures
        events_view(final(writer)@) == result_map_events(
            events_view(old(writer)@),
            inf@,
            name_norm@,
        ),
{
    let base_result_map_name = record_type(name_norm);
    start_element(
        writer,
        "resultMap",
        attrs2(attribute("id", "BaseResultMap"), attribute("type", base_result_map_name.as_str())),
    );
    let ghost acc = events_view(writer@);
    let ghost columns = inf@.columns;
    let mut i: usize = 0;
    while i < inf.columns.len()
        invariant
            i <= inf.columns@.len(),
            columns == inf@.columns,
            events_view(writer@) == result_events(acc, columns, i as nat),
        decreases inf.columns@.len() - i,
    {
        let col = &inf.columns[i];
        let col_name_norm = normalize_name(col.name.as_str());
        let yo_type = gen_col_type_str(&col.type_);
        start_element(
            writer,
            "result",
            attrs3(
                attribute("column", col.name.as_str()),
                attribute("property", col_name_norm.as_str()),
                attribute("yo_type", yo_type.as_str()),
            ),
        );
        end_element(writer);
        i += 1;
    }
    end_element(writer);
}

/// The events after a list of the first `n` columns: for each column the text
/// that `item` makes of it, with `, ` between one and the next.
pub open spec fn list_events(
    acc: Seq<XmlEventView>,
    columns: Seq<ColumnInfoView>,
    n: nat,
    item: spec_fn(ColumnInfoView) -> Seq<char>,
) -> Seq<XmlEventView>
    decreases n,
{
    if n == 0 || n > columns.len() {
        acc
    } else if n == 1 {
        acc.push(chars(item(columns[0])))
    } else {
        list_events(acc, columns, (n - 1) as nat, item).push(chars(", "@)).push(
            chars(item(columns[n - 1])),
        )
    }
}

/// The normalized name of a column.
pub open spec fn column_name_item() -> spec_fn(ColumnInfoView) -> Seq<char> {
    |c: ColumnInfoView| normalized(c.name)
}

/// The placeholder of a column.
pub open spec fn column_placeholder_item() -> spec_fn(ColumnInfoView) -> Seq<char> {
    |c: ColumnInfoView| placeholder(normalized(c.name))
}

/// The assignment of a column.
pub open spec fn column_assignment_item() -> spec_fn(ColumnInfoView) -> Seq<char> {
    |c: ColumnInfoView| assignment(c.name)
}

/// The events after the fragment that lists the columns of a table.
pub open spec fn base_column_list_events(acc: Seq<XmlEventView>, inf: TableInfoView) -> Seq<
    XmlEventView,
> {
    list_events(
        acc.push(start("sql"@, seq![attr("id"@, "base_column_list"@)])),
        inf.columns,
        inf.columns.len(),
        column_name_item(),
    ).push(end())
}

fn write_names(inf: &TableInfo, writer: &mut Vec<XmlEvent>)
    ensures
        events_view(final(writer)@) == list_events(
            events_view(old(writer)@),
            inf@.columns,
            inf@.columns.len(),
            column_name_item(),
        ),
{
    let ghost acc = events_view(writer@);
    let ghost columns = inf@.columns;
    let mut i: usize = 0;
    while i < inf.columns.len()
        invariant
            i <= inf.columns@.len(),
            columns == inf@.columns,
            events_view(writer@) == list_events(acc, columns, i as nat, column_name_item()),
        decreases inf.columns@.len() - i,
    {
        if i != 0 {
            characters(writer, ", ");
        }
        let col_name_norm = normalize_name(inf.columns[i].name.as_str());
        characters(writer, col_name_norm.as_str());
        i += 1;
    }
}

fn write_placeholders(inf: &TableInfo, writer: &mut Vec<XmlEvent>)
    ensures
        events_view(final(writer)@) == list_events(
            events_view(old(writer)@),
            inf@.columns,
            inf@.columns.len(),
            column_placeholder_item(),
        ),
{
    let ghost acc = events_view(writer@);
    let ghost columns = inf@.columns;
    let mut i: usize = 0;
    while i < inf.columns.len()
        invariant
            i <= inf.columns@.len(),
            columns == inf@.columns,
            events_view(writer@) == list_events(acc, columns, i as nat, column_placeholder_item()),
        decreases inf.columns@.len() - i,
    {
        if i != 0 {
            characters(writer, ", ");
        }
        let col_name_norm = normalize_name(inf.columns[i].name.as_str());
        let value_name_wrap = placeholder_text(col_name_norm.as_str());
        characters(writer, value_name_wrap.as_str());
        i += 1;
    }
}

fn write_assignments(inf: &TableInfo, writer: &mut Vec<XmlEvent>)
    ensures
        events_view(final(writer)@) == list_events(
            events_view(old(writer)@),
            inf@.columns,
            inf@.columns.len(),
            column_assignment_item(),
        ),
{
    let ghost acc = events_view(writer@);
    let ghost columns = inf@.columns;
    let mut i: usize = 0;
    while i < inf.columns.len()
        invariant
            i <= inf.columns@.len(),
            columns == inf@.columns,
            events_view(writer@) == list_events(acc, columns, i as nat, column_assignment_item()),
        decreases inf.columns@.len() - i,
    {
        if i != 0 {
            characters(writer, ", ");
        }
        let col = &inf.columns[i];
        let col_name_norm = normalize_name(col.name.as_str());
        let mut value_name_wrap = String::from_str("`");
        value_name_wrap.append(col.name.as_str());
        value_name_wrap.append("` = #{");
        value_name_wrap.append(col_name_norm.as_str());
        value_name_wrap.append("}");
        characters(writer, value_name_wrap.as_str());
        i += 1;
    }
}

/// Writes the fragment that lists the columns of a table.
pub fn gen_base_column_list(inf: &TableInfo, writer: &mut Vec<XmlEvent>)
    ensures
        events_view(final(writer)@) == base_column_list_events(events_view(old(writer)@), inf@),
{
    start_element(writer, "sql", attrs1(attribute("id", "base_column_list")));
    write_names(inf, writer);
    end_element(writer);
}

/// The events after the insert that sets every column.
pub open spec fn insert_all_events(
    acc: Seq<XmlEventView>,
    inf: TableInfoView,
    name_norm: Seq<char>,
) -> Seq<XmlEventView> {
    list_events(
        list_events(
            acc.push(
                start(
                    "insert"@,
                    seq![
                        attr("id"@, name_norm + "_insert"@),
                        attr("parameterType"@, record_type_name(name_norm)),
                    ],
                ),
            ).push(chars("INSERT INTO `"@)).push(chars(inf.name)).push(chars("` ("@)),
            inf.columns,
            inf.columns.len(),
            column_name_item(),
        ).push(chars(") VALUES ("@)),
        inf.columns,
        inf.columns.len(),
        column_placeholder_item(),
    ).push(chars(")"@)).push(end())
}

/// Writes the insert that sets every column.
pub fn gen_insert_all(inf: &TableInfo, name_norm: &str, writer: &mut Vec<XmlEvent>)
    ensures
        events_view(final(writer)@) == insert_all_events(
            events_view(old(writer)@),
            inf@,
            name_norm@,
        ),
{
    let mut insert_name = String::from_str(name_norm);
    insert_name.append("_insert");
    let base_result_map_name = record_type(name_norm);
    start_element(
        writer,
        "insert",
        attrs2(
            attribute("id", insert_name.as_str()),
            attribute("parameterType", base_result_map_name.as_str()),
        ),
    );
    characters(writer, "INSERT INTO `");
    characters(writer, inf.name.as_str());
    characters(writer, "` (");
    write_names(inf, writer);
    characters(writer, ") VALUES (");
    write_placeholders(inf, writer);
    characters(writer, ")");
    end_element(writer);
}

/// The events after the guarded items of the first `n` columns: for each
/// column an `<if>` that holds where the member is set, with the text that
/// `item` makes of the column and a comma.
pub open spec fn guarded_events(
    acc: Seq<XmlEventView>,
    columns: Seq<ColumnInfoView>,
    n: nat,
    item: spec_fn(ColumnInfoView) -> Seq<char>,
) -> Seq<XmlEventView>
    decreases n,
{
    if n == 0 || n > columns.len() {
        acc
    } else {
        guarded_events(acc, columns, (n - 1) as nat, item).push(
            start("if"@, seq![attr("test"@, is_set_test(columns[n - 1]))]),
        ).push(chars(item(columns[n - 1]))).push(chars(","@)).push(end())
    }
}

/// The events after the insert that sets the columns whose members are set.
pub open spec fn insert_selective_events(
    acc: Seq<XmlEventView>,
    inf: TableInfoView,
    name_norm: Seq<char>,
) -> Seq<XmlEventView> {
    guarded_events(
        guarded_events(
            acc.push(
                start(
                    "insert"@,
                    seq![
                        attr("id"@, name_norm + "_insert_selective"@),
                        attr("parameterType"@, record_type_name(name_norm)),
                    ],
                ),
            ).push(chars("INSERT INTO `"@)).push(chars(inf.name)).push(chars("` "@)).push(
                start(
                    "trim"@,
                    seq![
                        attr("prefix"@, "("@),
                        attr("suffix"@, ")"@),
                        attr("suffixOverrides"@, ","@),
                    ],
                ),
            ),
            inf.columns,
            inf.columns.len(),
            column_name_item(),
        ).push(end()).push(
            start(
                "trim"@,
                seq![
                    attr("prefix"@, "VALUES ("@),
                    attr("suffix"@, ")"@),
                    attr("suffixOverrides"@, ","@),
                ],
            ),
        ),
        inf.columns,
        inf.columns.len(),
        column_placeholder_item(),
    ).push(end()).push(end())
}

/// Writes the insert that sets the columns whose members are set.
pub fn gen_insert_selective(inf: &TableInfo, name_norm: &str, writer: &mut Vec<XmlEvent>)
    ensures
        events_view(final(writer)@) == insert_selective_events(
            events_view(old(writer)@),
            inf@,
            name_norm@,
        ),
{
    let mut insert_name = String::from_str(name_norm);
    insert_name.append("_insert_selective");
    let base_result_map_name = record_type(name_norm);
    start_element(
        writer,
        "insert",
        attrs2(
            attribute("id", insert_name.as_str()),
            attribute("parameterType", base_result_map_name.as_str()),
        ),
    );
    characters(writer, "INSERT INTO `");
    characters(writer, inf.name.as_str());
    characters(writer, "` ");
    start_element(
        writer,
        "trim",
        attrs3(
            attribute("prefix", "("),
            attribute("suffix", ")"),
            attribute("suffixOverrides", ","),
        ),
    );
    let ghost acc = events_view(writer@);
    let ghost columns = inf@.columns;
    let mut i: usize = 0;
    while i < inf.columns.len()
        invariant
            i <= inf.columns@.len(),
            columns == inf@.columns,
            events_view(writer@) == guarded_events(acc, columns, i as nat, column_name_item()),
        decreases inf.columns@.len() - i,
    {
        let col = &inf.columns[i];
        let col_name_norm = normalize_name(col.name.as_str());
        let col_condition = is_set_test_text(col);
        start_element(writer, "if", attrs1(attribute("test", col_condition.as_str())));
        characters(writer, col_name_norm.as_str());
        characters(writer, ",");
        end_element(writer);
        i += 1;
    }
    end_element(writer);
    start_element(
        writer,
        "trim",
        attrs3(
            attribute("prefix", "VALUES ("),
            attribute("suffix", ")"),
            attribute("suffixOverrides", ","),
        ),
    );
    let ghost acc = events_view(writer@);
    let mut i: usize = 0;
    while i < inf.columns.len()
        invariant
            i <= inf.columns@.len(),
            columns == inf@.columns,
            events_view(writer@) == guarded_events(
                acc,
                columns,
                i as nat,
                column_placeholder_item(),
            ),
        decreases inf.columns@.len() - i,
    {
        let col = &inf.columns[i];
        let col_name_norm = normalize_name(col.name.as_str());
        let col_condition = is_set_test_text(col);
        start_element(writer, "if", attrs1(attribute("test", col_condition.as_str())));
        let value_name_wrap = placeholder_text(col_name_norm.as_str());
        characters(writer, value_name_wrap.as_str());
        characters(writer, ",");
        end_element(writer);
        i += 1;
    }
    end_element(writer);
    end_element(writer);
}

/// The events after the condition that picks the row with the given key.
pub open spec fn key_condition_events(acc: Seq<XmlEventView>, key_name: Seq<char>) -> Seq<
    XmlEventView,
> {
    acc.push(chars(" WHERE "@)).push(chars(normalized(key_name))).push(chars(" = #{"@)).push(
        chars(normalized(key_name)),
    ).push(chars("}"@))
}

fn write_key_condition(writer: &mut Vec<XmlEvent>, pri_name_norm: &str)
    ensures
        events_view(final(writer)@) == events_view(old(writer)@).push(chars(" WHERE "@)).push(
            chars(pri_name_norm@),
        ).push(chars(" = #{"@)).push(chars(pri_name_norm@)).push(chars("}"@)),
{
    characters(writer, " WHERE ");
    characters(writer, pri_name_norm);
    characters(writer, " = #{");
    characters(writer, pri_name_norm);
    characters(writer, "}");
}

/// The events after the update that sets every column of the row with the
/// given key.
pub open spec fn update_by_key_events(
    acc: Seq<XmlEventView>,
    inf: TableInfoView,
    name_norm: Seq<char>,
    key_name: Seq<char>,
) -> Seq<XmlEventView> {
    key_condition_events(
        list_events(
            acc.push(
                start(
                    "update"@,
                    seq![
                        attr("id"@, name_norm + "_update_by_"@ + normalized(key_name)),
                        attr("parameterType"@, record_type_name(name_norm)),
                    ],
                ),
            ).push(chars("UPDATE `"@)).push(chars(inf.name)).push(chars("` SET "@)),
            inf.columns,
            inf.columns.len(),
            column_assignment_item(),
        ),
        key_name,
    ).push(end())
}

/// Writes the update that sets every column of the row with the given key.
pub fn gen_update_by_primary_key(
    inf: &TableInfo,
    name_norm: &str,
    key_name: &str,
    writer: &mut Vec<XmlEvent>,
)
    ensures
        events_view(final(writer)@) == update_by_key_events(
            events_view(old(writer)@),
            inf@,
            name_norm@,
            key_name@,
        ),
{
    let pri_name_norm = normalize_name(key_name);
    let mut update_name = String::from_str(name_norm);
    update_name.append("_update_by_");
    update_name.append(pri_name_norm.as_str());
    let base_result_map_name = record_type(name_norm);
    start_element(
        writer,
        "update",
        attrs2(
            attribute("id", update_name.as_str()),
            attribute("parameterType", base_result_map_name.as_str()),
        ),
    );
    characters(writer, "UPDATE `");
    characters(writer, inf.name.as_str());
    characters(writer, "` SET ");
    write_assignments(inf, writer);
    write_key_condition(writer, pri_name_norm.as_str());
    end_element(writer);
}

/// The events after the guarded assignments of the first `n` columns, the key
/// column left out: for each other column an `<if>` that holds where the member
/// is set, with the assignment and a comma.
pub open spec fn guarded_assignment_events(
    acc: Seq<XmlEventView>,
    columns: Seq<ColumnInfoView>,
    n: nat,
    key_name: Seq<char>,
) -> Seq<XmlEventView>
    decreases n,
{
    if n == 0 || n > columns.len() {
        acc
    } else if columns[n - 1].name == key_name {
        guarded_assignment_events(acc, columns, (n - 1) as nat, key_name)
    } else {
        guarded_assignment_events(acc, columns, (n - 1) as nat, key_name).push(
            start("if"@, seq![attr("test"@, is_set_test(columns[n - 1]))]),
        ).push(chars(assignment(columns[n - 1].name) + ", "@)).push(end())
    }
}

/// The events after the update that sets the columns whose members are set, in
/// the row with the given key.
pub open spec fn update_by_key_selective_events(
    acc: Seq<XmlEventView>,
    inf: TableInfoView,
    name_norm: Seq<char>,
    key_name: Seq<char>,
) -> Seq<XmlEventView> {
    key_condition_events(
        guarded_assignment_events(
            acc.push(
                start(
                    "update"@,
                    seq![
                        attr(
                            "id"@,
                            name_norm + "_update_by_"@ + normalized(key_name) + "_selective"@,
                        ),
                        attr("parameterType"@, record_type_name(name_norm)),
                    ],
                ),
            ).push(chars("UPDATE `"@)).push(chars(inf.name)).push(chars("` SET "@)).push(
                start("trim"@, seq![attr("suffixOverrides"@, ","@)]),
            ),
            inf.columns,
            inf.columns.len(),
            key_name,
        ).push(end()),
        key_name,
    ).push(end())
}

/// Writes the update that sets the columns whose members are set, in the row
/// with the given key.
pub fn gen_update_by_primary_key_selective(
    inf: &TableInfo,
    name_norm: &str,
    key_name: &str,
    writer: &mut Vec<XmlEvent>,
)
    ensures
        events_view(final(writer)@) == update_by_key_selective_events(
            events_view(old(writer)@),
            inf@,
            name_norm@,
            key_name@,
        ),
{
    let pri_name_norm = normalize_name(key_name);
    let mut update_name = String::from_str(name_norm);
    update_name.append("_update_by_");
    update_name.append(pri_name_norm.as_str());
    update_name.append("_selective");
    let base_result_map_name = record_type(name_norm);
    start_element(
        writer,
        "update",
        attrs2(
            attribute("id", update_name.as_str()),
            attribute("parameterType", base_result_map_name.as_str()),
        ),
    );
    characters(writer, "UPDATE `");
    characters(writer, inf.name.as_str());
    characters(writer, "` SET ");
    start_element(writer, "trim", attrs1(attribute("suffixOverrides", ",")));
    let ghost acc = events_view(writer@);
    let ghost columns = inf@.columns;
    let mut i: usize = 0;
    while i < inf.columns.len()
        invariant
            i <= inf.columns@.len(),
            columns == inf@.columns,
            events_view(writer@) == guarded_assignment_events(acc, columns, i as nat, key_name@),
        decreases inf.columns@.len() - i,
    {
        let col = &inf.columns[i];
        if !same_text(col.name.as_str(), key_name) {
            let col_name_norm = normalize_name(col.name.as_str());
            let mut value_name_wrap = String::from_str("`");
            value_name_wrap.append(col.name.as_str());
            value_name_wrap.append("` = #{");
            value_name_wrap.append(col_name_norm.as_str());
            value_name_wrap.append("}");
            value_name_wrap.append(", ");
            let test_cond = is_set_test_text(col);
            start_element(writer, "if", attrs1(attribute("test", test_cond.as_str())));
            characters(writer, value_name_wrap.as_str());
            end_element(writer);
        }
        i += 1;
    }
    end_element(writer);
    write_key_condition(writer, pri_name_norm.as_str());
    end_element(writer);
}

/// The kind of the first column at or after `from` that has the given name;
/// `INT` where there is none.
pub open spec fn key_type_from(
    columns: Seq<ColumnInfoView>,
    key_name: Seq<char>,
    from: int,
) -> ColumnType
    decreases columns.len() - from,
{
    if from < 0 || from >= columns.len() {
        ColumnType::INT
    } else if columns[from].name == key_name {
        columns[from].type_
    } else {
        key_type_from(columns, key_name, from + 1)
    }
}

/// The kind of the key column.
pub open spec fn key_type_of(columns: Seq<ColumnInfoView>, key_name: Seq<char>) -> ColumnType {
    key_type_from(columns, key_name, 0)
}

fn key_type(inf: &TableInfo, key_name: &str) -> (r: ColumnType)
    ensures
        r == key_type_of(inf@.columns, key_name@),
{
    let ghost columns = inf@.columns;
    let mut i: usize = 0;
    while i < inf.columns.len()
        invariant
            i <= inf.columns@.len(),
            columns == inf@.columns,
            key_type_of(columns, key_name@) == key_type_from(columns, key_name@, i as int),
        decreases inf.columns@.len() - i,
    {
        if same_text(inf.columns[i].name.as_str(), key_name) {
            return inf.columns[i].type_;
        }
        i += 1;
    }
    ColumnType::INT
}

/// The events after the select of the row with the given key.
pub open spec fn select_by_key_events(
    acc: Seq<XmlEventView>,
    inf: TableInfoView,
    name_norm: Seq<char>,
    key_name: Seq<char>,
) -> Seq<XmlEventView> {
    acc.push(
        start(
            "select"@,
            seq![
                attr("id"@, name_norm + "_select_by_"@ + normalized(key_name)),
                attr("resultMap"@, "BaseResultMap"@),
                attr("parameterType"@, col_type_text(key_type_of(inf.columns, key_name))),
            ],
        ),
    ).push(chars("SELECT "@)).push(start("include"@, seq![attr("refid"@, "base_column_list"@)]))
        .push(end()).push(chars(" FROM `"@)).push(chars(inf.name)).push(chars("` WHERE "@)).push(
        chars(key_name + " = "@ + placeholder(normalized(key_name))),
    ).push(end())
}

/// Writes the select of the row with the given key.
pub fn gen_select_by_primary_key(
    inf: &TableInfo,
    name_norm: &str,
    key_name: &str,
    writer: &mut Vec<XmlEvent>,
)
    ensures
        events_view(final(writer)@) == select_by_key_events(
            events_view(old(writer)@),
            inf@,
            name_norm@,
            key_name@,
        ),
{
    let pri_name_norm = normalize_name(key_name);
    let mut select_name = String::from_str(name_norm);
    select_name.append("_select_by_");
    select_name.append(pri_name_norm.as_str());
    let key_type_str = gen_col_type_str(&key_type(inf, key_name));
    start_element(
        writer,
        "select",
        attrs3(
            attribute("id", select_name.as_str()),
            attribute("resultMap", "BaseResultMap"),
            attribute("parameterType", key_type_str.as_str()),
        ),
    );
    characters(writer, "SELECT ");
    start_element(writer, "include", attrs1(attribute("refid", "base_column_list")));
    end_element(writer);
    characters(writer, " FROM `");
    characters(writer, inf.name.as_str());
    characters(writer, "` WHERE ");
    let value = placeholder_text(pri_name_norm.as_str());
    let mut where_cond = String::from_str(key_name);
    where_cond.append(" = ");
    let ghost before = where_cond@;
    where_cond.append(value.as_str());
    characters(writer, where_cond.as_str());
    end_element(writer);
}

/// The events after the delete of the row with the given key.
pub open spec fn delete_by_key_events(
    acc: Seq<XmlEventView>,
    inf: TableInfoView,
    name_norm: Seq<char>,
    key_name: Seq<char>,
) -> Seq<XmlEventView> {
    acc.push(
        start(
            "delete"@,
            seq![
                attr("id"@, name_norm + "_delete_by_"@ + normalized(key_name)),
                attr("parameterType"@, col_type_text(key_type_of(inf.columns, key_name))),
            ],
        ),
    ).push(chars("DELETE FROM `"@)).push(chars(inf.name)).push(chars("` WHERE `"@)).push(
        chars(key_name),
    ).push(chars("` = #{"@)).push(chars(normalized(key_name))).push(chars("}"@)).push(end())
}

/// Writes the delete of the row with the given key.
pub fn gen_delete_by_primary_key(
    inf: &TableInfo,
    name_norm: &str,
    key_name: &str,
    writer: &mut Vec<XmlEvent>,
)
    ensures
        events_view(final(writer)@) == delete_by_key_events(
            events_view(old(writer)@),
            inf@,
            name_norm@,
            key_name@,
        ),
{
    let pri_name_norm = normalize_name(key_name);
    let mut delete_name = String::from_str(name_norm);
    delete_name.append("_delete_by_");
    delete_name.append(pri_name_norm.as_str());
    let key_type_str = gen_col_type_str(&key_type(inf, key_name));
    start_element(
        writer,
        "delete",
        attrs2(
            attribute("id", delete_name.as_str()),
            attribute("parameterType", key_type_str.as_str()),
        ),
    );
    characters(writer, "DELETE FROM `");
    characters(writer, inf.name.as_str());
    characters(writer, "` WHERE `");
    characters(writer, key_name);
    characters(writer, "` = #{");
    characters(writer, pri_name_norm.as_str());
    characters(writer, "}");
    end_element(writer);
}

/// The events after the statements by key of the first `n` columns: for each
/// column that is a primary key the update, the selective update, the select
/// and the delete of the row with that key.
pub open spec fn keyed_events(
    acc: Seq<XmlEventView>,
    inf: TableInfoView,
    name_norm: Seq<char>,
    n: nat,
) -> Seq<XmlEventView>
    decreases n,
{
    if n == 0 || n > inf.columns.len() {
        acc
    } else if inf.columns[n - 1].primary_key {
        delete_by_key_events(
            select_by_key_events(
                update_by_key_selective_events(
                    update_by_key_events(
                        keyed_events(acc, inf, name_norm, (n - 1) as nat),
                        inf,
                        name_norm,
                        inf.columns[n - 1].name,
                    ),
                    inf,
                    name_norm,
                    inf.columns[n - 1].name,
                ),
                inf,
                name_norm,
                inf.columns[n - 1].name,
            ),
            inf,
            name_norm,
            inf.columns[n - 1].name,
        )
    } else {
        keyed_events(acc, inf, name_norm, (n - 1) as nat)
    }
}

/// The events of the starter mapper of a table: the result map, the list of
/// columns, the two inserts, and the statements by key, inside a `<mapper>`
/// whose namespace is the normalized name of the table followed by `_mapper`.
pub open spec fn table_events(inf: TableInfoView) -> Seq<XmlEventView> {
    keyed_events(
        insert_selective_events(
            insert_all_events(
                base_column_list_events(
                    result_map_events(
                        Seq::<XmlEventView>::empty().push(
                            start(
                                "mapper"@,
                                seq![attr("namespace"@, normalized(inf.name) + "_mapper"@)],
                            ),
                        ),
                        inf,
                        normalized(inf.name),
                    ),
                    inf,
                ),
                inf,
                normalized(inf.name),
            ),
            inf,
            normalized(inf.name),
        ),
        inf,
        normalized(inf.name),
        inf.columns.len(),
    ).push(end()).push(chars("\n"@))
}

/// The events of the starter mapper of a table.
pub fn gen_table_events(inf: &TableInfo) -> (r: Vec<XmlEvent>)
    ensures
        events_view(r@) == table_events(inf@),
{
    let name_norm = normalize_name(inf.name.as_str());
    let mut namespace = String::from_str(name_norm.as_str());
    namespace.append("_mapper");
    let mut writer: Vec<XmlEvent> = Vec::new();
    proof {
        assert(events_view(writer@) =~= Seq::<XmlEventView>::empty());
    }
    start_element(&mut writer, "mapper", attrs1(attribute("namespace", namespace.as_str())));
    gen_result_map(inf, name_norm.as_str(), &mut writer);
    gen_base_column_list(inf, &mut writer);
    gen_insert_all(inf, name_norm.as_str(), &mut writer);
    gen_insert_selective(inf, name_norm.as_str(), &mut writer);
    let ghost acc = events_view(writer@);
    let ghost table = inf@;
    let mut i: usize = 0;
    while i < inf.columns.len()
        invariant
            i <= inf.columns@.len(),
            table == inf@,
            events_view(writer@) == keyed_events(acc, table, name_norm@, i as nat),
        decreases inf.columns@.len() - i,
    {
        let col = &inf.columns[i];
        if col.primary_key {
            gen_update_by_primary_key(inf, name_norm.as_str(), col.name.as_str(), &mut writer);
            gen_update_by_primary_key_selective(
                inf,
                name_norm.as_str(),
                col.name.as_str(),
                &mut writer,
            );
            gen_select_by_primary_key(inf, name_norm.as_str(), col.name.as_str(), &mut writer);
            gen_delete_by_primary_key(inf, name_norm.as_str(), col.name.as_str(), &mut writer);
        }
        i += 1;
    }
    end_element(&mut writer);
    characters(&mut writer, "\n");
    writer
}

/// A starter document: the name of its file and its text.
#[derive(Debug)]
pub struct StarterFile {
    pub filename: String,
    pub text: String,
}

/// The contents of a [`StarterFile`].
pub struct StarterFileView {
    pub filename: Seq<char>,
    pub text: Seq<char>,
}

impl View for StarterFile {
    type V = StarterFileView;

    open spec fn view(&self) -> StarterFileView {
        StarterFileView { filename: self.filename@, text: self.text@ }
    }
}

/// The starter mapper of a table: its file is named by the normalized name of
/// the table, followed by `-mapper.xml`.
pub open spec fn table_file(inf: TableInfoView) -> Result<StarterFileView, Seq<char>> {
    match rendered(table_events(inf)) {
        Err(message) => Err(message),
        Ok(text) => Ok(
            StarterFileView { filename: normalized(inf.name) + "-mapper.xml"@, text },
        ),
    }
}

/// Makes the starter mapper of a table.
pub fn gen_table_xml(inf: &TableInfo) -> (r: Result<StarterFile, StarterError>)
    ensures
        match r {
            Ok(file) => table_file(inf@) == Ok::<StarterFileView, Seq<char>>(file@),
            Err(e) => table_file(inf@) == Err::<StarterFileView, Seq<char>>(e@),
        },
{
    let mut filename = normalize_name(inf.name.as_str());
    filename.append("-mapper.xml");
    let events = gen_table_events(inf);
    match render_events(&events) {
        Err(e) => Err(e),
        Ok(text) => Ok(StarterFile { filename, text }),
    }
}

/// The events of the document that describes the database: its name and the
/// statement that creates it.
pub open spec fn db_events(inf: DBInfoView) -> Seq<XmlEventView> {
    Seq::<XmlEventView>::empty().push(start("db"@, Seq::empty())).push(
        start("name"@, Seq::empty()),
    ).push(chars(inf.name)).push(end()).push(start("create"@, Seq::empty())).push(
        chars(inf.create),
    ).push(end()).push(end()).push(chars("\n"@))
}

/// The document that describes the database, in the file `db.xml`.
pub open spec fn db_file(inf: DBInfoView) -> Result<StarterFileView, Seq<char>> {
    match rendered(db_events(inf)) {
        Err(message) => Err(message),
        Ok(text) => Ok(StarterFileView { filename: "db.xml"@, text }),
    }
}

fn no_attrs() -> (r: Vec<XmlAttr>)
    ensures
        r@.map_values(|a: XmlAttr| a@) == Seq::<XmlAttrView>::empty(),
{
    let r = Vec::new();
    proof {
        assert(r@.map_values(|a: XmlAttr| a@) =~= Seq::<XmlAttrView>::empty());
    }
    r
}

/// Makes the document that describes the database.
pub fn gen_db_xml(inf: &DBInfo) -> (r: Result<StarterFile, StarterError>)
    ensures
        match r {
            Ok(file) => db_file(inf@) == Ok::<StarterFileView, Seq<char>>(file@),
            Err(e) => db_file(inf@) == Err::<StarterFileView, Seq<char>>(e@),
        },
{
    let mut writer: Vec<XmlEvent> = Vec::new();
    proof {
        assert(events_view(writer@) =~= Seq::<XmlEventView>::empty());
    }
    start_element(&mut writer, "db", no_attrs());
    start_element(&mut writer, "name", no_attrs());
    characters(&mut writer, inf.name.as_str());
    end_element(&mut writer);
    start_element(&mut writer, "create", no_attrs());
    characters(&mut writer, inf.create.as_str());
    end_element(&mut writer);
    end_element(&mut writer);
    characters(&mut writer, "\n");
    match render_events(&writer) {
        Err(e) => Err(e),
        Ok(text) => Ok(StarterFile { filename: String::from_str("db.xml"), text }),
    }
}

/// The starter mappers of the first `n` tables, behind the files in `acc`.
pub open spec fn table_files(
    acc: Seq<StarterFileView>,
    tables: Seq<TableInfoView>,
    n: nat,
) -> Result<Seq<StarterFileView>, Seq<char>>
    decreases n,
{
    if n == 0 || n > tables.len() {
        Ok(acc)
    } else {
        match table_files(acc, tables, (n - 1) as nat) {
            Err(message) => Err(message),
            Ok(before) => match table_file(tables[n - 1]) {
                Err(message) => Err(message),
                Ok(file) => Ok(before.push(file)),
            },
        }
    }
}

/// The starter documents of a database: the document that describes the
/// database, then the mapper of each table.
pub open spec fn starter_files(inf: DBInfoView) -> Result<Seq<StarterFileView>, Seq<char>> {
    match db_file(inf) {
        Err(message) => Err(message),
        Ok(db) => table_files(seq![db], inf.tables, inf.tables.len()),
    }
}

/// An error among the first `n` tables is the error of all of them.
proof fn lemma_table_files_error(
    acc: Seq<StarterFileView>,
    tables: Seq<TableInfoView>,
    n: nat,
    m: nat,
)
    requires
        n <= m <= tables.len(),
        table_files(acc, tables, n) is Err,
    ensures
        table_files(acc, tables, m) == table_files(acc, tables, n),
    decreases m - n,
{
    if n < m {
        lemma_table_files_error(acc, tables, n, (m - 1) as nat);
    }
}

/// Makes the starter documents of a database.
pub fn generate(inf: &DBInfo) -> (r: Result<Vec<StarterFile>, StarterError>)
    ensures
        match r {
            Ok(files) => starter_files(inf@) == Ok::<Seq<StarterFileView>, Seq<char>>(
                files@.map_values(|f: StarterFile| f@),
            ),
            Err(e) => starter_files(inf@) == Err::<Seq<StarterFileView>, Seq<char>>(e@),
        },
{
    let db = match gen_db_xml(inf) {
        Ok(db) => db,
        Err(e) => {
            return Err(e);
        },
    };
    let ghost first = seq![db@];
    let ghost tables = inf@.tables;
    let mut files: Vec<StarterFile> = Vec::new();
    files.push(db);
    proof {
        assert(files@.map_values(|f: StarterFile| f@) =~= first);
        assert(seq![first[0]] =~= first);
    }
    let mut i: usize = 0;
    while i < inf.tables.len()
        invariant
            i <= inf.tables@.len(),
            tables == inf@.tables,
            db_file(inf@) == Ok::<StarterFileView, Seq<char>>(first[0]),
            first == seq![first[0]],
            table_files(first, tables, i as nat) == Ok::<Seq<StarterFileView>, Seq<char>>(
                files@.map_values(|f: StarterFile| f@),
            ),
        decreases inf.tables@.len() - i,
    {
        let ghost before = files@.map_values(|f: StarterFile| f@);
        match gen_table_xml(&inf.tables[i]) {
            Err(e) => {
                proof {
                    lemma_table_files_error(first, tables, (i + 1) as nat, tables.len());
                }
                return Err(e);
            },
            Ok(file) => {
                files.push(file);
                proof {
                    assert(files@.map_values(|f: StarterFile| f@) =~= before.push(file@));
                }
            },
        }
        i += 1;
    }
    Ok(files)
}

} // verus!
