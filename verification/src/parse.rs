//! The parser: from the tree of a mapper document to the mapper it describes.

use crate::dom::{
    attr_value, document_root, lemma_nodes_view, parse_xml, XmlElement, XmlElementView, XmlNode,
    XmlNodeView,
};
use crate::mapper::{
    content_view, empty_mapper, lemma_content_view, lemma_content_view_push, Mapper, MapperView,
    ParseMapperError, SqlElement, SqlElementView, StatementView, YoDelete, YoIf, YoIfView,
    YoInclude, YoIncludeView, YoInsert, YoResult, YoResultMap, YoResultMapView, YoResultView,
    YoSelect, YoSelectView, YoSql, YoSqlView, YoTrim, YoTrimView, YoUpdate,
};
use crate::table::inserted;
use crate::text::same_text;
use vstd::prelude::*;
use vstd::string::StringExecFns;

verus! {

/// The message of the error for an element that lacks an attribute it must
/// have.
pub open spec fn missing_attribute_message(element: Seq<char>, attribute: Seq<char>) -> Seq<char> {
    "missing attribute "@ + attribute + " of element "@ + element
}

/// The message of the error for a text that is no XML document.
pub open spec fn malformed_document_message() -> Seq<char> {
    "the document is not well-formed XML"@
}

/// The value of an attribute that the element must have.
pub open spec fn required_attr(e: XmlElementView, attribute: Seq<char>) -> Result<
    Seq<char>,
    Seq<char>,
> {
    match attr_value(e.attrs, attribute) {
        Some(value) => Ok(value),
        None => Err(missing_attribute_message(e.name, attribute)),
    }
}

/// The value of an attribute that the element may have; the empty text where it
/// has none.
pub open spec fn optional_attr(e: XmlElementView, attribute: Seq<char>) -> Seq<char> {
    match attr_value(e.attrs, attribute) {
        Some(value) => value,
        None => Seq::empty(),
    }
}

/// The dynamic-SQL element that a node of a body stands for.
///
/// Text stands for itself. `<include>` must have `refid`, `<if>` must have
/// `test`; the attributes of `<trim>` are empty where they are absent. `<if>`
/// and `<trim>` hold the elements of their own nodes. A comment and an element
/// of any other name stand for nothing.
pub open spec fn sql_element_of(node: XmlNodeView) -> Result<Option<SqlElementView>, Seq<char>>
    decreases node, 0nat,
{
    match node {
        XmlNodeView::Text(t) => Ok(Some(SqlElementView::YoText(t))),
        XmlNodeView::Comment(_) => Ok(None),
        XmlNodeView::Element(e) => if e.name == "include"@ {
            match required_attr(e, "refid"@) {
                Err(message) => Err(message),
                Ok(refid) => Ok(Some(SqlElementView::YoInclude(YoIncludeView { refid }))),
            }
        } else if e.name == "if"@ {
            match required_attr(e, "test"@) {
                Err(message) => Err(message),
                Ok(test) => match sql_elements_prefix(e.nodes, e.nodes.len()) {
                    Err(message) => Err(message),
                    Ok(content) => Ok(Some(SqlElementView::YoIf(YoIfView { test, content }))),
                },
            }
        } else if e.name == "trim"@ {
            match sql_elements_prefix(e.nodes, e.nodes.len()) {
                Err(message) => Err(message),
                Ok(content) => Ok(
                    Some(
                        SqlElementView::YoTrim(
                            YoTrimView {
                                prefix: optional_attr(e, "prefix"@),
                                suffix: optional_attr(e, "suffix"@),
                                suffix_overrides: optional_attr(e, "suffixOverrides"@),
                                prefix_overrides: optional_attr(e, "prefixOverrides"@),
                                content,
                            },
                        ),
                    ),
                ),
            }
        } else {
            Ok(None)
        },
    }
}

/// The dynamic-SQL elements that the first `n` nodes stand for, in the order of
/// the nodes.
pub open spec fn sql_elements_prefix(nodes: Seq<XmlNodeView>, n: nat) -> Result<
    Seq<SqlElementView>,
    Seq<char>,
>
    decreases nodes, n,
{
    if n == 0 || n > nodes.len() {
        Ok(Seq::empty())
    } else {
        match sql_elements_prefix(nodes, (n - 1) as nat) {
            Err(message) => Err(message),
            Ok(before) => match sql_element_of(nodes[n - 1]) {
                Err(message) => Err(message),
                Ok(None) => Ok(before),
                Ok(Some(element)) => Ok(before.push(element)),
            },
        }
    }
}

/// The body that the nodes of an element stand for.
pub open spec fn sql_elements_of(e: XmlElementView) -> Result<Seq<SqlElementView>, Seq<char>> {
    sql_elements_prefix(e.nodes, e.nodes.len())
}

/// An error among the first `n` nodes is the error of all the nodes.
proof fn lemma_sql_elements_prefix_error(nodes: Seq<XmlNodeView>, n: nat, m: nat)
    requires
        n <= m <= nodes.len(),
        sql_elements_prefix(nodes, n) is Err,
    ensures
        sql_elements_prefix(nodes, m) == sql_elements_prefix(nodes, n),
    decreases m - n,
{
    if n < m {
        lemma_sql_elements_prefix_error(nodes, n, (m - 1) as nat);
    }
}

/// The literal text among the first `n` elements of a body: the texts of its
/// text elements, one after the other. The other elements add nothing.
pub open spec fn literal_text_prefix(elems: Seq<SqlElementView>, n: nat) -> Seq<char>
    decreases n,
{
    if n == 0 || n > elems.len() {
        Seq::empty()
    } else {
        literal_text_prefix(elems, (n - 1) as nat) + match elems[n - 1] {
            SqlElementView::YoText(t) => t,
            _ => Seq::empty(),
        }
    }
}

/// The fragment that a `<sql>` element stands for. Its text is the literal text
/// directly below the element.
pub open spec fn sql_of(e: XmlElementView) -> Result<YoSqlView, Seq<char>> {
    match required_attr(e, "id"@) {
        Err(message) => Err(message),
        Ok(id) => match sql_elements_of(e) {
            Err(message) => Err(message),
            Ok(content) => Ok(YoSqlView { id, text: literal_text_prefix(content, content.len()) }),
        },
    }
}

/// The field that a `<result>` element stands for.
pub open spec fn result_of(e: XmlElementView) -> Result<YoResultView, Seq<char>> {
    match required_attr(e, "column"@) {
        Err(message) => Err(message),
        Ok(column) => match required_attr(e, "property"@) {
            Err(message) => Err(message),
            Ok(property) => match required_attr(e, "yo_type"@) {
                Err(message) => Err(message),
                Ok(yo_type) => Ok(YoResultView { column, property, yo_type }),
            },
        },
    }
}

/// The fields that the `<result>` elements among the first `n` nodes stand for.
pub open spec fn results_prefix(nodes: Seq<XmlNodeView>, n: nat) -> Result<
    Seq<YoResultView>,
    Seq<char>,
>
    decreases n,
{
    if n == 0 || n > nodes.len() {
        Ok(Seq::empty())
    } else {
        match results_prefix(nodes, (n - 1) as nat) {
            Err(message) => Err(message),
            Ok(before) => match nodes[n - 1] {
                XmlNodeView::Element(e) => if e.name == "result"@ {
                    match result_of(e) {
                        Err(message) => Err(message),
                        Ok(field) => Ok(before.push(field)),
                    }
                } else {
                    Ok(before)
                },
                _ => Ok(before),
            },
        }
    }
}

/// An error among the first `n` nodes is the error of all the nodes.
proof fn lemma_results_prefix_error(nodes: Seq<XmlNodeView>, n: nat, m: nat)
    requires
        n <= m <= nodes.len(),
        results_prefix(nodes, n) is Err,
    ensures
        results_prefix(nodes, m) == results_prefix(nodes, n),
    decreases m - n,
{
    if n < m {
        lemma_results_prefix_error(nodes, n, (m - 1) as nat);
    }
}

/// The result map that a `<resultMap>` element stands for.
pub open spec fn result_map_of(e: XmlElementView) -> Result<YoResultMapView, Seq<char>> {
    match required_attr(e, "id"@) {
        Err(message) => Err(message),
        Ok(id) => match required_attr(e, "type"@) {
            Err(message) => Err(message),
            Ok(type_) => match results_prefix(e.nodes, e.nodes.len()) {
                Err(message) => Err(message),
                Ok(results) => Ok(YoResultMapView { id, type_, results }),
            },
        },
    }
}

/// The statement that an `<insert>`, `<update>` or `<delete>` element stands
/// for.
pub open spec fn statement_of(e: XmlElementView) -> Result<StatementView, Seq<char>> {
    match required_attr(e, "id"@) {
        Err(message) => Err(message),
        Ok(id) => match required_attr(e, "parameterType"@) {
            Err(message) => Err(message),
            Ok(parameter_type) => match sql_elements_of(e) {
                Err(message) => Err(message),
                Ok(content) => Ok(StatementView { id, parameter_type, content }),
            },
        },
    }
}

/// The statement that a `<select>` element stands for.
pub open spec fn select_of(e: XmlElementView) -> Result<YoSelectView, Seq<char>> {
    match required_attr(e, "id"@) {
        Err(message) => Err(message),
        Ok(id) => match required_attr(e, "parameterType"@) {
            Err(message) => Err(message),
            Ok(parameter_type) => match required_attr(e, "resultMap"@) {
                Err(message) => Err(message),
                Ok(result_map) => match sql_elements_of(e) {
                    Err(message) => Err(message),
                    Ok(content) => Ok(YoSelectView { id, parameter_type, result_map, content }),
                },
            },
        },
    }
}

/// The mapper after one more node of the document. A result map is stored
/// under its id and under the name of its type; a fragment and a statement
/// under their id. A later entry of the same name replaces the earlier one.
/// Text, comments and elements of other names change nothing.
pub open spec fn with_node(m: MapperView, node: XmlNodeView) -> Result<MapperView, Seq<char>> {
    match node {
        XmlNodeView::Element(e) => if e.name == "resultMap"@ {
            match result_map_of(e) {
                Err(message) => Err(message),
                Ok(rm) => Ok(
                    MapperView {
                        result_maps: inserted(m.result_maps, rm.id, rm),
                        type_maps: inserted(m.type_maps, rm.type_, rm),
                        ..m
                    },
                ),
            }
        } else if e.name == "sql"@ {
            match sql_of(e) {
                Err(message) => Err(message),
                Ok(sql) => Ok(MapperView { sqls: inserted(m.sqls, sql.id, sql), ..m }),
            }
        } else if e.name == "insert"@ {
            match statement_of(e) {
                Err(message) => Err(message),
                Ok(st) => Ok(MapperView { inserts: inserted(m.inserts, st.id, st), ..m }),
            }
        } else if e.name == "update"@ {
            match statement_of(e) {
                Err(message) => Err(message),
                Ok(st) => Ok(MapperView { updates: inserted(m.updates, st.id, st), ..m }),
            }
        } else if e.name == "delete"@ {
            match statement_of(e) {
                Err(message) => Err(message),
                Ok(st) => Ok(MapperView { deletes: inserted(m.deletes, st.id, st), ..m }),
            }
        } else if e.name == "select"@ {
            match select_of(e) {
                Err(message) => Err(message),
                Ok(sel) => Ok(MapperView { selects: inserted(m.selects, sel.id, sel), ..m }),
            }
        } else {
            Ok(m)
        },
        _ => Ok(m),
    }
}

/// The mapper after the first `n` nodes of the document, starting from `start`.
pub open spec fn mapper_prefix(start: MapperView, nodes: Seq<XmlNodeView>, n: nat) -> Result<
    MapperView,
    Seq<char>,
>
    decreases n,
{
    if n == 0 || n > nodes.len() {
        Ok(start)
    } else {
        match mapper_prefix(start, nodes, (n - 1) as nat) {
            Err(message) => Err(message),
            Ok(before) => with_node(before, nodes[n - 1]),
        }
    }
}

/// An error among the first `n` nodes is the error of the document.
proof fn lemma_mapper_prefix_error(start: MapperView, nodes: Seq<XmlNodeView>, n: nat, m: nat)
    requires
        n <= m <= nodes.len(),
        mapper_prefix(start, nodes, n) is Err,
    ensures
        mapper_prefix(start, nodes, m) == mapper_prefix(start, nodes, n),
    decreases m - n,
{
    if n < m {
        lemma_mapper_prefix_error(start, nodes, n, (m - 1) as nat);
    }
}

/// The mapper that a document with the given root stands for. The root must
/// have the attribute `namespace`; its nodes are taken in the order of the
/// document.
pub open spec fn mapper_of(root: XmlElementView) -> Result<MapperView, Seq<char>> {
    match required_attr(root, "namespace"@) {
        Err(message) => Err(message),
        Ok(namespace) => mapper_prefix(
            MapperView { namespace, ..empty_mapper() },
            root.nodes,
            root.nodes.len(),
        ),
    }
}

/// The mapper that the text of a document stands for.
pub open spec fn mapper_of_text(text: Seq<char>) -> Result<MapperView, Seq<char>> {
    match document_root(text) {
        None => Err(malformed_document_message()),
        Some(root) => mapper_of(root),
    }
}

fn require_attr(node: &XmlElement, attribute: &str) -> (r: Result<String, ParseMapperError>)
    ensures
        match r {
            Ok(value) => required_attr(node@, attribute@) == Ok::<Seq<char>, Seq<char>>(value@),
            Err(e) => required_attr(node@, attribute@) == Err::<Seq<char>, Seq<char>>(e@),
        },
{
    match node.attr(attribute) {
        Some(value) => Ok(value.clone()),
        None => {
            let mut message = String::from_str("missing attribute ");
            message.append(attribute);
            message.append(" of element ");
            message.append(node.name.as_str());
            Err(ParseMapperError::new(message))
        },
    }
}

fn attr_or_empty(node: &XmlElement, attribute: &str) -> (r: String)
    ensures
        r@ == optional_attr(node@, attribute@),
{
    match node.attr(attribute) {
        Some(value) => value.clone(),
        None => String::new(),
    }
}

fn parse_sql_element(node: &XmlNode) -> (r: Result<Option<SqlElement>, ParseMapperError>)
    ensures
        match r {
            Ok(Some(element)) => sql_element_of(node@) == Ok::<Option<SqlElementView>, Seq<char>>(
                Some(element@),
            ),
            Ok(None) => sql_element_of(node@) == Ok::<Option<SqlElementView>, Seq<char>>(None),
            Err(e) => sql_element_of(node@) == Err::<Option<SqlElementView>, Seq<char>>(e@),
        },
    decreases node, 0nat,
{
    match node {
        XmlNode::Text(text) => Ok(Some(SqlElement::YoText(text.clone()))),
        XmlNode::Comment(_) => Ok(None),
        XmlNode::Element(element) => {
            if same_text(element.name.as_str(), "include") {
                match require_attr(element, "refid") {
                    Err(e) => Err(e),
                    Ok(refid) => Ok(Some(SqlElement::YoInclude(YoInclude { refid }))),
                }
            } else if same_text(element.name.as_str(), "if") {
                match require_attr(element, "test") {
                    Err(e) => Err(e),
                    Ok(test) => match parse_sql_elements(element) {
                        Err(e) => Err(e),
                        Ok(content) => Ok(Some(SqlElement::YoIf(YoIf { test, content }))),
                    },
                }
            } else if same_text(element.name.as_str(), "trim") {
                let prefix = attr_or_empty(element, "prefix");
                let suffix = attr_or_empty(element, "suffix");
                let suffix_overrides = attr_or_empty(element, "suffixOverrides");
                let prefix_overrides = attr_or_empty(element, "prefixOverrides");
                match parse_sql_elements(element) {
                    Err(e) => Err(e),
                    Ok(content) => Ok(
                        Some(
                            SqlElement::YoTrim(
                                YoTrim {
                                    prefix,
                                    suffix,
                                    suffix_overrides,
                                    prefix_overrides,
                                    content,
                                },
                            ),
                        ),
                    ),
                }
            } else {
                Ok(None)
            }
        },
    }
}

/// Reads the body below an element: its text, and its `<include>`, `<if>` and
/// `<trim>` elements, in the order of the document.
pub fn parse_sql_elements(node: &XmlElement) -> (r: Result<Vec<Box<SqlElement>>, ParseMapperError>)
    ensures
        match r {
            Ok(elements) => sql_elements_of(node@) == Ok::<Seq<SqlElementView>, Seq<char>>(
                content_view(elements@),
            ),
            Err(e) => sql_elements_of(node@) == Err::<Seq<SqlElementView>, Seq<char>>(e@),
        },
    decreases node, 1nat,
{
    let ghost nodes = node@.nodes;
    proof {
        lemma_nodes_view(*node);
    }
    let mut elements: Vec<Box<SqlElement>> = Vec::new();
    let mut i: usize = 0;
    while i < node.nodes.len()
        invariant
            i <= node.nodes@.len(),
            nodes == node@.nodes,
            nodes.len() == node.nodes@.len(),
            forall|j: int| 0 <= j < node.nodes@.len() ==> nodes[j] == (#[trigger] node.nodes@[j])@,
            sql_elements_prefix(nodes, i as nat) == Ok::<Seq<SqlElementView>, Seq<char>>(
                content_view(elements@),
            ),
        decreases node.nodes@.len() - i,
    {
        match parse_sql_element(&node.nodes[i]) {
            Err(e) => {
                proof {
                    lemma_sql_elements_prefix_error(nodes, (i + 1) as nat, nodes.len());
                }
                return Err(e);
            },
            Ok(None) => {},
            Ok(Some(element)) => {
                let boxed = Box::new(element);
                proof {
                    lemma_content_view_push(elements@, boxed);
                }
                elements.push(boxed);
            },
        }
        i += 1;
    }
    Ok(elements)
}

/// Reads a `<sql>` element.
pub fn parse_sql(node: &XmlElement) -> (r: Result<YoSql, ParseMapperError>)
    ensures
        match r {
            Ok(sql) => sql_of(node@) == Ok::<YoSqlView, Seq<char>>(sql@),
            Err(e) => sql_of(node@) == Err::<YoSqlView, Seq<char>>(e@),
        },
{
    let id = match require_attr(node, "id") {
        Ok(id) => id,
        Err(e) => {
            return Err(e);
        },
    };
    let contents = match parse_sql_elements(node) {
        Ok(contents) => contents,
        Err(e) => {
            return Err(e);
        },
    };
    let ghost views = content_view(contents@);
    proof {
        lemma_content_view(contents@);
    }
    let mut text = String::new();
    let mut i: usize = 0;
    while i < contents.len()
        invariant
            i <= contents@.len(),
            views == content_view(contents@),
            views.len() == contents@.len(),
            forall|j: int| 0 <= j < contents@.len() ==> views[j] == (#[trigger] contents@[j])@,
            text@ == literal_text_prefix(views, i as nat),
        decreases contents@.len() - i,
    {
        match &*contents[i] {
            SqlElement::YoText(t) => {
                text.append(t.as_str());
            },
            _ => {
                proof {
                    assert(text@ + Seq::<char>::empty() =~= text@);
                }
            },
        }
        i += 1;
    }
    Ok(YoSql { id, text })
}

fn parse_result(node: &XmlElement) -> (r: Result<YoResult, ParseMapperError>)
    ensures
        match r {
            Ok(field) => result_of(node@) == Ok::<YoResultView, Seq<char>>(field@),
            Err(e) => result_of(node@) == Err::<YoResultView, Seq<char>>(e@),
        },
{
    let column = match require_attr(node, "column") {
        Ok(column) => column,
        Err(e) => {
            return Err(e);
        },
    };
    let property = match require_attr(node, "property") {
        Ok(property) => property,
        Err(e) => {
            return Err(e);
        },
    };
    let yo_type = match require_attr(node, "yo_type") {
        Ok(yo_type) => yo_type,
        Err(e) => {
            return Err(e);
        },
    };
    Ok(YoResult { column, property, yo_type })
}

/// Reads a `<resultMap>` element with its `<result>` elements.
pub fn parse_result_map(node: &XmlElement) -> (r: Result<YoResultMap, ParseMapperError>)
    ensures
        match r {
            Ok(rm) => result_map_of(node@) == Ok::<YoResultMapView, Seq<char>>(rm@),
            Err(e) => result_map_of(node@) == Err::<YoResultMapView, Seq<char>>(e@),
        },
{
    let id = match require_attr(node, "id") {
        Ok(id) => id,
        Err(e) => {
            return Err(e);
        },
    };
    let type_ = match require_attr(node, "type") {
        Ok(type_) => type_,
        Err(e) => {
            return Err(e);
        },
    };
    let ghost nodes = node@.nodes;
    proof {
        lemma_nodes_view(*node);
    }
    let mut results: Vec<YoResult> = Vec::new();
    proof {
        assert(results@.map_values(|f: YoResult| f@) =~= Seq::<YoResultView>::empty());
    }
    let mut i: usize = 0;
    while i < node.nodes.len()
        invariant
            i <= node.nodes@.len(),
            nodes == node@.nodes,
            nodes.len() == node.nodes@.len(),
            forall|j: int| 0 <= j < node.nodes@.len() ==> nodes[j] == (#[trigger] node.nodes@[j])@,
            required_attr(node@, "id"@) is Ok,
            required_attr(node@, "type"@) is Ok,
            results_prefix(nodes, i as nat) == Ok::<Seq<YoResultView>, Seq<char>>(
                results@.map_values(|f: YoResult| f@),
            ),
        decreases node.nodes@.len() - i,
    {
        let ghost before = results@.map_values(|f: YoResult| f@);
        match &node.nodes[i] {
            XmlNode::Element(child) => {
                if same_text(child.name.as_str(), "result") {
                    match parse_result(child) {
                        Err(e) => {
                            proof {
                                lemma_results_prefix_error(nodes, (i + 1) as nat, nodes.len());
                            }
                            return Err(e);
                        },
                        Ok(field) => {
                            results.push(field);
                            proof {
                                assert(results@.map_values(|f: YoResult| f@) =~= before.push(
                                    field@,
                                ));
                            }
                        },
                    }
                }
            },
            _ => {},
        }
        i += 1;
    }
    Ok(YoResultMap { id, type_, results })
}

/// Reads an `<insert>` element.
pub fn parse_insert(node: &XmlElement) -> (r: Result<YoInsert, ParseMapperError>)
    ensures
        match r {
            Ok(st) => statement_of(node@) == Ok::<StatementView, Seq<char>>(st@),
            Err(e) => statement_of(node@) == Err::<StatementView, Seq<char>>(e@),
        },
{
    let id = match require_attr(node, "id") {
        Ok(id) => id,
        Err(e) => {
            return Err(e);
        },
    };
    let parameter_type = match require_attr(node, "parameterType") {
        Ok(parameter_type) => parameter_type,
        Err(e) => {
            return Err(e);
        },
    };
    match parse_sql_elements(node) {
        Ok(content) => Ok(YoInsert { id, parameter_type, content }),
        Err(e) => Err(e),
    }
}

/// Reads an `<update>` element.
pub fn parse_update(node: &XmlElement) -> (r: Result<YoUpdate, ParseMapperError>)
    ensures
        match r {
            Ok(st) => statement_of(node@) == Ok::<StatementView, Seq<char>>(st@),
            Err(e) => statement_of(node@) == Err::<StatementView, Seq<char>>(e@),
        },
{
    let id = match require_attr(node, "id") {
        Ok(id) => id,
        Err(e) => {
            return Err(e);
        },
    };
    let parameter_type = match require_attr(node, "parameterType") {
        Ok(parameter_type) => parameter_type,
        Err(e) => {
            return Err(e);
        },
    };
    match parse_sql_elements(node) {
        Ok(content) => Ok(YoUpdate { id, parameter_type, content }),
        Err(e) => Err(e),
    }
}

/// Reads a `<delete>` element.
pub fn parse_delete(node: &XmlElement) -> (r: Result<YoDelete, ParseMapperError>)
    ensures
        match r {
            Ok(st) => statement_of(node@) == Ok::<StatementView, Seq<char>>(st@),
            Err(e) => statement_of(node@) == Err::<StatementView, Seq<char>>(e@),
        },
{
    let id = match require_attr(node, "id") {
        Ok(id) => id,
        Err(e) => {
            return Err(e);
        },
    };
    let parameter_type = match require_attr(node, "parameterType") {
        Ok(parameter_type) => parameter_type,
        Err(e) => {
            return Err(e);
        },
    };
    match parse_sql_elements(node) {
        Ok(content) => Ok(YoDelete { id, parameter_type, content }),
        Err(e) => Err(e),
    }
}

/// Reads a `<select>` element.
pub fn parse_select(node: &XmlElement) -> (r: Result<YoSelect, ParseMapperError>)
    ensures
        match r {
            Ok(sel) => select_of(node@) == Ok::<YoSelectView, Seq<char>>(sel@),
            Err(e) => select_of(node@) == Err::<YoSelectView, Seq<char>>(e@),
        },
{
    let id = match require_attr(node, "id") {
        Ok(id) => id,
        Err(e) => {
            return Err(e);
        },
    };
    let parameter_type = match require_attr(node, "parameterType") {
        Ok(parameter_type) => parameter_type,
        Err(e) => {
            return Err(e);
        },
    };
    let result_map = match require_attr(node, "resultMap") {
        Ok(result_map) => result_map,
        Err(e) => {
            return Err(e);
        },
    };
    match parse_sql_elements(node) {
        Ok(content) => Ok(YoSelect { id, parameter_type, result_map, content }),
        Err(e) => Err(e),
    }
}

fn add_node(mapper: &mut Mapper, node: &XmlNode) -> (r: Result<(), ParseMapperError>)
    ensures
        match r {
            Ok(()) => with_node(old(mapper)@, node@) == Ok::<MapperView, Seq<char>>(
                final(mapper)@,
            ),
            Err(e) => with_node(old(mapper)@, node@) == Err::<MapperView, Seq<char>>(e@),
        },
{
    match node {
        XmlNode::Element(child) => {
            let name = child.name.as_str();
            if same_text(name, "resultMap") {
                match parse_result_map(child) {
                    Err(e) => Err(e),
                    Ok(result_map) => {
                        mapper.result_maps.insert(result_map.id.clone(), result_map.clone());
                        mapper.type_maps.insert(result_map.type_.clone(), result_map);
                        Ok(())
                    },
                }
            } else if same_text(name, "sql") {
                match parse_sql(child) {
                    Err(e) => Err(e),
                    Ok(sql) => {
                        mapper.sqls.insert(sql.id.clone(), sql);
                        Ok(())
                    },
                }
            } else if same_text(name, "insert") {
                match parse_insert(child) {
                    Err(e) => Err(e),
                    Ok(insert) => {
                        mapper.inserts.insert(insert.id.clone(), insert);
                        Ok(())
                    },
                }
            } else if same_text(name, "update") {
                match parse_update(child) {
                    Err(e) => Err(e),
                    Ok(update) => {
                        mapper.updates.insert(update.id.clone(), update);
                        Ok(())
                    },
                }
            } else if same_text(name, "delete") {
                match parse_delete(child) {
                    Err(e) => Err(e),
                    Ok(delete) => {
                        mapper.deletes.insert(delete.id.clone(), delete);
                        Ok(())
                    },
                }
            } else if same_text(name, "select") {
                match parse_select(child) {
                    Err(e) => Err(e),
                    Ok(select) => {
                        mapper.selects.insert(select.id.clone(), select);
                        Ok(())
                    },
                }
            } else {
                Ok(())
            }
        },
        _ => Ok(()),
    }
}

/// Reads a mapper from the root element of its document.
pub fn parse_mapper(root: &XmlElement) -> (r: Result<Mapper, ParseMapperError>)
    ensures
        match r {
            Ok(mapper) => mapper_of(root@) == Ok::<MapperView, Seq<char>>(mapper@),
            Err(e) => mapper_of(root@) == Err::<MapperView, Seq<char>>(e@),
        },
{
    let mut mapper = Mapper::new();
    mapper.namespace = match require_attr(root, "namespace") {
        Ok(namespace) => namespace,
        Err(e) => {
            return Err(e);
        },
    };
    let ghost start = mapper@;
    let ghost nodes = root@.nodes;
    proof {
        lemma_nodes_view(*root);
    }
    let mut i: usize = 0;
    while i < root.nodes.len()
        invariant
            i <= root.nodes@.len(),
            nodes == root@.nodes,
            nodes.len() == root.nodes@.len(),
            forall|j: int| 0 <= j < root.nodes@.len() ==> nodes[j] == (#[trigger] root.nodes@[j])@,
            required_attr(root@, "namespace"@) == Ok::<Seq<char>, Seq<char>>(start.namespace),
            start == (MapperView { namespace: start.namespace, ..empty_mapper() }),
            mapper_prefix(start, nodes, i as nat) == Ok::<MapperView, Seq<char>>(mapper@),
        decreases root.nodes@.len() - i,
    {
        match add_node(&mut mapper, &root.nodes[i]) {
            Err(e) => {
                proof {
                    lemma_mapper_prefix_error(start, nodes, (i + 1) as nat, nodes.len());
                }
                return Err(e);
            },
            Ok(()) => {},
        }
        i += 1;
    }
    Ok(mapper)
}

/// Reads a mapper from the text of its document.
pub fn parse_mapper_text(text: &str) -> (r: Result<Mapper, ParseMapperError>)
    ensures
        match r {
            Ok(mapper) => mapper_of_text(text@) == Ok::<MapperView, Seq<char>>(mapper@),
            Err(e) => mapper_of_text(text@) == Err::<MapperView, Seq<char>>(e@),
        },
{
    match parse_xml(text) {
        None => Err(
            ParseMapperError::new(String::from_str("the document is not well-formed XML")),
        ),
        Some(root) => parse_mapper(&root),
    }
}

/// The names of the elements below a node of a body that stand for nothing:
/// the node itself where it is an element of an unknown name, and the elements
/// of unknown names, at any depth, in the content of an `<if>` or a `<trim>`.
pub open spec fn skipped_in_node(node: XmlNodeView) -> Seq<Seq<char>>
    decreases node, 0nat,
{
    match node {
        XmlNodeView::Element(e) => if e.name == "include"@ {
            Seq::empty()
        } else if e.name == "if"@ || e.name == "trim"@ {
            skipped_prefix(e.nodes, e.nodes.len())
        } else {
            seq![e.name]
        },
        _ => Seq::empty(),
    }
}

/// The names of the elements among the first `n` nodes of a body that stand
/// for nothing, in the order of the document.
pub open spec fn skipped_prefix(nodes: Seq<XmlNodeView>, n: nat) -> Seq<Seq<char>>
    decreases nodes, n,
{
    if n == 0 || n > nodes.len() {
        Seq::empty()
    } else {
        skipped_prefix(nodes, (n - 1) as nat) + skipped_in_node(nodes[n - 1])
    }
}

/// The names of the elements in the body of a fragment or of a statement that
/// stand for nothing; nothing for any other node of the document.
pub open spec fn skipped_in_statement(node: XmlNodeView) -> Seq<Seq<char>> {
    match node {
        XmlNodeView::Element(e) => if e.name == "sql"@ || e.name == "insert"@ || e.name
            == "update"@ || e.name == "delete"@ || e.name == "select"@ {
            skipped_prefix(e.nodes, e.nodes.len())
        } else {
            Seq::empty()
        },
        _ => Seq::empty(),
    }
}

/// The names of the elements in the bodies of the first `n` nodes of a
/// document that stand for nothing.
pub open spec fn skipped_in_document_prefix(nodes: Seq<XmlNodeView>, n: nat) -> Seq<Seq<char>>
    decreases n,
{
    if n == 0 || n > nodes.len() {
        Seq::empty()
    } else {
        skipped_in_document_prefix(nodes, (n - 1) as nat) + skipped_in_statement(nodes[n - 1])
    }
}

/// Appends to `out` the names of the elements in the body below `node` that
/// stand for nothing, in the order of the document.
pub fn skipped_elements(node: &XmlElement, out: &mut Vec<String>)
    ensures
        final(out)@.map_values(|s: String| s@) == old(out)@.map_values(|s: String| s@)
            + skipped_prefix(node@.nodes, node@.nodes.len()),
    decreases node,
{
    let ghost nodes = node@.nodes;
    let ghost start = out@.map_values(|s: String| s@);
    proof {
        lemma_nodes_view(*node);
        assert(start + Seq::<Seq<char>>::empty() =~= start);
    }
    let mut i: usize = 0;
    while i < node.nodes.len()
        invariant
            i <= node.nodes@.len(),
            nodes == node@.nodes,
            nodes.len() == node.nodes@.len(),
            forall|j: int| 0 <= j < node.nodes@.len() ==> nodes[j] == (#[trigger] node.nodes@[j])@,
            out@.map_values(|s: String| s@) == start + skipped_prefix(nodes, i as nat),
        decreases node.nodes@.len() - i,
    {
        let ghost before = out@.map_values(|s: String| s@);
        let ghost done = skipped_prefix(nodes, i as nat);
        match &node.nodes[i] {
            XmlNode::Element(element) => {
                if same_text(element.name.as_str(), "include") {
                    proof {
                        assert(before + Seq::<Seq<char>>::empty() =~= before);
                    }
                } else if same_text(element.name.as_str(), "if") || same_text(
                    element.name.as_str(),
                    "trim",
                ) {
                    skipped_elements(element, out);
                } else {
                    out.push(element.name.clone());
                    proof {
                        assert(out@.map_values(|s: String| s@) =~= before + seq![element.name@]);
                    }
                }
            },
            _ => {
                proof {
                    assert(before + Seq::<Seq<char>>::empty() =~= before);
                }
            },
        }
        proof {
            let added = skipped_in_node(nodes[i as int]);
            assert(nodes[i as int] == node.nodes@[i as int]@);
            assert(out@.map_values(|s: String| s@) == before + added);
            assert((start + done) + added =~= start + (done + added));
        }
        i += 1;
    }
}

/// The names of the elements in the bodies of the fragments and statements of
/// a document that stand for nothing and are passed over when the document is
/// read, in the order of the document.
pub fn skipped_in_document(root: &XmlElement) -> (r: Vec<String>)
    ensures
        r@.map_values(|s: String| s@) == skipped_in_document_prefix(
            root@.nodes,
            root@.nodes.len(),
        ),
{
    let ghost nodes = root@.nodes;
    let mut out: Vec<String> = Vec::new();
    proof {
        lemma_nodes_view(*root);
        assert(out@.map_values(|s: String| s@) =~= Seq::<Seq<char>>::empty());
    }
    let mut i: usize = 0;
    while i < root.nodes.len()
        invariant
            i <= root.nodes@.len(),
            nodes == root@.nodes,
            nodes.len() == root.nodes@.len(),
            forall|j: int| 0 <= j < root.nodes@.len() ==> nodes[j] == (#[trigger] root.nodes@[j])@,
            out@.map_values(|s: String| s@) == skipped_in_document_prefix(nodes, i as nat),
        decreases root.nodes@.len() - i,
    {
        let ghost before = out@.map_values(|s: String| s@);
        match &root.nodes[i] {
            XmlNode::Element(child) => {
                let name = child.name.as_str();
                if same_text(name, "sql") || same_text(name, "insert") || same_text(name, "update")
                    || same_text(name, "delete") || same_text(name, "select") {
                    skipped_elements(child, &mut out);
                } else {
                    proof {
                        assert(before + Seq::<Seq<char>>::empty() =~= before);
                    }
                }
            },
            _ => {
                proof {
                    assert(before + Seq::<Seq<char>>::empty() =~= before);
                }
            },
        }
        proof {
            assert(nodes[i as int] == root.nodes@[i as int]@);
        }
        i += 1;
    }
    out
}

/// The mappers that the first `n` texts stand for, in the order of the texts.
pub open spec fn mappers_prefix(texts: Seq<Seq<char>>, n: nat) -> Result<Seq<MapperView>, Seq<char>>
    decreases n,
{
    if n == 0 || n > texts.len() {
        Ok(Seq::empty())
    } else {
        match mappers_prefix(texts, (n - 1) as nat) {
            Err(message) => Err(message),
            Ok(before) => match mapper_of_text(texts[n - 1]) {
                Err(message) => Err(message),
                Ok(mapper) => Ok(before.push(mapper)),
            },
        }
    }
}

/// An error among the first `n` texts is the error of all of them.
proof fn lemma_mappers_prefix_error(texts: Seq<Seq<char>>, n: nat, m: nat)
    requires
        n <= m <= texts.len(),
        mappers_prefix(texts, n) is Err,
    ensures
        mappers_prefix(texts, m) == mappers_prefix(texts, n),
    decreases m - n,
{
    if n < m {
        lemma_mappers_prefix_error(texts, n, (m - 1) as nat);
    }
}

/// Reads a mapper from each of the texts, in their order. The first text that
/// cannot be read gives the error.
pub fn parse_mappers(texts: &Vec<String>) -> (r: Result<Vec<Mapper>, ParseMapperError>)
    ensures
        match r {
            Ok(mappers) => mappers_prefix(
                texts@.map_values(|t: String| t@),
                texts@.len(),
            ) == Ok::<Seq<MapperView>, Seq<char>>(mappers@.map_values(|m: Mapper| m@)),
            Err(e) => mappers_prefix(texts@.map_values(|t: String| t@), texts@.len()) == Err::<
                Seq<MapperView>,
                Seq<char>,
            >(e@),
        },
{
    let ghost views = texts@.map_values(|t: String| t@);
    let mut mapper_list: Vec<Mapper> = Vec::new();
    proof {
        assert(mapper_list@.map_values(|m: Mapper| m@) =~= Seq::<MapperView>::empty());
    }
    let mut i: usize = 0;
    while i < texts.len()
        invariant
            i <= texts@.len(),
            views == texts@.map_values(|t: String| t@),
            mappers_prefix(views, i as nat) == Ok::<Seq<MapperView>, Seq<char>>(
                mapper_list@.map_values(|m: Mapper| m@),
            ),
        decreases texts@.len() - i,
    {
        let ghost before = mapper_list@.map_values(|m: Mapper| m@);
        match parse_mapper_text(texts[i].as_str()) {
            Err(e) => {
                proof {
                    lemma_mappers_prefix_error(views, (i + 1) as nat, views.len());
                }
                return Err(e);
            },
            Ok(mapper) => {
                mapper_list.push(mapper);
                proof {
                    assert(mapper_list@.map_values(|m: Mapper| m@) =~= before.push(mapper@));
                }
            },
        }
        i += 1;
    }
    Ok(mapper_list)
}

} // verus!
