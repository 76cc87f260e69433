//! The data model of a mapper document: result maps, reusable SQL fragments and
//! the four kinds of statement, whose bodies are trees of dynamic-SQL elements.

use crate::table::Table;
use vstd::prelude::*;

verus! {

/// One field of a result map: the column it is read from, the name of the
/// record member, and the C type of that member.
#[derive(Debug)]
pub struct YoResult {
    pub column: String,
    pub property: String,
    pub yo_type: String,
}

/// The contents of a [`YoResult`].
pub struct YoResultView {
    pub column: Seq<char>,
    pub property: Seq<char>,
    pub yo_type: Seq<char>,
}

impl View for YoResult {
    type V = YoResultView;

    open spec fn view(&self) -> YoResultView {
        YoResultView { column: self.column@, property: self.property@, yo_type: self.yo_type@ }
    }
}

impl Clone for YoResult {
    fn clone(&self) -> (r: Self)
        ensures
            r@ == self@,
    {
        YoResult {
            column: self.column.clone(),
            property: self.property.clone(),
            yo_type: self.yo_type.clone(),
        }
    }
}

/// `<resultMap>`: a record type, used as the shape of a row and as the shape of
/// a statement's parameter.
#[derive(Debug)]
pub struct YoResultMap {
    pub id: String,
    pub type_: String,
    pub results: Vec<YoResult>,
}

/// The contents of a [`YoResultMap`].
pub struct YoResultMapView {
    pub id: Seq<char>,
    pub type_: Seq<char>,
    pub results: Seq<YoResultView>,
}

impl View for YoResultMap {
    type V = YoResultMapView;

    open spec fn view(&self) -> YoResultMapView {
        YoResultMapView {
            id: self.id@,
            type_: self.type_@,
            results: self.results@.map_values(|r: YoResult| r@),
        }
    }
}

impl Clone for YoResultMap {
    fn clone(&self) -> (r: Self)
        ensures
            r@ == self@,
    {
        let mut results: Vec<YoResult> = Vec::new();
        let mut i: usize = 0;
        while i < self.results.len()
            invariant
                i <= self.results@.len(),
                results@.len() == i,
                forall|j: int| 0 <= j < i ==> (#[trigger] results@[j])@ == self.results@[j]@,
            decreases self.results@.len() - i,
        {
            results.push(self.results[i].clone());
            i += 1;
        }
        let r = YoResultMap { id: self.id.clone(), type_: self.type_.clone(), results };
        proof {
            assert(r@.results =~= self@.results);
        }
        r
    }
}

/// `<include>`: stands for the text of the `<sql>` fragment it names.
#[derive(Debug)]
pub struct YoInclude {
    pub refid: String,
}

/// The contents of a [`YoInclude`].
pub struct YoIncludeView {
    pub refid: Seq<char>,
}

impl View for YoInclude {
    type V = YoIncludeView;

    open spec fn view(&self) -> YoIncludeView {
        YoIncludeView { refid: self.refid@ }
    }
}

/// `<sql>`: a reusable fragment of SQL text.
#[derive(Debug)]
pub struct YoSql {
    pub id: String,
    pub text: String,
}

/// The contents of a [`YoSql`].
pub struct YoSqlView {
    pub id: Seq<char>,
    pub text: Seq<char>,
}

impl View for YoSql {
    type V = YoSqlView;

    open spec fn view(&self) -> YoSqlView {
        YoSqlView { id: self.id@, text: self.text@ }
    }
}

/// `<if>`: its content counts only where the test holds when the statement runs.
#[derive(Debug)]
pub struct YoIf {
    pub test: String,
    pub content: Vec<Box<SqlElement>>,
}

/// `<trim>`: its content, stripped of one leading and one trailing override and
/// wrapped in the prefix and the suffix.
#[derive(Debug)]
pub struct YoTrim {
    pub prefix: String,
    pub suffix: String,
    pub suffix_overrides: String,
    pub prefix_overrides: String,
    pub content: Vec<Box<SqlElement>>,
}

/// One node of a statement body.
#[derive(Debug)]
pub enum SqlElement {
    YoInclude(YoInclude),
    YoText(String),
    YoTrim(YoTrim),
    YoIf(YoIf),
}

/// The contents of a [`YoIf`].
pub struct YoIfView {
    pub test: Seq<char>,
    pub content: Seq<SqlElementView>,
}

/// The contents of a [`YoTrim`].
pub struct YoTrimView {
    pub prefix: Seq<char>,
    pub suffix: Seq<char>,
    pub suffix_overrides: Seq<char>,
    pub prefix_overrides: Seq<char>,
    pub content: Seq<SqlElementView>,
}

/// The contents of a [`SqlElement`].
pub enum SqlElementView {
    YoInclude(YoIncludeView),
    YoText(Seq<char>),
    YoTrim(YoTrimView),
    YoIf(YoIfView),
}

/// The contents of one element.
pub open spec fn element_view(e: SqlElement) -> SqlElementView
    decreases e, 0nat,
{
    match e {
        SqlElement::YoInclude(i) => SqlElementView::YoInclude(i@),
        SqlElement::YoText(t) => SqlElementView::YoText(t@),
        SqlElement::YoTrim(t) => SqlElementView::YoTrim(
            YoTrimView {
                prefix: t.prefix@,
                suffix: t.suffix@,
                suffix_overrides: t.suffix_overrides@,
                prefix_overrides: t.prefix_overrides@,
                content: content_prefix_view(t.content@, t.content@.len()),
            },
        ),
        SqlElement::YoIf(f) => SqlElementView::YoIf(
            YoIfView { test: f.test@, content: content_prefix_view(f.content@, f.content@.len()) },
        ),
    }
}

/// The contents of the first `n` elements of a body.
pub open spec fn content_prefix_view(elems: Seq<Box<SqlElement>>, n: nat) -> Seq<SqlElementView>
    decreases elems, n,
{
    if n == 0 || n > elems.len() {
        Seq::empty()
    } else {
        content_prefix_view(elems, (n - 1) as nat).push(element_view(*elems[n - 1]))
    }
}

/// The contents of a body.
pub open spec fn content_view(elems: Seq<Box<SqlElement>>) -> Seq<SqlElementView> {
    content_prefix_view(elems, elems.len())
}

impl View for SqlElement {
    type V = SqlElementView;

    open spec fn view(&self) -> SqlElementView {
        element_view(*self)
    }
}

impl View for YoIf {
    type V = YoIfView;

    open spec fn view(&self) -> YoIfView {
        YoIfView { test: self.test@, content: content_view(self.content@) }
    }
}

impl View for YoTrim {
    type V = YoTrimView;

    open spec fn view(&self) -> YoTrimView {
        YoTrimView {
            prefix: self.prefix@,
            suffix: self.suffix@,
            suffix_overrides: self.suffix_overrides@,
            prefix_overrides: self.prefix_overrides@,
            content: content_view(self.content@),
        }
    }
}

/// The view of a body holds the views of its elements, one for one.
pub proof fn lemma_content_view(elems: Seq<Box<SqlElement>>)
    ensures
        content_view(elems).len() == elems.len(),
        forall|i: int| 0 <= i < elems.len() ==> content_view(elems)[i] == (#[trigger] elems[i])@,
{
    lemma_content_prefix_view(elems, elems.len());
}

/// The view of the first `n` elements holds the views of those elements.
proof fn lemma_content_prefix_view(elems: Seq<Box<SqlElement>>, n: nat)
    requires
        n <= elems.len(),
    ensures
        content_prefix_view(elems, n).len() == n,
        forall|i: int|
            0 <= i < n ==> content_prefix_view(elems, n)[i] == (#[trigger] elems[i])@,
    decreases n,
{
    if n > 0 {
        lemma_content_prefix_view(elems, (n - 1) as nat);
    }
}

/// The view of a body with one more element is the view of the body with the
/// view of that element behind it.
pub proof fn lemma_content_view_push(elems: Seq<Box<SqlElement>>, last: Box<SqlElement>)
    ensures
        content_view(elems.push(last)) == content_view(elems).push((*last)@),
{
    lemma_content_view(elems);
    lemma_content_view(elems.push(last));
    assert(content_view(elems.push(last)) =~= content_view(elems).push((*last)@)) by {
        assert forall|i: int| 0 <= i < elems.len() implies content_view(elems.push(last))[i]
            == content_view(elems)[i] by {
            assert(elems.push(last)[i] == elems[i]);
        }
        assert(elems.push(last)[elems.len() as int] == last);
    }
}

/// `<insert>`, `<update>` and `<delete>` have one shape: a name, the type of
/// the parameter record, and a body.
pub struct StatementView {
    pub id: Seq<char>,
    pub parameter_type: Seq<char>,
    pub content: Seq<SqlElementView>,
}

/// `<insert>`: an INSERT statement.
#[derive(Debug)]
pub struct YoInsert {
    pub id: String,
    pub parameter_type: String,
    pub content: Vec<Box<SqlElement>>,
}

impl View for YoInsert {
    type V = StatementView;

    open spec fn view(&self) -> StatementView {
        StatementView {
            id: self.id@,
            parameter_type: self.parameter_type@,
            content: content_view(self.content@),
        }
    }
}

/// `<update>`: an UPDATE statement.
#[derive(Debug)]
pub struct YoUpdate {
    pub id: String,
    pub parameter_type: String,
    pub content: Vec<Box<SqlElement>>,
}

impl View for YoUpdate {
    type V = StatementView;

    open spec fn view(&self) -> StatementView {
        StatementView {
            id: self.id@,
            parameter_type: self.parameter_type@,
            content: content_view(self.content@),
        }
    }
}

/// `<delete>`: a DELETE statement.
#[derive(Debug)]
pub struct YoDelete {
    pub id: String,
    pub parameter_type: String,
    pub content: Vec<Box<SqlElement>>,
}

impl View for YoDelete {
    type V = StatementView;

    open spec fn view(&self) -> StatementView {
        StatementView {
            id: self.id@,
            parameter_type: self.parameter_type@,
            content: content_view(self.content@),
        }
    }
}

/// `<select>`: a SELECT statement, which also names the result map of its rows.
#[derive(Debug)]
pub struct YoSelect {
    pub id: String,
    pub parameter_type: String,
    pub result_map: String,
    pub content: Vec<Box<SqlElement>>,
}

/// The contents of a [`YoSelect`].
pub struct YoSelectView {
    pub id: Seq<char>,
    pub parameter_type: Seq<char>,
    pub result_map: Seq<char>,
    pub content: Seq<SqlElementView>,
}

impl View for YoSelect {
    type V = YoSelectView;

    open spec fn view(&self) -> YoSelectView {
        YoSelectView {
            id: self.id@,
            parameter_type: self.parameter_type@,
            result_map: self.result_map@,
            content: content_view(self.content@),
        }
    }
}

/// `<mapper>`: one document. Result maps are found by their id in
/// `result_maps` and by the name of their type in `type_maps`.
pub struct Mapper {
    pub namespace: String,
    pub result_maps: Table<YoResultMap>,
    pub type_maps: Table<YoResultMap>,
    pub sqls: Table<YoSql>,
    pub inserts: Table<YoInsert>,
    pub updates: Table<YoUpdate>,
    pub deletes: Table<YoDelete>,
    pub selects: Table<YoSelect>,
}

/// The contents of a [`Mapper`].
pub struct MapperView {
    pub namespace: Seq<char>,
    pub result_maps: Seq<(Seq<char>, YoResultMapView)>,
    pub type_maps: Seq<(Seq<char>, YoResultMapView)>,
    pub sqls: Seq<(Seq<char>, YoSqlView)>,
    pub inserts: Seq<(Seq<char>, StatementView)>,
    pub updates: Seq<(Seq<char>, StatementView)>,
    pub deletes: Seq<(Seq<char>, StatementView)>,
    pub selects: Seq<(Seq<char>, YoSelectView)>,
}

impl View for Mapper {
    type V = MapperView;

    open spec fn view(&self) -> MapperView {
        MapperView {
            namespace: self.namespace@,
            result_maps: self.result_maps@,
            type_maps: self.type_maps@,
            sqls: self.sqls@,
            inserts: self.inserts@,
            updates: self.updates@,
            deletes: self.deletes@,
            selects: self.selects@,
        }
    }
}

/// The mapper without a namespace and without entries.
pub open spec fn empty_mapper() -> MapperView {
    MapperView {
        namespace: Seq::empty(),
        result_maps: Seq::empty(),
        type_maps: Seq::empty(),
        sqls: Seq::empty(),
        inserts: Seq::empty(),
        updates: Seq::empty(),
        deletes: Seq::empty(),
        selects: Seq::empty(),
    }
}

impl Mapper {
    /// A mapper without a namespace and without entries.
    pub fn new() -> (r: Mapper)
        ensures
            r@ == empty_mapper(),
    {
        Mapper {
            namespace: String::new(),
            result_maps: Table::new(),
            type_maps: Table::new(),
            sqls: Table::new(),
            inserts: Table::new(),
            updates: Table::new(),
            deletes: Table::new(),
            selects: Table::new(),
        }
    }
}

/// Why a document could not be read as a mapper.
#[derive(Debug)]
pub struct ParseMapperError {
    message: String,
}

impl View for ParseMapperError {
    type V = Seq<char>;

    closed spec fn view(&self) -> Seq<char> {
        self.message@
    }
}

impl Clone for ParseMapperError {
    fn clone(&self) -> (r: Self)
        ensures
            r@ == self@,
    {
        ParseMapperError { message: self.message.clone() }
    }
}

impl ParseMapperError {
    /// The error with the given message.
    pub fn new(message: String) -> (r: ParseMapperError)
        ensures
            r@ == message@,
    {
        ParseMapperError { message }
    }

    /// The message of the error.
    pub fn message(&self) -> (r: &String)
        ensures
            r@ == self@,
    {
        &self.message
    }
}

} // verus!
