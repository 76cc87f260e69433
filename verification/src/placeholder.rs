//! Placeholders: the `#{name}` markers of a statement's text, the prepared text
//! in which each of them is a `?`, and the parameters that are bound in their
//! place.

use crate::genc::{error_about, GenCError};
use crate::info::{col_type_of, col_type_of_text, ColumnType};
use crate::mapper::{
    content_view, lemma_content_view, Mapper, SqlElement, SqlElementView, YoResult, YoResultMap,
    YoResultView, YoSqlView,
};
use crate::table::lookup;
use crate::record::unsupported_type_message;
use crate::text::{chars_of, same_text};
use vstd::prelude::*;
use vstd::string::StringExecFns;

verus! {

/// Whether a placeholder starts at position `i`: the two characters `#{` stand
/// there.
pub open spec fn is_marker(cmd: Seq<char>, i: int) -> bool {
    0 <= i && i + 1 < cmd.len() && cmd[i] == '#' && cmd[i + 1] == '{'
}

/// The position of the first `}` at or after `from`, or the length of the text
/// where there is none.
pub open spec fn close_from(cmd: Seq<char>, from: int) -> int
    decreases cmd.len() - from,
{
    if from < 0 || from >= cmd.len() {
        cmd.len() as int
    } else if cmd[from] == '}' {
        from
    } else {
        close_from(cmd, from + 1)
    }
}

/// The position behind the placeholder whose name ends at `close`.
pub open spec fn after_close(cmd: Seq<char>, close: int) -> int {
    if close < cmd.len() {
        close + 1
    } else {
        cmd.len() as int
    }
}

/// What a scan of a text finds: the text with a `?` in place of each
/// placeholder, and the names of the placeholders from left to right.
pub struct Scan {
    pub text: Seq<char>,
    pub names: Seq<Seq<char>>,
}

/// The scan of the text from position `i` on. Where `#{` stands, the name runs
/// to the first `}` behind it, or to the end of the text where none follows; the
/// whole placeholder becomes one `?`. Every other character stays.
pub open spec fn scan_from(cmd: Seq<char>, i: int) -> Scan
    decreases cmd.len() - i,
{
    if i < 0 || i >= cmd.len() {
        Scan { text: Seq::empty(), names: Seq::empty() }
    } else if is_marker(cmd, i) {
        let close = close_from(cmd, i + 2);
        proof {
            lemma_close_from(cmd, i + 2);
        }
        let rest = scan_from(cmd, after_close(cmd, close));
        Scan { text: seq!['?'] + rest.text, names: seq![cmd.subrange(i + 2, close)] + rest.names }
    } else {
        let rest = scan_from(cmd, i + 1);
        Scan { text: seq![cmd[i]] + rest.text, names: rest.names }
    }
}

/// The text with a `?` in place of each placeholder.
pub open spec fn prepared_text(cmd: Seq<char>) -> Seq<char> {
    scan_from(cmd, 0).text
}

/// The names of the placeholders of the text, from left to right.
pub open spec fn placeholder_names(cmd: Seq<char>) -> Seq<Seq<char>> {
    scan_from(cmd, 0).names
}

/// The closing position lies at or behind `from`, within the text, and no `}`
/// stands between the two.
pub proof fn lemma_close_from(cmd: Seq<char>, from: int)
    requires
        0 <= from <= cmd.len(),
    ensures
        from <= close_from(cmd, from) <= cmd.len(),
        close_from(cmd, from) < cmd.len() ==> cmd[close_from(cmd, from)] == '}',
        forall|j: int| from <= j < close_from(cmd, from) ==> cmd[j] != '}',
    decreases cmd.len() - from,
{
    if from < cmd.len() && cmd[from] != '}' {
        lemma_close_from(cmd, from + 1);
    }
}

/// What a scan gives for the text from position `i` on starts with a `?` or
/// with the character at `i`, and holds no `#{`.
proof fn lemma_scan_has_no_marker(cmd: Seq<char>, i: int)
    requires
        0 <= i <= cmd.len(),
    ensures
        i < cmd.len() ==> scan_from(cmd, i).text.len() > 0 && (scan_from(cmd, i).text[0] == '?'
            || scan_from(cmd, i).text[0] == cmd[i]),
        i < cmd.len() && is_marker(cmd, i) ==> scan_from(cmd, i).text[0] == '?',
        forall|k: int| !is_marker(scan_from(cmd, i).text, k),
    decreases cmd.len() - i,
{
    if i < cmd.len() {
        if is_marker(cmd, i) {
            let close = close_from(cmd, i + 2);
            lemma_close_from(cmd, i + 2);
            let next = after_close(cmd, close);
            lemma_scan_has_no_marker(cmd, next);
            let rest = scan_from(cmd, next).text;
            let text = seq!['?'] + rest;
            assert forall|k: int| !is_marker(text, k) by {
                if is_marker(text, k) {
                    if k >= 1 {
                        assert(text[k] == rest[k - 1]);
                        assert(text[k + 1] == rest[k]);
                        assert(is_marker(rest, k - 1));
                    }
                }
            }
        } else {
            lemma_scan_has_no_marker(cmd, i + 1);
            let rest = scan_from(cmd, i + 1).text;
            let text = seq![cmd[i]] + rest;
            assert forall|k: int| !is_marker(text, k) by {
                if is_marker(text, k) {
                    if k >= 1 {
                        assert(text[k] == rest[k - 1]);
                        assert(text[k + 1] == rest[k]);
                        assert(is_marker(rest, k - 1));
                    } else {
                        assert(text[1] == rest[0]);
                    }
                }
            }
        }
    }
}

/// Every placeholder is replaced: the prepared text holds no `#{`.
pub proof fn lemma_prepared_text_has_no_marker(cmd: Seq<char>)
    ensures
        forall|k: int| !is_marker(prepared_text(cmd), k),
{
    lemma_scan_has_no_marker(cmd, 0);
}

/// A parameter that is bound in place of a placeholder: the record member it is
/// taken from, and the kind of that member.
#[derive(Debug)]
pub struct Bind {
    pub property: String,
    pub kind: ColumnType,
}

/// The contents of a [`Bind`].
pub struct BindView {
    pub property: Seq<char>,
    pub kind: ColumnType,
}

impl View for Bind {
    type V = BindView;

    open spec fn view(&self) -> BindView {
        BindView { property: self.property@, kind: self.kind }
    }
}

/// A statement's text made ready for the prepared-statement interface.
#[derive(Debug)]
pub struct Prepared {
    /// The text, with a `?` in place of each placeholder.
    pub sql: String,
    /// The parameters, one for each `?` and in the order of the text.
    pub binds: Vec<Bind>,
}

/// The contents of a [`Prepared`].
pub struct PreparedView {
    pub sql: Seq<char>,
    pub binds: Seq<BindView>,
}

impl View for Prepared {
    type V = PreparedView;

    open spec fn view(&self) -> PreparedView {
        PreparedView { sql: self.sql@, binds: self.binds@.map_values(|b: Bind| b@) }
    }
}

/// The position of the first field at or after `from` whose member has the
/// given name.
pub open spec fn field_from(fields: Seq<YoResultView>, name: Seq<char>, from: int) -> Option<int>
    decreases fields.len() - from,
{
    if from < 0 || from >= fields.len() {
        None
    } else if fields[from].property == name {
        Some(from)
    } else {
        field_from(fields, name, from + 1)
    }
}

/// The position of the first field whose member has the given name.
pub open spec fn field_named(fields: Seq<YoResultView>, name: Seq<char>) -> Option<int> {
    field_from(fields, name, 0)
}

/// The message of the error for a placeholder that names no field.
pub open spec fn unknown_placeholder_message(name: Seq<char>) -> Seq<char> {
    "placeholder not found in parameter type: "@ + name
}

/// The parameter for a placeholder of the given name: the first field whose
/// member has that name gives the kind. A name without a field is an error, and
/// so is a field whose type is none of the three.
pub open spec fn bind_of(fields: Seq<YoResultView>, name: Seq<char>) -> Result<
    BindView,
    Seq<char>,
> {
    match field_named(fields, name) {
        None => Err(unknown_placeholder_message(name)),
        Some(i) => match col_type_of_text(fields[i].yo_type) {
            None => Err(unsupported_type_message(fields[i].yo_type)),
            Some(kind) => Ok(BindView { property: name, kind }),
        },
    }
}

/// The parameters for the first `n` of the names, or the first error among
/// them.
pub open spec fn binds_prefix(fields: Seq<YoResultView>, names: Seq<Seq<char>>, n: nat) -> Result<
    Seq<BindView>,
    Seq<char>,
>
    decreases n,
{
    if n == 0 || n > names.len() {
        Ok(Seq::empty())
    } else {
        match binds_prefix(fields, names, (n - 1) as nat) {
            Err(message) => Err(message),
            Ok(before) => match bind_of(fields, names[n - 1]) {
                Err(message) => Err(message),
                Ok(bind) => Ok(before.push(bind)),
            },
        }
    }
}

/// A text made ready: each placeholder is a `?`, and for each placeholder,
/// from left to right, there is one parameter of the kind of the field it names.
pub open spec fn prepare_model(cmd: Seq<char>, fields: Seq<YoResultView>) -> Result<
    PreparedView,
    Seq<char>,
> {
    match binds_prefix(fields, placeholder_names(cmd), placeholder_names(cmd).len()) {
        Err(message) => Err(message),
        Ok(binds) => Ok(PreparedView { sql: prepared_text(cmd), binds }),
    }
}

/// What `field_from` returns is the first field of that name at or after
/// `from`, and `None` only where no field from there on has the name.
pub proof fn lemma_field_from(fields: Seq<YoResultView>, name: Seq<char>, from: int)
    requires
        0 <= from,
    ensures
        match field_from(fields, name, from) {
            Some(i) => from <= i < fields.len() && fields[i].property == name && forall|j: int|
                from <= j < i ==> (#[trigger] fields[j]).property != name,
            None => forall|j: int|
                from <= j < fields.len() ==> (#[trigger] fields[j]).property != name,
        },
    decreases fields.len() - from,
{
    if from < fields.len() && fields[from].property != name {
        lemma_field_from(fields, name, from + 1);
    }
}

/// Where the parameters of the first `n` names can be given, there are `n` of
/// them, and each goes with the name at its position.
pub proof fn lemma_binds_prefix(fields: Seq<YoResultView>, names: Seq<Seq<char>>, n: nat)
    requires
        n <= names.len(),
        binds_prefix(fields, names, n) is Ok,
    ensures
        binds_prefix(fields, names, n)->Ok_0.len() == n,
        forall|k: int|
            0 <= k < n ==> bind_of(fields, names[k]) == Ok::<BindView, Seq<char>>(
                #[trigger] binds_prefix(fields, names, n)->Ok_0[k],
            ),
    decreases n,
{
    if n > 0 {
        lemma_binds_prefix(fields, names, (n - 1) as nat);
    }
}

/// Placeholders and parameters pair up. Where a text can be made ready, it gets
/// as many parameters as it has placeholders; the parameter at each position
/// has the name of the placeholder at that position, and its kind is the kind
/// of the first field of that name.
pub proof fn lemma_binds_pair_with_placeholders(cmd: Seq<char>, fields: Seq<YoResultView>, k: int)
    requires
        prepare_model(cmd, fields) is Ok,
        0 <= k < placeholder_names(cmd).len(),
    ensures
        prepare_model(cmd, fields)->Ok_0.sql == prepared_text(cmd),
        prepare_model(cmd, fields)->Ok_0.binds.len() == placeholder_names(cmd).len(),
        prepare_model(cmd, fields)->Ok_0.binds[k].property == placeholder_names(cmd)[k],
        field_named(fields, placeholder_names(cmd)[k]) is Some,
        col_type_of_text(
            fields[field_named(fields, placeholder_names(cmd)[k]).unwrap()].yo_type,
        ) == Some(prepare_model(cmd, fields)->Ok_0.binds[k].kind),
{
    let names = placeholder_names(cmd);
    lemma_binds_prefix(fields, names, names.len());
    lemma_field_from(fields, names[k], 0);
}

/// The views of a list of texts.
pub open spec fn text_views(texts: Seq<String>) -> Seq<Seq<char>> {
    texts.map_values(|s: String| s@)
}

/// Scans a text for placeholders. Returns the text with a `?` in place of each
/// placeholder, and the names of the placeholders from left to right.
pub fn scan_placeholders(cmd: &str) -> (r: (String, Vec<String>))
    ensures
        r.0@ == prepared_text(cmd@),
        text_views(r.1@) == placeholder_names(cmd@),
{
    let chars = chars_of(cmd);
    let n = chars.len();
    let mut out = String::new();
    let mut names: Vec<String> = Vec::new();
    let mut i: usize = 0;
    while i < n
        invariant
            chars@ == cmd@,
            n == chars@.len(),
            i <= n,
            prepared_text(cmd@) == out@ + scan_from(cmd@, i as int).text,
            placeholder_names(cmd@) == text_views(names@) + scan_from(cmd@, i as int).names,
        decreases n - i,
    {
        let ghost out0 = out@;
        let ghost rest_text = scan_from(cmd@, i as int).text;
        let ghost rest_names = scan_from(cmd@, i as int).names;
        if n - i >= 2 && chars[i] == '#' && chars[i + 1] == '{' {
            let start = i + 2;
            let mut close = start;
            while close < n && chars[close] != '}'
                invariant
                    chars@ == cmd@,
                    n == chars@.len(),
                    start <= close <= n,
                    close_from(cmd@, start as int) == close_from(cmd@, close as int),
                decreases n - close,
            {
                close += 1;
            }
            let mut name = String::new();
            let mut j = start;
            while j < close
                invariant
                    chars@ == cmd@,
                    start <= j <= close <= n,
                    n == chars@.len(),
                    name@ == cmd@.subrange(start as int, j as int),
                decreases close - j,
            {
                name.push(chars[j]);
                proof {
                    assert(name@ =~= cmd@.subrange(start as int, j + 1));
                }
                j += 1;
            }
            let ghost before = text_views(names@);
            names.push(name);
            out.push('?');
            proof {
                let next = scan_from(cmd@, after_close(cmd@, close as int));
                assert(rest_text == seq!['?'] + next.text);
                assert(rest_names == seq![cmd@.subrange(start as int, close as int)] + next.names);
                assert(text_views(names@) =~= before.push(name@));
                assert(out@ + next.text =~= out0 + rest_text) by {
                    assert(out@ =~= out0 + seq!['?']);
                }
                assert(text_views(names@) + next.names =~= before + rest_names);
            }
            if close < n {
                i = close + 1;
            } else {
                i = n;
            }
        } else {
            out.push(chars[i]);
            proof {
                let next = scan_from(cmd@, i + 1);
                assert(rest_text == seq![cmd@[i as int]] + next.text);
                assert(out@ + next.text =~= out0 + rest_text) by {
                    assert(out@ =~= out0 + seq![cmd@[i as int]]);
                }
            }
            i += 1;
        }
    }
    proof {
        assert(out@ + Seq::<char>::empty() =~= out@);
        assert(text_views(names@) + Seq::<Seq<char>>::empty() =~= text_views(names@));
    }
    (out, names)
}

fn find_field(fields: &Vec<YoResult>, name: &str) -> (r: Option<usize>)
    ensures
        match r {
            Some(i) => i < fields@.len() && field_named(
                fields@.map_values(|f: YoResult| f@),
                name@,
            ) == Some(i as int),
            None => field_named(fields@.map_values(|f: YoResult| f@), name@) is None,
        },
{
    let ghost views = fields@.map_values(|f: YoResult| f@);
    let mut i: usize = 0;
    while i < fields.len()
        invariant
            i <= fields@.len(),
            views == fields@.map_values(|f: YoResult| f@),
            field_named(views, name@) == field_from(views, name@, i as int),
        decreases fields@.len() - i,
    {
        if same_text(fields[i].property.as_str(), name) {
            return Some(i);
        }
        i += 1;
    }
    None
}

/// The parameter for a placeholder of the given name.
pub fn bind_placeholder(name: &str, result_map: &YoResultMap) -> (r: Result<Bind, GenCError>)
    ensures
        match bind_of(result_map@.results, name@) {
            Ok(bind) => r is Ok && r.unwrap()@ == bind,
            Err(message) => r is Err && r.unwrap_err()@ == message,
        },
{
    match find_field(&result_map.results, name) {
        None => Err(error_about("placeholder not found in parameter type: ", name)),
        Some(i) => {
            let field = &result_map.results[i];
            match col_type_of(field.yo_type.as_str()) {
                None => Err(error_about("unsupported type: ", field.yo_type.as_str())),
                Some(kind) => Ok(Bind { property: String::from_str(name), kind }),
            }
        },
    }
}

/// Makes a statement's text ready for the prepared-statement interface: every
/// placeholder becomes a `?` and gets a parameter of the kind of the field it
/// names. The parameters stand in the order of the placeholders in the text.
pub fn prepare_sql(cmd: &str, result_map: &YoResultMap) -> (r: Result<Prepared, GenCError>)
    ensures
        match prepare_model(cmd@, result_map@.results) {
            Ok(prepared) => r is Ok && r.unwrap()@ == prepared,
            Err(message) => r is Err && r.unwrap_err()@ == message,
        },
{
    let (sql, names) = scan_placeholders(cmd);
    let ghost fields = result_map@.results;
    let ghost name_views = placeholder_names(cmd@);
    let mut binds: Vec<Bind> = Vec::new();
    proof {
        assert(binds@.map_values(|b: Bind| b@) =~= Seq::<BindView>::empty());
    }
    let mut i: usize = 0;
    while i < names.len()
        invariant
            i <= names@.len(),
            fields == result_map@.results,
            name_views == text_views(names@),
            name_views == placeholder_names(cmd@),
            binds_prefix(fields, name_views, i as nat) == Ok::<Seq<BindView>, Seq<char>>(
                binds@.map_values(|b: Bind| b@),
            ),
        decreases names@.len() - i,
    {
        let ghost before = binds@.map_values(|b: Bind| b@);
        proof {
            assert(name_views[i as int] == names@[i as int]@);
        }
        match bind_placeholder(names[i].as_str(), result_map) {
            Err(e) => {
                proof {
                    assert(binds_prefix(fields, name_views, (i + 1) as nat) == Err::<
                        Seq<BindView>,
                        Seq<char>,
                    >(e@));
                    lemma_binds_prefix_error(
                        fields,
                        name_views,
                        (i + 1) as nat,
                        names@.len() as nat,
                    );
                }
                return Err(e);
            },
            Ok(bind) => {
                binds.push(bind);
                proof {
                    assert(binds@.map_values(|b: Bind| b@) =~= before.push(bind@));
                }
            },
        }
        i += 1;
    }
    Ok(Prepared { sql, binds })
}

/// An error among the first `n` names is the error of all the names.
proof fn lemma_binds_prefix_error(
    fields: Seq<YoResultView>,
    names: Seq<Seq<char>>,
    n: nat,
    m: nat,
)
    requires
        n <= m <= names.len(),
        binds_prefix(fields, names, n) is Err,
    ensures
        binds_prefix(fields, names, m) == binds_prefix(fields, names, n),
    decreases m - n,
{
    if n < m {
        lemma_binds_prefix_error(fields, names, n, (m - 1) as nat);
    }
}

/// The pieces of literal text that an element can add to a statement: its own
/// text, the text of the fragment it names, or the literal texts of its content.
pub open spec fn element_literals(sqls: Seq<(Seq<char>, YoSqlView)>, e: SqlElementView) -> Seq<
    Seq<char>,
>
    decreases e, 0nat,
{
    match e {
        SqlElementView::YoText(t) => seq![t],
        SqlElementView::YoInclude(i) => match lookup(sqls, i.refid) {
            Some(sql) => seq![sql.text],
            None => Seq::empty(),
        },
        SqlElementView::YoIf(f) => prefix_literals(sqls, f.content, f.content.len()),
        SqlElementView::YoTrim(t) => prefix_literals(sqls, t.content, t.content.len()),
    }
}

/// The pieces of literal text of the first `n` elements, in their order.
pub open spec fn prefix_literals(
    sqls: Seq<(Seq<char>, YoSqlView)>,
    elems: Seq<SqlElementView>,
    n: nat,
) -> Seq<Seq<char>>
    decreases elems, n,
{
    if n == 0 || n > elems.len() {
        Seq::empty()
    } else {
        prefix_literals(sqls, elems, (n - 1) as nat) + element_literals(sqls, elems[n - 1])
    }
}

/// The pieces of literal text of a body, in the order of the document.
pub open spec fn body_literals(
    sqls: Seq<(Seq<char>, YoSqlView)>,
    elems: Seq<SqlElementView>,
) -> Seq<Seq<char>> {
    prefix_literals(sqls, elems, elems.len())
}

/// The error of the first piece at or after `from` that cannot be made ready.
pub open spec fn literal_error_from(
    fields: Seq<YoResultView>,
    literals: Seq<Seq<char>>,
    from: int,
) -> Option<Seq<char>>
    decreases literals.len() - from,
{
    if from < 0 || from >= literals.len() {
        None
    } else {
        match prepare_model(literals[from], fields) {
            Err(message) => Some(message),
            Ok(_) => literal_error_from(fields, literals, from + 1),
        }
    }
}

/// Why the placeholders of a body do not fit the parameter's fields, if they do
/// not: the error of the first piece of literal text that cannot be made ready.
pub open spec fn placeholder_error(
    sqls: Seq<(Seq<char>, YoSqlView)>,
    elems: Seq<SqlElementView>,
    fields: Seq<YoResultView>,
) -> Option<Seq<char>> {
    literal_error_from(fields, body_literals(sqls, elems), 0)
}

/// Appends the pieces of literal text of a body to `out`, in the order of the
/// document.
pub fn collect_literals(table: &Mapper, elems: &Vec<Box<SqlElement>>, out: &mut Vec<String>)
    ensures
        text_views(final(out)@) == text_views(old(out)@) + body_literals(
            table@.sqls,
            content_view(elems@),
        ),
    decreases elems,
{
    let ghost sqls = table@.sqls;
    let ghost views = content_view(elems@);
    let ghost start = text_views(out@);
    proof {
        lemma_content_view(elems@);
        assert(start + Seq::<Seq<char>>::empty() =~= start);
    }
    let mut i: usize = 0;
    while i < elems.len()
        invariant
            i <= elems@.len(),
            sqls == table@.sqls,
            views == content_view(elems@),
            views.len() == elems@.len(),
            forall|j: int| 0 <= j < elems@.len() ==> views[j] == (#[trigger] elems@[j])@,
            text_views(out@) == start + prefix_literals(sqls, views, i as nat),
        decreases elems@.len() - i,
    {
        let ghost before = text_views(out@);
        let ghost done = prefix_literals(sqls, views, i as nat);
        match &*elems[i] {
            SqlElement::YoIf(if_elem) => {
                collect_literals(table, &if_elem.content, out);
            },
            SqlElement::YoInclude(inc_elem) => match table.sqls.get(inc_elem.refid.as_str()) {
                Some(sql) => {
                    out.push(sql.text.clone());
                    proof {
                        assert(text_views(out@) =~= before + seq![sql.text@]);
                    }
                },
                None => {
                    proof {
                        assert(before + Seq::<Seq<char>>::empty() =~= before);
                    }
                },
            },
            SqlElement::YoText(tex) => {
                out.push(tex.clone());
                proof {
                    assert(text_views(out@) =~= before + seq![tex@]);
                }
            },
            SqlElement::YoTrim(trim_elem) => {
                collect_literals(table, &trim_elem.content, out);
            },
        }
        proof {
            let added = element_literals(sqls, views[i as int]);
            assert(views[i as int] == elems@[i as int]@);
            assert(text_views(out@) == before + added);
            assert((start + done) + added =~= start + (done + added));
        }
        i += 1;
    }
}

/// Checks the placeholders of a body against the fields of the parameter:
/// every placeholder that stands in a piece of literal text must name a field,
/// and that field must have one of the three kinds.
pub fn check_placeholders(
    table: &Mapper,
    elems: &Vec<Box<SqlElement>>,
    result_map: &YoResultMap,
) -> (r: Result<(), GenCError>)
    ensures
        match placeholder_error(table@.sqls, content_view(elems@), result_map@.results) {
            Some(message) => r is Err && r.unwrap_err()@ == message,
            None => r is Ok,
        },
{
    let mut literals: Vec<String> = Vec::new();
    collect_literals(table, elems, &mut literals);
    let ghost fields = result_map@.results;
    let ghost pieces = body_literals(table@.sqls, content_view(elems@));
    proof {
        assert(text_views(literals@) =~= pieces);
    }
    let mut i: usize = 0;
    while i < literals.len()
        invariant
            i <= literals@.len(),
            fields == result_map@.results,
            pieces == text_views(literals@),
            pieces == body_literals(table@.sqls, content_view(elems@)),
            literal_error_from(fields, pieces, 0) == literal_error_from(fields, pieces, i as int),
        decreases literals@.len() - i,
    {
        proof {
            assert(pieces[i as int] == literals@[i as int]@);
        }
        match prepare_sql(literals[i].as_str(), result_map) {
            Err(e) => {
                return Err(e);
            },
            Ok(_) => {},
        }
        i += 1;
    }
    Ok(())
}

} // verus!
