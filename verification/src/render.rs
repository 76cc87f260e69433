//! The statement renderer: from the body of a statement to the C statements
//! that build its SQL text when the generated function runs.

use crate::genc::{error_about, GenCError};
use crate::mapper::{
    content_view, lemma_content_view, Mapper, SqlElement, SqlElementView, YoIf, YoSqlView,
    YoTrim, YoTrimView,
};
use crate::table::lookup;
use crate::text::{
    decimal, decimal_text, escape_line_breaks, escaped_text, lemma_decimal_text_injective,
    lemma_escaped_text_has_no_line_break, spaces, spaces_text,
};
use vstd::prelude::*;
use vstd::string::StringExecFns;

verus! {

/// What rendering gives: the generated statements, and the number of the next
/// free temporary buffer.
pub struct Rendered {
    pub text: Seq<char>,
    pub next: nat,
}

/// The name of the temporary buffer with the given number.
pub open spec fn temp_name(inc: nat) -> Seq<char> {
    "tmp_"@ + decimal_text(inc)
}

/// Temporary buffers with different numbers have different names.
pub proof fn lemma_temp_names_differ(a: nat, b: nat)
    requires
        a != b,
    ensures
        temp_name(a) != temp_name(b),
{
    if temp_name(a) == temp_name(b) {
        let head = "tmp_"@;
        assert(temp_name(a).skip(head.len() as int) =~= decimal_text(a));
        assert(temp_name(b).skip(head.len() as int) =~= decimal_text(b));
        lemma_decimal_text_injective(a, b);
    }
}

/// The statement that appends a piece of literal SQL text to the buffer
/// `valname`.
pub open spec fn literal_line(indent: Seq<char>, valname: Seq<char>, literal: Seq<char>) -> Seq<
    char,
> {
    indent + "yb_string_append_c_str("@ + valname + ", \""@ + escaped_text(literal) + "\");\n"@
}

/// Whether the text holds no line feed and no carriage return.
pub open spec fn has_no_line_break(s: Seq<char>) -> bool {
    forall|i: int| 0 <= i < s.len() ==> s[i] != '\n' && s[i] != '\r'
}

/// The statement for a piece of literal text stands on one line, whatever line
/// breaks the text holds: its only line break is its last character.
pub proof fn lemma_literal_line_is_one_line(
    indent: Seq<char>,
    valname: Seq<char>,
    literal: Seq<char>,
)
    requires
        has_no_line_break(indent),
        has_no_line_break(valname),
    ensures
        literal_line(indent, valname, literal).len() > 0,
        literal_line(indent, valname, literal).last() == '\n',
        has_no_line_break(literal_line(indent, valname, literal).drop_last()),
{
    reveal_strlit("yb_string_append_c_str(");
    reveal_strlit(", \"");
    reveal_strlit("\");\n");
    lemma_escaped_text_has_no_line_break(literal);
    let a = indent;
    let b = "yb_string_append_c_str("@;
    let c = valname;
    let d = ", \""@;
    let e = escaped_text(literal);
    let f = "\");\n"@;
    let line = literal_line(indent, valname, literal);
    assert(line == a + b + c + d + e + f);
    assert(has_no_line_break(b));
    assert(has_no_line_break(d));
    assert(has_no_line_break(e));
    assert(f.len() == 4);
    assert(has_no_line_break(f.drop_last()));
    assert(line.drop_last() =~= a + b + c + d + e + f.drop_last());
    let head = a + b + c + d + e;
    assert(has_no_line_break(a + b));
    assert(has_no_line_break(a + b + c));
    assert(has_no_line_break(a + b + c + d));
    assert(has_no_line_break(head));
    assert(has_no_line_break(head + f.drop_last()));
}

/// The statement that declares a temporary buffer and makes it empty.
pub open spec fn temp_new_line(indent: Seq<char>, temp: Seq<char>) -> Seq<char> {
    indent + "yb_string_t "@ + temp + " = yb_string_new();\n"@
}

/// The statement that releases a temporary buffer.
pub open spec fn temp_free_line(indent: Seq<char>, temp: Seq<char>) -> Seq<char> {
    indent + "yb_string_free("@ + temp + ");\n"@
}

/// The line that opens the block of a conditional.
pub open spec fn if_open_line(indent: Seq<char>, test: Seq<char>) -> Seq<char> {
    indent + "if (n->"@ + test + ") {\n"@
}

/// The statement that appends a temporary buffer to the buffer `valname`.
pub open spec fn temp_append_line(indent: Seq<char>, valname: Seq<char>, temp: Seq<char>) -> Seq<
    char,
> {
    indent + "yb_string_append("@ + valname + ", "@ + temp + ");\n"@
}

/// The line that closes a block.
pub open spec fn block_close_line(indent: Seq<char>) -> Seq<char> {
    indent + "}\n"@
}

/// The statement that strips and wraps the temporary buffer as the `<trim>`
/// asks, and appends the outcome to the buffer `valname`.
pub open spec fn trim_line(
    indent: Seq<char>,
    valname: Seq<char>,
    temp: Seq<char>,
    trim: YoTrimView,
) -> Seq<char> {
    indent + "yb_string_trim("@ + temp + ", \""@ + trim.prefix + "\", \""@ + trim.suffix
        + "\", \""@ + trim.prefix_overrides + "\", \""@ + trim.suffix_overrides + "\", "@ + valname
        + ");\n"@
}

/// The message of the error for an `<include>` that names no fragment.
pub open spec fn missing_include_message(refid: Seq<char>) -> Seq<char> {
    "include sql not found: "@ + refid
}

/// The message of the error for a body that needs more temporary buffers than
/// can be numbered.
pub open spec fn too_many_buffers_message() -> Seq<char> {
    "too many temporary buffers"@
}

/// One level of indentation more than `indent`.
pub open spec fn deeper(indent: Seq<char>) -> Seq<char> {
    indent + spaces_text(4)
}

/// What the renderer gives for one element: the statements that append the
/// element's text to the buffer `valname`, or the message of the first error.
///
/// Literal text is appended as it is. An `<include>` appends the text of the
/// fragment it names. An `<if>` builds its content in a temporary buffer of its
/// own, inside a block that runs only where the test holds, and appends that
/// buffer inside the block. A `<trim>` builds its content in a temporary buffer
/// and hands it to the runtime's trim routine, which appends the stripped and
/// wrapped text.
pub open spec fn render_element(
    sqls: Seq<(Seq<char>, YoSqlView)>,
    e: SqlElementView,
    indent: Seq<char>,
    valname: Seq<char>,
    inc: nat,
) -> Result<Rendered, Seq<char>>
    decreases e, 0nat,
{
    match e {
        SqlElementView::YoText(t) => Ok(
            Rendered { text: literal_line(indent, valname, t), next: inc },
        ),
        SqlElementView::YoInclude(i) => match lookup(sqls, i.refid) {
            Some(sql) => Ok(Rendered { text: literal_line(indent, valname, sql.text), next: inc }),
            None => Err(missing_include_message(i.refid)),
        },
        SqlElementView::YoIf(f) => if inc >= u64::MAX {
            Err(too_many_buffers_message())
        } else {
            match render_prefix(
                sqls,
                f.content,
                f.content.len(),
                deeper(indent),
                temp_name(inc),
                inc + 1,
            ) {
                Err(message) => Err(message),
                Ok(inner) => Ok(
                    Rendered {
                        text: if_open_line(indent, f.test) + temp_new_line(
                            deeper(indent),
                            temp_name(inc),
                        ) + inner.text + temp_append_line(deeper(indent), valname, temp_name(inc))
                            + temp_free_line(deeper(indent), temp_name(inc)) + block_close_line(
                            indent,
                        ),
                        next: inner.next,
                    },
                ),
            }
        },
        SqlElementView::YoTrim(t) => if inc >= u64::MAX {
            Err(too_many_buffers_message())
        } else {
            match render_prefix(sqls, t.content, t.content.len(), indent, temp_name(inc), inc + 1) {
                Err(message) => Err(message),
                Ok(inner) => Ok(
                    Rendered {
                        text: temp_new_line(indent, temp_name(inc)) + inner.text + trim_line(
                            indent,
                            valname,
                            temp_name(inc),
                            t,
                        ) + temp_free_line(indent, temp_name(inc)),
                        next: inner.next,
                    },
                ),
            }
        },
    }
}

/// What the renderer gives for the first `n` elements of a body, in their
/// order.
pub open spec fn render_prefix(
    sqls: Seq<(Seq<char>, YoSqlView)>,
    elems: Seq<SqlElementView>,
    n: nat,
    indent: Seq<char>,
    valname: Seq<char>,
    inc: nat,
) -> Result<Rendered, Seq<char>>
    decreases elems, n,
{
    if n == 0 || n > elems.len() {
        Ok(Rendered { text: Seq::empty(), next: inc })
    } else {
        match render_prefix(sqls, elems, (n - 1) as nat, indent, valname, inc) {
            Err(message) => Err(message),
            Ok(before) => match render_element(sqls, elems[n - 1], indent, valname, before.next) {
                Err(message) => Err(message),
                Ok(last) => Ok(Rendered { text: before.text + last.text, next: last.next }),
            },
        }
    }
}

/// What the renderer gives for a body: the statements that build its text in
/// the buffer `valname`, element by element.
pub open spec fn render_body(
    sqls: Seq<(Seq<char>, YoSqlView)>,
    elems: Seq<SqlElementView>,
    indent: Seq<char>,
    valname: Seq<char>,
    inc: nat,
) -> Result<Rendered, Seq<char>> {
    render_prefix(sqls, elems, elems.len(), indent, valname, inc)
}

/// An error among the first `n` elements is the error of the whole body.
proof fn lemma_render_prefix_error(
    sqls: Seq<(Seq<char>, YoSqlView)>,
    elems: Seq<SqlElementView>,
    n: nat,
    m: nat,
    indent: Seq<char>,
    valname: Seq<char>,
    inc: nat,
)
    requires
        n <= m <= elems.len(),
        render_prefix(sqls, elems, n, indent, valname, inc) is Err,
    ensures
        render_prefix(sqls, elems, m, indent, valname, inc) == render_prefix(
            sqls,
            elems,
            n,
            indent,
            valname,
            inc,
        ),
    decreases m - n,
{
    if n < m {
        lemma_render_prefix_error(sqls, elems, n, (m - 1) as nat, indent, valname, inc);
    }
}

/// The number of temporary buffers that an element needs: one for itself where
/// it is an `<if>` or a `<trim>`, and those of its content.
pub open spec fn element_buffers(e: SqlElementView) -> nat
    decreases e, 0nat,
{
    match e {
        SqlElementView::YoText(_) => 0,
        SqlElementView::YoInclude(_) => 0,
        SqlElementView::YoIf(f) => 1 + prefix_buffers(f.content, f.content.len()),
        SqlElementView::YoTrim(t) => 1 + prefix_buffers(t.content, t.content.len()),
    }
}

/// The number of temporary buffers that the first `n` elements need.
pub open spec fn prefix_buffers(elems: Seq<SqlElementView>, n: nat) -> nat
    decreases elems, n,
{
    if n == 0 || n > elems.len() {
        0
    } else {
        prefix_buffers(elems, (n - 1) as nat) + element_buffers(elems[n - 1])
    }
}

/// An element that is rendered moves the counter on by the number of buffers
/// it needs.
proof fn lemma_element_numbers_its_buffers(
    sqls: Seq<(Seq<char>, YoSqlView)>,
    e: SqlElementView,
    indent: Seq<char>,
    valname: Seq<char>,
    inc: nat,
)
    requires
        render_element(sqls, e, indent, valname, inc) is Ok,
    ensures
        render_element(sqls, e, indent, valname, inc)->Ok_0.next == inc + element_buffers(e),
    decreases e, 0nat,
{
    match e {
        SqlElementView::YoIf(f) => {
            lemma_prefix_numbers_its_buffers(
                sqls,
                f.content,
                f.content.len(),
                deeper(indent),
                temp_name(inc),
                inc + 1,
            );
        },
        SqlElementView::YoTrim(t) => {
            lemma_prefix_numbers_its_buffers(
                sqls,
                t.content,
                t.content.len(),
                indent,
                temp_name(inc),
                inc + 1,
            );
        },
        _ => {},
    }
}

/// Every temporary buffer gets a number of its own: a body that is rendered
/// takes the numbers from the counter on, one for each buffer it needs, and
/// leaves the counter behind the last of them.
pub proof fn lemma_prefix_numbers_its_buffers(
    sqls: Seq<(Seq<char>, YoSqlView)>,
    elems: Seq<SqlElementView>,
    n: nat,
    indent: Seq<char>,
    valname: Seq<char>,
    inc: nat,
)
    requires
        render_prefix(sqls, elems, n, indent, valname, inc) is Ok,
    ensures
        render_prefix(sqls, elems, n, indent, valname, inc)->Ok_0.next == inc + prefix_buffers(
            elems,
            n,
        ),
    decreases elems, n,
{
    if n > 0 && n <= elems.len() {
        lemma_prefix_numbers_its_buffers(sqls, elems, (n - 1) as nat, indent, valname, inc);
        let before = render_prefix(sqls, elems, (n - 1) as nat, indent, valname, inc)->Ok_0;
        lemma_element_numbers_its_buffers(sqls, elems[n - 1], indent, valname, before.next);
    }
}

/// Whether the element is, or holds at any depth, an `<include>` that names no
/// fragment of the table.
pub open spec fn element_has_missing_include(
    sqls: Seq<(Seq<char>, YoSqlView)>,
    e: SqlElementView,
) -> bool
    decreases e, 0nat,
{
    match e {
        SqlElementView::YoText(_) => false,
        SqlElementView::YoInclude(i) => lookup(sqls, i.refid) is None,
        SqlElementView::YoIf(f) => prefix_has_missing_include(sqls, f.content, f.content.len()),
        SqlElementView::YoTrim(t) => prefix_has_missing_include(sqls, t.content, t.content.len()),
    }
}

/// Whether one of the first `n` elements is, or holds at any depth, an
/// `<include>` that names no fragment of the table.
pub open spec fn prefix_has_missing_include(
    sqls: Seq<(Seq<char>, YoSqlView)>,
    elems: Seq<SqlElementView>,
    n: nat,
) -> bool
    decreases elems, n,
{
    if n == 0 || n > elems.len() {
        false
    } else {
        prefix_has_missing_include(sqls, elems, (n - 1) as nat) || element_has_missing_include(
            sqls,
            elems[n - 1],
        )
    }
}

/// Whether the body holds, at any depth, an `<include>` that names no fragment
/// of the table.
pub open spec fn has_missing_include(
    sqls: Seq<(Seq<char>, YoSqlView)>,
    elems: Seq<SqlElementView>,
) -> bool {
    prefix_has_missing_include(sqls, elems, elems.len())
}

/// An element that holds an `<include>` without a fragment is not rendered.
proof fn lemma_missing_include_in_element(
    sqls: Seq<(Seq<char>, YoSqlView)>,
    e: SqlElementView,
    indent: Seq<char>,
    valname: Seq<char>,
    inc: nat,
)
    requires
        element_has_missing_include(sqls, e),
    ensures
        render_element(sqls, e, indent, valname, inc) is Err,
    decreases e, 0nat,
{
    match e {
        SqlElementView::YoIf(f) => {
            if inc < u64::MAX {
                lemma_missing_include_in_prefix(
                    sqls,
                    f.content,
                    f.content.len(),
                    deeper(indent),
                    temp_name(inc),
                    inc + 1,
                );
            }
        },
        SqlElementView::YoTrim(t) => {
            if inc < u64::MAX {
                lemma_missing_include_in_prefix(
                    sqls,
                    t.content,
                    t.content.len(),
                    indent,
                    temp_name(inc),
                    inc + 1,
                );
            }
        },
        _ => {},
    }
}

/// A run of elements that holds an `<include>` without a fragment is not
/// rendered.
proof fn lemma_missing_include_in_prefix(
    sqls: Seq<(Seq<char>, YoSqlView)>,
    elems: Seq<SqlElementView>,
    n: nat,
    indent: Seq<char>,
    valname: Seq<char>,
    inc: nat,
)
    requires
        prefix_has_missing_include(sqls, elems, n),
    ensures
        render_prefix(sqls, elems, n, indent, valname, inc) is Err,
    decreases elems, n,
{
    if n > 0 && n <= elems.len() {
        if prefix_has_missing_include(sqls, elems, (n - 1) as nat) {
            lemma_missing_include_in_prefix(sqls, elems, (n - 1) as nat, indent, valname, inc);
        } else {
            match render_prefix(sqls, elems, (n - 1) as nat, indent, valname, inc) {
                Ok(before) => {
                    lemma_missing_include_in_element(
                        sqls,
                        elems[n - 1],
                        indent,
                        valname,
                        before.next,
                    );
                },
                Err(_) => {},
            }
        }
    }
}

/// A body that holds, at any depth, an `<include>` that names no fragment is
/// not rendered: whatever the indentation, the buffer and the counter, the
/// renderer gives an error.
pub proof fn lemma_missing_include_is_fatal(
    sqls: Seq<(Seq<char>, YoSqlView)>,
    elems: Seq<SqlElementView>,
    indent: Seq<char>,
    valname: Seq<char>,
    inc: nat,
)
    requires
        has_missing_include(sqls, elems),
    ensures
        render_body(sqls, elems, indent, valname, inc) is Err,
{
    lemma_missing_include_in_prefix(sqls, elems, elems.len(), indent, valname, inc);
}

fn temp_buffer_name(inc: u64) -> (r: String)
    ensures
        r@ == temp_name(inc as nat),
{
    let number = decimal(inc);
    let mut r = String::from_str("tmp_");
    r.append(number.as_str());
    r
}

fn literal_statement(indent: &str, valname: &str, literal: &str) -> (r: String)
    ensures
        r@ == literal_line(indent@, valname@, literal@),
{
    let escaped = escape_line_breaks(literal);
    let mut r = String::from_str(indent);
    r.append("yb_string_append_c_str(");
    r.append(valname);
    r.append(", \"");
    r.append(escaped.as_str());
    r.append("\");\n");
    r
}

fn temp_new_statement(indent: &str, temp: &str) -> (r: String)
    ensures
        r@ == temp_new_line(indent@, temp@),
{
    let mut r = String::from_str(indent);
    r.append("yb_string_t ");
    r.append(temp);
    r.append(" = yb_string_new();\n");
    r
}

fn temp_free_statement(indent: &str, temp: &str) -> (r: String)
    ensures
        r@ == temp_free_line(indent@, temp@),
{
    let mut r = String::from_str(indent);
    r.append("yb_string_free(");
    r.append(temp);
    r.append(");\n");
    r
}

/// Appends the statements for an `<if>`. On an error nothing is appended and
/// the counter of temporary buffers stays as it was.
pub fn write_append_if_stmt(
    mapper_c: &mut String,
    indent: &str,
    table: &Mapper,
    elem: &YoIf,
    valname: &str,
    inc: &mut u64,
) -> (r: Result<(), GenCError>)
    ensures
        match render_element(
            table@.sqls,
            SqlElementView::YoIf(elem@),
            indent@,
            valname@,
            *old(inc) as nat,
        ) {
            Ok(rendered) => r is Ok && final(mapper_c)@ == old(mapper_c)@ + rendered.text
                && *final(inc) == rendered.next,
            Err(message) => r is Err && r.unwrap_err()@ == message && final(mapper_c)@ == old(
                mapper_c,
            )@ && *final(inc) == *old(inc),
        },
    decreases elem,
{
    if *inc >= u64::MAX {
        return Err(GenCError::new(String::from_str("too many temporary buffers")));
    }
    let tmp_val = temp_buffer_name(*inc);
    let mut next: u64 = *inc + 1;
    let mut inner_indent = String::from_str(indent);
    inner_indent.append(spaces(4).as_str());

    let mut line = String::from_str(indent);
    line.append("if (n->");
    line.append(elem.test.as_str());
    line.append(") {\n");
    let mut t = String::from_str(line.as_str());
    let line = temp_new_statement(inner_indent.as_str(), tmp_val.as_str());
    t.append(line.as_str());

    match write_sql_gen_stmt(
        &mut t,
        inner_indent.as_str(),
        table,
        &elem.content,
        tmp_val.as_str(),
        &mut next,
    ) {
        Err(e) => {
            return Err(e);
        },
        Ok(()) => {},
    }

    let mut line = String::from_str(inner_indent.as_str());
    line.append("yb_string_append(");
    line.append(valname);
    line.append(", ");
    line.append(tmp_val.as_str());
    line.append(");\n");
    t.append(line.as_str());

    let line = temp_free_statement(inner_indent.as_str(), tmp_val.as_str());
    t.append(line.as_str());

    let mut line = String::from_str(indent);
    line.append("}\n");
    t.append(line.as_str());

    mapper_c.append(t.as_str());
    *inc = next;
    Ok(())
}

/// Appends the statements for a `<trim>`. On an error nothing is appended and
/// the counter of temporary buffers stays as it was.
pub fn write_trim_stmt(
    mapper_c: &mut String,
    indent: &str,
    table: &Mapper,
    elem: &YoTrim,
    valname: &str,
    inc: &mut u64,
) -> (r: Result<(), GenCError>)
    ensures
        match render_element(
            table@.sqls,
            SqlElementView::YoTrim(elem@),
            indent@,
            valname@,
            *old(inc) as nat,
        ) {
            Ok(rendered) => r is Ok && final(mapper_c)@ == old(mapper_c)@ + rendered.text
                && *final(inc) == rendered.next,
            Err(message) => r is Err && r.unwrap_err()@ == message && final(mapper_c)@ == old(
                mapper_c,
            )@ && *final(inc) == *old(inc),
        },
    decreases elem,
{
    if *inc >= u64::MAX {
        return Err(GenCError::new(String::from_str("too many temporary buffers")));
    }
    let tmp_val = temp_buffer_name(*inc);
    let mut next: u64 = *inc + 1;

    let line = temp_new_statement(indent, tmp_val.as_str());
    let mut t = String::from_str(line.as_str());

    match write_sql_gen_stmt(&mut t, indent, table, &elem.content, tmp_val.as_str(), &mut next) {
        Err(e) => {
            return Err(e);
        },
        Ok(()) => {},
    }

    let mut line = String::from_str(indent);
    line.append("yb_string_trim(");
    line.append(tmp_val.as_str());
    line.append(", \"");
    line.append(elem.prefix.as_str());
    line.append("\", \"");
    line.append(elem.suffix.as_str());
    line.append("\", \"");
    line.append(elem.prefix_overrides.as_str());
    line.append("\", \"");
    line.append(elem.suffix_overrides.as_str());
    line.append("\", ");
    line.append(valname);
    line.append(");\n");
    t.append(line.as_str());

    let line = temp_free_statement(indent, tmp_val.as_str());
    t.append(line.as_str());

    mapper_c.append(t.as_str());
    *inc = next;
    Ok(())
}

/// Appends the statements that build the text of a body in the buffer
/// `valname`. On an error nothing is appended and the counter of temporary
/// buffers stays as it was.
pub fn write_sql_gen_stmt(
    mapper_c: &mut String,
    indent: &str,
    table: &Mapper,
    elems: &Vec<Box<SqlElement>>,
    valname: &str,
    inc: &mut u64,
) -> (r: Result<(), GenCError>)
    ensures
        match render_body(
            table@.sqls,
            content_view(elems@),
            indent@,
            valname@,
            *old(inc) as nat,
        ) {
            Ok(rendered) => r is Ok && final(mapper_c)@ == old(mapper_c)@ + rendered.text
                && *final(inc) == rendered.next,
            Err(message) => r is Err && r.unwrap_err()@ == message && final(mapper_c)@ == old(
                mapper_c,
            )@ && *final(inc) == *old(inc),
        },
    decreases elems,
{
    let ghost sqls = table@.sqls;
    let ghost views = content_view(elems@);
    let ghost start = *inc as nat;
    proof {
        lemma_content_view(elems@);
    }
    let mut buf = String::new();
    let mut cur: u64 = *inc;
    let mut i: usize = 0;
    while i < elems.len()
        invariant
            i <= elems@.len(),
            sqls == table@.sqls,
            views == content_view(elems@),
            views.len() == elems@.len(),
            forall|j: int| 0 <= j < elems@.len() ==> views[j] == (#[trigger] elems@[j])@,
            start == *old(inc) as nat,
            *inc == *old(inc),
            mapper_c@ == old(mapper_c)@,
            render_prefix(sqls, views, i as nat, indent@, valname@, start) == Ok::<
                Rendered,
                Seq<char>,
            >(Rendered { text: buf@, next: cur as nat }),
        decreases elems@.len() - i,
    {
        let ghost before = buf@;
        let ghost number = cur as nat;
        let outcome = match &*elems[i] {
            SqlElement::YoIf(if_elem) => write_append_if_stmt(
                &mut buf,
                indent,
                table,
                if_elem,
                valname,
                &mut cur,
            ),
            SqlElement::YoInclude(inc_elem) => match table.sqls.get(inc_elem.refid.as_str()) {
                Some(sql) => {
                    let line = literal_statement(indent, valname, sql.text.as_str());
                    buf.append(line.as_str());
                    Ok(())
                },
                None => Err(error_about("include sql not found: ", inc_elem.refid.as_str())),
            },
            SqlElement::YoText(tex) => {
                let line = literal_statement(indent, valname, tex.as_str());
                buf.append(line.as_str());
                Ok(())
            },
            SqlElement::YoTrim(trim_elem) => write_trim_stmt(
                &mut buf,
                indent,
                table,
                trim_elem,
                valname,
                &mut cur,
            ),
        };
        proof {
            assert(views[i as int] == elems@[i as int]@);
            assert(match render_element(sqls, views[i as int], indent@, valname@, number) {
                Ok(rendered) => outcome is Ok && buf@ == before + rendered.text && cur
                    == rendered.next,
                Err(message) => outcome is Err && outcome.unwrap_err()@ == message,
            });
        }
        match outcome {
            Err(e) => {
                proof {
                    lemma_render_prefix_error(
                        sqls,
                        views,
                        (i + 1) as nat,
                        elems@.len() as nat,
                        indent@,
                        valname@,
                        start,
                    );
                }
                return Err(e);
            },
            Ok(()) => {},
        }
        i += 1;
    }
    mapper_c.append(buf.as_str());
    *inc = cur;
    Ok(())
}

} // verus!
