//! The meaning of dynamic SQL: the text that a statement's body stands for
//! when the statement runs, given the tests that hold at that time. The
//! generated code builds this text in its `cmd` buffer.

use crate::genc::{error_about, GenCError};
use crate::mapper::{
    content_view, lemma_content_view, Mapper, MapperView, SqlElement, SqlElementView, YoIfView,
    YoSqlView,
};
use crate::emit::missing_parameter_type_message;
use crate::placeholder::{prepare_model, prepare_sql, Prepared, PreparedView};
use crate::render::{
    deeper, missing_include_message, render_body, render_element, render_prefix, temp_name,
};
use crate::table::lookup;
use crate::text::{
    chars_of, ends_with, find_char_from, lemma_position_from, position_from, same_chars_at,
    same_text, starts_with,
};
use vstd::prelude::*;
use vstd::string::StringExecFns;

verus! {

/// Whether the character is a blank: a space, a tab, a line feed or a carriage
/// return.
pub open spec fn is_blank(c: char) -> bool {
    c == ' ' || c == '\t' || c == '\n' || c == '\r'
}

/// The position of the first character at or after `from` that is no blank, or
/// the length of the text where only blanks follow.
pub open spec fn blanks_end(s: Seq<char>, from: int) -> int
    decreases s.len() - from,
{
    if from < 0 || from >= s.len() {
        s.len() as int
    } else if is_blank(s[from]) {
        blanks_end(s, from + 1)
    } else {
        from
    }
}

/// The position at which the run of blanks that ends before `to` starts; it
/// does not reach below `lo`.
pub open spec fn blanks_start(s: Seq<char>, lo: int, to: int) -> int
    decreases to - lo,
{
    if to <= lo || to > s.len() || lo < 0 {
        to
    } else if is_blank(s[to - 1]) {
        blanks_start(s, lo, to - 1)
    } else {
        to
    }
}

/// The text without the blanks at its start and at its end.
pub open spec fn strip_blanks(s: Seq<char>) -> Seq<char> {
    s.subrange(blanks_end(s, 0), blanks_start(s, blanks_end(s, 0), s.len() as int))
}

/// What `blanks_end` gives lies at or behind `from`, within the text, and the
/// character there is no blank.
proof fn lemma_blanks_end(s: Seq<char>, from: int)
    requires
        0 <= from <= s.len(),
    ensures
        from <= blanks_end(s, from) <= s.len(),
        blanks_end(s, from) < s.len() ==> !is_blank(s[blanks_end(s, from)]),
    decreases s.len() - from,
{
    if from < s.len() && is_blank(s[from]) {
        lemma_blanks_end(s, from + 1);
    }
}

/// What `blanks_start` gives lies between `lo` and `to`, and the character
/// before it, if it lies above `lo`, is no blank.
proof fn lemma_blanks_start(s: Seq<char>, lo: int, to: int)
    requires
        0 <= lo <= to <= s.len(),
    ensures
        lo <= blanks_start(s, lo, to) <= to,
        blanks_start(s, lo, to) > lo ==> !is_blank(s[blanks_start(s, lo, to) - 1]),
    decreases to - lo,
{
    if lo < to && is_blank(s[to - 1]) {
        lemma_blanks_start(s, lo, to - 1);
    }
}

/// A text without the blanks at its ends is empty, or starts and ends with a
/// character that is no blank.
pub proof fn lemma_strip_blanks(s: Seq<char>)
    ensures
        strip_blanks(s).len() > 0 ==> !is_blank(strip_blanks(s).first()) && !is_blank(
            strip_blanks(s).last(),
        ),
{
    lemma_blanks_end(s, 0);
    lemma_blanks_start(s, blanks_end(s, 0), s.len() as int);
}

/// The text without one leading override. The overrides are listed in one
/// text, with `|` between them. The first of them, from position `from` on,
/// that is not empty and with which the text starts is taken off; where there
/// is none, the text stays.
pub open spec fn strip_leading(s: Seq<char>, overrides: Seq<char>, from: int) -> Seq<char>
    decreases overrides.len() + 1 - from,
{
    if from < 0 || from >= overrides.len() {
        s
    } else {
        proof {
            lemma_position_from(overrides, '|', from);
        }
        let bar = position_from(overrides, '|', from);
        let token = overrides.subrange(from, bar);
        if token.len() > 0 && starts_with(s, token) {
            s.skip(token.len() as int)
        } else {
            strip_leading(s, overrides, bar + 1)
        }
    }
}

/// The text without one trailing override: the first override, from position
/// `from` on, that is not empty and with which the text ends is taken off.
pub open spec fn strip_trailing(s: Seq<char>, overrides: Seq<char>, from: int) -> Seq<char>
    decreases overrides.len() + 1 - from,
{
    if from < 0 || from >= overrides.len() {
        s
    } else {
        proof {
            lemma_position_from(overrides, '|', from);
        }
        let bar = position_from(overrides, '|', from);
        let token = overrides.subrange(from, bar);
        if token.len() > 0 && ends_with(s, token) {
            s.take(s.len() - token.len())
        } else {
            strip_trailing(s, overrides, bar + 1)
        }
    }
}

/// What a `<trim>` makes of the text of its content: the blanks at both ends go,
/// then one leading and one trailing override, and the outcome stands between
/// the prefix and the suffix.
pub open spec fn trimmed(
    content: Seq<char>,
    prefix: Seq<char>,
    suffix: Seq<char>,
    prefix_overrides: Seq<char>,
    suffix_overrides: Seq<char>,
) -> Seq<char> {
    prefix + strip_trailing(
        strip_leading(strip_blanks(content), prefix_overrides, 0),
        suffix_overrides,
        0,
    ) + suffix
}

/// The text that one element stands for, given the tests that hold.
///
/// Literal text stands for itself, an `<include>` for the text of its fragment.
/// An `<if>` stands for its content where its test holds and for nothing where
/// it does not. A `<trim>` stands for its content, stripped and wrapped.
pub open spec fn element_sql(
    sqls: Seq<(Seq<char>, YoSqlView)>,
    e: SqlElementView,
    holds: Seq<Seq<char>>,
) -> Result<Seq<char>, Seq<char>>
    decreases e, 0nat,
{
    match e {
        SqlElementView::YoText(t) => Ok(t),
        SqlElementView::YoInclude(i) => match lookup(sqls, i.refid) {
            Some(sql) => Ok(sql.text),
            None => Err(missing_include_message(i.refid)),
        },
        SqlElementView::YoIf(f) => if holds.contains(f.test) {
            prefix_sql(sqls, f.content, f.content.len(), holds)
        } else {
            Ok(Seq::empty())
        },
        SqlElementView::YoTrim(t) => match prefix_sql(sqls, t.content, t.content.len(), holds) {
            Err(message) => Err(message),
            Ok(content) => Ok(
                trimmed(content, t.prefix, t.suffix, t.prefix_overrides, t.suffix_overrides),
            ),
        },
    }
}

/// The text that the first `n` elements of a body stand for: the texts of the
/// elements, one after the other.
pub open spec fn prefix_sql(
    sqls: Seq<(Seq<char>, YoSqlView)>,
    elems: Seq<SqlElementView>,
    n: nat,
    holds: Seq<Seq<char>>,
) -> Result<Seq<char>, Seq<char>>
    decreases elems, n,
{
    if n == 0 || n > elems.len() {
        Ok(Seq::empty())
    } else {
        match prefix_sql(sqls, elems, (n - 1) as nat, holds) {
            Err(message) => Err(message),
            Ok(before) => match element_sql(sqls, elems[n - 1], holds) {
                Err(message) => Err(message),
                Ok(last) => Ok(before + last),
            },
        }
    }
}

/// The text that a body stands for, given the tests that hold.
pub open spec fn body_sql(
    sqls: Seq<(Seq<char>, YoSqlView)>,
    elems: Seq<SqlElementView>,
    holds: Seq<Seq<char>>,
) -> Result<Seq<char>, Seq<char>> {
    prefix_sql(sqls, elems, elems.len(), holds)
}

/// An error among the first `n` elements is the error of the whole body.
proof fn lemma_prefix_sql_error(
    sqls: Seq<(Seq<char>, YoSqlView)>,
    elems: Seq<SqlElementView>,
    n: nat,
    m: nat,
    holds: Seq<Seq<char>>,
)
    requires
        n <= m <= elems.len(),
        prefix_sql(sqls, elems, n, holds) is Err,
    ensures
        prefix_sql(sqls, elems, m, holds) == prefix_sql(sqls, elems, n, holds),
    decreases m - n,
{
    if n < m {
        lemma_prefix_sql_error(sqls, elems, n, (m - 1) as nat, holds);
    }
}

/// An element that the renderer takes has a text at run time, whatever tests
/// hold.
proof fn lemma_rendered_element_has_text(
    sqls: Seq<(Seq<char>, YoSqlView)>,
    e: SqlElementView,
    indent: Seq<char>,
    valname: Seq<char>,
    inc: nat,
    holds: Seq<Seq<char>>,
)
    requires
        render_element(sqls, e, indent, valname, inc) is Ok,
    ensures
        element_sql(sqls, e, holds) is Ok,
    decreases e, 0nat,
{
    match e {
        SqlElementView::YoIf(f) => {
            lemma_rendered_prefix_has_text(
                sqls,
                f.content,
                f.content.len(),
                deeper(indent),
                temp_name(inc),
                inc + 1,
                holds,
            );
        },
        SqlElementView::YoTrim(t) => {
            lemma_rendered_prefix_has_text(
                sqls,
                t.content,
                t.content.len(),
                indent,
                temp_name(inc),
                inc + 1,
                holds,
            );
        },
        _ => {},
    }
}

/// A run of elements that the renderer takes has a text at run time, whatever
/// tests hold.
proof fn lemma_rendered_prefix_has_text(
    sqls: Seq<(Seq<char>, YoSqlView)>,
    elems: Seq<SqlElementView>,
    n: nat,
    indent: Seq<char>,
    valname: Seq<char>,
    inc: nat,
    holds: Seq<Seq<char>>,
)
    requires
        render_prefix(sqls, elems, n, indent, valname, inc) is Ok,
    ensures
        prefix_sql(sqls, elems, n, holds) is Ok,
    decreases elems, n,
{
    if n > 0 && n <= elems.len() {
        lemma_rendered_prefix_has_text(sqls, elems, (n - 1) as nat, indent, valname, inc, holds);
        let before = render_prefix(sqls, elems, (n - 1) as nat, indent, valname, inc)->Ok_0;
        lemma_rendered_element_has_text(sqls, elems[n - 1], indent, valname, before.next, holds);
    }
}

/// What compiles, runs: a body for which code is generated stands for a text
/// at run time, whatever tests hold then. No `<include>` is left without its
/// fragment.
pub proof fn lemma_rendered_body_has_text(
    sqls: Seq<(Seq<char>, YoSqlView)>,
    elems: Seq<SqlElementView>,
    indent: Seq<char>,
    valname: Seq<char>,
    inc: nat,
    holds: Seq<Seq<char>>,
)
    requires
        render_body(sqls, elems, indent, valname, inc) is Ok,
    ensures
        body_sql(sqls, elems, holds) is Ok,
{
    lemma_rendered_prefix_has_text(sqls, elems, elems.len(), indent, valname, inc, holds);
}

/// Conditional gating, for one element: an `<if>` stands for the text of its
/// content where its test holds, and for the empty text where it does not.
pub proof fn lemma_if_counts_only_where_its_test_holds(
    sqls: Seq<(Seq<char>, YoSqlView)>,
    test: Seq<char>,
    content: Seq<SqlElementView>,
    holds: Seq<Seq<char>>,
)
    ensures
        holds.contains(test) ==> element_sql(
            sqls,
            SqlElementView::YoIf(YoIfView { test, content }),
            holds,
        ) == body_sql(sqls, content, holds),
        !holds.contains(test) ==> element_sql(
            sqls,
            SqlElementView::YoIf(YoIfView { test, content }),
            holds,
        ) == Ok::<Seq<char>, Seq<char>>(Seq::empty()),
{
}

/// The text of the first `n` elements does not depend on the elements behind
/// them.
proof fn lemma_prefix_sql_of_prefix(
    sqls: Seq<(Seq<char>, YoSqlView)>,
    a: Seq<SqlElementView>,
    b: Seq<SqlElementView>,
    n: nat,
    holds: Seq<Seq<char>>,
)
    requires
        n <= a.len(),
        n <= b.len(),
        forall|i: int| 0 <= i < n ==> a[i] == b[i],
    ensures
        prefix_sql(sqls, a, n, holds) == prefix_sql(sqls, b, n, holds),
    decreases n,
{
    if n > 0 {
        lemma_prefix_sql_of_prefix(sqls, a, b, (n - 1) as nat, holds);
    }
}

/// Without the element at position `k`, which stands for the empty text, the
/// first `n` elements stand for the same text as the first `n + 1` with it.
proof fn lemma_prefix_sql_without(
    sqls: Seq<(Seq<char>, YoSqlView)>,
    elems: Seq<SqlElementView>,
    k: int,
    n: nat,
    holds: Seq<Seq<char>>,
)
    requires
        0 <= k < elems.len(),
        k <= n < elems.len(),
        element_sql(sqls, elems[k], holds) == Ok::<Seq<char>, Seq<char>>(Seq::empty()),
    ensures
        prefix_sql(sqls, elems.remove(k), n, holds) == prefix_sql(
            sqls,
            elems,
            (n + 1) as nat,
            holds,
        ),
    decreases n,
{
    let rest = elems.remove(k);
    if n == k {
        lemma_prefix_sql_of_prefix(sqls, rest, elems, k as nat, holds);
        match prefix_sql(sqls, elems, k as nat, holds) {
            Ok(before) => {
                assert(before + Seq::<char>::empty() =~= before);
            },
            Err(_) => {},
        }
    } else {
        lemma_prefix_sql_without(sqls, elems, k, (n - 1) as nat, holds);
        assert(rest[n - 1] == elems[n as int]);
    }
}

/// Conditional gating, within a body: an `<if>` whose test does not hold adds
/// nothing, not even a blank. The body stands for the same text as the body
/// without that element.
pub proof fn lemma_if_that_fails_adds_nothing(
    sqls: Seq<(Seq<char>, YoSqlView)>,
    elems: Seq<SqlElementView>,
    k: int,
    holds: Seq<Seq<char>>,
)
    requires
        0 <= k < elems.len(),
        elems[k] is YoIf,
        !holds.contains(elems[k]->YoIf_0.test),
    ensures
        body_sql(sqls, elems, holds) == body_sql(sqls, elems.remove(k), holds),
{
    lemma_prefix_sql_without(sqls, elems, k, (elems.len() - 1) as nat, holds);
}

/// Trim, at the end: where the content, without the blanks at its ends, is
/// `body` followed by the one trailing override, and no leading override is
/// set, the `<trim>` stands for the prefix, `body` and the suffix. Exactly one
/// occurrence of the override goes: one that ends `body` stays.
pub proof fn lemma_trim_strips_one_trailing_override(
    content: Seq<char>,
    body: Seq<char>,
    token: Seq<char>,
    prefix: Seq<char>,
    suffix: Seq<char>,
)
    requires
        strip_blanks(content) == body + token,
        token.len() > 0,
        forall|i: int| 0 <= i < token.len() ==> token[i] != '|',
    ensures
        trimmed(content, prefix, suffix, Seq::empty(), token) == prefix + body + suffix,
{
    let s = body + token;
    lemma_position_from(token, '|', 0);
    assert(position_from(token, '|', 0) == token.len());
    assert(token.subrange(0, token.len() as int) =~= token);
    assert(s.subrange(s.len() - token.len(), s.len() as int) =~= token);
    assert(s.take(s.len() - token.len()) =~= body);
    assert(strip_leading(s, Seq::empty(), 0) == s);
    assert(strip_trailing(s, token, 0) == body);
}

/// Trim, at the start: where the content, without the blanks at its ends, is
/// the one leading override followed by `body`, and no trailing override is
/// set, the `<trim>` stands for the prefix, `body` and the suffix.
pub proof fn lemma_trim_strips_one_leading_override(
    content: Seq<char>,
    body: Seq<char>,
    token: Seq<char>,
    prefix: Seq<char>,
    suffix: Seq<char>,
)
    requires
        strip_blanks(content) == token + body,
        token.len() > 0,
        forall|i: int| 0 <= i < token.len() ==> token[i] != '|',
    ensures
        trimmed(content, prefix, suffix, token, Seq::empty()) == prefix + body + suffix,
{
    let s = token + body;
    lemma_position_from(token, '|', 0);
    assert(position_from(token, '|', 0) == token.len());
    assert(token.subrange(0, token.len() as int) =~= token);
    assert(s.subrange(0, token.len() as int) =~= token);
    assert(s.skip(token.len() as int) =~= body);
    assert(strip_leading(s, token, 0) == body);
    assert(strip_trailing(body, Seq::empty(), 0) == body);
}

fn is_blank_char(c: char) -> (r: bool)
    ensures
        r == is_blank(c),
{
    c == ' ' || c == '\t' || c == '\n' || c == '\r'
}

fn leading_override(chars: &Vec<char>, lo: usize, hi: usize, overrides: &Vec<char>) -> (r: usize)
    requires
        lo <= hi <= chars@.len(),
    ensures
        lo <= r <= hi,
        chars@.subrange(r as int, hi as int) == strip_leading(
            chars@.subrange(lo as int, hi as int),
            overrides@,
            0,
        ),
{
    let ghost window = chars@.subrange(lo as int, hi as int);
    let mut from: usize = 0;
    while from < overrides.len()
        invariant
            lo <= hi <= chars@.len(),
            window == chars@.subrange(lo as int, hi as int),
            from <= overrides@.len(),
            strip_leading(window, overrides@, 0) == strip_leading(window, overrides@, from as int),
        decreases overrides@.len() - from,
    {
        let bar = find_char_from(overrides, '|', from);
        let n = bar - from;
        if n > 0 && n <= hi - lo && same_chars_at(chars, lo, overrides, from, bar) {
            proof {
                assert(window.subrange(0, n as int) =~= chars@.subrange(lo as int, lo + n));
                assert(window.skip(n as int) =~= chars@.subrange(lo + n, hi as int));
            }
            return lo + n;
        }
        proof {
            if n > 0 && n <= hi - lo {
                assert(window.subrange(0, n as int) =~= chars@.subrange(lo as int, lo + n));
            }
        }
        if bar >= overrides.len() {
            proof {
                assert(strip_leading(window, overrides@, bar + 1) == window);
            }
            return lo;
        }
        from = bar + 1;
    }
    lo
}

fn trailing_override(chars: &Vec<char>, lo: usize, hi: usize, overrides: &Vec<char>) -> (r: usize)
    requires
        lo <= hi <= chars@.len(),
    ensures
        lo <= r <= hi,
        chars@.subrange(lo as int, r as int) == strip_trailing(
            chars@.subrange(lo as int, hi as int),
            overrides@,
            0,
        ),
{
    let ghost window = chars@.subrange(lo as int, hi as int);
    let mut from: usize = 0;
    while from < overrides.len()
        invariant
            lo <= hi <= chars@.len(),
            window == chars@.subrange(lo as int, hi as int),
            from <= overrides@.len(),
            strip_trailing(window, overrides@, 0) == strip_trailing(
                window,
                overrides@,
                from as int,
            ),
        decreases overrides@.len() - from,
    {
        let bar = find_char_from(overrides, '|', from);
        let n = bar - from;
        if n > 0 && n <= hi - lo && same_chars_at(chars, hi - n, overrides, from, bar) {
            proof {
                assert(window.subrange(window.len() - n, window.len() as int) =~= chars@.subrange(
                    hi - n,
                    hi as int,
                ));
                assert(window.take(window.len() - n) =~= chars@.subrange(lo as int, hi - n));
            }
            return hi - n;
        }
        proof {
            if n > 0 && n <= hi - lo {
                assert(window.subrange(window.len() - n, window.len() as int) =~= chars@.subrange(
                    hi - n,
                    hi as int,
                ));
            }
        }
        if bar >= overrides.len() {
            proof {
                assert(strip_trailing(window, overrides@, bar + 1) == window);
            }
            return hi;
        }
        from = bar + 1;
    }
    hi
}

/// Applies a `<trim>` to the text of its content: takes off the blanks at both
/// ends, then one leading and one trailing override, and puts the outcome
/// between the prefix and the suffix.
pub fn trim_text(
    content: &str,
    prefix: &str,
    suffix: &str,
    prefix_overrides: &str,
    suffix_overrides: &str,
) -> (r: String)
    ensures
        r@ == trimmed(content@, prefix@, suffix@, prefix_overrides@, suffix_overrides@),
{
    let chars = chars_of(content);
    let leading = chars_of(prefix_overrides);
    let trailing = chars_of(suffix_overrides);
    let n = chars.len();
    let mut lo: usize = 0;
    while lo < n && is_blank_char(chars[lo])
        invariant
            lo <= n,
            n == chars@.len(),
            blanks_end(chars@, 0) == blanks_end(chars@, lo as int),
        decreases n - lo,
    {
        lo += 1;
    }
    let mut hi: usize = n;
    while hi > lo && is_blank_char(chars[hi - 1])
        invariant
            lo <= hi <= n,
            n == chars@.len(),
            blanks_start(chars@, lo as int, n as int) == blanks_start(chars@, lo as int, hi as int),
        decreases hi - lo,
    {
        hi -= 1;
    }
    let lo = leading_override(&chars, lo, hi, &leading);
    let hi = trailing_override(&chars, lo, hi, &trailing);
    let mut r = String::from_str(prefix);
    let ghost start = r@;
    let mut i = lo;
    while i < hi
        invariant
            lo <= i <= hi <= chars@.len(),
            r@ == start + chars@.subrange(lo as int, i as int),
        decreases hi - i,
    {
        r.push(chars[i]);
        proof {
            assert(r@ =~= start + chars@.subrange(lo as int, i + 1));
        }
        i += 1;
    }
    r.append(suffix);
    r
}

/// The views of a list of tests.
pub open spec fn tests_view(holds: Seq<String>) -> Seq<Seq<char>> {
    holds.map_values(|s: String| s@)
}

fn test_holds(holds: &Vec<String>, test: &str) -> (r: bool)
    ensures
        r == tests_view(holds@).contains(test@),
{
    let ghost views = tests_view(holds@);
    let mut i: usize = 0;
    while i < holds.len()
        invariant
            i <= holds@.len(),
            views == tests_view(holds@),
            forall|j: int| 0 <= j < i ==> views[j] != test@,
        decreases holds@.len() - i,
    {
        if same_text(holds[i].as_str(), test) {
            proof {
                assert(views[i as int] == test@);
            }
            return true;
        }
        i += 1;
    }
    false
}

/// Builds the text that a body stands for when the tests listed in `holds`
/// hold and all others do not.
pub fn build_sql(table: &Mapper, elems: &Vec<Box<SqlElement>>, holds: &Vec<String>) -> (r: Result<
    String,
    GenCError,
>)
    ensures
        match r {
            Ok(text) => body_sql(table@.sqls, content_view(elems@), tests_view(holds@)) == Ok::<
                Seq<char>,
                Seq<char>,
            >(text@),
            Err(e) => body_sql(table@.sqls, content_view(elems@), tests_view(holds@)) == Err::<
                Seq<char>,
                Seq<char>,
            >(e@),
        },
    decreases elems,
{
    let ghost sqls = table@.sqls;
    let ghost views = content_view(elems@);
    let ghost tests = tests_view(holds@);
    proof {
        lemma_content_view(elems@);
    }
    let mut text = String::new();
    let mut i: usize = 0;
    while i < elems.len()
        invariant
            i <= elems@.len(),
            sqls == table@.sqls,
            tests == tests_view(holds@),
            views == content_view(elems@),
            views.len() == elems@.len(),
            forall|j: int| 0 <= j < elems@.len() ==> views[j] == (#[trigger] elems@[j])@,
            prefix_sql(sqls, views, i as nat, tests) == Ok::<Seq<char>, Seq<char>>(text@),
        decreases elems@.len() - i,
    {
        let ghost before = text@;
        let piece: Result<String, GenCError> = match &*elems[i] {
            SqlElement::YoText(t) => Ok(t.clone()),
            SqlElement::YoInclude(inc) => match table.sqls.get(inc.refid.as_str()) {
                Some(sql) => Ok(sql.text.clone()),
                None => Err(error_about("include sql not found: ", inc.refid.as_str())),
            },
            SqlElement::YoIf(if_elem) => {
                if test_holds(holds, if_elem.test.as_str()) {
                    build_sql(table, &if_elem.content, holds)
                } else {
                    Ok(String::new())
                }
            },
            SqlElement::YoTrim(trim_elem) => match build_sql(table, &trim_elem.content, holds) {
                Err(e) => Err(e),
                Ok(content) => Ok(
                    trim_text(
                        content.as_str(),
                        trim_elem.prefix.as_str(),
                        trim_elem.suffix.as_str(),
                        trim_elem.prefix_overrides.as_str(),
                        trim_elem.suffix_overrides.as_str(),
                    ),
                ),
            },
        };
        proof {
            assert(views[i as int] == elems@[i as int]@);
            assert(match piece {
                Ok(p) => element_sql(sqls, views[i as int], tests) == Ok::<Seq<char>, Seq<char>>(
                    p@,
                ),
                Err(e) => element_sql(sqls, views[i as int], tests) == Err::<Seq<char>, Seq<char>>(
                    e@,
                ),
            });
        }
        match piece {
            Err(e) => {
                proof {
                    lemma_prefix_sql_error(sqls, views, (i + 1) as nat, elems@.len() as nat, tests);
                }
                return Err(e);
            },
            Ok(p) => {
                text.append(p.as_str());
            },
        }
        i += 1;
    }
    Ok(text)
}

/// What a statement hands to the database when it runs: the text of its body
/// for the tests that hold, made ready with the fields of its parameter type.
pub open spec fn statement_at_run_time(
    m: MapperView,
    parameter_type: Seq<char>,
    content: Seq<SqlElementView>,
    holds: Seq<Seq<char>>,
) -> Result<PreparedView, Seq<char>> {
    match body_sql(m.sqls, content, holds) {
        Err(message) => Err(message),
        Ok(text) => match lookup(m.type_maps, parameter_type) {
            None => Err(missing_parameter_type_message(parameter_type)),
            Some(parameter) => prepare_model(text, parameter.results),
        },
    }
}

/// Builds the text of a statement's body for the tests listed in `holds`, and
/// makes it ready with the fields of the statement's parameter type.
pub fn prepare_statement(
    table: &Mapper,
    parameter_type: &str,
    content: &Vec<Box<SqlElement>>,
    holds: &Vec<String>,
) -> (r: Result<Prepared, GenCError>)
    ensures
        match r {
            Ok(prepared) => statement_at_run_time(
                table@,
                parameter_type@,
                content_view(content@),
                tests_view(holds@),
            ) == Ok::<PreparedView, Seq<char>>(prepared@),
            Err(e) => statement_at_run_time(
                table@,
                parameter_type@,
                content_view(content@),
                tests_view(holds@),
            ) == Err::<PreparedView, Seq<char>>(e@),
        },
{
    let text = match build_sql(table, content, holds) {
        Ok(text) => text,
        Err(e) => {
            return Err(e);
        },
    };
    match table.type_maps.get(parameter_type) {
        None => Err(error_about("parameter type not found: ", parameter_type)),
        Some(result_map) => prepare_sql(text.as_str(), result_map),
    }
}

} // verus!
