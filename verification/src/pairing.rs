//! Placeholders across pieces of text. A statement is checked piece by piece
//! when it is compiled, and scanned as one text when it runs; this module shows
//! when the two agree.

use crate::dynamic::{body_sql, element_sql, prefix_sql, statement_at_run_time};
use crate::emit::function_model;
use crate::mapper::{MapperView, SqlElementView, YoResultMapView, YoResultView, YoSqlView};
use crate::placeholder::{
    after_close, bind_of, binds_prefix, body_literals, close_from, element_literals, is_marker,
    lemma_close_from, literal_error_from, placeholder_names, prefix_literals, prepare_model,
    prepared_text, scan_from, BindView, PreparedView, Scan,
};
use crate::table::lookup;
use crate::text::{chars_of, concat_all, concat_prefix};
use vstd::prelude::*;

verus! {

/// Whether the text, from position `i` on, is closed: every placeholder ends
/// with its `}`, and the last character is no `#` outside a placeholder.
pub open spec fn closed_from(a: Seq<char>, i: int) -> bool
    decreases a.len() - i,
{
    if i < 0 || i >= a.len() {
        true
    } else if is_marker(a, i) {
        proof {
            lemma_close_from(a, i + 2);
        }
        close_from(a, i + 2) < a.len() && closed_from(a, close_from(a, i + 2) + 1)
    } else if a[i] == '#' && i + 1 == a.len() {
        false
    } else {
        closed_from(a, i + 1)
    }
}

/// Whether the text is closed: every placeholder in it ends with its `}`, and
/// it does not end in a `#` that a following `{` could turn into a placeholder.
/// No placeholder reaches from a closed text into what follows it.
pub open spec fn is_closed(a: Seq<char>) -> bool {
    closed_from(a, 0)
}

/// Tells whether a text is closed.
pub fn text_is_closed(text: &str) -> (r: bool)
    ensures
        r == is_closed(text@),
{
    let chars = chars_of(text);
    let n = chars.len();
    let mut i: usize = 0;
    while i < n
        invariant
            chars@ == text@,
            n == chars@.len(),
            i <= n,
            is_closed(text@) == closed_from(text@, i as int),
        decreases n - i,
    {
        if n - i >= 2 && chars[i] == '#' && chars[i + 1] == '{' {
            let mut close = i + 2;
            while close < n && chars[close] != '}'
                invariant
                    chars@ == text@,
                    n == chars@.len(),
                    i + 2 <= close <= n,
                    close_from(text@, i + 2) == close_from(text@, close as int),
                decreases n - close,
            {
                close += 1;
            }
            if close >= n {
                return false;
            }
            i = close + 1;
        } else if chars[i] == '#' && n - i == 1 {
            return false;
        } else {
            i += 1;
        }
    }
    true
}

/// A `}` that closes within the first part closes at the same place in the
/// whole.
proof fn lemma_close_from_prefix(a: Seq<char>, b: Seq<char>, from: int)
    requires
        0 <= from <= a.len(),
        close_from(a, from) < a.len(),
    ensures
        close_from(a + b, from) == close_from(a, from),
    decreases a.len() - from,
{
    if from < a.len() {
        assert((a + b)[from] == a[from]);
        if a[from] != '}' {
            lemma_close_from_prefix(a, b, from + 1);
        }
    }
}

/// The second part closes in the whole where it closes by itself, moved by the
/// length of the first part.
proof fn lemma_close_from_shift(a: Seq<char>, b: Seq<char>, from: int)
    requires
        0 <= from <= b.len(),
    ensures
        close_from(a + b, a.len() + from) == a.len() + close_from(b, from),
    decreases b.len() - from,
{
    if from < b.len() {
        assert((a + b)[a.len() + from] == b[from]);
        if b[from] != '}' {
            lemma_close_from_shift(a, b, from + 1);
        }
    }
}

/// The scan of the whole, from a position in the second part on, is the scan of
/// the second part from that position on.
proof fn lemma_scan_shift(a: Seq<char>, b: Seq<char>, j: int)
    requires
        0 <= j <= b.len(),
    ensures
        scan_from(a + b, a.len() + j) == scan_from(b, j),
    decreases b.len() - j,
{
    let w = a + b;
    let i = a.len() + j;
    if j < b.len() {
        assert(w[i] == b[j]);
        if j + 1 < b.len() {
            assert(w[i + 1] == b[j + 1]);
        }
        assert(is_marker(w, i) == is_marker(b, j));
        if is_marker(b, j) {
            lemma_close_from_shift(a, b, j + 2);
            lemma_close_from(b, j + 2);
            let close = close_from(b, j + 2);
            lemma_scan_shift(a, b, after_close(b, close));
            assert(after_close(w, a.len() + close) == a.len() + after_close(b, close));
            assert(w.subrange(i + 2, a.len() + close) =~= b.subrange(j + 2, close));
        } else {
            lemma_scan_shift(a, b, j + 1);
        }
    }
}

/// The scan of a closed text followed by another text is the scan of the one
/// followed by the scan of the other.
proof fn lemma_scan_concat(a: Seq<char>, b: Seq<char>, i: int)
    requires
        0 <= i <= a.len(),
        closed_from(a, i),
    ensures
        scan_from(a + b, i).text == scan_from(a, i).text + scan_from(b, 0).text,
        scan_from(a + b, i).names == scan_from(a, i).names + scan_from(b, 0).names,
    decreases a.len() - i,
{
    let w = a + b;
    if i == a.len() {
        lemma_scan_shift(a, b, 0);
        assert(Seq::<char>::empty() + scan_from(b, 0).text =~= scan_from(b, 0).text);
        assert(Seq::<Seq<char>>::empty() + scan_from(b, 0).names =~= scan_from(b, 0).names);
    } else {
        assert(w[i] == a[i]);
        if is_marker(a, i) {
            assert(w[i + 1] == a[i + 1]);
            assert(is_marker(w, i));
            lemma_close_from(a, i + 2);
            let close = close_from(a, i + 2);
            lemma_close_from_prefix(a, b, i + 2);
            lemma_scan_concat(a, b, close + 1);
            assert(w.subrange(i + 2, close) =~= a.subrange(i + 2, close));
            let rest_a = scan_from(a, close + 1);
            let rest_b = scan_from(b, 0);
            assert((seq!['?'] + rest_a.text) + rest_b.text =~= seq!['?'] + (rest_a.text
                + rest_b.text));
            assert((seq![a.subrange(i + 2, close)] + rest_a.names) + rest_b.names =~= seq![
                a.subrange(i + 2, close),
            ] + (rest_a.names + rest_b.names));
        } else {
            if i + 1 < a.len() {
                assert(w[i + 1] == a[i + 1]);
            }
            assert(!is_marker(w, i));
            lemma_scan_concat(a, b, i + 1);
            let rest_a = scan_from(a, i + 1);
            let rest_b = scan_from(b, 0);
            assert((seq![a[i]] + rest_a.text) + rest_b.text =~= seq![a[i]] + (rest_a.text
                + rest_b.text));
        }
    }
}

/// The second part is closed in the whole where it is closed by itself.
proof fn lemma_closed_shift(a: Seq<char>, b: Seq<char>, j: int)
    requires
        0 <= j <= b.len(),
        closed_from(b, j),
    ensures
        closed_from(a + b, a.len() + j),
    decreases b.len() - j,
{
    let w = a + b;
    let i = a.len() + j;
    if j < b.len() {
        assert(w[i] == b[j]);
        if j + 1 < b.len() {
            assert(w[i + 1] == b[j + 1]);
        }
        assert(is_marker(w, i) == is_marker(b, j));
        if is_marker(b, j) {
            lemma_close_from_shift(a, b, j + 2);
            lemma_close_from(b, j + 2);
            lemma_closed_shift(a, b, close_from(b, j + 2) + 1);
        } else {
            lemma_closed_shift(a, b, j + 1);
        }
    }
}

/// A closed text followed by a closed text is closed.
proof fn lemma_closed_concat(a: Seq<char>, b: Seq<char>, i: int)
    requires
        0 <= i <= a.len(),
        closed_from(a, i),
        is_closed(b),
    ensures
        closed_from(a + b, i),
    decreases a.len() - i,
{
    let w = a + b;
    if i == a.len() {
        lemma_closed_shift(a, b, 0);
    } else {
        assert(w[i] == a[i]);
        if is_marker(a, i) {
            assert(w[i + 1] == a[i + 1]);
            lemma_close_from(a, i + 2);
            lemma_close_from_prefix(a, b, i + 2);
            lemma_closed_concat(a, b, close_from(a, i + 2) + 1);
        } else {
            if i + 1 < a.len() {
                assert(w[i + 1] == a[i + 1]);
            }
            assert(!is_marker(w, i));
            lemma_closed_concat(a, b, i + 1);
        }
    }
}

/// The parameters of the first `n` names depend on those names alone.
proof fn lemma_binds_of_prefix(
    fields: Seq<YoResultView>,
    x: Seq<Seq<char>>,
    y: Seq<Seq<char>>,
    n: nat,
)
    requires
        n <= x.len(),
        n <= y.len(),
        forall|k: int| 0 <= k < n ==> x[k] == y[k],
    ensures
        binds_prefix(fields, x, n) == binds_prefix(fields, y, n),
    decreases n,
{
    if n > 0 {
        lemma_binds_of_prefix(fields, x, y, (n - 1) as nat);
    }
}

/// The parameters of one list of names followed by another are the parameters
/// of the one followed by those of the other.
proof fn lemma_binds_concat(
    fields: Seq<YoResultView>,
    x: Seq<Seq<char>>,
    y: Seq<Seq<char>>,
    n: nat,
)
    requires
        n <= y.len(),
        binds_prefix(fields, x, x.len()) is Ok,
        binds_prefix(fields, y, n) is Ok,
    ensures
        binds_prefix(fields, x + y, x.len() + n) == Ok::<Seq<BindView>, Seq<char>>(
            binds_prefix(fields, x, x.len())->Ok_0 + binds_prefix(fields, y, n)->Ok_0,
        ),
    decreases n,
{
    let bx = binds_prefix(fields, x, x.len())->Ok_0;
    if n == 0 {
        lemma_binds_of_prefix(fields, x + y, x, x.len());
        assert(bx + Seq::<BindView>::empty() =~= bx);
    } else {
        lemma_binds_concat(fields, x, y, (n - 1) as nat);
        let before = binds_prefix(fields, y, (n - 1) as nat)->Ok_0;
        assert((x + y)[x.len() + n - 1] == y[n - 1]);
        let last = bind_of(fields, y[n - 1])->Ok_0;
        assert((bx + before).push(last) =~= bx + before.push(last));
    }
}

/// Pairing across pieces: a closed text and a text behind it, each of which
/// can be made ready, can be made ready as one text. The prepared text of the
/// whole is the one prepared text followed by the other, and so are the
/// parameters.
pub proof fn lemma_prepare_concat(a: Seq<char>, b: Seq<char>, fields: Seq<YoResultView>)
    requires
        is_closed(a),
        prepare_model(a, fields) is Ok,
        prepare_model(b, fields) is Ok,
    ensures
        prepare_model(a + b, fields) == Ok::<PreparedView, Seq<char>>(
            PreparedView {
                sql: prepare_model(a, fields)->Ok_0.sql + prepare_model(b, fields)->Ok_0.sql,
                binds: prepare_model(a, fields)->Ok_0.binds + prepare_model(b, fields)->Ok_0.binds,
            },
        ),
{
    lemma_scan_concat(a, b, 0);
    lemma_binds_concat(
        fields,
        placeholder_names(a),
        placeholder_names(b),
        placeholder_names(b).len(),
    );
}

/// Whether a piece of text is closed and can be made ready with the fields.
pub open spec fn ready(fields: Seq<YoResultView>, piece: Seq<char>) -> bool {
    is_closed(piece) && prepare_model(piece, fields) is Ok
}

/// Whether every piece is closed and can be made ready with the fields.
pub open spec fn all_ready(fields: Seq<YoResultView>, pieces: Seq<Seq<char>>) -> bool {
    forall|k: int| 0 <= k < pieces.len() ==> ready(fields, #[trigger] pieces[k])
}

/// Pieces that are ready one by one are ready as one text.
pub proof fn lemma_ready_pieces_are_ready_together(
    fields: Seq<YoResultView>,
    pieces: Seq<Seq<char>>,
    n: nat,
)
    requires
        n <= pieces.len(),
        all_ready(fields, pieces),
    ensures
        ready(fields, concat_prefix(pieces, n)),
    decreases n,
{
    if n == 0 {
        let empty = Seq::<char>::empty();
        assert(scan_from(empty, 0).names =~= Seq::<Seq<char>>::empty());
    } else {
        lemma_ready_pieces_are_ready_together(fields, pieces, (n - 1) as nat);
        let before = concat_prefix(pieces, (n - 1) as nat);
        let last = pieces[n - 1];
        assert(ready(fields, last));
        lemma_prepare_concat(before, last, fields);
        lemma_closed_concat(before, last, 0);
    }
}

/// Whether the element is, or holds at any depth, a `<trim>`.
pub open spec fn element_has_trim(e: SqlElementView) -> bool
    decreases e, 0nat,
{
    match e {
        SqlElementView::YoText(_) => false,
        SqlElementView::YoInclude(_) => false,
        SqlElementView::YoIf(f) => prefix_has_trim(f.content, f.content.len()),
        SqlElementView::YoTrim(_) => true,
    }
}

/// Whether one of the first `n` elements is, or holds at any depth, a `<trim>`.
pub open spec fn prefix_has_trim(elems: Seq<SqlElementView>, n: nat) -> bool
    decreases elems, n,
{
    if n == 0 || n > elems.len() {
        false
    } else {
        prefix_has_trim(elems, (n - 1) as nat) || element_has_trim(elems[n - 1])
    }
}

/// Whether the body holds, at any depth, a `<trim>`.
pub open spec fn has_trim(elems: Seq<SqlElementView>) -> bool {
    prefix_has_trim(elems, elems.len())
}

/// The pieces of literal text that an element adds at run time: those of its
/// pieces that do not stand in an `<if>` whose test fails.
pub open spec fn element_run_pieces(
    sqls: Seq<(Seq<char>, YoSqlView)>,
    e: SqlElementView,
    holds: Seq<Seq<char>>,
) -> Seq<Seq<char>>
    decreases e, 0nat,
{
    match e {
        SqlElementView::YoIf(f) => if holds.contains(f.test) {
            prefix_run_pieces(sqls, f.content, f.content.len(), holds)
        } else {
            Seq::empty()
        },
        SqlElementView::YoTrim(t) => prefix_run_pieces(sqls, t.content, t.content.len(), holds),
        _ => element_literals(sqls, e),
    }
}

/// The pieces of literal text that the first `n` elements add at run time.
pub open spec fn prefix_run_pieces(
    sqls: Seq<(Seq<char>, YoSqlView)>,
    elems: Seq<SqlElementView>,
    n: nat,
    holds: Seq<Seq<char>>,
) -> Seq<Seq<char>>
    decreases elems, n,
{
    if n == 0 || n > elems.len() {
        Seq::empty()
    } else {
        prefix_run_pieces(sqls, elems, (n - 1) as nat, holds) + element_run_pieces(
            sqls,
            elems[n - 1],
            holds,
        )
    }
}

/// One list of pieces followed by another stands for the text of the one
/// followed by the text of the other.
proof fn lemma_concat_all_add(x: Seq<Seq<char>>, y: Seq<Seq<char>>, n: nat)
    requires
        n <= y.len(),
    ensures
        concat_prefix(x + y, x.len() + n) == concat_all(x) + concat_prefix(y, n),
    decreases n,
{
    if n == 0 {
        lemma_concat_of_prefix(x + y, x, x.len());
        assert(concat_all(x) + Seq::<char>::empty() =~= concat_all(x));
    } else {
        lemma_concat_all_add(x, y, (n - 1) as nat);
        assert((x + y)[x.len() + n - 1] == y[n - 1]);
        assert((concat_all(x) + concat_prefix(y, (n - 1) as nat)) + y[n - 1] =~= concat_all(x) + (
        concat_prefix(y, (n - 1) as nat) + y[n - 1]));
    }
}

/// The text of the first `n` pieces depends on those pieces alone.
proof fn lemma_concat_of_prefix(x: Seq<Seq<char>>, y: Seq<Seq<char>>, n: nat)
    requires
        n <= x.len(),
        n <= y.len(),
        forall|k: int| 0 <= k < n ==> x[k] == y[k],
    ensures
        concat_prefix(x, n) == concat_prefix(y, n),
    decreases n,
{
    if n > 0 {
        lemma_concat_of_prefix(x, y, (n - 1) as nat);
    }
}

/// One piece stands for its own text.
proof fn lemma_concat_single(t: Seq<char>)
    ensures
        concat_all(seq![t]) == t,
{
    let pieces = seq![t];
    assert(concat_prefix(pieces, 0) == Seq::<char>::empty());
    assert(concat_prefix(pieces, 1) == concat_prefix(pieces, 0) + pieces[0]);
    assert(Seq::<char>::empty() + t =~= t);
}

/// Without a `<trim>`, the text of an element at run time is made of its run
/// pieces, one after the other.
proof fn lemma_element_text_is_its_pieces(
    sqls: Seq<(Seq<char>, YoSqlView)>,
    e: SqlElementView,
    holds: Seq<Seq<char>>,
)
    requires
        !element_has_trim(e),
        element_sql(sqls, e, holds) is Ok,
    ensures
        element_sql(sqls, e, holds)->Ok_0 == concat_all(element_run_pieces(sqls, e, holds)),
    decreases e, 0nat,
{
    match e {
        SqlElementView::YoText(t) => {
            lemma_concat_single(t);
        },
        SqlElementView::YoInclude(i) => {
            lemma_concat_single(lookup(sqls, i.refid)->Some_0.text);
        },
        SqlElementView::YoIf(f) => {
            if holds.contains(f.test) {
                lemma_prefix_text_is_its_pieces(sqls, f.content, f.content.len(), holds);
            }
        },
        SqlElementView::YoTrim(_) => {},
    }
}

/// Without a `<trim>`, the text of the first `n` elements at run time is made
/// of their run pieces, one after the other.
proof fn lemma_prefix_text_is_its_pieces(
    sqls: Seq<(Seq<char>, YoSqlView)>,
    elems: Seq<SqlElementView>,
    n: nat,
    holds: Seq<Seq<char>>,
)
    requires
        !prefix_has_trim(elems, n),
        prefix_sql(sqls, elems, n, holds) is Ok,
    ensures
        prefix_sql(sqls, elems, n, holds)->Ok_0 == concat_all(
            prefix_run_pieces(sqls, elems, n, holds),
        ),
    decreases elems, n,
{
    if n > 0 && n <= elems.len() {
        lemma_prefix_text_is_its_pieces(sqls, elems, (n - 1) as nat, holds);
        lemma_element_text_is_its_pieces(sqls, elems[n - 1], holds);
        let x = prefix_run_pieces(sqls, elems, (n - 1) as nat, holds);
        let y = element_run_pieces(sqls, elems[n - 1], holds);
        lemma_concat_all_add(x, y, y.len());
    }
}

/// Pieces that are all ready stay so when they are put behind each other, and
/// each part of pieces that are all ready is ready.
proof fn lemma_all_ready_add(fields: Seq<YoResultView>, x: Seq<Seq<char>>, y: Seq<Seq<char>>)
    ensures
        all_ready(fields, x + y) <==> all_ready(fields, x) && all_ready(fields, y),
{
    if all_ready(fields, x + y) {
        assert forall|k: int| 0 <= k < x.len() implies ready(fields, #[trigger] x[k]) by {
            assert((x + y)[k] == x[k]);
        }
        assert forall|k: int| 0 <= k < y.len() implies ready(fields, #[trigger] y[k]) by {
            assert((x + y)[x.len() + k] == y[k]);
        }
    }
    if all_ready(fields, x) && all_ready(fields, y) {
        assert forall|k: int| 0 <= k < (x + y).len() implies ready(
            fields,
            #[trigger] (x + y)[k],
        ) by {
            if k < x.len() {
                assert((x + y)[k] == x[k]);
            } else {
                assert((x + y)[k] == y[k - x.len()]);
            }
        }
    }
}

/// The run pieces of an element are among its pieces of literal text: where
/// these are all ready, so are those.
proof fn lemma_element_run_pieces_ready(
    sqls: Seq<(Seq<char>, YoSqlView)>,
    e: SqlElementView,
    holds: Seq<Seq<char>>,
    fields: Seq<YoResultView>,
)
    requires
        all_ready(fields, element_literals(sqls, e)),
    ensures
        all_ready(fields, element_run_pieces(sqls, e, holds)),
    decreases e, 0nat,
{
    match e {
        SqlElementView::YoIf(f) => {
            lemma_prefix_run_pieces_ready(sqls, f.content, f.content.len(), holds, fields);
        },
        SqlElementView::YoTrim(t) => {
            lemma_prefix_run_pieces_ready(sqls, t.content, t.content.len(), holds, fields);
        },
        _ => {},
    }
}

/// The run pieces of the first `n` elements are among their pieces of literal
/// text: where these are all ready, so are those.
proof fn lemma_prefix_run_pieces_ready(
    sqls: Seq<(Seq<char>, YoSqlView)>,
    elems: Seq<SqlElementView>,
    n: nat,
    holds: Seq<Seq<char>>,
    fields: Seq<YoResultView>,
)
    requires
        all_ready(fields, prefix_literals(sqls, elems, n)),
    ensures
        all_ready(fields, prefix_run_pieces(sqls, elems, n, holds)),
    decreases elems, n,
{
    if n > 0 && n <= elems.len() {
        lemma_all_ready_add(
            fields,
            prefix_literals(sqls, elems, (n - 1) as nat),
            element_literals(sqls, elems[n - 1]),
        );
        lemma_prefix_run_pieces_ready(sqls, elems, (n - 1) as nat, holds, fields);
        lemma_element_run_pieces_ready(sqls, elems[n - 1], holds, fields);
        lemma_all_ready_add(
            fields,
            prefix_run_pieces(sqls, elems, (n - 1) as nat, holds),
            element_run_pieces(sqls, elems[n - 1], holds),
        );
    }
}

/// Where no piece at or after `from` gives an error, each of them can be made
/// ready.
proof fn lemma_no_literal_error(fields: Seq<YoResultView>, literals: Seq<Seq<char>>, from: int)
    requires
        0 <= from,
        literal_error_from(fields, literals, from) is None,
    ensures
        forall|k: int|
            from <= k < literals.len() ==> prepare_model(#[trigger] literals[k], fields) is Ok,
    decreases literals.len() - from,
{
    if from < literals.len() {
        lemma_no_literal_error(fields, literals, from + 1);
    }
}

/// Whether every piece of literal text of the body is closed: no placeholder
/// reaches from one piece into the next.
pub open spec fn pieces_closed(
    sqls: Seq<(Seq<char>, YoSqlView)>,
    elems: Seq<SqlElementView>,
) -> bool {
    forall|k: int|
        0 <= k < body_literals(sqls, elems).len() ==> is_closed(
            #[trigger] body_literals(sqls, elems)[k],
        )
}

/// What is checked when a statement is compiled holds when it runs. A
/// statement that compiles, without `<trim>` and with closed pieces of literal
/// text, can be made ready whatever tests hold when it runs: every placeholder
/// of its text then names a field of the parameter, and the text gets one
/// parameter for each of them.
pub proof fn lemma_compiled_statement_can_be_prepared(
    m: MapperView,
    id: Seq<char>,
    parameter_type: Seq<char>,
    content: Seq<SqlElementView>,
    out: Option<YoResultMapView>,
    holds: Seq<Seq<char>>,
)
    requires
        function_model(m, id, parameter_type, content, out) is Ok,
        !has_trim(content),
        pieces_closed(m.sqls, content),
    ensures
        statement_at_run_time(m, parameter_type, content, holds) is Ok,
        body_sql(m.sqls, content, holds) is Ok,
        statement_at_run_time(m, parameter_type, content, holds)->Ok_0.sql == prepared_text(
            body_sql(m.sqls, content, holds)->Ok_0,
        ),
        statement_at_run_time(m, parameter_type, content, holds)->Ok_0.binds.len()
            == placeholder_names(body_sql(m.sqls, content, holds)->Ok_0).len(),
{
    let fields = lookup(m.type_maps, parameter_type)->Some_0.results;
    let literals = body_literals(m.sqls, content);
    crate::dynamic::lemma_rendered_body_has_text(
        m.sqls,
        content,
        crate::text::spaces_text(4),
        "cmd"@,
        0,
        holds,
    );
    lemma_no_literal_error(fields, literals, 0);
    assert(all_ready(fields, literals));
    lemma_prefix_run_pieces_ready(m.sqls, content, content.len(), holds, fields);
    let pieces = prefix_run_pieces(m.sqls, content, content.len(), holds);
    lemma_prefix_text_is_its_pieces(m.sqls, content, content.len(), holds);
    lemma_ready_pieces_are_ready_together(fields, pieces, pieces.len());
    let text = body_sql(m.sqls, content, holds)->Ok_0;
    crate::placeholder::lemma_binds_prefix(
        fields,
        placeholder_names(text),
        placeholder_names(text).len(),
    );
}

} // verus!
