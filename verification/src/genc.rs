//! Generation of C sources from mapper documents: the error type, and the
//! parts of a generated file that do not depend on its statements.

use crate::emit::{
    lemma_select_with_missing_include_fails, lemma_statement_with_missing_include_fails,
    select_model, statement_model, write_insert_fn, write_select_fn, write_update_fn, Emitted,
};
use crate::mapper::{Mapper, MapperView, StatementView, YoResultMapView, YoSelectView};
use crate::record::{record_error, record_header_text, record_source_text, write_result_map};
use crate::render::has_missing_include;
use crate::text::{to_uppercase, uppercase_text};
use vstd::prelude::*;
use vstd::string::StringExecFns;

verus! {

/// Why a document could not be compiled.
#[derive(Debug)]
pub struct GenCError {
    message: String,
}

impl View for GenCError {
    type V = Seq<char>;

    closed spec fn view(&self) -> Seq<char> {
        self.message@
    }
}

impl Clone for GenCError {
    fn clone(&self) -> (r: Self)
        ensures
            r@ == self@,
    {
        GenCError { message: self.message.clone() }
    }
}

impl GenCError {
    /// The error with the given message.
    pub fn new(message: String) -> (r: GenCError)
        ensures
            r@ == message@,
    {
        GenCError { message }
    }

    /// The message of the error.
    pub fn message(&self) -> (r: &String)
        ensures
            r@ == self@,
    {
        &self.message
    }
}

/// The error whose message is `what` followed by `name`.
pub fn error_about(what: &str, name: &str) -> (r: GenCError)
    ensures
        r@ == what@ + name@,
{
    let mut message = String::from_str(what);
    message.append(name);
    GenCError::new(message)
}

/// The name of the guard macro of the header for the given namespace.
pub open spec fn guard_name(namespace: Seq<char>) -> Seq<char> {
    "YB_"@ + uppercase_text(namespace) + "_H__"@
}

/// The lines that open the guard of a header.
pub open spec fn guard_start_text(namespace: Seq<char>) -> Seq<char> {
    "#ifndef "@ + guard_name(namespace) + "\n"@ + "#define "@ + guard_name(namespace) + "\n\n"@
}

/// The line that closes the guard of a header.
pub open spec fn guard_end_text(namespace: Seq<char>) -> Seq<char> {
    "#endif // "@ + guard_name(namespace) + "\n\n"@
}

/// The lines at the head of a source file, which bring in its own header and
/// the runtime's.
pub open spec fn includes_text(filename_h: Seq<char>) -> Seq<char> {
    "#include \""@ + filename_h + "\"\n\n"@ + "#include \"yb_common.h\"\n\n"@
}

fn guard(namespace: &str) -> (r: String)
    ensures
        r@ == guard_name(namespace@),
{
    let upper = to_uppercase(namespace);
    let mut r = String::from_str("YB_");
    r.append(upper.as_str());
    r.append("_H__");
    r
}

/// Opens the guard of the header.
pub fn write_guard_start(mapper_h: &mut String, namespace: &str)
    ensures
        final(mapper_h)@ == old(mapper_h)@ + guard_start_text(namespace@),
{
    let pp_guard = guard(namespace);
    let mut t = String::from_str("#ifndef ");
    t.append(pp_guard.as_str());
    t.append("\n");
    t.append("#define ");
    t.append(pp_guard.as_str());
    t.append("\n\n");
    mapper_h.append(t.as_str());
}

/// Closes the guard of the header.
pub fn write_guard_end(mapper_h: &mut String, namespace: &str)
    ensures
        final(mapper_h)@ == old(mapper_h)@ + guard_end_text(namespace@),
{
    let pp_guard = guard(namespace);
    let mut t = String::from_str("#endif // ");
    t.append(pp_guard.as_str());
    t.append("\n\n");
    mapper_h.append(t.as_str());
}

/// Writes the head of the source file.
pub fn write_includes(mapper_c: &mut String, filename_h: &str)
    ensures
        final(mapper_c)@ == old(mapper_c)@ + includes_text(filename_h@),
{
    let mut t = String::from_str("#include \"");
    t.append(filename_h);
    t.append("\"\n\n");
    t.append("#include \"yb_common.h\"\n\n");
    mapper_c.append(t.as_str());
}

/// The two files generated for one mapper: their names and their contents.
#[derive(Debug)]
pub struct MapperSource {
    pub filename_h: String,
    pub filename_c: String,
    pub header: String,
    pub source: String,
}

/// The contents of a [`MapperSource`].
pub struct MapperSourceView {
    pub filename_h: Seq<char>,
    pub filename_c: Seq<char>,
    pub header: Seq<char>,
    pub source: Seq<char>,
}

impl View for MapperSource {
    type V = MapperSourceView;

    open spec fn view(&self) -> MapperSourceView {
        MapperSourceView {
            filename_h: self.filename_h@,
            filename_c: self.filename_c@,
            header: self.header@,
            source: self.source@,
        }
    }
}

/// What is generated for the first `n` result maps, in the order of the table.
pub open spec fn records_prefix(maps: Seq<(Seq<char>, YoResultMapView)>, n: nat) -> Result<
    Emitted,
    Seq<char>,
>
    decreases n,
{
    if n == 0 || n > maps.len() {
        Ok(Emitted { header: Seq::empty(), source: Seq::empty() })
    } else {
        match records_prefix(maps, (n - 1) as nat) {
            Err(message) => Err(message),
            Ok(before) => match record_error(maps[n - 1].1) {
                Some(message) => Err(message),
                None => Ok(
                    Emitted {
                        header: before.header + record_header_text(maps[n - 1].1),
                        source: before.source + record_source_text(maps[n - 1].1),
                    },
                ),
            },
        }
    }
}

/// What is generated for the first `n` statements of a table of inserts or of
/// updates, in the order of the table.
pub open spec fn statements_prefix(
    m: MapperView,
    statements: Seq<(Seq<char>, StatementView)>,
    n: nat,
) -> Result<Emitted, Seq<char>>
    decreases n,
{
    if n == 0 || n > statements.len() {
        Ok(Emitted { header: Seq::empty(), source: Seq::empty() })
    } else {
        match statements_prefix(m, statements, (n - 1) as nat) {
            Err(message) => Err(message),
            Ok(before) => match statement_model(m, statements[n - 1].1) {
                Err(message) => Err(message),
                Ok(last) => Ok(
                    Emitted {
                        header: before.header + last.header,
                        source: before.source + last.source,
                    },
                ),
            },
        }
    }
}

/// What is generated for the first `n` selects, in the order of the table.
pub open spec fn selects_prefix(
    m: MapperView,
    selects: Seq<(Seq<char>, YoSelectView)>,
    n: nat,
) -> Result<Emitted, Seq<char>>
    decreases n,
{
    if n == 0 || n > selects.len() {
        Ok(Emitted { header: Seq::empty(), source: Seq::empty() })
    } else {
        match selects_prefix(m, selects, (n - 1) as nat) {
            Err(message) => Err(message),
            Ok(before) => match select_model(m, selects[n - 1].1) {
                Err(message) => Err(message),
                Ok(last) => Ok(
                    Emitted {
                        header: before.header + last.header,
                        source: before.source + last.source,
                    },
                ),
            },
        }
    }
}

/// The name of the header generated for a namespace.
pub open spec fn header_name(namespace: Seq<char>) -> Seq<char> {
    "yb_"@ + namespace + ".h"@
}

/// The name of the source file generated for a namespace.
pub open spec fn source_name(namespace: Seq<char>) -> Seq<char> {
    "yb_"@ + namespace + ".c"@
}

/// The two files generated for a mapper.
///
/// The header holds, inside its guard, the record types with the declarations
/// of their constructors and destructors, then the declarations of the
/// functions. The source file brings in the header and the runtime, then holds
/// the definitions in the same order. Result maps come first, then inserts,
/// then updates, then selects, each kind in the order of its table. Deletes are
/// read from the document but no function is generated for them.
///
/// The first result map or statement that cannot be compiled gives the error,
/// and then there is no output.
pub open spec fn mapper_source_model(m: MapperView) -> Result<MapperSourceView, Seq<char>> {
    match records_prefix(m.result_maps, m.result_maps.len()) {
        Err(message) => Err(message),
        Ok(records) => match statements_prefix(m, m.inserts, m.inserts.len()) {
            Err(message) => Err(message),
            Ok(inserts) => match statements_prefix(m, m.updates, m.updates.len()) {
                Err(message) => Err(message),
                Ok(updates) => match selects_prefix(m, m.selects, m.selects.len()) {
                    Err(message) => Err(message),
                    Ok(selects) => Ok(
                        MapperSourceView {
                            filename_h: header_name(m.namespace),
                            filename_c: source_name(m.namespace),
                            header: guard_start_text(m.namespace) + records.header
                                + inserts.header + updates.header + selects.header
                                + guard_end_text(m.namespace),
                            source: includes_text(header_name(m.namespace)) + records.source
                                + inserts.source + updates.source + selects.source,
                        },
                    ),
                },
            },
        }
    }
}

/// An error among the first `n` result maps is the error of all of them.
proof fn lemma_records_prefix_error(maps: Seq<(Seq<char>, YoResultMapView)>, n: nat, m: nat)
    requires
        n <= m <= maps.len(),
        records_prefix(maps, n) is Err,
    ensures
        records_prefix(maps, m) == records_prefix(maps, n),
    decreases m - n,
{
    if n < m {
        lemma_records_prefix_error(maps, n, (m - 1) as nat);
    }
}

/// An error among the first `n` statements is the error of all of them.
proof fn lemma_statements_prefix_error(
    mv: MapperView,
    statements: Seq<(Seq<char>, StatementView)>,
    n: nat,
    m: nat,
)
    requires
        n <= m <= statements.len(),
        statements_prefix(mv, statements, n) is Err,
    ensures
        statements_prefix(mv, statements, m) == statements_prefix(mv, statements, n),
    decreases m - n,
{
    if n < m {
        lemma_statements_prefix_error(mv, statements, n, (m - 1) as nat);
    }
}

/// An error among the first `n` selects is the error of all of them.
proof fn lemma_selects_prefix_error(
    mv: MapperView,
    selects: Seq<(Seq<char>, YoSelectView)>,
    n: nat,
    m: nat,
)
    requires
        n <= m <= selects.len(),
        selects_prefix(mv, selects, n) is Err,
    ensures
        selects_prefix(mv, selects, m) == selects_prefix(mv, selects, n),
    decreases m - n,
{
    if n < m {
        lemma_selects_prefix_error(mv, selects, n, (m - 1) as nat);
    }
}

/// A missing reference is fatal: where the body of an insert, an update or a
/// select holds, at any depth, an `<include>` that names no fragment of the
/// document, nothing is generated for the document.
pub proof fn lemma_missing_include_fails_document(m: MapperView)
    requires
        (exists|k: int|
            0 <= k < m.inserts.len() && has_missing_include(m.sqls, m.inserts[k].1.content))
            || (exists|k: int|
            0 <= k < m.updates.len() && has_missing_include(m.sqls, m.updates[k].1.content))
            || (exists|k: int|
            0 <= k < m.selects.len() && has_missing_include(m.sqls, m.selects[k].1.content)),
    ensures
        mapper_source_model(m) is Err,
{
    if exists|k: int|
        0 <= k < m.inserts.len() && has_missing_include(m.sqls, m.inserts[k].1.content) {
        let k = choose|k: int|
            0 <= k < m.inserts.len() && has_missing_include(m.sqls, m.inserts[k].1.content);
        lemma_statement_with_missing_include_fails(m, m.inserts[k].1);
        if statements_prefix(m, m.inserts, k as nat) is Ok {
            assert(statements_prefix(m, m.inserts, (k + 1) as nat) is Err);
            lemma_statements_prefix_error(m, m.inserts, (k + 1) as nat, m.inserts.len());
        } else {
            lemma_statements_prefix_error(m, m.inserts, k as nat, m.inserts.len());
        }
    } else if exists|k: int|
        0 <= k < m.updates.len() && has_missing_include(m.sqls, m.updates[k].1.content) {
        let k = choose|k: int|
            0 <= k < m.updates.len() && has_missing_include(m.sqls, m.updates[k].1.content);
        lemma_statement_with_missing_include_fails(m, m.updates[k].1);
        if statements_prefix(m, m.updates, k as nat) is Ok {
            assert(statements_prefix(m, m.updates, (k + 1) as nat) is Err);
            lemma_statements_prefix_error(m, m.updates, (k + 1) as nat, m.updates.len());
        } else {
            lemma_statements_prefix_error(m, m.updates, k as nat, m.updates.len());
        }
    } else {
        let k = choose|k: int|
            0 <= k < m.selects.len() && has_missing_include(m.sqls, m.selects[k].1.content);
        lemma_select_with_missing_include_fails(m, m.selects[k].1);
        if selects_prefix(m, m.selects, k as nat) is Ok {
            assert(selects_prefix(m, m.selects, (k + 1) as nat) is Err);
            lemma_selects_prefix_error(m, m.selects, (k + 1) as nat, m.selects.len());
        } else {
            lemma_selects_prefix_error(m, m.selects, k as nat, m.selects.len());
        }
    }
}

/// Compiling is deterministic: two mappers with the same contents give the same
/// files, character for character, or the same error.
pub proof fn lemma_same_mapper_same_source(a: MapperView, b: MapperView)
    requires
        a == b,
    ensures
        mapper_source_model(a) == mapper_source_model(b),
{
}

/// Generates the header and the source file of a mapper.
pub fn gen_mapper_src(mapper: &Mapper) -> (r: Result<MapperSource, GenCError>)
    ensures
        match mapper_source_model(mapper@) {
            Ok(files) => r is Ok && r.unwrap()@ == files,
            Err(message) => r is Err && r.unwrap_err()@ == message,
        },
{
    let ghost m = mapper@;
    let namespace = mapper.namespace.as_str();
    let mut filename_c = String::from_str("yb_");
    filename_c.append(namespace);
    filename_c.append(".c");
    let mut filename_h = String::from_str("yb_");
    filename_h.append(namespace);
    filename_h.append(".h");

    let mut header = String::new();
    write_guard_start(&mut header, namespace);
    let mut source = String::new();
    write_includes(&mut source, filename_h.as_str());
    proof {
        assert(header@ =~= guard_start_text(m.namespace));
        assert(source@ =~= includes_text(header_name(m.namespace)));
    }

    let mut records_h = String::new();
    let mut records_c = String::new();
    let mut i: usize = 0;
    while i < mapper.result_maps.len()
        invariant
            m == mapper@,
            i <= m.result_maps.len(),
            records_prefix(m.result_maps, i as nat) == Ok::<Emitted, Seq<char>>(
                Emitted { header: records_h@, source: records_c@ },
            ),
        decreases m.result_maps.len() - i,
    {
        match write_result_map(&mut records_h, &mut records_c, mapper.result_maps.value(i)) {
            Err(e) => {
                proof {
                    lemma_records_prefix_error(m.result_maps, (i + 1) as nat, m.result_maps.len());
                }
                return Err(e);
            },
            Ok(()) => {},
        }
        i += 1;
    }
    header.append(records_h.as_str());
    source.append(records_c.as_str());

    let mut inserts_h = String::new();
    let mut inserts_c = String::new();
    let mut i: usize = 0;
    while i < mapper.inserts.len()
        invariant
            m == mapper@,
            i <= m.inserts.len(),
            records_prefix(m.result_maps, m.result_maps.len()) is Ok,
            statements_prefix(m, m.inserts, i as nat) == Ok::<Emitted, Seq<char>>(
                Emitted { header: inserts_h@, source: inserts_c@ },
            ),
        decreases m.inserts.len() - i,
    {
        match write_insert_fn(&mut inserts_h, &mut inserts_c, mapper.inserts.value(i), mapper) {
            Err(e) => {
                proof {
                    lemma_statements_prefix_error(
                        m,
                        m.inserts,
                        (i + 1) as nat,
                        m.inserts.len(),
                    );
                }
                return Err(e);
            },
            Ok(()) => {},
        }
        i += 1;
    }
    header.append(inserts_h.as_str());
    source.append(inserts_c.as_str());

    let mut updates_h = String::new();
    let mut updates_c = String::new();
    let mut i: usize = 0;
    while i < mapper.updates.len()
        invariant
            m == mapper@,
            i <= m.updates.len(),
            records_prefix(m.result_maps, m.result_maps.len()) is Ok,
            statements_prefix(m, m.inserts, m.inserts.len()) is Ok,
            statements_prefix(m, m.updates, i as nat) == Ok::<Emitted, Seq<char>>(
                Emitted { header: updates_h@, source: updates_c@ },
            ),
        decreases m.updates.len() - i,
    {
        match write_update_fn(&mut updates_h, &mut updates_c, mapper.updates.value(i), mapper) {
            Err(e) => {
                proof {
                    lemma_statements_prefix_error(
                        m,
                        m.updates,
                        (i + 1) as nat,
                        m.updates.len(),
                    );
                }
                return Err(e);
            },
            Ok(()) => {},
        }
        i += 1;
    }
    header.append(updates_h.as_str());
    source.append(updates_c.as_str());

    let mut selects_h = String::new();
    let mut selects_c = String::new();
    let mut i: usize = 0;
    while i < mapper.selects.len()
        invariant
            m == mapper@,
            i <= m.selects.len(),
            records_prefix(m.result_maps, m.result_maps.len()) is Ok,
            statements_prefix(m, m.inserts, m.inserts.len()) is Ok,
            statements_prefix(m, m.updates, m.updates.len()) is Ok,
            selects_prefix(m, m.selects, i as nat) == Ok::<Emitted, Seq<char>>(
                Emitted { header: selects_h@, source: selects_c@ },
            ),
        decreases m.selects.len() - i,
    {
        match write_select_fn(&mut selects_h, &mut selects_c, mapper.selects.value(i), mapper) {
            Err(e) => {
                proof {
                    lemma_selects_prefix_error(m, m.selects, (i + 1) as nat, m.selects.len());
                }
                return Err(e);
            },
            Ok(()) => {},
        }
        i += 1;
    }
    header.append(selects_h.as_str());
    source.append(selects_c.as_str());

    write_guard_end(&mut header, namespace);
    Ok(MapperSource { filename_h, filename_c, header, source })
}

/// The files generated for the first `n` mappers, in their order.
pub open spec fn sources_prefix(mappers: Seq<MapperView>, n: nat) -> Result<
    Seq<MapperSourceView>,
    Seq<char>,
>
    decreases n,
{
    if n == 0 || n > mappers.len() {
        Ok(Seq::empty())
    } else {
        match sources_prefix(mappers, (n - 1) as nat) {
            Err(message) => Err(message),
            Ok(before) => match mapper_source_model(mappers[n - 1]) {
                Err(message) => Err(message),
                Ok(files) => Ok(before.push(files)),
            },
        }
    }
}

/// An error among the first `n` mappers is the error of all of them.
proof fn lemma_sources_prefix_error(mappers: Seq<MapperView>, n: nat, m: nat)
    requires
        n <= m <= mappers.len(),
        sources_prefix(mappers, n) is Err,
    ensures
        sources_prefix(mappers, m) == sources_prefix(mappers, n),
    decreases m - n,
{
    if n < m {
        lemma_sources_prefix_error(mappers, n, (m - 1) as nat);
    }
}

/// Generates the files of every mapper, in the order of the mappers. The first
/// mapper that cannot be compiled gives the error.
pub fn gen_c(mappers: Vec<Mapper>) -> (r: Result<Vec<MapperSource>, GenCError>)
    ensures
        match r {
            Ok(files) => sources_prefix(
                mappers@.map_values(|m: Mapper| m@),
                mappers@.len(),
            ) == Ok::<Seq<MapperSourceView>, Seq<char>>(
                files@.map_values(|f: MapperSource| f@),
            ),
            Err(e) => sources_prefix(mappers@.map_values(|m: Mapper| m@), mappers@.len()) == Err::<
                Seq<MapperSourceView>,
                Seq<char>,
            >(e@),
        },
{
    let ghost views = mappers@.map_values(|m: Mapper| m@);
    let mut files: Vec<MapperSource> = Vec::new();
    proof {
        assert(files@.map_values(|f: MapperSource| f@) =~= Seq::<MapperSourceView>::empty());
    }
    let mut i: usize = 0;
    while i < mappers.len()
        invariant
            i <= mappers@.len(),
            views == mappers@.map_values(|m: Mapper| m@),
            sources_prefix(views, i as nat) == Ok::<Seq<MapperSourceView>, Seq<char>>(
                files@.map_values(|f: MapperSource| f@),
            ),
        decreases mappers@.len() - i,
    {
        let ghost before = files@.map_values(|f: MapperSource| f@);
        match gen_mapper_src(&mappers[i]) {
            Err(e) => {
                proof {
                    lemma_sources_prefix_error(views, (i + 1) as nat, views.len());
                }
                return Err(e);
            },
            Ok(source) => {
                files.push(source);
                proof {
                    assert(files@.map_values(|f: MapperSource| f@) =~= before.push(source@));
                }
            },
        }
        i += 1;
    }
    Ok(files)
}

} // verus!
