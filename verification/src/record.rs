//! The record type of a result map in C: its declaration, the function that
//! makes an unset record, and the function that releases a record.

use crate::genc::{error_about, GenCError};
use crate::info::{
    col_type_null_text, col_type_of, col_type_of_text, gen_col_type_null_str, ColumnType,
};
use crate::mapper::{YoResultMap, YoResultMapView, YoResultView};
use crate::text::{concat_all, concat_prefix, same_text};
use vstd::prelude::*;
use vstd::string::StringExecFns;

verus! {

/// The declaration of one member of the record.
pub open spec fn member_line(field: YoResultView) -> Seq<char> {
    "    "@ + field.yo_type + " "@ + field.property + ";\n"@
}

/// The declarations of the members, one for each field and in their order.
pub open spec fn member_lines(fields: Seq<YoResultView>) -> Seq<Seq<char>> {
    Seq::new(fields.len(), |i: int| member_line(fields[i]))
}

/// What the header holds for the record type: the struct with one member for
/// each field, and the pointer type that the generated functions take.
pub open spec fn record_define_text(rm: YoResultMapView) -> Seq<char> {
    "struct "@ + rm.type_ + "_s {\n"@ + concat_all(member_lines(rm.results)) + "};\n"@
        + "typedef struct "@ + rm.type_ + "_s* "@ + rm.type_ + ";\n"@
}

/// The statement that sets one member of a fresh record to the value that stands
/// for "unset" in members of the given kind.
pub open spec fn unset_line(property: Seq<char>, kind: ColumnType) -> Seq<char> {
    "    n->"@ + property + " = "@ + col_type_null_text(kind) + ";\n"@
}

/// The statement of the constructor for one field. A field whose type is none
/// of the three gets none.
pub open spec fn init_line(field: YoResultView) -> Seq<char> {
    match col_type_of_text(field.yo_type) {
        Some(kind) => unset_line(field.property, kind),
        None => Seq::empty(),
    }
}

/// The statements of the constructor, one for each field and in their order.
pub open spec fn init_lines(fields: Seq<YoResultView>) -> Seq<Seq<char>> {
    Seq::new(fields.len(), |i: int| init_line(fields[i]))
}

/// The position of the first field at or after `from` whose type is none of the
/// three.
pub open spec fn unsupported_from(fields: Seq<YoResultView>, from: int) -> Option<int>
    decreases fields.len() - from,
{
    if from < 0 || from >= fields.len() {
        None
    } else if col_type_of_text(fields[from].yo_type) is None {
        Some(from)
    } else {
        unsupported_from(fields, from + 1)
    }
}

/// The position of the first field whose type is none of the three.
pub open spec fn first_unsupported(fields: Seq<YoResultView>) -> Option<int> {
    unsupported_from(fields, 0)
}

/// The message of the error for a field type that is none of the three.
pub open spec fn unsupported_type_message(yo_type: Seq<char>) -> Seq<char> {
    "unsupported type: "@ + yo_type
}

/// The declaration of the constructor in the header.
pub open spec fn record_new_decl(rm: YoResultMapView) -> Seq<char> {
    rm.type_ + " "@ + rm.type_ + "_new();\n"@
}

/// The definition of the constructor: it allocates the record and sets every
/// member to the value that stands for "unset".
pub open spec fn record_new_body(rm: YoResultMapView) -> Seq<char> {
    rm.type_ + " "@ + rm.type_ + "_new() {\n"@ + "    "@ + rm.type_ + " n = ("@ + rm.type_
        + ")malloc(sizeof(struct "@ + rm.type_ + "_s));\n"@ + concat_all(init_lines(rm.results))
        + "    return n;\n}\n\n"@
}

/// The statement of the destructor for one field: a text member is released
/// unless it is unset, a member of another kind needs nothing.
pub open spec fn release_line(field: YoResultView) -> Seq<char> {
    if field.yo_type == "yb_string_t"@ {
        "    if (n->"@ + field.property + " != YB_STRING_NULL) {\n        yb_string_free(n->"@
            + field.property + ");\n    }\n"@
    } else {
        Seq::empty()
    }
}

/// The statements of the destructor, one for each field and in their order.
pub open spec fn release_lines(fields: Seq<YoResultView>) -> Seq<Seq<char>> {
    Seq::new(fields.len(), |i: int| release_line(fields[i]))
}

/// The declaration of the destructor in the header.
pub open spec fn record_free_decl(rm: YoResultMapView) -> Seq<char> {
    "void "@ + rm.type_ + "_free("@ + rm.type_ + ");\n"@
}

/// The definition of the destructor: it releases the text members that are set,
/// then the record.
pub open spec fn record_free_body(rm: YoResultMapView) -> Seq<char> {
    "void "@ + rm.type_ + "_free("@ + rm.type_ + " n) {\n"@ + concat_all(
        release_lines(rm.results),
    ) + "    free(n);\n}\n\n"@
}

/// What the header holds for a result map.
pub open spec fn record_header_text(rm: YoResultMapView) -> Seq<char> {
    record_define_text(rm) + record_new_decl(rm) + record_free_decl(rm)
}

/// What the source file holds for a result map.
pub open spec fn record_source_text(rm: YoResultMapView) -> Seq<char> {
    record_new_body(rm) + record_free_body(rm)
}

/// Why a result map cannot be compiled, if it cannot: the message for its first
/// field whose type is none of the three.
pub open spec fn record_error(rm: YoResultMapView) -> Option<Seq<char>> {
    match first_unsupported(rm.results) {
        Some(i) => Some(unsupported_type_message(rm.results[i].yo_type)),
        None => None,
    }
}

/// Every field of a result map that compiles has one of the three kinds, and
/// `unsupported_from` finds the first field that has none.
pub proof fn lemma_unsupported_from(fields: Seq<YoResultView>, from: int)
    requires
        0 <= from,
    ensures
        match unsupported_from(fields, from) {
            Some(i) => from <= i < fields.len() && col_type_of_text(fields[i].yo_type) is None,
            None => forall|j: int|
                from <= j < fields.len() ==> col_type_of_text(
                    (#[trigger] fields[j]).yo_type,
                ) is Some,
        },
    decreases fields.len() - from,
{
    if from < fields.len() && col_type_of_text(fields[from].yo_type) is Some {
        lemma_unsupported_from(fields, from + 1);
    }
}

/// The constructor of a result map that compiles holds one statement for each
/// field, and that statement sets the field's member to the value that stands
/// for "unset" in the field's kind.
pub proof fn lemma_new_record_is_unset(rm: YoResultMapView, i: int)
    requires
        record_error(rm) is None,
        0 <= i < rm.results.len(),
    ensures
        init_lines(rm.results).len() == rm.results.len(),
        col_type_of_text(rm.results[i].yo_type) is Some,
        init_lines(rm.results)[i] == unset_line(
            rm.results[i].property,
            col_type_of_text(rm.results[i].yo_type).unwrap(),
        ),
{
    lemma_unsupported_from(rm.results, 0);
}

/// The destructor holds one statement for each field: for a text field the
/// guarded release of its member, for any other field nothing. So every text
/// member that is set is released, and none twice.
pub proof fn lemma_free_releases_text_fields(rm: YoResultMapView, i: int)
    requires
        0 <= i < rm.results.len(),
    ensures
        release_lines(rm.results).len() == rm.results.len(),
        col_type_of_text(rm.results[i].yo_type) == Some(ColumnType::STRING)
            ==> release_lines(rm.results)[i] == "    if (n->"@ + rm.results[i].property
            + " != YB_STRING_NULL) {\n        yb_string_free(n->"@ + rm.results[i].property
            + ");\n    }\n"@,
        col_type_of_text(rm.results[i].yo_type) != Some(ColumnType::STRING)
            ==> release_lines(rm.results)[i] == Seq::<char>::empty(),
{
    reveal_strlit("int64_t");
    reveal_strlit("double");
    reveal_strlit("yb_string_t");
    assert("int64_t"@.len() == 7);
    assert("double"@.len() == 6);
    assert("yb_string_t"@.len() == 11);
}

/// Appends the declaration of the record type to the header.
pub fn write_result_map_define(
    mapper_h: &mut String,
    mapper_c: &mut String,
    result_map: &YoResultMap,
) -> (r: Result<(), GenCError>)
    ensures
        r is Ok,
        final(mapper_h)@ == old(mapper_h)@ + record_define_text(result_map@),
        final(mapper_c)@ == old(mapper_c)@,
{
    let ghost fields = result_map@.results;
    let mut members = String::new();
    let mut i: usize = 0;
    while i < result_map.results.len()
        invariant
            i <= result_map.results@.len(),
            fields == result_map@.results,
            members@ == concat_prefix(member_lines(fields), i as nat),
        decreases result_map.results@.len() - i,
    {
        let field = &result_map.results[i];
        let mut line = String::from_str("    ");
        line.append(field.yo_type.as_str());
        line.append(" ");
        line.append(field.property.as_str());
        line.append(";\n");
        members.append(line.as_str());
        i += 1;
    }
    let mut t = String::from_str("struct ");
    t.append(result_map.type_.as_str());
    t.append("_s {\n");
    t.append(members.as_str());
    t.append("};\n");
    t.append("typedef struct ");
    t.append(result_map.type_.as_str());
    t.append("_s* ");
    t.append(result_map.type_.as_str());
    t.append(";\n");
    mapper_h.append(t.as_str());
    Ok(())
}

/// Appends the constructor of the record type: its declaration to the header,
/// its definition to the source file. A field whose type is none of the three
/// is an error, and then nothing is appended.
pub fn write_result_map_new(
    mapper_h: &mut String,
    mapper_c: &mut String,
    result_map: &YoResultMap,
) -> (r: Result<(), GenCError>)
    ensures
        match record_error(result_map@) {
            Some(message) => r is Err && r.unwrap_err()@ == message && final(mapper_h)@ == old(
                mapper_h,
            )@ && final(mapper_c)@ == old(mapper_c)@,
            None => r is Ok && final(mapper_h)@ == old(mapper_h)@ + record_new_decl(result_map@)
                && final(mapper_c)@ == old(mapper_c)@ + record_new_body(result_map@),
        },
{
    let ghost fields = result_map@.results;
    let mut inits = String::new();
    let mut i: usize = 0;
    while i < result_map.results.len()
        invariant
            i <= result_map.results@.len(),
            fields == result_map@.results,
            first_unsupported(fields) == unsupported_from(fields, i as int),
            inits@ == concat_prefix(init_lines(fields), i as nat),
        decreases result_map.results@.len() - i,
    {
        let field = &result_map.results[i];
        match col_type_of(field.yo_type.as_str()) {
            Some(kind) => {
                let null_name = gen_col_type_null_str(&kind);
                let mut line = String::from_str("    n->");
                line.append(field.property.as_str());
                line.append(" = ");
                line.append(null_name.as_str());
                line.append(";\n");
                inits.append(line.as_str());
            },
            None => {
                return Err(error_about("unsupported type: ", field.yo_type.as_str()));
            },
        }
        i += 1;
    }
    let mut decl = String::from_str(result_map.type_.as_str());
    decl.append(" ");
    decl.append(result_map.type_.as_str());
    decl.append("_new();\n");
    let mut t = String::from_str(result_map.type_.as_str());
    t.append(" ");
    t.append(result_map.type_.as_str());
    t.append("_new() {\n");
    t.append("    ");
    t.append(result_map.type_.as_str());
    t.append(" n = (");
    t.append(result_map.type_.as_str());
    t.append(")malloc(sizeof(struct ");
    t.append(result_map.type_.as_str());
    t.append("_s));\n");
    t.append(inits.as_str());
    t.append("    return n;\n}\n\n");
    mapper_h.append(decl.as_str());
    mapper_c.append(t.as_str());
    Ok(())
}

/// Appends the destructor of the record type: its declaration to the header,
/// its definition to the source file.
pub fn write_result_map_free(
    mapper_h: &mut String,
    mapper_c: &mut String,
    result_map: &YoResultMap,
) -> (r: Result<(), GenCError>)
    ensures
        r is Ok,
        final(mapper_h)@ == old(mapper_h)@ + record_free_decl(result_map@),
        final(mapper_c)@ == old(mapper_c)@ + record_free_body(result_map@),
{
    let ghost fields = result_map@.results;
    let mut releases = String::new();
    let mut i: usize = 0;
    while i < result_map.results.len()
        invariant
            i <= result_map.results@.len(),
            fields == result_map@.results,
            releases@ == concat_prefix(release_lines(fields), i as nat),
        decreases result_map.results@.len() - i,
    {
        let field = &result_map.results[i];
        if same_text(field.yo_type.as_str(), "yb_string_t") {
            let mut line = String::from_str("    if (n->");
            line.append(field.property.as_str());
            line.append(" != YB_STRING_NULL) {\n        yb_string_free(n->");
            line.append(field.property.as_str());
            line.append(");\n    }\n");
            releases.append(line.as_str());
        } else {
            proof {
                assert(releases@ + Seq::<char>::empty() =~= releases@);
            }
        }
        i += 1;
    }
    let mut decl = String::from_str("void ");
    decl.append(result_map.type_.as_str());
    decl.append("_free(");
    decl.append(result_map.type_.as_str());
    decl.append(");\n");
    let mut t = String::from_str("void ");
    t.append(result_map.type_.as_str());
    t.append("_free(");
    t.append(result_map.type_.as_str());
    t.append(" n) {\n");
    t.append(releases.as_str());
    t.append("    free(n);\n}\n\n");
    mapper_h.append(decl.as_str());
    mapper_c.append(t.as_str());
    Ok(())
}

/// Appends what a result map stands for in C: the record type, its constructor
/// and its destructor. On an error nothing is appended.
pub fn write_result_map(
    mapper_h: &mut String,
    mapper_c: &mut String,
    result_map: &YoResultMap,
) -> (r: Result<(), GenCError>)
    ensures
        match record_error(result_map@) {
            Some(message) => r is Err && r.unwrap_err()@ == message && final(mapper_h)@ == old(
                mapper_h,
            )@ && final(mapper_c)@ == old(mapper_c)@,
            None => r is Ok && final(mapper_h)@ == old(mapper_h)@ + record_header_text(
                result_map@,
            ) && final(mapper_c)@ == old(mapper_c)@ + record_source_text(result_map@),
        },
{
    let mut header = String::new();
    let mut source = String::new();
    let _ = write_result_map_define(&mut header, &mut source, result_map);
    match write_result_map_new(&mut header, &mut source, result_map) {
        Err(e) => {
            return Err(e);
        },
        Ok(()) => {},
    }
    let _ = write_result_map_free(&mut header, &mut source, result_map);
    proof {
        assert(header@ =~= record_header_text(result_map@));
        assert(source@ =~= record_source_text(result_map@));
    }
    mapper_h.append(header.as_str());
    mapper_c.append(source.as_str());
    Ok(())
}

} // verus!
