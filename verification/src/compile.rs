//! From the text of a mapper document to the text of its C files, and the rule
//! that tells which files of a directory are mapper documents.

use crate::genc::{gen_mapper_src, mapper_source_model, GenCError, MapperSource, MapperSourceView};
use crate::mapper::ParseMapperError;
use crate::parse::{mapper_of_text, parse_mapper_text};
use crate::text::{chars_of, ends_with};
use vstd::prelude::*;

verus! {

/// Why a document was not compiled: it could not be read, or what it describes
/// could not be turned into C.
#[derive(Debug)]
pub enum CompileError {
    Parse(ParseMapperError),
    Generate(GenCError),
}

/// The contents of a [`CompileError`].
pub enum CompileErrorView {
    Parse(Seq<char>),
    Generate(Seq<char>),
}

impl View for CompileError {
    type V = CompileErrorView;

    open spec fn view(&self) -> CompileErrorView {
        match self {
            CompileError::Parse(e) => CompileErrorView::Parse(e@),
            CompileError::Generate(e) => CompileErrorView::Generate(e@),
        }
    }
}

/// The files that are generated for the text of a mapper document.
pub open spec fn compile_model(text: Seq<char>) -> Result<MapperSourceView, CompileErrorView> {
    match mapper_of_text(text) {
        Err(message) => Err(CompileErrorView::Parse(message)),
        Ok(mapper) => match mapper_source_model(mapper) {
            Err(message) => Err(CompileErrorView::Generate(message)),
            Ok(files) => Ok(files),
        },
    }
}

/// Compiling is deterministic: the same text gives the same files, character
/// for character, or the same error.
pub proof fn lemma_compile_is_deterministic(a: Seq<char>, b: Seq<char>)
    requires
        a == b,
    ensures
        compile_model(a) == compile_model(b),
{
}

/// Compiles the text of a mapper document to the text of its header and of its
/// source file.
pub fn compile_mapper(text: &str) -> (r: Result<MapperSource, CompileError>)
    ensures
        match r {
            Ok(files) => compile_model(text@) == Ok::<MapperSourceView, CompileErrorView>(files@),
            Err(e) => compile_model(text@) == Err::<MapperSourceView, CompileErrorView>(e@),
        },
{
    match parse_mapper_text(text) {
        Err(e) => Err(CompileError::Parse(e)),
        Ok(mapper) => match gen_mapper_src(&mapper) {
            Err(e) => Err(CompileError::Generate(e)),
            Ok(files) => Ok(files),
        },
    }
}

/// Whether a file of this name is a mapper document: its name ends with
/// `-mapper.xml`.
pub fn is_mapper_file(file_name: &str) -> (r: bool)
    ensures
        r == ends_with(file_name@, "-mapper.xml"@),
{
    let name = chars_of(file_name);
    let suffix = chars_of("-mapper.xml");
    if suffix.len() > name.len() {
        return false;
    }
    let offset = name.len() - suffix.len();
    let ghost tail = name@.subrange(offset as int, name@.len() as int);
    let mut i: usize = 0;
    while i < suffix.len()
        invariant
            i <= suffix@.len(),
            offset + suffix@.len() == name@.len(),
            name@.len() <= usize::MAX,
            name@ == file_name@,
            suffix@ == "-mapper.xml"@,
            tail == name@.subrange(offset as int, name@.len() as int),
            forall|j: int| 0 <= j < i ==> tail[j] == suffix@[j],
        decreases suffix@.len() - i,
    {
        if name[offset + i] != suffix[i] {
            proof {
                assert(tail[i as int] != suffix@[i as int]);
            }
            return false;
        }
        i += 1;
    }
    proof {
        assert(tail =~= suffix@);
    }
    true
}

} // verus!
