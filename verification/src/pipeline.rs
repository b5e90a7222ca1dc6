//! Turning the text of one module into its semantic lines, and the header
//! of a bytecode file.
use vstd::prelude::*;
use indexmap::IndexMap;
use crate::bytecode::{BytecodeStream, F750_MAGIC, F750_VERSION};
use crate::compiler::{
    BindingTable, CompilerError, CompilerErrorV, LabelTable, binding_table_bytes, externals_qualified,
    label_records, lower_label_modules, lower_modules, module_sources, modules_defs_size,
    modules_instr_count, spec_binding_table, spec_label_table, table_chunks_valid,
};
use crate::parser::{ParseError, ParseErrorDetails, ParseErrorV, lines_view, parse_source, spec_parse_source};
use crate::semantic::{SemanticRepr, SemanticReprV, reprs_view};
use crate::tokenizer::{Token, TokenV, spec_tokenize_line, tokenize_line};

verus! {

/// The tokens of each of the lines `lines`, or the index of the first line
/// that cannot be tokenized and why.
pub open spec fn tokenize_lines(lines: Seq<Seq<char>>) -> Result<Seq<Seq<TokenV>>, (int, ParseErrorV)>
    decreases lines.len(),
{
    if lines.len() == 0 {
        Ok(Seq::empty())
    } else {
        match tokenize_lines(lines.drop_last()) {
            Err(e) => Err(e),
            Ok(ts) => match spec_tokenize_line(lines.last()) {
                Ok(t) => Ok(ts.push(t)),
                Err(e) => Err((lines.len() - 1, e)),
            },
        }
    }
}

/// The texts of the lines `lines`.
pub open spec fn line_texts(lines: Seq<String>) -> Seq<Seq<char>> {
    lines.map_values(|s: String| s@)
}

/// The semantic lines that the text `lines` parses to, if it tokenizes and
/// parses.
pub open spec fn parsed_module(lines: Seq<Seq<char>>) -> Option<Seq<SemanticReprV>> {
    match tokenize_lines(lines) {
        Ok(ts) => match spec_parse_source(ts) {
            Ok(p) => Some(p),
            Err(_) => None,
        },
        Err(_) => None,
    }
}

/// Why a module could not be turned into semantic lines.
#[derive(Debug)]
pub enum ModuleFailure {
    /// The line with this index could not be tokenized.
    Tokenize { line: usize, error: ParseError },
    /// The tokens could not be parsed.
    Parse(ParseErrorDetails),
}

/// Tokenizes and parses the lines of one module. Returns the semantic
/// lines, or the first step that fails: the first line that cannot be
/// tokenized, or the parse error.
pub fn parse_module(lines: &Vec<String>) -> (r: Result<Vec<SemanticRepr>, ModuleFailure>)
    ensures
        match r {
            Ok(parsed) => parsed_module(line_texts(lines@)) == Some(reprs_view(parsed@)),
            Err(ModuleFailure::Tokenize { line, error }) =>
                tokenize_lines(line_texts(lines@)) == Err::<Seq<Seq<TokenV>>, _>((line as int, error@)),
            Err(ModuleFailure::Parse(d)) => {
                &&& tokenize_lines(line_texts(lines@)) matches Ok(ts)
                &&& spec_parse_source(ts) == Err::<Seq<SemanticReprV>, _>((d.kind@, d.line_count as int))
            },
        },
{
    let ghost texts = line_texts(lines@);
    let mut tokenized: Vec<Vec<Token>> = Vec::new();
    let n = lines.len();
    proof {
        assert(texts.subrange(0, 0) =~= Seq::<Seq<char>>::empty());
        assert(lines_view(tokenized@) =~= Seq::<Seq<TokenV>>::empty());
    }
    for i in 0..n
        invariant
            n == lines@.len(),
            texts == line_texts(lines@),
            tokenized@.len() == i,
            tokenize_lines(texts.subrange(0, i as int)) == Ok::<_, (int, ParseErrorV)>(lines_view(tokenized@)),
    {
        proof {
            assert(texts.subrange(0, i + 1).drop_last() =~= texts.subrange(0, i as int));
            assert(texts.subrange(0, i + 1).last() == lines@[i as int]@);
        }
        match tokenize_line(lines[i].as_str()) {
            Ok(tokens) => {
                let ghost before = lines_view(tokenized@);
                tokenized.push(tokens);
                proof {
                    assert(lines_view(tokenized@) =~= before.push(crate::tokenizer::tokens_view(tokenized@[i as int]@)));
                }
            },
            Err(e) => {
                proof {
                    lemma_tokenize_lines_stop(texts, i as int + 1);
                }
                return Err(ModuleFailure::Tokenize { line: i, error: e });
            },
        }
    }
    proof {
        assert(texts.subrange(0, n as int) =~= texts);
    }
    match parse_source(tokenized.as_slice()) {
        Ok(p) => Ok(p),
        Err(d) => Err(ModuleFailure::Parse(d)),
    }
}

/// A line that cannot be tokenized stops the tokenizing of all lines: the
/// error of the first `k` lines is that of all of them.
proof fn lemma_tokenize_lines_stop(lines: Seq<Seq<char>>, k: int)
    requires
        0 <= k <= lines.len(),
        tokenize_lines(lines.subrange(0, k)) is Err,
    ensures
        tokenize_lines(lines) == tokenize_lines(lines.subrange(0, k)),
    decreases lines.len() - k,
{
    if k == lines.len() {
        assert(lines.subrange(0, k) =~= lines);
    } else {
        assert(lines.subrange(0, k + 1).drop_last() =~= lines.subrange(0, k));
        lemma_tokenize_lines_stop(lines, k + 1);
    }
}

/// Writes the header of a bytecode file: the magic number, then the format
/// version, each as four little-endian bytes.
pub fn write_file_header(stream: &mut BytecodeStream)
    ensures
        final(stream)@ == old(stream)@ + vstd::bytes::spec_u32_to_le_bytes(F750_MAGIC)
            + vstd::bytes::spec_u32_to_le_bytes(F750_VERSION),
{
    stream.write_u32(F750_MAGIC);
    stream.write_u32(F750_VERSION);
}

/// The bytes of a program's bytecode file: the header, the binding table
/// written with the float parts `chunks`, and the label table `labels`.
pub open spec fn program_bytes(
    bindings: crate::compiler::BindingTableV,
    chunks: Seq<Seq<Seq<u8>>>,
    labels: Seq<(crate::value::SymbolNameV, crate::compiler::LabelTableEntryV)>,
) -> Seq<u8> {
    vstd::bytes::spec_u32_to_le_bytes(F750_MAGIC) + vstd::bytes::spec_u32_to_le_bytes(F750_VERSION)
        + binding_table_bytes(bindings.entries, chunks) + label_records(labels, labels.len()).0
}

/// Builds the binding table of the expanded modules and lowers their
/// binding references, builds the label table of the lowered modules and
/// inlines their labels, and writes the bytecode file: the header, the
/// binding table and the label table. Returns the first error of a table;
/// the modules are then left as the step that failed leaves them.
pub fn compile_modules<F: Fn(&String, bool) -> Vec<u8>>(
    modules: &mut IndexMap<String, Vec<SemanticRepr>>,
    encode_float: &F,
) -> (r: Result<BytecodeStream, CompilerError>)
    requires
        forall|t: &String, d: bool| encode_float.requires((t, d)),
        modules_defs_size(module_sources(*old(modules))) <= usize::MAX,
        modules_instr_count(module_sources(*old(modules))) <= u64::MAX,
        externals_qualified(module_sources(*old(modules))),
    ensures
        match spec_binding_table(module_sources(*old(modules))) {
            Err(e) => r matches Err(x) && x@ == e && module_sources(*final(modules)) == module_sources(*old(modules)),
            Ok(t) => {
                let low = lower_modules(t, module_sources(*old(modules)));
                match low.1 {
                    Some(e) => r matches Err(x) && x@ == e && module_sources(*final(modules)) == low.0,
                    None => match spec_label_table(low.0) {
                        Err(e) => r matches Err(x) && x@ == e && module_sources(*final(modules)) == low.0,
                        Ok(l) => {
                            &&& module_sources(*final(modules)) == lower_label_modules(l, low.0)
                            &&& r matches Ok(s) && exists|chunks: Seq<Seq<Seq<u8>>>|
                                table_chunks_valid(*encode_float, t.entries, chunks)
                                && s@ == program_bytes(t, chunks, l)
                        },
                    },
                }
            },
        },
{
    let ghost mods = module_sources(*modules);
    let bindings = match BindingTable::parse_and_lower(modules) {
        Ok(b) => b,
        Err(e) => {
            return Err(e);
        },
    };
    let ghost low = module_sources(*modules);
    proof {
        crate::compiler::lemma_binding_names_qualified(mods);
        crate::compiler::lemma_lowering_keeps_externals_qualified(bindings@, mods);
        crate::compiler::lemma_binding_table_layout(mods);
        crate::compiler::lemma_lowering_keeps_instruction_count(bindings@, mods);
    }
    let labels = match LabelTable::parse(modules) {
        Ok(l) => l,
        Err(e) => {
            return Err(e);
        },
    };
    proof {
        crate::compiler::lemma_label_names_qualified(low);
    }
    labels.lower_labels(modules);
    let mut stream = BytecodeStream::new(0);
    write_file_header(&mut stream);
    let ghost header = stream@;
    bindings.serialize(&mut stream, encode_float);
    let ghost after_bindings = stream@;
    labels.serialize(&mut stream);
    proof {
        let chunks = choose|chunks: Seq<Seq<Seq<u8>>>| table_chunks_valid(*encode_float, bindings@.entries, chunks)
            && after_bindings == header + binding_table_bytes(bindings@.entries, chunks);
        assert(stream@ =~= program_bytes(bindings@, chunks, labels@));
    }
    Ok(stream)
}

} // verus!
