use vstd::prelude::*;
use crate::model::{
    Artifact, BuildError, CompileResult, Diagnostic, EntityOutput, FileContracts,
    NamedEntity, SourceFile, SourceMeta,
};

verus! {

/// The final component of a path, as `std::path::Path::file_name` gives it.
pub uninterp spec fn file_name_of(path: Seq<char>) -> Option<Seq<char>>;

/// Relies on `std::path::Path::file_name`: the final component of the path,
/// if it has one. Going through `to_str` only converts, as the path came
/// from a `str`.
#[verifier::external_body]
fn path_file_name(path: &String) -> (r: Option<String>)
    ensures
        match r {
            Some(s) => file_name_of(path@) == Some(s@),
            None => file_name_of(path@) is None,
        },
{
    std::path::Path::new(path.as_str()).file_name().and_then(|n| n.to_str()).map(
        |n| n.to_string(),
    )
}

/// Relies on the derived `Clone` of `serde_json::Value`: a deep copy,
/// equal to the value copied.
#[verifier::external_body]
fn clone_json(v: &serde_json::Value) -> (r: serde_json::Value)
    ensures
        r == *v,
{
    v.clone()
}

/// `j` is the first position in `metas` whose path is `p`.
pub open spec fn first_meta(metas: Seq<SourceMeta>, p: Seq<char>, j: int) -> bool {
    &&& 0 <= j < metas.len()
    &&& metas[j].path@ == p
    &&& forall|k: int| 0 <= k < j ==> metas[k].path@ != p
}

pub open spec fn has_meta(metas: Seq<SourceMeta>, p: Seq<char>) -> bool {
    exists|j: int| 0 <= j < metas.len() && metas[j].path@ == p
}

/// The metadata that the compiler reports for path `p` (the first entry
/// under that path).
pub open spec fn meta_for(metas: Seq<SourceMeta>, p: Seq<char>) -> SourceMeta {
    metas[choose|j: int| first_meta(metas, p, j)]
}

/// `j` is the first position in `files` whose path is `p`.
pub open spec fn first_file(files: Seq<SourceFile>, p: Seq<char>, j: int) -> bool {
    &&& 0 <= j < files.len()
    &&& files[j].path@ == p
    &&& forall|k: int| 0 <= k < j ==> files[k].path@ != p
}

pub open spec fn has_file(files: Seq<SourceFile>, p: Seq<char>) -> bool {
    exists|j: int| 0 <= j < files.len() && files[j].path@ == p
}

/// The source file handed in under path `p` (the first one).
pub open spec fn file_for(files: Seq<SourceFile>, p: Seq<char>) -> SourceFile {
    files[choose|j: int| first_file(files, p, j)]
}

/// A path of the response can be turned into artifacts: the compiler
/// reported metadata for it, it was handed in, and it has a file name.
pub open spec fn path_resolves(out: CompileResult, files: Seq<SourceFile>, p: Seq<char>) -> bool {
    &&& has_meta(out.sources@, p)
    &&& has_file(files, p)
    &&& file_name_of(p) is Some
}

/// `e` is the error that reports why path `p` does not resolve; the checks
/// are made in the order metadata, source file, file name.
pub open spec fn error_for_path(
    out: CompileResult,
    files: Seq<SourceFile>,
    p: Seq<char>,
    e: BuildError,
) -> bool {
    if !has_meta(out.sources@, p) {
        e matches BuildError::MissingSourceMeta(s) && s@ == p
    } else if !has_file(files, p) {
        e matches BuildError::MissingSourceFile(s) && s@ == p
    } else {
        e matches BuildError::InvalidSourcePath(s) && s@ == p && file_name_of(p) is None
    }
}

/// `e` reports the first path of the response that does not resolve.
pub open spec fn first_unresolved_error(out: CompileResult, files: Seq<SourceFile>, e: BuildError) -> bool {
    exists|i: int|
        #![trigger out.contracts@[i]]
        0 <= i < out.contracts@.len() && (forall|k: int|
            0 <= k < i ==> path_resolves(out, files, #[trigger] out.contracts@[k].path@))
            && !path_resolves(out, files, out.contracts@[i].path@) && error_for_path(
            out,
            files,
            out.contracts@[i].path@,
            e,
        )
}

/// The (path, contract) pairs of the response, path after path, each
/// path's contracts in order.
pub open spec fn entries(cs: Seq<FileContracts>) -> Seq<(Seq<char>, NamedEntity)>
    decreases cs.len(),
{
    if cs.len() == 0 {
        Seq::empty()
    } else {
        entries(cs.drop_last()) + cs.last().entities@.map_values(
            |e: NamedEntity| (cs.last().path@, e),
        )
    }
}

/// The number of contracts in the response.
pub open spec fn total_entities(cs: Seq<FileContracts>) -> nat
    decreases cs.len(),
{
    if cs.len() == 0 {
        0
    } else {
        total_entities(cs.drop_last()) + cs.last().entities@.len()
    }
}

/// `a` merges contract `e`, declared under `path`, with the file-level
/// values: the file name, the source text and the AST.
pub open spec fn is_artifact_of(
    a: Artifact,
    path: Seq<char>,
    file_name: Seq<char>,
    text: Seq<char>,
    ast: serde_json::Value,
    e: NamedEntity,
) -> bool {
    &&& a.contract_name@ == e.name@
    &&& a.file_name@ == file_name
    &&& a.source_path@ == path
    &&& a.source@ == text
    &&& a.bytecode@ == e.output.bytecode.object@
    &&& a.deployed_bytecode@ == e.output.deployed_bytecode.object@
    &&& a.source_map@ == e.output.bytecode.source_map@
    &&& a.deployed_source_map@ == e.output.deployed_bytecode.source_map@
    &&& a.abi == e.output.abi
    &&& a.ast == ast
}

/// `a` is the artifact of the (path, contract) pair `en` of response `out`.
pub open spec fn artifact_of_entry(
    out: CompileResult,
    files: Seq<SourceFile>,
    en: (Seq<char>, NamedEntity),
    a: Artifact,
) -> bool {
    is_artifact_of(
        a,
        en.0,
        file_name_of(en.0)->Some_0,
        file_for(files, en.0).content@,
        meta_for(out.sources@, en.0).ast,
        en.1,
    )
}

pub open spec fn artifacts_match(
    out: CompileResult,
    files: Seq<SourceFile>,
    es: Seq<(Seq<char>, NamedEntity)>,
    arts: Seq<Artifact>,
) -> bool {
    &&& arts.len() == es.len()
    &&& forall|k: int| 0 <= k < arts.len() ==> artifact_of_entry(out, files, es[k], #[trigger] arts[k])
}

/// Every path of the response resolves.
pub open spec fn all_resolve(out: CompileResult, files: Seq<SourceFile>) -> bool {
    forall|i: int|
        0 <= i < out.contracts@.len() ==> path_resolves(out, files, #[trigger] out.contracts@[i].path@)
}

/// `arts` holds one artifact per (path, contract) pair of the response, in
/// the response's order.
pub open spec fn decomposed(out: CompileResult, files: Seq<SourceFile>, arts: Seq<Artifact>) -> bool {
    artifacts_match(out, files, entries(out.contracts@), arts)
}

proof fn lemma_meta_for(metas: Seq<SourceMeta>, p: Seq<char>, j: int)
    requires
        first_meta(metas, p, j),
    ensures
        meta_for(metas, p) == metas[j],
{
    let c = choose|c: int| first_meta(metas, p, c);
    assert(first_meta(metas, p, c));
    if c < j {
        assert(metas[c].path@ != p);
    } else if c > j {
        assert(metas[j].path@ != p);
    }
}

proof fn lemma_file_for(files: Seq<SourceFile>, p: Seq<char>, j: int)
    requires
        first_file(files, p, j),
    ensures
        file_for(files, p) == files[j],
{
    let c = choose|c: int| first_file(files, p, c);
    assert(first_file(files, p, c));
    if c < j {
        assert(files[c].path@ != p);
    } else if c > j {
        assert(files[j].path@ != p);
    }
}

fn find_source_meta(metas: &Vec<SourceMeta>, p: &String) -> (r: Option<usize>)
    ensures
        match r {
            Some(j) => first_meta(metas@, p@, j as int),
            None => !has_meta(metas@, p@),
        },
{
    let mut i: usize = 0;
    while i < metas.len()
        invariant
            0 <= i <= metas@.len(),
            forall|k: int| 0 <= k < i ==> metas@[k].path@ != p@,
        decreases metas@.len() - i,
    {
        if metas[i].path == *p {
            return Some(i);
        }
        i += 1;
    }
    None
}

pub(crate) fn find_source_file(files: &Vec<SourceFile>, p: &String) -> (r: Option<usize>)
    ensures
        match r {
            Some(j) => first_file(files@, p@, j as int),
            None => !has_file(files@, p@),
        },
{
    let mut i: usize = 0;
    while i < files.len()
        invariant
            0 <= i <= files@.len(),
            forall|k: int| 0 <= k < i ==> files@[k].path@ != p@,
        decreases files@.len() - i,
    {
        if files[i].path == *p {
            return Some(i);
        }
        i += 1;
    }
    None
}

/// Merges contract `name` of the file at `path` with the file-level values:
/// its file name, its source text and the AST that the compiler reported.
pub fn build_contract_schema(
    path: &String,
    file_name: &String,
    name: &String,
    source: &String,
    solc_source: &SourceMeta,
    solc_contract: &EntityOutput,
) -> (r: Artifact)
    ensures
        is_artifact_of(
            r,
            path@,
            file_name@,
            source@,
            solc_source.ast,
            NamedEntity { name: *name, output: *solc_contract },
        ),
{
    Artifact {
        abi: clone_json(&solc_contract.abi),
        bytecode: solc_contract.bytecode.object.clone(),
        deployed_bytecode: solc_contract.deployed_bytecode.object.clone(),
        contract_name: name.clone(),
        file_name: file_name.clone(),
        ast: clone_json(&solc_source.ast),
        source_path: path.clone(),
        source: source.clone(),
        source_map: solc_contract.bytecode.source_map.clone(),
        deployed_source_map: solc_contract.deployed_bytecode.source_map.clone(),
    }
}

proof fn lemma_entries_step(cs: Seq<FileContracts>, i: int)
    requires
        0 <= i < cs.len(),
    ensures
        entries(cs.take(i + 1)) == entries(cs.take(i)) + cs[i].entities@.map_values(
            |e: NamedEntity| (cs[i].path@, e),
        ),
{
    assert(cs.take(i + 1).drop_last() =~= cs.take(i));
}

/// Builds one artifact per (path, contract) pair of the compiler's response,
/// path after path and each path's contracts in order. Each path is looked
/// up once: its metadata in the response, its text among `sources`, and its
/// file name. The first path for which one of these is missing decides the
/// error.
pub fn build_contract_schemas(output: &CompileResult, sources: &Vec<SourceFile>) -> (r: Result<
    Vec<Artifact>,
    BuildError,
>)
    ensures
        match r {
            Ok(arts) => all_resolve(*output, sources@) && decomposed(*output, sources@, arts@),
            Err(e) => first_unresolved_error(*output, sources@, e) && e.spec_is_malformed_response(),
        },
{
    let ghost cs = output.contracts@;
    let mut arts: Vec<Artifact> = Vec::new();
    let n = output.contracts.len();
    let mut i: usize = 0;
    while i < n
        invariant
            n == cs.len(),
            cs == output.contracts@,
            0 <= i <= n,
            forall|k: int| 0 <= k < i ==> path_resolves(*output, sources@, #[trigger] cs[k].path@),
            artifacts_match(*output, sources@, entries(cs.take(i as int)), arts@),
        decreases n - i,
    {
        let fc: &FileContracts = &output.contracts[i];
        let mi = match find_source_meta(&output.sources, &fc.path) {
            Some(j) => j,
            None => {
                return Err(BuildError::MissingSourceMeta(fc.path.clone()));
            },
        };
        let fi = match find_source_file(sources, &fc.path) {
            Some(j) => j,
            None => {
                return Err(BuildError::MissingSourceFile(fc.path.clone()));
            },
        };
        let file_name = match path_file_name(&fc.path) {
            Some(f) => f,
            None => {
                return Err(BuildError::InvalidSourcePath(fc.path.clone()));
            },
        };
        let meta: &SourceMeta = &output.sources[mi];
        let text: &String = &sources[fi].content;
        proof {
            lemma_meta_for(output.sources@, fc.path@, mi as int);
            lemma_file_for(sources@, fc.path@, fi as int);
            lemma_entries_step(cs, i as int);
        }
        let ghost done = entries(cs.take(i as int));
        let ghost fresh = fc.entities@.map_values(|e: NamedEntity| (fc.path@, e));
        let m = fc.entities.len();
        let mut j: usize = 0;
        while j < m
            invariant
                m == fc.entities@.len(),
                0 <= j <= m,
                arts@.len() == done.len() + j,
                fresh == fc.entities@.map_values(|e: NamedEntity| (fc.path@, e)),
                meta_for(output.sources@, fc.path@) == *meta,
                file_for(sources@, fc.path@).content == *text,
                file_name_of(fc.path@) == Some(file_name@),
                forall|k: int|
                    0 <= k < done.len() ==> artifact_of_entry(
                        *output,
                        sources@,
                        done[k],
                        #[trigger] arts@[k],
                    ),
                forall|k: int|
                    done.len() <= k < done.len() + j ==> artifact_of_entry(
                        *output,
                        sources@,
                        fresh[k - done.len()],
                        #[trigger] arts@[k],
                    ),
            decreases m - j,
        {
            let ent: &NamedEntity = &fc.entities[j];
            let a = build_contract_schema(&fc.path, &file_name, &ent.name, text, meta, &ent.output);
            proof {
                assert(fresh[j as int] == (fc.path@, fc.entities@[j as int]));
                assert(NamedEntity { name: ent.name, output: ent.output } == fc.entities@[j as int]);
                assert(artifact_of_entry(*output, sources@, fresh[j as int], a));
            }
            arts.push(a);
            j += 1;
        }
        proof {
            let all = entries(cs.take(i + 1));
            assert(all == done + fresh);
            assert forall|k: int| 0 <= k < arts@.len() implies artifact_of_entry(
                *output,
                sources@,
                all[k],
                #[trigger] arts@[k],
            ) by {
                if k < done.len() {
                    assert(all[k] == done[k]);
                } else {
                    assert(all[k] == fresh[k - done.len()]);
                }
            }
        }
        i += 1;
    }
    proof {
        assert(cs.take(n as int) =~= cs);
    }
    Ok(arts)
}

/// A diagnostic that reports a failed compilation.
pub open spec fn is_error_diagnostic(d: Diagnostic) -> bool {
    d.severity@ == "error"@
}

/// `e` carries the message of diagnostic `d`.
pub open spec fn reports_diagnostic(e: BuildError, d: Diagnostic) -> bool {
    e matches BuildError::CompilerReportedError(m) && m@ == d.formatted_message@
}

/// `e` reports the first diagnostic of severity `error`.
pub open spec fn first_error_reported(errors: Seq<Diagnostic>, e: BuildError) -> bool {
    exists|i: int|
        0 <= i < errors.len() && is_error_diagnostic(#[trigger] errors[i]) && (forall|k: int|
            0 <= k < i ==> !is_error_diagnostic(#[trigger] errors[k])) && reports_diagnostic(
            e,
            errors[i],
        )
}

/// Fails on the first diagnostic of severity `error`, with its message.
pub fn check_diagnostics(errors: &Vec<Diagnostic>) -> (r: Result<(), BuildError>)
    ensures
        match r {
            Ok(_) => forall|k: int| 0 <= k < errors@.len() ==> !is_error_diagnostic(#[trigger] errors@[k]),
            Err(e) => first_error_reported(errors@, e),
        },
{
    let error_severity = String::from_str("error");
    let mut i: usize = 0;
    while i < errors.len()
        invariant
            0 <= i <= errors@.len(),
            error_severity@ == "error"@,
            forall|k: int| 0 <= k < i ==> !is_error_diagnostic(#[trigger] errors@[k]),
        decreases errors@.len() - i,
    {
        if errors[i].severity == error_severity {
            return Err(BuildError::CompilerReportedError(errors[i].formatted_message.clone()));
        }
        i += 1;
    }
    Ok(())
}

/// The whole decomposition of a response: a diagnostic of severity `error`
/// stops it before any artifact is built; otherwise the artifacts are those
/// of `build_contract_schemas`.
pub fn artifacts_from_output(output: &CompileResult, sources: &Vec<SourceFile>) -> (r: Result<
    Vec<Artifact>,
    BuildError,
>)
    ensures
        match r {
            Ok(arts) => (forall|i: int|
                0 <= i < output.errors@.len() ==> !is_error_diagnostic(#[trigger] output.errors@[i]))
                && all_resolve(*output, sources@) && decomposed(*output, sources@, arts@),
            Err(e) => first_error_reported(output.errors@, e) || ((forall|i: int|
                0 <= i < output.errors@.len() ==> !is_error_diagnostic(#[trigger] output.errors@[i]))
                && first_unresolved_error(*output, sources@, e)),
        },
{
    match check_diagnostics(&output.errors) {
        Ok(_) => {},
        Err(e) => {
            return Err(e);
        },
    }
    build_contract_schemas(output, sources)
}

/// Paths and contract names of the response are non-empty, as in any
/// response of the compiler.
pub open spec fn names_present(cs: Seq<FileContracts>) -> bool {
    forall|i: int|
        0 <= i < cs.len() ==> (#[trigger] cs[i]).path@.len() > 0 && forall|j: int|
            0 <= j < cs[i].entities@.len() ==> (#[trigger] cs[i].entities@[j]).name@.len() > 0
}

/// `en` is contract `j` of path `i` of `cs`.
pub open spec fn is_entry_at(
    cs: Seq<FileContracts>,
    i: int,
    j: int,
    en: (Seq<char>, NamedEntity),
) -> bool {
    0 <= i < cs.len() && 0 <= j < cs[i].entities@.len() && en == (cs[i].path@, cs[i].entities@[j])
}

/// `en` is one of the (path, contract) pairs of `cs`.
pub open spec fn has_origin(cs: Seq<FileContracts>, en: (Seq<char>, NamedEntity)) -> bool {
    exists|i: int, j: int| #[trigger] is_entry_at(cs, i, j, en)
}

proof fn lemma_entries_origin(cs: Seq<FileContracts>)
    ensures
        entries(cs).len() == total_entities(cs),
        forall|k: int|
            #![trigger entries(cs)[k]]
            0 <= k < entries(cs).len() ==> has_origin(cs, entries(cs)[k]),
    decreases cs.len(),
{
    if cs.len() > 0 {
        let init = cs.drop_last();
        lemma_entries_origin(init);
        let last = cs.len() - 1;
        let fresh = cs.last().entities@.map_values(|e: NamedEntity| (cs.last().path@, e));
        assert(entries(cs) == entries(init) + fresh);
        assert forall|k: int|
            #![trigger entries(cs)[k]]
            0 <= k < entries(cs).len() implies has_origin(cs, entries(cs)[k]) by {
            if k < entries(init).len() {
                let (i, j) = choose|i: int, j: int| #[trigger] is_entry_at(init, i, j, entries(init)[k]);
                assert(entries(cs)[k] == entries(init)[k]);
                assert(init[i] == cs[i]);
                assert(is_entry_at(cs, i, j, entries(cs)[k]));
            } else {
                let j = k - entries(init).len();
                assert(entries(cs)[k] == fresh[j]);
                assert(is_entry_at(cs, last, j, entries(cs)[k]));
            }
        }
    } else {
        assert(entries(cs).len() == 0);
    }
}

/// Decomposing a well-formed response gives exactly one artifact per
/// contract it reports, each with a non-empty contract name and source path.
pub proof fn lemma_one_artifact_per_contract(
    out: CompileResult,
    files: Seq<SourceFile>,
    arts: Seq<Artifact>,
)
    requires
        names_present(out.contracts@),
        decomposed(out, files, arts),
    ensures
        arts.len() == total_entities(out.contracts@),
        forall|k: int|
            0 <= k < arts.len() ==> (#[trigger] arts[k]).contract_name@.len() > 0
                && arts[k].source_path@.len() > 0,
{
    let cs = out.contracts@;
    lemma_entries_origin(cs);
    assert forall|k: int| 0 <= k < arts.len() implies (#[trigger] arts[k]).contract_name@.len() > 0
        && arts[k].source_path@.len() > 0 by {
        assert(artifact_of_entry(out, files, entries(cs)[k], arts[k]));
        let (i, j) = choose|i: int, j: int| #[trigger] is_entry_at(cs, i, j, entries(cs)[k]);
        assert(cs[i].entities@[j].name@.len() > 0);
    }
}

/// The file name of every artifact is the final component of its source
/// path.
pub proof fn lemma_file_name_is_basename(out: CompileResult, files: Seq<SourceFile>, arts: Seq<Artifact>)
    requires
        all_resolve(out, files),
        decomposed(out, files, arts),
    ensures
        forall|k: int|
            0 <= k < arts.len() ==> file_name_of((#[trigger] arts[k]).source_path@) == Some(
                arts[k].file_name@,
            ),
{
    let cs = out.contracts@;
    lemma_entries_origin(cs);
    assert forall|k: int| 0 <= k < arts.len() implies file_name_of(
        (#[trigger] arts[k]).source_path@,
    ) == Some(arts[k].file_name@) by {
        assert(artifact_of_entry(out, files, entries(cs)[k], arts[k]));
        let (i, j) = choose|i: int, j: int| #[trigger] is_entry_at(cs, i, j, entries(cs)[k]);
        assert(path_resolves(out, files, cs[i].path@));
    }
}

/// Two artifacts hold the same values in every field.
pub open spec fn same_artifact(a: Artifact, b: Artifact) -> bool {
    &&& a.contract_name@ == b.contract_name@
    &&& a.file_name@ == b.file_name@
    &&& a.source_path@ == b.source_path@
    &&& a.source@ == b.source@
    &&& a.bytecode@ == b.bytecode@
    &&& a.deployed_bytecode@ == b.deployed_bytecode@
    &&& a.source_map@ == b.source_map@
    &&& a.deployed_source_map@ == b.deployed_source_map@
    &&& a.abi == b.abi
    &&& a.ast == b.ast
}

/// Decomposing the same response against the same sources twice gives the
/// same artifacts, in the same order.
pub proof fn lemma_decompose_deterministic(
    out: CompileResult,
    files: Seq<SourceFile>,
    first: Seq<Artifact>,
    second: Seq<Artifact>,
)
    requires
        decomposed(out, files, first),
        decomposed(out, files, second),
    ensures
        first.len() == second.len(),
        forall|k: int| 0 <= k < first.len() ==> same_artifact(#[trigger] first[k], second[k]),
{
    let es = entries(out.contracts@);
    assert forall|k: int| 0 <= k < first.len() implies same_artifact(#[trigger] first[k], second[k]) by {
        assert(artifact_of_entry(out, files, es[k], first[k]));
        assert(artifact_of_entry(out, files, es[k], second[k]));
    }
}

} // verus!
