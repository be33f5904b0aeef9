use vstd::prelude::*;
use crate::model::SourceFile;

verus! {

/// The JSON string literal (quotes and escapes included) that
/// `serde_json::to_string` writes for a string.
pub uninterp spec fn json_string_of(s: Seq<char>) -> Seq<char>;

/// Relies on `serde_json::to_string` applied to a `str`: the JSON string
/// literal of the text. Writing into memory cannot fail, so the error arm
/// is never taken.
#[verifier::external_body]
fn json_string(s: &str) -> (r: String)
    ensures
        r@ == json_string_of(s@),
{
    serde_json::to_string(s).unwrap_or_default()
}

/// The settings of a compilation: the EVM version to target, whether the
/// optimizer runs, and the outputs requested for each file as a whole and
/// for each contract.
pub struct CompilerConfig {
    pub evm_version: String,
    pub optimizer_enabled: bool,
    pub file_outputs: Vec<String>,
    pub contract_outputs: Vec<String>,
}

impl Default for CompilerConfig {
    /// Byzantium, optimizer off, the AST of each file, and the ABI, both
    /// bytecode objects and both source maps of each contract: what an
    /// artifact is built from.
    fn default() -> (r: CompilerConfig)
        ensures
            r.evm_version@ == "byzantium"@,
            !r.optimizer_enabled,
            r.file_outputs@.len() == 1,
            r.file_outputs@[0]@ == "ast"@,
            r.contract_outputs@.len() == 5,
            r.contract_outputs@[0]@ == "abi"@,
            r.contract_outputs@[1]@ == "evm.bytecode.object"@,
            r.contract_outputs@[2]@ == "evm.bytecode.sourceMap"@,
            r.contract_outputs@[3]@ == "evm.deployedBytecode.object"@,
            r.contract_outputs@[4]@ == "evm.deployedBytecode.sourceMap"@,
    {
        let mut file_outputs: Vec<String> = Vec::new();
        file_outputs.push(String::from_str("ast"));
        let mut contract_outputs: Vec<String> = Vec::new();
        contract_outputs.push(String::from_str("abi"));
        contract_outputs.push(String::from_str("evm.bytecode.object"));
        contract_outputs.push(String::from_str("evm.bytecode.sourceMap"));
        contract_outputs.push(String::from_str("evm.deployedBytecode.object"));
        contract_outputs.push(String::from_str("evm.deployedBytecode.sourceMap"));
        CompilerConfig {
            evm_version: String::from_str("byzantium"),
            optimizer_enabled: false,
            file_outputs,
            contract_outputs,
        }
    }
}

/// The texts of `items`, separated by commas.
pub open spec fn joined(items: Seq<Seq<char>>) -> Seq<char>
    decreases items.len(),
{
    if items.len() == 0 {
        Seq::empty()
    } else {
        let init = items.drop_last();
        (if init.len() == 0 {
            Seq::empty()
        } else {
            joined(init) + ","@
        }) + items.last()
    }
}

pub open spec fn views(items: Seq<String>) -> Seq<Seq<char>> {
    items.map_values(|s: String| s@)
}

/// One member of the `sources` object, from the JSON literals of a path and
/// of its text: `<path>:{"content":<text>}`.
pub open spec fn member_text(path_json: Seq<char>, content_json: Seq<char>) -> Seq<char> {
    path_json + ":{\"content\":"@ + content_json + "}"@
}

pub open spec fn member_texts(pairs: Seq<(String, String)>) -> Seq<Seq<char>> {
    pairs.map_values(|m: (String, String)| member_text(m.0@, m.1@))
}

pub open spec fn bool_text(b: bool) -> Seq<char> {
    if b {
        "true"@
    } else {
        "false"@
    }
}

/// The Standard-JSON request, compact and with its keys in order, around
/// values already written as JSON:
/// `{"language":"Solidity","settings":{"evmVersion":..,"optimizer":{"enabled":..},
/// "outputSelection":{"*":{"":[file outputs],"*":[contract outputs]}}},"sources":{..}}`.
pub open spec fn framed_request(
    evm_version_json: Seq<char>,
    optimizer_enabled: bool,
    file_outputs_json: Seq<Seq<char>>,
    contract_outputs_json: Seq<Seq<char>>,
    members: Seq<Seq<char>>,
) -> Seq<char> {
    "{\"language\":\"Solidity\",\"settings\":{\"evmVersion\":"@ + evm_version_json
        + ",\"optimizer\":{\"enabled\":"@ + bool_text(optimizer_enabled)
        + "},\"outputSelection\":{\"*\":{\"\":["@ + joined(file_outputs_json) + "],\"*\":["@
        + joined(contract_outputs_json) + "]}}},\"sources\":{"@ + joined(members) + "}}"@
}

pub open spec fn quoted_all(items: Seq<String>) -> Seq<Seq<char>> {
    items.map_values(|s: String| json_string_of(s@))
}

pub open spec fn source_members(files: Seq<SourceFile>) -> Seq<Seq<char>> {
    files.map_values(
        |f: SourceFile| member_text(json_string_of(f.path@), json_string_of(f.content@)),
    )
}

/// The request for `files` under `cfg`, every string written as serde_json
/// writes it.
pub open spec fn request_text(cfg: CompilerConfig, files: Seq<SourceFile>) -> Seq<char> {
    framed_request(
        json_string_of(cfg.evm_version@),
        cfg.optimizer_enabled,
        quoted_all(cfg.file_outputs@),
        quoted_all(cfg.contract_outputs@),
        source_members(files),
    )
}

fn append_joined(out: &mut String, items: &Vec<String>)
    ensures
        final(out)@ == old(out)@ + joined(views(items@)),
{
    let ghost start = out@;
    let mut i: usize = 0;
    while i < items.len()
        invariant
            0 <= i <= items@.len(),
            out@ == start + joined(views(items@.take(i as int))),
        decreases items@.len() - i,
    {
        if i > 0 {
            out.append(",");
        }
        out.append(items[i].as_str());
        proof {
            let t = views(items@.take(i + 1));
            assert(t.drop_last() =~= views(items@.take(i as int)));
            assert(t.last() == items@[i as int]@);
            assert(out@ =~= start + joined(t));
        }
        i += 1;
    }
    proof {
        assert(items@.take(i as int) =~= items@);
    }
}

fn append_members(out: &mut String, pairs: &Vec<(String, String)>)
    ensures
        final(out)@ == old(out)@ + joined(member_texts(pairs@)),
{
    let ghost start = out@;
    let mut i: usize = 0;
    while i < pairs.len()
        invariant
            0 <= i <= pairs@.len(),
            out@ == start + joined(member_texts(pairs@.take(i as int))),
        decreases pairs@.len() - i,
    {
        if i > 0 {
            out.append(",");
        }
        out.append(pairs[i].0.as_str());
        out.append(":{\"content\":");
        out.append(pairs[i].1.as_str());
        out.append("}");
        proof {
            let t = member_texts(pairs@.take(i + 1));
            assert(t.drop_last() =~= member_texts(pairs@.take(i as int)));
            assert(t.last() == member_text(pairs@[i as int].0@, pairs@[i as int].1@));
            assert(out@ =~= start + joined(t));
        }
        i += 1;
    }
    proof {
        assert(pairs@.take(i as int) =~= pairs@);
    }
}

/// Lays out the Standard-JSON request around values already written as
/// JSON: the EVM version, the selectors, and for each source its path and
/// its text.
pub fn frame_request(
    evm_version_json: &String,
    optimizer_enabled: bool,
    file_outputs_json: &Vec<String>,
    contract_outputs_json: &Vec<String>,
    sources_json: &Vec<(String, String)>,
) -> (r: String)
    ensures
        r@ == framed_request(
            evm_version_json@,
            optimizer_enabled,
            views(file_outputs_json@),
            views(contract_outputs_json@),
            member_texts(sources_json@),
        ),
{
    let mut out = String::new();
    out.append("{\"language\":\"Solidity\",\"settings\":{\"evmVersion\":");
    out.append(evm_version_json.as_str());
    out.append(",\"optimizer\":{\"enabled\":");
    if optimizer_enabled {
        out.append("true");
    } else {
        out.append("false");
    }
    out.append("},\"outputSelection\":{\"*\":{\"\":[");
    append_joined(&mut out, file_outputs_json);
    out.append("],\"*\":[");
    append_joined(&mut out, contract_outputs_json);
    out.append("]}}},\"sources\":{");
    append_members(&mut out, sources_json);
    out.append("}}");
    proof {
        assert(out@ =~= framed_request(
            evm_version_json@,
            optimizer_enabled,
            views(file_outputs_json@),
            views(contract_outputs_json@),
            member_texts(sources_json@),
        ));
    }
    out
}

fn quote_all(items: &Vec<String>) -> (r: Vec<String>)
    ensures
        views(r@) == quoted_all(items@),
{
    let mut r: Vec<String> = Vec::new();
    let mut i: usize = 0;
    while i < items.len()
        invariant
            0 <= i <= items@.len(),
            r@.len() == i,
            forall|k: int| 0 <= k < i ==> (#[trigger] r@[k])@ == json_string_of(items@[k]@),
        decreases items@.len() - i,
    {
        let q = json_string(items[i].as_str());
        r.push(q);
        i += 1;
    }
    proof {
        assert(views(r@) =~= quoted_all(items@));
    }
    r
}

fn quote_sources(files: &Vec<SourceFile>) -> (r: Vec<(String, String)>)
    ensures
        member_texts(r@) == source_members(files@),
{
    let mut r: Vec<(String, String)> = Vec::new();
    let mut i: usize = 0;
    while i < files.len()
        invariant
            0 <= i <= files@.len(),
            r@.len() == i,
            forall|k: int|
                0 <= k < i ==> (#[trigger] r@[k]).0@ == json_string_of(files@[k].path@) && r@[k].1@
                    == json_string_of(files@[k].content@),
        decreases files@.len() - i,
    {
        let p = json_string(files[i].path.as_str());
        let c = json_string(files[i].content.as_str());
        r.push((p, c));
        i += 1;
    }
    proof {
        assert(member_texts(r@) =~= source_members(files@));
    }
    r
}

/// Assembles the Standard-JSON request that hands `sources` to the compiler
/// under the settings of `config`.
pub fn build_solc_input_json(sources: &Vec<SourceFile>, config: &CompilerConfig) -> (r: String)
    ensures
        r@ == request_text(*config, sources@),
{
    let evm_version_json = json_string(config.evm_version.as_str());
    let file_outputs_json = quote_all(&config.file_outputs);
    let contract_outputs_json = quote_all(&config.contract_outputs);
    let sources_json = quote_sources(sources);
    frame_request(
        &evm_version_json,
        config.optimizer_enabled,
        &file_outputs_json,
        &contract_outputs_json,
        &sources_json,
    )
}

} // verus!
