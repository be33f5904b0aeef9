use serde_json::Value;
use sol_artifacts::decompose::{artifacts_from_output, build_contract_schema, build_contract_schemas, check_diagnostics};
use sol_artifacts::model::{
    Artifact, BuildError, Bytecode, CompileResult, Diagnostic, EntityOutput, FileContracts,
    NamedEntity, SourceFile, SourceMeta,
};
use sol_artifacts::request::{build_solc_input_json, frame_request, CompilerConfig};
use sol_artifacts::sources::insert_source;
use sol_artifacts::writer::artifact_file_name;
use std::collections::HashMap;

fn json(text: &str) -> Value {
    serde_json::from_str(text).unwrap()
}

fn source(path: &str, content: &str) -> SourceFile {
    SourceFile { path: path.to_string(), content: content.to_string() }
}

fn entity(name: &str, code: &str) -> NamedEntity {
    NamedEntity {
        name: name.to_string(),
        output: EntityOutput {
            bytecode: Bytecode { object: format!("{}00", code), source_map: format!("{}:1:0", code) },
            deployed_bytecode: Bytecode {
                object: format!("{}01", code),
                source_map: format!("{}:2:0", code),
            },
            abi: json(&format!(r#"[{{"type":"function","name":"{}"}}]"#, name)),
        },
    }
}

fn meta(path: &str) -> SourceMeta {
    SourceMeta { path: path.to_string(), ast: json(&format!(r#"{{"absolutePath":"{}"}}"#, path)) }
}

fn result(contracts: Vec<(&str, Vec<NamedEntity>)>, metas: Vec<&str>) -> CompileResult {
    CompileResult {
        contracts: contracts
            .into_iter()
            .map(|(p, es)| FileContracts { path: p.to_string(), entities: es })
            .collect(),
        sources: metas.into_iter().map(meta).collect(),
        errors: Vec::new(),
    }
}

fn diag(severity: &str, message: &str) -> Diagnostic {
    Diagnostic { severity: severity.to_string(), formatted_message: message.to_string() }
}

#[test]
fn single_source_single_contract() {
    let sources = vec![source("A.src", "contract Foo {}")];
    let out = result(vec![("A.src", vec![entity("Foo", "60")])], vec!["A.src"]);
    let arts = build_contract_schemas(&out, &sources).unwrap();
    assert_eq!(arts.len(), 1);
    let a = &arts[0];
    assert_eq!(a.contract_name, "Foo");
    assert_eq!(a.file_name, "A.src");
    assert_eq!(a.source_path, "A.src");
    assert_eq!(a.source, "contract Foo {}");
    assert_eq!(a.bytecode, "6000");
    assert_eq!(a.deployed_bytecode, "6001");
    assert_eq!(a.source_map, "60:1:0");
    assert_eq!(a.deployed_source_map, "60:2:0");
    assert_eq!(a.abi, json(r#"[{"type":"function","name":"Foo"}]"#));
    assert_eq!(a.ast, json(r#"{"absolutePath":"A.src"}"#));
    assert_eq!(artifact_file_name(a), "Foo.json");
}

#[test]
fn contracts_path_without_source_meta_aborts() {
    let sources = vec![source("A.src", "contract Foo {}"), source("B.src", "contract Bar {}")];
    let out = result(
        vec![("A.src", vec![entity("Foo", "60")]), ("B.src", vec![entity("Bar", "61")])],
        vec!["A.src"],
    );
    match build_contract_schemas(&out, &sources) {
        Err(e) => {
            assert!(e.is_malformed_response());
            assert!(matches!(&e, BuildError::MissingSourceMeta(p) if p == "B.src"));
        },
        Ok(_) => panic!("a path without metadata must be refused"),
    }
}

#[test]
fn contracts_path_not_handed_in_aborts() {
    let sources = vec![source("A.src", "contract Foo {}")];
    let out = result(vec![("./A.src", vec![entity("Foo", "60")])], vec!["./A.src"]);
    match build_contract_schemas(&out, &sources) {
        Err(e) => {
            assert!(e.is_malformed_response());
            assert!(matches!(&e, BuildError::MissingSourceFile(p) if p == "./A.src"));
        },
        Ok(_) => panic!("a path that was not handed in must be refused"),
    }
}

#[test]
fn path_without_file_name_aborts() {
    let sources = vec![source("dir/..", "contract Foo {}")];
    let out = result(vec![("dir/..", vec![entity("Foo", "60")])], vec!["dir/.."]);
    match build_contract_schemas(&out, &sources) {
        Err(e) => {
            assert!(e.is_malformed_response());
            assert!(matches!(&e, BuildError::InvalidSourcePath(p) if p == "dir/.."));
        },
        Ok(_) => panic!("a path without a file name must be refused"),
    }
}

#[test]
fn one_artifact_per_contract() {
    let sources = vec![source("a/One.sol", "one"), source("b/Two.sol", "two")];
    let out = result(
        vec![
            ("a/One.sol", vec![entity("A", "01"), entity("B", "02")]),
            ("b/Two.sol", vec![entity("C", "03")]),
        ],
        vec!["b/Two.sol", "a/One.sol"],
    );
    let arts = build_contract_schemas(&out, &sources).unwrap();
    assert_eq!(arts.len(), 3);
    let names: Vec<&str> = arts.iter().map(|a| a.contract_name.as_str()).collect();
    assert_eq!(names, vec!["A", "B", "C"]);
    for a in &arts {
        assert!(!a.contract_name.is_empty());
        assert!(!a.source_path.is_empty());
    }
    assert_eq!(arts[2].source, "two");
    assert_eq!(arts[2].ast, json(r#"{"absolutePath":"b/Two.sol"}"#));
    assert_eq!(arts[0].ast, json(r#"{"absolutePath":"a/One.sol"}"#));
}

#[test]
fn file_name_is_basename_of_source_path() {
    let path = "./contracts/tokens/Token.sol";
    let sources = vec![source(path, "token")];
    let out = result(vec![(path, vec![entity("Token", "60")])], vec![path]);
    let arts = build_contract_schemas(&out, &sources).unwrap();
    assert_eq!(arts[0].file_name, "Token.sol");
    assert_eq!(arts[0].source_path, path);
    let basename = std::path::Path::new(&arts[0].source_path).file_name().unwrap().to_str().unwrap();
    assert_eq!(basename, arts[0].file_name);
}

fn rendered(arts: &[Artifact]) -> Vec<String> {
    arts.iter()
        .map(|a| {
            format!(
                "{}|{}|{}|{}|{}|{}|{}|{}|{}|{}",
                a.contract_name,
                a.file_name,
                a.source_path,
                a.source,
                a.bytecode,
                a.deployed_bytecode,
                a.source_map,
                a.deployed_source_map,
                a.abi,
                a.ast
            )
        })
        .collect()
}

#[test]
fn running_twice_gives_identical_artifacts() {
    let sources = vec![source("X.sol", "x"), source("Y.sol", "y")];
    let out = result(
        vec![("X.sol", vec![entity("X1", "0a"), entity("X2", "0b")]), ("Y.sol", vec![entity("Y", "0c")])],
        vec!["X.sol", "Y.sol"],
    );
    let first = build_contract_schemas(&out, &sources).unwrap();
    let second = build_contract_schemas(&out, &sources).unwrap();
    assert_eq!(rendered(&first), rendered(&second));
    let config = CompilerConfig::default();
    assert_eq!(build_solc_input_json(&sources, &config), build_solc_input_json(&sources, &config));
}

#[test]
fn zero_sources_give_zero_artifacts() {
    let sources: Vec<SourceFile> = Vec::new();
    let out = result(Vec::new(), Vec::new());
    let arts = artifacts_from_output(&out, &sources).unwrap();
    assert!(arts.is_empty());
}

#[test]
fn same_name_in_two_files_leaves_last_written() {
    let sources = vec![source("a/Foo.sol", "first"), source("b/Foo.sol", "second")];
    let out = result(
        vec![("a/Foo.sol", vec![entity("Foo", "aa")]), ("b/Foo.sol", vec![entity("Foo", "bb")])],
        vec!["a/Foo.sol", "b/Foo.sol"],
    );
    let arts = build_contract_schemas(&out, &sources).unwrap();
    assert_eq!(arts.len(), 2);
    let mut dir: HashMap<String, String> = HashMap::new();
    for a in &arts {
        dir.insert(artifact_file_name(a), a.source.clone());
    }
    assert_eq!(dir.len(), 1);
    assert_eq!(dir.get("Foo.json").map(|s| s.as_str()), Some("second"));
}

#[test]
fn error_diagnostic_stops_before_artifacts() {
    let sources = vec![source("A.sol", "contract Foo {}")];
    let mut out = result(vec![("A.sol", vec![entity("Foo", "60")])], vec!["A.sol"]);
    out.errors = vec![diag("warning", "unused variable"), diag("error", "A.sol:1: ParserError"), diag("error", "later")];
    match artifacts_from_output(&out, &sources) {
        Err(BuildError::CompilerReportedError(m)) => assert_eq!(m, "A.sol:1: ParserError"),
        _ => panic!("an error diagnostic must stop the run"),
    }
    match check_diagnostics(&out.errors) {
        Err(e) => assert!(!e.is_malformed_response()),
        Ok(_) => panic!("an error diagnostic must be reported"),
    }
}

#[test]
fn warnings_do_not_stop_the_run() {
    let sources = vec![source("A.sol", "contract Foo {}")];
    let mut out = result(vec![("A.sol", vec![entity("Foo", "60")])], vec!["A.sol"]);
    out.errors = vec![diag("warning", "shadowing"), diag("info", "note")];
    assert!(check_diagnostics(&out.errors).is_ok());
    let arts = artifacts_from_output(&out, &sources).unwrap();
    assert_eq!(arts.len(), 1);
    assert_eq!(arts[0].contract_name, "Foo");
}

#[test]
fn single_schema_merges_file_and_contract_values() {
    let m = meta("lib/Pair.sol");
    let e = entity("Pair", "7f");
    let a = build_contract_schema(
        &"lib/Pair.sol".to_string(),
        &"Pair.sol".to_string(),
        &e.name,
        &"contract Pair {}".to_string(),
        &m,
        &e.output,
    );
    assert_eq!(a.contract_name, "Pair");
    assert_eq!(a.file_name, "Pair.sol");
    assert_eq!(a.source_path, "lib/Pair.sol");
    assert_eq!(a.source, "contract Pair {}");
    assert_eq!(a.bytecode, "7f00");
    assert_eq!(a.deployed_source_map, "7f:2:0");
    assert_eq!(a.abi, e.output.abi);
    assert_eq!(a.ast, m.ast);
}

#[test]
fn request_for_default_settings() {
    let sources = vec![source("A.sol", "contract Foo {}")];
    let text = build_solc_input_json(&sources, &CompilerConfig::default());
    assert_eq!(
        text,
        [
            r#"{"language":"Solidity","settings":{"evmVersion":"byzantium","optimizer":{"enabled":false},"#,
            r#""outputSelection":{"*":{"":["ast"],"*":["abi","evm.bytecode.object","evm.bytecode.sourceMap","#,
            r#""evm.deployedBytecode.object","evm.deployedBytecode.sourceMap"]}}},"#,
            r#""sources":{"A.sol":{"content":"contract Foo {}"}}}"#
        ]
        .concat()
    );
}

#[test]
fn request_escapes_text_and_lists_every_source() {
    let sources = vec![source("a\"b.sol", "line1\nline2 \\ end"), source("c.sol", "")];
    let config = CompilerConfig {
        evm_version: "london".to_string(),
        optimizer_enabled: true,
        file_outputs: Vec::new(),
        contract_outputs: vec!["abi".to_string()],
    };
    let text = build_solc_input_json(&sources, &config);
    assert_eq!(
        text,
        [
            r#"{"language":"Solidity","settings":{"evmVersion":"london","optimizer":{"enabled":true},"#,
            r#""outputSelection":{"*":{"":[],"*":["abi"]}}},"#,
            r#""sources":{"a\"b.sol":{"content":"line1\nline2 \\ end"},"c.sol":{"content":""}}}"#
        ]
        .concat()
    );
    let parsed: Value = serde_json::from_str(&text).unwrap();
    assert_eq!(parsed["sources"]["a\"b.sol"]["content"], Value::String("line1\nline2 \\ end".to_string()));
}

#[test]
fn request_with_no_sources() {
    let text = build_solc_input_json(&Vec::new(), &CompilerConfig::default());
    assert!(text.ends_with(r#""sources":{}}"#));
    let parsed: Value = serde_json::from_str(&text).unwrap();
    assert_eq!(parsed["language"], Value::String("Solidity".to_string()));
}

#[test]
fn default_config_values() {
    let c = CompilerConfig::default();
    assert_eq!(c.evm_version, "byzantium");
    assert!(!c.optimizer_enabled);
    assert_eq!(c.file_outputs, vec!["ast".to_string()]);
    assert_eq!(c.contract_outputs.len(), 5);
}

#[test]
fn insert_source_replaces_same_path() {
    let mut sources: Vec<SourceFile> = Vec::new();
    insert_source(&mut sources, source("A.sol", "old"));
    insert_source(&mut sources, source("B.sol", "b"));
    insert_source(&mut sources, source("A.sol", "new"));
    assert_eq!(sources.len(), 2);
    assert_eq!(sources[0].path, "A.sol");
    assert_eq!(sources[0].content, "new");
    assert_eq!(sources[1].path, "B.sol");
}

#[test]
fn file_name_keeps_contract_name() {
    let sources = vec![source("A.sol", "x")];
    let out = result(vec![("A.sol", vec![entity("ERC20Token", "60")])], vec!["A.sol"]);
    let arts = build_contract_schemas(&out, &sources).unwrap();
    assert_eq!(artifact_file_name(&arts[0]), "ERC20Token.json");
}

#[test]
fn frame_places_values_as_given() {
    let text = frame_request(
        &"\"paris\"".to_string(),
        false,
        &vec!["\"ast\"".to_string()],
        &vec!["\"abi\"".to_string(), "\"evm.bytecode.object\"".to_string()],
        &vec![
            ("\"A.sol\"".to_string(), "\"a\"".to_string()),
            ("\"B.sol\"".to_string(), "\"b\"".to_string()),
        ],
    );
    assert_eq!(
        text,
        [
            r#"{"language":"Solidity","settings":{"evmVersion":"paris","optimizer":{"enabled":false},"#,
            r#""outputSelection":{"*":{"":["ast"],"*":["abi","evm.bytecode.object"]}}},"#,
            r#""sources":{"A.sol":{"content":"a"},"B.sol":{"content":"b"}}}"#
        ]
        .concat()
    );
}
