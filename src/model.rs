use vstd::prelude::*;

verus! {

#[verifier::external_type_specification]
#[verifier::external_body]
pub struct ExJsonValue(serde_json::Value);

/// One source file handed to the compiler: its path (the key under which
/// the compiler reports on it) and its text.
pub struct SourceFile {
    pub path: String,
    pub content: String,
}

/// A bytecode object as the compiler reports it, with its source map.
pub struct Bytecode {
    pub object: String,
    pub source_map: String,
}

/// What the compiler reports for one contract.
pub struct EntityOutput {
    pub bytecode: Bytecode,
    pub deployed_bytecode: Bytecode,
    pub abi: serde_json::Value,
}

/// A contract of a source file, under its name.
pub struct NamedEntity {
    pub name: String,
    pub output: EntityOutput,
}

/// The contracts that the compiler reports for one source path.
pub struct FileContracts {
    pub path: String,
    pub entities: Vec<NamedEntity>,
}

/// What the compiler reports for one source file as a whole.
pub struct SourceMeta {
    pub path: String,
    pub ast: serde_json::Value,
}

/// A message of the compiler about the compilation.
pub struct Diagnostic {
    pub severity: String,
    pub formatted_message: String,
}

/// The compiler's response: contracts per source path, per-file metadata,
/// and diagnostics in the order reported.
pub struct CompileResult {
    pub contracts: Vec<FileContracts>,
    pub sources: Vec<SourceMeta>,
    pub errors: Vec<Diagnostic>,
}

/// The flat, self-contained record written for one contract.
pub struct Artifact {
    pub contract_name: String,
    pub file_name: String,
    pub source_path: String,
    pub source: String,
    pub bytecode: String,
    pub deployed_bytecode: String,
    pub source_map: String,
    pub deployed_source_map: String,
    pub abi: serde_json::Value,
    pub ast: serde_json::Value,
}

/// Why the compiler's response could not be turned into artifacts.
#[derive(Debug)]
pub enum BuildError {
    /// A path under `contracts` has no entry under `sources`.
    MissingSourceMeta(String),
    /// A path under `contracts` is not one of the sources handed in.
    MissingSourceFile(String),
    /// A path under `contracts` has no final file-name component.
    InvalidSourcePath(String),
    /// The compiler reported a diagnostic of severity `error`; the message.
    CompilerReportedError(String),
}

impl BuildError {
    /// Whether the error shows a response that does not hold together.
    pub open spec fn spec_is_malformed_response(&self) -> bool {
        !(self is CompilerReportedError)
    }

    pub fn is_malformed_response(&self) -> (r: bool)
        ensures
            r == self.spec_is_malformed_response(),
    {
        match self {
            BuildError::CompilerReportedError(_) => false,
            _ => true,
        }
    }
}

} // verus!
