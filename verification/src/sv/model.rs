//! Values produced by parsing: defines, declarations, references and summaries.
use crate::sv::cst_ir::CstIr;
use crate::types::Location;
use vstd::prelude::*;

verus! {

/// Options handed to the SystemVerilog preprocessor and parser.
#[derive(Clone, Debug)]
pub struct SvParserCfg {
    pub include_paths: Vec<String>,
    pub defines: Vec<String>,
    pub strip_comments: bool,
    pub ignore_include: bool,
    pub allow_incomplete: bool,
}

impl Default for SvParserCfg {
    /// No include paths or defines; comments stripped, includes ignored, incomplete input allowed.
    fn default() -> (r: Self)
        ensures
            r.include_paths@.len() == 0,
            r.defines@.len() == 0,
            r.strip_comments,
            r.ignore_include,
            r.allow_incomplete,
    {
        Self {
            include_paths: Vec::new(),
            defines: Vec::new(),
            strip_comments: true,
            ignore_include: true,
            allow_incomplete: true,
        }
    }
}

/// A preprocessor define and its value, if it has one.
#[derive(Clone, Debug)]
pub struct DefineInfo {
    pub name: String,
    pub value: Option<String>,
}

/// The kind of a declaration found by the collector.
#[derive(Clone, Copy, Debug, PartialEq, Eq, Structural)]
pub enum DeclKind {
    Module,
    Param,
    LocalParam,
    Net,
    Var,
}

/// A declared name, in the module that encloses it.
#[derive(Clone, Debug)]
pub struct Declaration {
    pub kind: DeclKind,
    pub name: String,
    pub module: Option<String>,
    pub loc: Location,
}

/// Whether a reference reads or writes its name.
#[derive(Clone, Copy, Debug, PartialEq, Eq, Structural)]
pub enum ReferenceKind {
    Read,
    Write,
}

/// One use of a name.
#[derive(Clone, Debug)]
pub struct Reference {
    pub name: String,
    pub module: Option<String>,
    pub kind: ReferenceKind,
    pub loc: Location,
}

/// The operator of an assignment: `=` (blocking or continuous) or `<=` (nonblocking).
#[derive(Clone, Copy, Debug, PartialEq, Eq, Structural)]
pub enum AssignOp {
    BlockingOrCont,
    Nonblocking,
}

/// An assignment, with its two sides as written.
#[derive(Clone, Debug)]
pub struct Assignment {
    pub module: Option<String>,
    pub op: AssignOp,
    pub lhs: String,
    pub rhs: String,
    pub loc: Location,
}

/// A port of a module.
#[derive(Clone, Debug)]
pub struct PortInfo {
    pub module: Option<String>,
    pub name: String,
    pub direction: String,
    pub loc: Location,
}

/// The class of a symbol whose use is counted.
#[derive(Clone, Copy, Debug, PartialEq, Eq, Hash, Structural)]
pub enum SymbolClass {
    Param,
    Net,
    Var,
}

/// How often a declared symbol is read and written.
#[derive(Clone, Debug)]
pub struct SymbolUsage {
    pub module: Option<String>,
    pub name: String,
    pub class: SymbolClass,
    pub ref_count: usize,
    pub read_count: usize,
    pub write_count: usize,
    pub used: bool,
    pub loc: Location,
}

/// A named scope.
#[derive(Clone, Debug)]
pub struct ScopeInfo {
    pub name: Option<String>,
    pub kind: Option<String>,
}

impl Default for ScopeInfo {
    /// A scope with neither name nor kind.
    fn default() -> (r: Self)
        ensures
            r.name is None,
            r.kind is None,
    {
        ScopeInfo { name: None, kind: None }
    }
}

/// What the collector found in one file.
#[derive(Clone, Debug)]
pub struct AstSummary {
    pub decls: Vec<Declaration>,
    pub refs: Vec<Reference>,
    pub symbols: Vec<SymbolUsage>,
    pub assigns: Vec<Assignment>,
    pub ports: Vec<PortInfo>,
    pub pp_text: Option<String>,
    pub schema_version: u32,
    pub scopes: Vec<ScopeInfo>,
}

impl Default for AstSummary {
    /// An empty summary of schema version 1.
    fn default() -> (r: Self)
        ensures
            r.decls@.len() == 0,
            r.refs@.len() == 0,
            r.symbols@.len() == 0,
            r.assigns@.len() == 0,
            r.ports@.len() == 0,
            r.pp_text is None,
            r.schema_version == 1,
            r.scopes@.len() == 0,
    {
        AstSummary {
            decls: Vec::new(),
            refs: Vec::new(),
            symbols: Vec::new(),
            assigns: Vec::new(),
            ports: Vec::new(),
            pp_text: None,
            schema_version: 1,
            scopes: Vec::new(),
        }
    }
}

/// Everything parsing one file produced.
#[derive(Clone, Debug)]
pub struct ParseArtifacts {
    pub raw_text: String,
    pub normalized_text: String,
    pub pp_text: String,
    pub defines: Vec<DefineInfo>,
    pub has_cst: bool,
    pub ast: AstSummary,
    pub cst_ir: Option<CstIr>,
}

} // verus!
