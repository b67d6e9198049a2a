//! Configuration data of `trammel.toml`.
//!
//! Filesystem assertions (`fs_must_exist`, `fs_must_not_exist`) take
//! paths relative to the **project root**, not `src_root`.

use vstd::prelude::*;

verus! {

/// The whole configuration.
#[derive(Debug, Default)]
pub struct Config {
    pub src_root: String,
    pub layers: Vec<Layer>,
    pub forbidden_imports: Vec<ForbiddenImports>,
    pub forbidden_inline_paths: Vec<ForbiddenInlinePaths>,
    /// Same shape and engine as `forbidden_inline_paths`, reported under
    /// its own kind.
    pub forbidden_constructors: Vec<ForbiddenInlinePaths>,
    pub forbidden_macros: Vec<ForbiddenMacros>,
    pub forbidden_methods: Vec<ForbiddenMethods>,
    pub required_struct_attrs: Vec<RequiredStructAttrs>,
    pub fs_must_exist: Vec<FsMustExist>,
    pub fs_must_not_exist: Vec<FsMustNotExist>,
    pub file_content_scan: Vec<FileContentScan>,
    pub n_plus_one: Option<NPlusOne>,
}

/// `src_root` when the configuration names none: `src`.
pub fn default_src_root() -> (r: String)
    ensures
        r@ == "src"@,
{
    String::from_str("src")
}

/// A named set of paths under `src_root`.
#[derive(Debug)]
pub struct Layer {
    pub name: String,
    pub paths: Vec<String>,
    pub exempt_files: Vec<String>,
    pub implicit_test_context: bool,
}

#[derive(Debug)]
pub struct ForbiddenImports {
    pub in_layers: Vec<String>,
    pub in_layers_except: Vec<String>,
    pub in_files: Vec<String>,
    pub patterns: Vec<String>,
    pub rule: String,
    pub message: Option<String>,
    pub allow_in_test_context: bool,
}

#[derive(Debug)]
pub struct ForbiddenInlinePaths {
    pub in_layers: Vec<String>,
    pub in_layers_except: Vec<String>,
    pub in_files: Vec<String>,
    pub patterns: Vec<String>,
    pub position: Position,
    pub rule: String,
    pub message: Option<String>,
    pub allow_in_test_context: bool,
}

/// Where an inline path stands: expression position, type position, or
/// either.
#[derive(Debug, PartialEq, Eq, Structural, Clone, Copy)]
pub enum Position {
    Expr,
    Type,
    Any,
}

impl Default for Position {
    fn default() -> (r: Position)
        ensures
            r == Position::Any,
    {
        Position::Any
    }
}

#[derive(Debug)]
pub struct ForbiddenMacros {
    pub in_layers: Vec<String>,
    pub in_layers_except: Vec<String>,
    pub in_files: Vec<String>,
    pub qualified_names: Vec<String>,
    pub bare_names: Vec<String>,
    pub bare_names_in_layers: Vec<String>,
    pub rule: String,
    pub message: Option<String>,
    pub allow_in_test_context: bool,
}

#[derive(Debug)]
pub struct ForbiddenMethods {
    pub in_layers: Vec<String>,
    pub in_layers_except: Vec<String>,
    pub in_files: Vec<String>,
    pub methods: Vec<String>,
    pub rule: String,
    pub message: Option<String>,
    pub allow_in_test_context: bool,
}

#[derive(Debug)]
pub struct RequiredStructAttrs {
    pub in_layers: Vec<String>,
    pub in_layers_except: Vec<String>,
    pub in_files: Vec<String>,
    pub struct_name_pattern: String,
    pub required_any_of: Vec<String>,
    pub also_apply_to_impls: bool,
    pub rule: String,
    pub message: Option<String>,
}

#[derive(Debug)]
pub struct FsMustExist {
    pub path: String,
    pub rule: String,
    pub message: Option<String>,
}

#[derive(Debug)]
pub struct FsMustNotExist {
    pub path: Option<String>,
    pub paths: Vec<String>,
    pub rule: String,
    pub message: Option<String>,
}

#[derive(Debug)]
pub struct FileContentScan {
    pub glob: String,
    pub exclude_glob: Option<String>,
    pub forbidden_substrings: Vec<String>,
    pub rule: String,
    pub message: Option<String>,
}

#[derive(Debug)]
pub struct NPlusOne {
    pub in_layers: Vec<String>,
    pub db_path_patterns: Vec<String>,
    pub db_macros: Vec<String>,
    pub combinators: Vec<String>,
    pub opt_out_attribute: String,
    pub layer_assumes_query: Vec<String>,
    pub rule: String,
    pub message: Option<String>,
}

} // verus!
