//! Configuration validation.

pub mod schema;

pub use schema::{
    default_src_root, Config, FileContentScan, ForbiddenImports, ForbiddenInlinePaths, ForbiddenMacros,
    ForbiddenMethods, FsMustExist, FsMustNotExist, Layer, NPlusOne, Position, RequiredStructAttrs,
};

use vstd::prelude::*;

use crate::glob::ident::{self, has_double_star};

verus! {

/// A configuration error, its text held as character sequences.
pub enum ConfigErrorView {
    MissingScope(Seq<char>),
    ConflictingScope(Seq<char>),
    UnknownLayer(Seq<char>, Seq<char>),
    InvalidStructPattern(Seq<char>, Seq<char>),
    FsPathMissing(Seq<char>),
    AssumesQueryOutsideLayers(Seq<char>),
}

/// Why a configuration cannot be executed.
#[derive(Debug)]
pub enum ConfigError {
    /// A rule entry declares none of `in_layers`, `in_layers_except`, `in_files`.
    MissingScope { rule: String },
    /// A rule entry declares both `in_layers` and `in_layers_except`.
    ConflictingScope { rule: String },
    /// A rule entry names a layer that `[[layers]]` does not declare.
    UnknownLayer { context: String, name: String },
    /// A `struct_name_pattern` holds `**`.
    InvalidStructPattern { rule: String, pattern: String },
    /// An `fs_must_not_exist` entry declares neither `path` nor `paths`.
    FsPathMissing { rule: String },
    /// `n_plus_one.layer_assumes_query` names a layer outside `n_plus_one.in_layers`.
    AssumesQueryOutsideLayers { layer: String },
}

impl View for ConfigError {
    type V = ConfigErrorView;

    open spec fn view(&self) -> ConfigErrorView {
        match self {
            ConfigError::MissingScope { rule } => ConfigErrorView::MissingScope(rule@),
            ConfigError::ConflictingScope { rule } => ConfigErrorView::ConflictingScope(rule@),
            ConfigError::UnknownLayer { context, name } => ConfigErrorView::UnknownLayer(
                context@,
                name@,
            ),
            ConfigError::InvalidStructPattern { rule, pattern } =>
                ConfigErrorView::InvalidStructPattern(rule@, pattern@),
            ConfigError::FsPathMissing { rule } => ConfigErrorView::FsPathMissing(rule@),
            ConfigError::AssumesQueryOutsideLayers { layer } =>
                ConfigErrorView::AssumesQueryOutsideLayers(layer@),
        }
    }
}

/// The text of a configuration error.
pub open spec fn error_text(e: ConfigErrorView) -> Seq<char> {
    match e {
        ConfigErrorView::MissingScope(rule) => "rule `"@ + rule
            + "` must declare at least one of `in_layers`, `in_layers_except`, or `in_files`"@,
        ConfigErrorView::ConflictingScope(rule) => "rule `"@ + rule
            + "` declares both `in_layers` and `in_layers_except`, which are mutually exclusive"@,
        ConfigErrorView::UnknownLayer(context, name) => context + " references unknown layer `"@
            + name + "` (declare it in [[layers]])"@,
        ConfigErrorView::InvalidStructPattern(rule, pattern) => "required_struct_attrs `"@ + rule
            + "` has invalid struct_name_pattern: identifier pattern `"@ + pattern
            + "` contains `**`, which has no meaning in identifier globs"@,
        ConfigErrorView::FsPathMissing(rule) => "fs_must_not_exist `"@ + rule
            + "` must declare at least one of `path` or `paths`"@,
        ConfigErrorView::AssumesQueryOutsideLayers(layer) =>
            "n_plus_one `layer_assumes_query` contains `"@ + layer + "` which is not in `in_layers`"@,
    }
}

impl ConfigError {
    /// The error's text.
    pub fn message(&self) -> (r: String)
        ensures
            r@ == error_text(self@),
    {
        match self {
            ConfigError::MissingScope { rule } => {
                let mut m = String::from_str("rule `");
                m.append(rule.as_str());
                m.append(
                    "` must declare at least one of `in_layers`, `in_layers_except`, or `in_files`",
                );
                m
            },
            ConfigError::ConflictingScope { rule } => {
                let mut m = String::from_str("rule `");
                m.append(rule.as_str());
                m.append(
                    "` declares both `in_layers` and `in_layers_except`, which are mutually exclusive",
                );
                m
            },
            ConfigError::UnknownLayer { context, name } => {
                let mut m = String::from_str(context.as_str());
                m.append(" references unknown layer `");
                m.append(name.as_str());
                m.append("` (declare it in [[layers]])");
                m
            },
            ConfigError::InvalidStructPattern { rule, pattern } => {
                let mut m = String::from_str("required_struct_attrs `");
                m.append(rule.as_str());
                m.append("` has invalid struct_name_pattern: identifier pattern `");
                m.append(pattern.as_str());
                m.append("` contains `**`, which has no meaning in identifier globs");
                m
            },
            ConfigError::FsPathMissing { rule } => {
                let mut m = String::from_str("fs_must_not_exist `");
                m.append(rule.as_str());
                m.append("` must declare at least one of `path` or `paths`");
                m
            },
            ConfigError::AssumesQueryOutsideLayers { layer } => {
                let mut m = String::from_str("n_plus_one `layer_assumes_query` contains `");
                m.append(layer.as_str());
                m.append("` which is not in `in_layers`");
                m
            },
        }
    }
}

/// `[[layers]]` declares a layer named `name`.
pub open spec fn layer_known(cfg: &Config, name: Seq<char>) -> bool {
    exists|i: int| 0 <= i < cfg.layers@.len() && (#[trigger] cfg.layers@[i]).name@ == name
}

/// The first of `names` that `[[layers]]` does not declare.
pub open spec fn first_unknown(cfg: &Config, names: Seq<String>) -> Option<Seq<char>>
    decreases names.len(),
{
    if names.len() == 0 {
        None
    } else if !layer_known(cfg, names[0]@) {
        Some(names[0]@)
    } else {
        first_unknown(cfg, names.drop_first())
    }
}

/// The first name of `names` that `allowed` does not hold.
pub open spec fn first_not_in(names: Seq<String>, allowed: Seq<String>) -> Option<Seq<char>>
    decreases names.len(),
{
    if names.len() == 0 {
        None
    } else if !(exists|j: int| 0 <= j < allowed.len() && (#[trigger] allowed[j])@ == names[0]@) {
        Some(names[0]@)
    } else {
        first_not_in(names.drop_first(), allowed)
    }
}

/// The text that names a rule entry in errors: ``<kind> `<rule>` ``.
pub open spec fn rule_context(kind: Seq<char>, rule: Seq<char>) -> Seq<char> {
    kind + " `"@ + rule + "`"@
}

/// The first of `a`, `b` that is `Some`.
pub open spec fn or_else<T>(a: Option<T>, b: Option<T>) -> Option<T> {
    if a is Some {
        a
    } else {
        b
    }
}

/// An unknown layer among `names`, reported under `context`.
pub open spec fn unknown_layer_error(cfg: &Config, names: Seq<String>, context: Seq<char>) -> Option<
    ConfigErrorView,
> {
    match first_unknown(cfg, names) {
        Some(n) => Some(ConfigErrorView::UnknownLayer(context, n)),
        None => None,
    }
}

/// The first problem of one rule entry's scope.
pub open spec fn scope_error(
    cfg: &Config,
    kind: Seq<char>,
    rule: Seq<char>,
    in_layers: Seq<String>,
    in_layers_except: Seq<String>,
    in_files: Seq<String>,
) -> Option<ConfigErrorView> {
    if in_layers.len() == 0 && in_layers_except.len() == 0 && in_files.len() == 0 {
        Some(ConfigErrorView::MissingScope(rule))
    } else if in_layers.len() > 0 && in_layers_except.len() > 0 {
        Some(ConfigErrorView::ConflictingScope(rule))
    } else {
        or_else(
            unknown_layer_error(cfg, in_layers, rule_context(kind, rule)),
            unknown_layer_error(cfg, in_layers_except, rule_context(kind, rule)),
        )
    }
}

/// The first error among entries, each checked by `f`.
pub open spec fn first_error<T>(entries: Seq<T>, f: spec_fn(T) -> Option<ConfigErrorView>) -> Option<
    ConfigErrorView,
>
    decreases entries.len(),
{
    if entries.len() == 0 {
        None
    } else {
        or_else(f(entries[0]), first_error(entries.drop_first(), f))
    }
}

pub open spec fn imports_entry_error(cfg: &Config, r: ForbiddenImports) -> Option<ConfigErrorView> {
    scope_error(cfg, "forbidden_imports"@, r.rule@, r.in_layers@, r.in_layers_except@, r.in_files@)
}

pub open spec fn inline_entry_error(cfg: &Config, kind: Seq<char>, r: ForbiddenInlinePaths) -> Option<
    ConfigErrorView,
> {
    scope_error(cfg, kind, r.rule@, r.in_layers@, r.in_layers_except@, r.in_files@)
}

pub open spec fn macros_entry_error(cfg: &Config, r: ForbiddenMacros) -> Option<ConfigErrorView> {
    or_else(
        scope_error(cfg, "forbidden_macros"@, r.rule@, r.in_layers@, r.in_layers_except@, r.in_files@),
        unknown_layer_error(
            cfg,
            r.bare_names_in_layers@,
            rule_context("forbidden_macros"@, r.rule@) + " bare_names_in_layers"@,
        ),
    )
}

pub open spec fn methods_entry_error(cfg: &Config, r: ForbiddenMethods) -> Option<ConfigErrorView> {
    scope_error(cfg, "forbidden_methods"@, r.rule@, r.in_layers@, r.in_layers_except@, r.in_files@)
}

pub open spec fn struct_attrs_entry_error(cfg: &Config, r: RequiredStructAttrs) -> Option<
    ConfigErrorView,
> {
    or_else(
        scope_error(
            cfg,
            "required_struct_attrs"@,
            r.rule@,
            r.in_layers@,
            r.in_layers_except@,
            r.in_files@,
        ),
        if has_double_star(r.struct_name_pattern@) {
            Some(ConfigErrorView::InvalidStructPattern(r.rule@, r.struct_name_pattern@))
        } else {
            None
        },
    )
}

pub open spec fn fs_not_exist_entry_error(r: FsMustNotExist) -> Option<ConfigErrorView> {
    if r.path is None && r.paths@.len() == 0 {
        Some(ConfigErrorView::FsPathMissing(r.rule@))
    } else {
        None
    }
}

pub open spec fn n_plus_one_error(cfg: &Config) -> Option<ConfigErrorView> {
    match cfg.n_plus_one {
        None => None,
        Some(n) => or_else(
            unknown_layer_error(cfg, n.in_layers@, "n_plus_one in_layers"@),
            match first_not_in(n.layer_assumes_query@, n.in_layers@) {
                Some(l) => Some(ConfigErrorView::AssumesQueryOutsideLayers(l)),
                None => None,
            },
        ),
    }
}

pub open spec fn imports_check(cfg: &Config) -> spec_fn(ForbiddenImports) -> Option<ConfigErrorView> {
    |r: ForbiddenImports| imports_entry_error(cfg, r)
}

pub open spec fn inline_check(cfg: &Config, kind: Seq<char>) -> spec_fn(ForbiddenInlinePaths) -> Option<
    ConfigErrorView,
> {
    |r: ForbiddenInlinePaths| inline_entry_error(cfg, kind, r)
}

pub open spec fn macros_check(cfg: &Config) -> spec_fn(ForbiddenMacros) -> Option<ConfigErrorView> {
    |r: ForbiddenMacros| macros_entry_error(cfg, r)
}

pub open spec fn methods_check(cfg: &Config) -> spec_fn(ForbiddenMethods) -> Option<ConfigErrorView> {
    |r: ForbiddenMethods| methods_entry_error(cfg, r)
}

pub open spec fn struct_attrs_check(cfg: &Config) -> spec_fn(RequiredStructAttrs) -> Option<
    ConfigErrorView,
> {
    |r: RequiredStructAttrs| struct_attrs_entry_error(cfg, r)
}

pub open spec fn fs_not_exist_check() -> spec_fn(FsMustNotExist) -> Option<ConfigErrorView> {
    |r: FsMustNotExist| fs_not_exist_entry_error(r)
}

/// The error `validate` reports: the first failing check, in the order
/// forbidden_imports, forbidden_inline_paths, forbidden_constructors,
/// forbidden_macros, forbidden_methods, required_struct_attrs,
/// fs_must_not_exist, n_plus_one; within a kind, entries in order.
pub open spec fn config_error(cfg: &Config) -> Option<ConfigErrorView> {
    or_else(
        first_error(cfg.forbidden_imports@, imports_check(cfg)),
        or_else(
            first_error(
                cfg.forbidden_inline_paths@,
                inline_check(cfg, "forbidden_inline_paths"@),
            ),
            or_else(
                first_error(
                    cfg.forbidden_constructors@,
                    inline_check(cfg, "forbidden_constructors"@),
                ),
                or_else(
                    first_error(cfg.forbidden_macros@, macros_check(cfg)),
                    or_else(
                        first_error(
                            cfg.forbidden_methods@,
                            methods_check(cfg),
                        ),
                        or_else(
                            first_error(
                                cfg.required_struct_attrs@,
                                struct_attrs_check(cfg),
                            ),
                            or_else(
                                first_error(
                                    cfg.fs_must_not_exist@,
                                    fs_not_exist_check(),
                                ),
                                n_plus_one_error(cfg),
                            ),
                        ),
                    ),
                ),
            ),
        ),
    )
}

/// Every layer of `names` is declared in `[[layers]]`.
pub open spec fn all_known(cfg: &Config, names: Seq<String>) -> bool {
    forall|i: int| 0 <= i < names.len() ==> layer_known(cfg, (#[trigger] names[i])@)
}

/// The scope of a rule entry is usable: at least one of the three lists is
/// given, `in_layers` and `in_layers_except` are not both given, and every
/// layer named is declared.
pub open spec fn scope_ok(
    cfg: &Config,
    in_layers: Seq<String>,
    in_layers_except: Seq<String>,
    in_files: Seq<String>,
) -> bool {
    &&& !(in_layers.len() == 0 && in_layers_except.len() == 0 && in_files.len() == 0)
    &&& !(in_layers.len() > 0 && in_layers_except.len() > 0)
    &&& all_known(cfg, in_layers)
    &&& all_known(cfg, in_layers_except)
}

/// A configuration the engine can soundly execute.
pub open spec fn config_valid(cfg: &Config) -> bool {
    &&& forall|i: int|
        0 <= i < cfg.forbidden_imports@.len() ==> {
            let r = #[trigger] cfg.forbidden_imports@[i];
            scope_ok(cfg, r.in_layers@, r.in_layers_except@, r.in_files@)
        }
    &&& forall|i: int|
        0 <= i < cfg.forbidden_inline_paths@.len() ==> {
            let r = #[trigger] cfg.forbidden_inline_paths@[i];
            scope_ok(cfg, r.in_layers@, r.in_layers_except@, r.in_files@)
        }
    &&& forall|i: int|
        0 <= i < cfg.forbidden_constructors@.len() ==> {
            let r = #[trigger] cfg.forbidden_constructors@[i];
            scope_ok(cfg, r.in_layers@, r.in_layers_except@, r.in_files@)
        }
    &&& forall|i: int|
        0 <= i < cfg.forbidden_macros@.len() ==> {
            let r = #[trigger] cfg.forbidden_macros@[i];
            scope_ok(cfg, r.in_layers@, r.in_layers_except@, r.in_files@) && all_known(
                cfg,
                r.bare_names_in_layers@,
            )
        }
    &&& forall|i: int|
        0 <= i < cfg.forbidden_methods@.len() ==> {
            let r = #[trigger] cfg.forbidden_methods@[i];
            scope_ok(cfg, r.in_layers@, r.in_layers_except@, r.in_files@)
        }
    &&& forall|i: int|
        0 <= i < cfg.required_struct_attrs@.len() ==> {
            let r = #[trigger] cfg.required_struct_attrs@[i];
            scope_ok(cfg, r.in_layers@, r.in_layers_except@, r.in_files@) && !has_double_star(
                r.struct_name_pattern@,
            )
        }
    &&& forall|i: int|
        0 <= i < cfg.fs_must_not_exist@.len() ==> {
            let r = #[trigger] cfg.fs_must_not_exist@[i];
            r.path is Some || r.paths@.len() > 0
        }
    &&& match cfg.n_plus_one {
        None => true,
        Some(n) => all_known(cfg, n.in_layers@) && forall|i: int|
            0 <= i < n.layer_assumes_query@.len() ==> exists|j: int|
                0 <= j < n.in_layers@.len() && (#[trigger] n.in_layers@[j])@ == (
                #[trigger] n.layer_assumes_query@[i])@,
    }
}

/// `r` reports exactly `o`: success when `o` is `None`, else that error.
pub open spec fn reports(r: Result<(), ConfigError>, o: Option<ConfigErrorView>) -> bool {
    match o {
        None => r is Ok,
        Some(ev) => r matches Err(e) && e@ == ev,
    }
}

proof fn lemma_first_error_step<T>(entries: Seq<T>, f: spec_fn(T) -> Option<ConfigErrorView>, i: int)
    requires
        0 <= i < entries.len(),
    ensures
        first_error(entries.skip(i), f) == or_else(f(entries[i]), first_error(entries.skip(i + 1), f)),
{
    assert(entries.skip(i).drop_first() =~= entries.skip(i + 1));
    assert(entries.skip(i)[0] == entries[i]);
}

proof fn lemma_first_error_none<T>(entries: Seq<T>, f: spec_fn(T) -> Option<ConfigErrorView>)
    ensures
        first_error(entries, f) is None <==> forall|i: int| 0 <= i < entries.len() ==> f(#[trigger] entries[i]) is None,
    decreases entries.len(),
{
    if entries.len() > 0 {
        lemma_first_error_none(entries.drop_first(), f);
        assert forall|i: int| 0 < i < entries.len() implies entries.drop_first()[i - 1] == entries[i] by {}
        if forall|i: int| 0 <= i < entries.len() ==> f(#[trigger] entries[i]) is None {
            assert forall|i: int| 0 <= i < entries.drop_first().len() implies f(#[trigger] entries.drop_first()[i]) is None by {
                assert(entries.drop_first()[i] == entries[i + 1]);
            }
        }
    }
}

proof fn lemma_first_unknown_none(cfg: &Config, names: Seq<String>)
    ensures
        first_unknown(cfg, names) is None <==> all_known(cfg, names),
    decreases names.len(),
{
    if names.len() > 0 {
        lemma_first_unknown_none(cfg, names.drop_first());
        assert forall|i: int| 0 < i < names.len() implies names.drop_first()[i - 1] == names[i] by {}
        if all_known(cfg, names) {
            assert forall|i: int| 0 <= i < names.drop_first().len() implies layer_known(cfg, (#[trigger] names.drop_first()[i])@) by {
                assert(names.drop_first()[i] == names[i + 1]);
            }
        }
    }
}

proof fn lemma_first_not_in_none(names: Seq<String>, allowed: Seq<String>)
    ensures
        first_not_in(names, allowed) is None <==> forall|i: int|
            0 <= i < names.len() ==> exists|j: int|
                0 <= j < allowed.len() && (#[trigger] allowed[j])@ == (#[trigger] names[i])@,
    decreases names.len(),
{
    if names.len() > 0 {
        lemma_first_not_in_none(names.drop_first(), allowed);
        assert forall|i: int| 0 < i < names.len() implies names.drop_first()[i - 1] == names[i] by {}
        if forall|i: int|
            0 <= i < names.len() ==> exists|j: int|
                0 <= j < allowed.len() && (#[trigger] allowed[j])@ == (#[trigger] names[i])@ {
            assert forall|i: int| 0 <= i < names.drop_first().len() implies exists|j: int|
                0 <= j < allowed.len() && (#[trigger] allowed[j])@ == (
                #[trigger] names.drop_first()[i])@ by {
                assert(names.drop_first()[i] == names[i + 1]);
            }
        } else {
            let i = choose|i: int|
                0 <= i < names.len() && !(exists|j: int|
                    0 <= j < allowed.len() && (#[trigger] allowed[j])@ == (#[trigger] names[i])@);
            if i > 0 {
                assert(names.drop_first()[i - 1] == names[i]);
            }
        }
    }
}

proof fn lemma_scope_error_none(
    cfg: &Config,
    kind: Seq<char>,
    rule: Seq<char>,
    in_layers: Seq<String>,
    in_layers_except: Seq<String>,
    in_files: Seq<String>,
)
    ensures
        scope_error(cfg, kind, rule, in_layers, in_layers_except, in_files) is None <==> scope_ok(
            cfg,
            in_layers,
            in_layers_except,
            in_files,
        ),
{
    lemma_first_unknown_none(cfg, in_layers);
    lemma_first_unknown_none(cfg, in_layers_except);
}

/// Whether `[[layers]]` declares a layer named `name`.
fn layer_is_known(cfg: &Config, name: &String) -> (r: bool)
    ensures
        r == layer_known(cfg, name@),
{
    let mut i: usize = 0;
    while i < cfg.layers.len()
        invariant
            i <= cfg.layers@.len(),
            forall|j: int| 0 <= j < i ==> (#[trigger] cfg.layers@[j]).name@ != name@,
        decreases cfg.layers@.len() - i,
    {
        if cfg.layers[i].name == *name {
            return true;
        }
        i = i + 1;
    }
    false
}

/// Every name of `names` must be a declared layer; errors name `context`.
fn check_layer_names(cfg: &Config, names: &Vec<String>, context: &String) -> (r: Result<(), ConfigError>)
    ensures
        reports(r, unknown_layer_error(cfg, names@, context@)),
{
    proof {
        assert(names@.skip(0) =~= names@);
    }
    let mut i: usize = 0;
    while i < names.len()
        invariant
            i <= names@.len(),
            first_unknown(cfg, names@) == first_unknown(cfg, names@.skip(i as int)),
        decreases names@.len() - i,
    {
        proof {
            assert(names@.skip(i as int).drop_first() =~= names@.skip(i + 1));
            assert(names@.skip(i as int)[0] == names@[i as int]);
        }
        if !layer_is_known(cfg, &names[i]) {
            return Err(ConfigError::UnknownLayer { context: context.clone(), name: names[i].clone() });
        }
        i = i + 1;
    }
    assert(names@.skip(i as int).len() == 0);
    Ok(())
}

/// ``<kind> `<rule>` ``
fn rule_context_text(kind: &str, rule: &String) -> (r: String)
    ensures
        r@ == rule_context(kind@, rule@),
{
    let mut m = String::from_str(kind);
    m.append(" `");
    m.append(rule.as_str());
    m.append("`");
    m
}

/// Checks one rule entry's scope.
fn check_scope(
    cfg: &Config,
    kind: &str,
    rule: &String,
    in_layers: &Vec<String>,
    in_layers_except: &Vec<String>,
    in_files: &Vec<String>,
) -> (r: Result<(), ConfigError>)
    ensures
        reports(r, scope_error(cfg, kind@, rule@, in_layers@, in_layers_except@, in_files@)),
{
    if in_layers.len() == 0 && in_layers_except.len() == 0 && in_files.len() == 0 {
        return Err(ConfigError::MissingScope { rule: rule.clone() });
    }
    if in_layers.len() > 0 && in_layers_except.len() > 0 {
        return Err(ConfigError::ConflictingScope { rule: rule.clone() });
    }
    let context = rule_context_text(kind, rule);
    match check_layer_names(cfg, in_layers, &context) {
        Err(e) => return Err(e),
        Ok(()) => {},
    }
    check_layer_names(cfg, in_layers_except, &context)
}

fn validate_imports(cfg: &Config) -> (r: Result<(), ConfigError>)
    ensures
        reports(r, first_error(cfg.forbidden_imports@, imports_check(cfg))),
{
    let ghost f = imports_check(cfg);
    proof {
        assert(cfg.forbidden_imports@.skip(0) =~= cfg.forbidden_imports@);
    }
    let mut i: usize = 0;
    while i < cfg.forbidden_imports.len()
        invariant
            i <= cfg.forbidden_imports@.len(),
            f == imports_check(cfg),
            first_error(cfg.forbidden_imports@, f) == first_error(cfg.forbidden_imports@.skip(i as int), f),
        decreases cfg.forbidden_imports@.len() - i,
    {
        let r = &cfg.forbidden_imports[i];
        proof {
            lemma_first_error_step(cfg.forbidden_imports@, f, i as int);
        }
        match check_scope(cfg, "forbidden_imports", &r.rule, &r.in_layers, &r.in_layers_except, &r.in_files) {
            Err(e) => return Err(e),
            Ok(()) => {},
        }
        i = i + 1;
    }
    assert(cfg.forbidden_imports@.skip(i as int).len() == 0);
    Ok(())
}

fn validate_inline(cfg: &Config, entries: &Vec<ForbiddenInlinePaths>, kind: &str) -> (r: Result<(), ConfigError>)
    ensures
        reports(r, first_error(entries@, inline_check(cfg, kind@))),
{
    let ghost f = inline_check(cfg, kind@);
    proof {
        assert(entries@.skip(0) =~= entries@);
    }
    let mut i: usize = 0;
    while i < entries.len()
        invariant
            i <= entries@.len(),
            f == inline_check(cfg, kind@),
            first_error(entries@, f) == first_error(entries@.skip(i as int), f),
        decreases entries@.len() - i,
    {
        let r = &entries[i];
        proof {
            lemma_first_error_step(entries@, f, i as int);
        }
        match check_scope(cfg, kind, &r.rule, &r.in_layers, &r.in_layers_except, &r.in_files) {
            Err(e) => return Err(e),
            Ok(()) => {},
        }
        i = i + 1;
    }
    assert(entries@.skip(i as int).len() == 0);
    Ok(())
}

fn validate_macros(cfg: &Config) -> (r: Result<(), ConfigError>)
    ensures
        reports(r, first_error(cfg.forbidden_macros@, macros_check(cfg))),
{
    let ghost f = macros_check(cfg);
    proof {
        assert(cfg.forbidden_macros@.skip(0) =~= cfg.forbidden_macros@);
    }
    let mut i: usize = 0;
    while i < cfg.forbidden_macros.len()
        invariant
            i <= cfg.forbidden_macros@.len(),
            f == macros_check(cfg),
            first_error(cfg.forbidden_macros@, f) == first_error(cfg.forbidden_macros@.skip(i as int), f),
        decreases cfg.forbidden_macros@.len() - i,
    {
        let r = &cfg.forbidden_macros[i];
        proof {
            lemma_first_error_step(cfg.forbidden_macros@, f, i as int);
        }
        match check_scope(cfg, "forbidden_macros", &r.rule, &r.in_layers, &r.in_layers_except, &r.in_files) {
            Err(e) => return Err(e),
            Ok(()) => {},
        }
        let mut context = rule_context_text("forbidden_macros", &r.rule);
        context.append(" bare_names_in_layers");
        match check_layer_names(cfg, &r.bare_names_in_layers, &context) {
            Err(e) => return Err(e),
            Ok(()) => {},
        }
        i = i + 1;
    }
    assert(cfg.forbidden_macros@.skip(i as int).len() == 0);
    Ok(())
}

fn validate_methods(cfg: &Config) -> (r: Result<(), ConfigError>)
    ensures
        reports(r, first_error(cfg.forbidden_methods@, methods_check(cfg))),
{
    let ghost f = methods_check(cfg);
    proof {
        assert(cfg.forbidden_methods@.skip(0) =~= cfg.forbidden_methods@);
    }
    let mut i: usize = 0;
    while i < cfg.forbidden_methods.len()
        invariant
            i <= cfg.forbidden_methods@.len(),
            f == methods_check(cfg),
            first_error(cfg.forbidden_methods@, f) == first_error(cfg.forbidden_methods@.skip(i as int), f),
        decreases cfg.forbidden_methods@.len() - i,
    {
        let r = &cfg.forbidden_methods[i];
        proof {
            lemma_first_error_step(cfg.forbidden_methods@, f, i as int);
        }
        match check_scope(cfg, "forbidden_methods", &r.rule, &r.in_layers, &r.in_layers_except, &r.in_files) {
            Err(e) => return Err(e),
            Ok(()) => {},
        }
        i = i + 1;
    }
    assert(cfg.forbidden_methods@.skip(i as int).len() == 0);
    Ok(())
}

fn validate_struct_attrs(cfg: &Config) -> (r: Result<(), ConfigError>)
    ensures
        reports(r, first_error(cfg.required_struct_attrs@, struct_attrs_check(cfg))),
{
    let ghost f = struct_attrs_check(cfg);
    proof {
        assert(cfg.required_struct_attrs@.skip(0) =~= cfg.required_struct_attrs@);
    }
    let mut i: usize = 0;
    while i < cfg.required_struct_attrs.len()
        invariant
            i <= cfg.required_struct_attrs@.len(),
            f == struct_attrs_check(cfg),
            first_error(cfg.required_struct_attrs@, f) == first_error(cfg.required_struct_attrs@.skip(i as int), f),
        decreases cfg.required_struct_attrs@.len() - i,
    {
        let r = &cfg.required_struct_attrs[i];
        proof {
            lemma_first_error_step(cfg.required_struct_attrs@, f, i as int);
        }
        match check_scope(cfg, "required_struct_attrs", &r.rule, &r.in_layers, &r.in_layers_except, &r.in_files) {
            Err(e) => return Err(e),
            Ok(()) => {},
        }
        match ident::validate(r.struct_name_pattern.as_str()) {
            Err(_) => {
                return Err(ConfigError::InvalidStructPattern {
                    rule: r.rule.clone(),
                    pattern: r.struct_name_pattern.clone(),
                });
            },
            Ok(()) => {},
        }
        i = i + 1;
    }
    assert(cfg.required_struct_attrs@.skip(i as int).len() == 0);
    Ok(())
}

fn validate_fs_not_exist(cfg: &Config) -> (r: Result<(), ConfigError>)
    ensures
        reports(r, first_error(cfg.fs_must_not_exist@, fs_not_exist_check())),
{
    let ghost f = fs_not_exist_check();
    proof {
        assert(cfg.fs_must_not_exist@.skip(0) =~= cfg.fs_must_not_exist@);
    }
    let mut i: usize = 0;
    while i < cfg.fs_must_not_exist.len()
        invariant
            i <= cfg.fs_must_not_exist@.len(),
            f == fs_not_exist_check(),
            first_error(cfg.fs_must_not_exist@, f) == first_error(cfg.fs_must_not_exist@.skip(i as int), f),
        decreases cfg.fs_must_not_exist@.len() - i,
    {
        let r = &cfg.fs_must_not_exist[i];
        proof {
            lemma_first_error_step(cfg.fs_must_not_exist@, f, i as int);
        }
        if r.path.is_none() && r.paths.len() == 0 {
            return Err(ConfigError::FsPathMissing { rule: r.rule.clone() });
        }
        i = i + 1;
    }
    assert(cfg.fs_must_not_exist@.skip(i as int).len() == 0);
    Ok(())
}

/// Whether `names` holds `name`.
fn contains_name(names: &Vec<String>, name: &String) -> (r: bool)
    ensures
        r == exists|j: int| 0 <= j < names@.len() && (#[trigger] names@[j])@ == name@,
{
    let mut i: usize = 0;
    while i < names.len()
        invariant
            i <= names@.len(),
            forall|j: int| 0 <= j < i ==> (#[trigger] names@[j])@ != name@,
        decreases names@.len() - i,
    {
        if names[i] == *name {
            return true;
        }
        i = i + 1;
    }
    false
}

fn validate_n_plus_one(cfg: &Config) -> (r: Result<(), ConfigError>)
    ensures
        reports(r, n_plus_one_error(cfg)),
{
    match &cfg.n_plus_one {
        None => Ok(()),
        Some(n) => {
            let context = String::from_str("n_plus_one in_layers");
            match check_layer_names(cfg, &n.in_layers, &context) {
                Err(e) => return Err(e),
                Ok(()) => {},
            }
            proof {
                assert(n.layer_assumes_query@.skip(0) =~= n.layer_assumes_query@);
            }
            let mut i: usize = 0;
            while i < n.layer_assumes_query.len()
                invariant
                    i <= n.layer_assumes_query@.len(),
                    unknown_layer_error(cfg, n.in_layers@, "n_plus_one in_layers"@) is None,
                    cfg.n_plus_one == Some(*n),
                    first_not_in(n.layer_assumes_query@, n.in_layers@) == first_not_in(
                        n.layer_assumes_query@.skip(i as int),
                        n.in_layers@,
                    ),
                decreases n.layer_assumes_query@.len() - i,
            {
                proof {
                    assert(n.layer_assumes_query@.skip(i as int).drop_first() =~= n.layer_assumes_query@.skip(i + 1));
                    assert(n.layer_assumes_query@.skip(i as int)[0] == n.layer_assumes_query@[i as int]);
                }
                if !contains_name(&n.in_layers, &n.layer_assumes_query[i]) {
                    assert(first_not_in(n.layer_assumes_query@.skip(i as int), n.in_layers@) == Some(n.layer_assumes_query@[i as int]@));
                    assert(first_not_in(n.layer_assumes_query@, n.in_layers@) == Some(n.layer_assumes_query@[i as int]@));
                    assert(unknown_layer_error(cfg, n.in_layers@, "n_plus_one in_layers"@) is None);
                    assert(n_plus_one_error(cfg) == Some(ConfigErrorView::AssumesQueryOutsideLayers(n.layer_assumes_query@[i as int]@)));
                    return Err(ConfigError::AssumesQueryOutsideLayers { layer: n.layer_assumes_query[i].clone() });
                }
                i = i + 1;
            }
            assert(n.layer_assumes_query@.skip(i as int).len() == 0);
            Ok(())
        },
    }
}

/// Reject any config the engine cannot soundly execute.
///
/// Catches: rule entries with none of `in_layers`, `in_layers_except`,
/// `in_files`; entries with both `in_layers` and `in_layers_except`; layer
/// names referenced in rules that don't exist in `[[layers]]`; identifier
/// patterns containing `**`; `n_plus_one.layer_assumes_query` containing
/// layers not in `n_plus_one.in_layers`; and `fs_must_not_exist` entries with
/// neither `path` nor `paths`.
pub fn validate(cfg: &Config) -> (r: Result<(), ConfigError>)
    ensures
        reports(r, config_error(cfg)),
        r is Ok <==> config_valid(cfg),
{
    proof {
        lemma_config_error_none(cfg);
    }
    match validate_imports(cfg) {
        Err(e) => return Err(e),
        Ok(()) => {},
    }
    match validate_inline(cfg, &cfg.forbidden_inline_paths, "forbidden_inline_paths") {
        Err(e) => return Err(e),
        Ok(()) => {},
    }
    match validate_inline(cfg, &cfg.forbidden_constructors, "forbidden_constructors") {
        Err(e) => return Err(e),
        Ok(()) => {},
    }
    match validate_macros(cfg) {
        Err(e) => return Err(e),
        Ok(()) => {},
    }
    match validate_methods(cfg) {
        Err(e) => return Err(e),
        Ok(()) => {},
    }
    match validate_struct_attrs(cfg) {
        Err(e) => return Err(e),
        Ok(()) => {},
    }
    match validate_fs_not_exist(cfg) {
        Err(e) => return Err(e),
        Ok(()) => {},
    }
    validate_n_plus_one(cfg)
}

/// `validate`'s error order and the plain validity conditions agree.
proof fn lemma_config_error_none(cfg: &Config)
    ensures
        config_error(cfg) is None <==> config_valid(cfg),
{
    let imports = cfg.forbidden_imports@;
    lemma_first_error_none(imports, imports_check(cfg));
    assert forall|i: int| 0 <= i < imports.len() implies ((imports_check(cfg)(#[trigger] imports[i])) is None <==> scope_ok(cfg, imports[i].in_layers@, imports[i].in_layers_except@, imports[i].in_files@)) by {
        lemma_scope_error_none(cfg, "forbidden_imports"@, imports[i].rule@, imports[i].in_layers@, imports[i].in_layers_except@, imports[i].in_files@);
    }
    let inl = cfg.forbidden_inline_paths@;
    lemma_first_error_none(inl, inline_check(cfg, "forbidden_inline_paths"@));
    assert forall|i: int| 0 <= i < inl.len() implies ((inline_check(cfg, "forbidden_inline_paths"@)(#[trigger] inl[i])) is None <==> scope_ok(cfg, inl[i].in_layers@, inl[i].in_layers_except@, inl[i].in_files@)) by {
        lemma_scope_error_none(cfg, "forbidden_inline_paths"@, inl[i].rule@, inl[i].in_layers@, inl[i].in_layers_except@, inl[i].in_files@);
    }
    let cons = cfg.forbidden_constructors@;
    lemma_first_error_none(cons, inline_check(cfg, "forbidden_constructors"@));
    assert forall|i: int| 0 <= i < cons.len() implies ((inline_check(cfg, "forbidden_constructors"@)(#[trigger] cons[i])) is None <==> scope_ok(cfg, cons[i].in_layers@, cons[i].in_layers_except@, cons[i].in_files@)) by {
        lemma_scope_error_none(cfg, "forbidden_constructors"@, cons[i].rule@, cons[i].in_layers@, cons[i].in_layers_except@, cons[i].in_files@);
    }
    let mac = cfg.forbidden_macros@;
    lemma_first_error_none(mac, macros_check(cfg));
    assert forall|i: int| 0 <= i < mac.len() implies ((macros_check(cfg)(#[trigger] mac[i])) is None <==> (scope_ok(cfg, mac[i].in_layers@, mac[i].in_layers_except@, mac[i].in_files@) && all_known(cfg, mac[i].bare_names_in_layers@))) by {
        lemma_scope_error_none(cfg, "forbidden_macros"@, mac[i].rule@, mac[i].in_layers@, mac[i].in_layers_except@, mac[i].in_files@);
        lemma_first_unknown_none(cfg, mac[i].bare_names_in_layers@);
    }
    let met = cfg.forbidden_methods@;
    lemma_first_error_none(met, methods_check(cfg));
    assert forall|i: int| 0 <= i < met.len() implies ((methods_check(cfg)(#[trigger] met[i])) is None <==> scope_ok(cfg, met[i].in_layers@, met[i].in_layers_except@, met[i].in_files@)) by {
        lemma_scope_error_none(cfg, "forbidden_methods"@, met[i].rule@, met[i].in_layers@, met[i].in_layers_except@, met[i].in_files@);
    }
    let sa = cfg.required_struct_attrs@;
    lemma_first_error_none(sa, struct_attrs_check(cfg));
    assert forall|i: int| 0 <= i < sa.len() implies ((struct_attrs_check(cfg)(#[trigger] sa[i])) is None <==> (scope_ok(cfg, sa[i].in_layers@, sa[i].in_layers_except@, sa[i].in_files@) && !has_double_star(sa[i].struct_name_pattern@))) by {
        lemma_scope_error_none(cfg, "required_struct_attrs"@, sa[i].rule@, sa[i].in_layers@, sa[i].in_layers_except@, sa[i].in_files@);
    }
    let fsn = cfg.fs_must_not_exist@;
    lemma_first_error_none(fsn, fs_not_exist_check());
    assert((first_error(imports, imports_check(cfg)) is None) <==> (forall|i: int|
        0 <= i < cfg.forbidden_imports@.len() ==> {
            let r = #[trigger] cfg.forbidden_imports@[i];
            scope_ok(cfg, r.in_layers@, r.in_layers_except@, r.in_files@)
        }));
    assert((first_error(fsn, fs_not_exist_check()) is None) <==> (forall|i: int|
        0 <= i < cfg.fs_must_not_exist@.len() ==> {
            let r = #[trigger] cfg.fs_must_not_exist@[i];
            r.path is Some || r.paths@.len() > 0
        }));
    match cfg.n_plus_one {
        None => {},
        Some(n) => {
            lemma_first_unknown_none(cfg, n.in_layers@);
            lemma_first_not_in_none(n.layer_assumes_query@, n.in_layers@);
            assert((n_plus_one_error(cfg) is None) <==> (all_known(cfg, n.in_layers@) && forall|i: int|
            0 <= i < n.layer_assumes_query@.len() ==> exists|j: int|
                0 <= j < n.in_layers@.len() && (#[trigger] n.in_layers@[j])@ == (
                #[trigger] n.layer_assumes_query@[i])@));
        },
    }
}

} // verus!
