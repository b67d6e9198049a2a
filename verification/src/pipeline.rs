//! The full conformance pipeline: configuration checks, filesystem layout
//! assertions, content scans, then the syntax walk of every classified
//! source file.
//!
//! The caller does the reading: it looks up the layout probes on disk,
//! walks the project root for content scans, and parses the `.rs` files
//! under `src_root`; this module decides what is reported.

use vstd::prelude::*;

use crate::config::{self, config_error, config_valid, Config, ConfigError};
use crate::glob::fs_path::GlobError;
use crate::layers::{config_first_match, layer_build_error, layers_valid, LayerError, LayerSet};
use crate::rules::file_content_scan::{self, scan_error, scan_violations, slash_rel, ScanError, ScannedFile};
use crate::rules::fs_layout::{self, probe_violations, probes};
use crate::rules::{all_file_lists, concat_all, first_bad_in, lemma_concat_new_step, lists_valid, CompiledRules};
use crate::syntax::SourceFile;
use crate::violations::{views, Violation, ViolationView};
use crate::visitor::{check_file, file_violations};

verus! {

/// A Rust source file under `src_root` that parsed.
pub struct SourceInput {
    /// The file as reported in violations.
    pub path: String,
    /// The file relative to `src_root`.
    pub rel: String,
    pub ast: SourceFile,
}

/// Why the pipeline could not run.
#[derive(Debug)]
pub enum RunError {
    Config(ConfigError),
    Layers(LayerError),
    Rules(GlobError),
    Scan(ScanError),
}

impl RunError {
    /// The error with what the pipeline was doing: ``config failed
    /// validation: <error>`` and so on.
    pub fn message(&self) -> (r: String)
        ensures
            r@ == match self {
                RunError::Config(e) => "config failed validation: "@ + config::error_text(e@),
                RunError::Layers(e) => "failed to build layer set: "@ + e.message_spec(),
                RunError::Rules(e) => "failed to compile rule scopes: "@ + e.message_spec(),
                RunError::Scan(e) => "file_content_scan failed: "@ + e.message_spec(),
            },
    {
        let (mut m, inner) = match self {
            RunError::Config(e) => (String::from_str("config failed validation: "), e.message()),
            RunError::Layers(e) => (String::from_str("failed to build layer set: "), e.message()),
            RunError::Rules(e) => (String::from_str("failed to compile rule scopes: "), e.message()),
            RunError::Scan(e) => (String::from_str("file_content_scan failed: "), e.message()),
        };
        m.append(inner.as_str());
        m
    }
}

/// The violations of one parsed file: those of its layer (the first whose
/// `paths` match it), none when no layer matches.
pub open spec fn source_hits(cfg: Config, s: SourceInput) -> Seq<ViolationView> {
    let rel = slash_rel(s.rel@);
    if exists|i: int| config_first_match(cfg, rel, i) {
        let i = choose|i: int| config_first_match(cfg, rel, i);
        file_violations(cfg, s.path@, rel, i, s.ast)
    } else {
        Seq::empty()
    }
}

pub open spec fn source_fn(cfg: Config, sources: Seq<SourceInput>) -> spec_fn(int) -> Seq<ViolationView> {
    |j: int| source_hits(cfg, sources[j])
}

/// The violations of the parsed files, in the order given.
pub open spec fn source_violations(cfg: Config, sources: Seq<SourceInput>) -> Seq<ViolationView> {
    concat_all(Seq::new(sources.len(), source_fn(cfg, sources)))
}

/// Every check of the configuration passes.
pub open spec fn runnable(cfg: &Config) -> bool {
    &&& config_valid(cfg)
    &&& layers_valid(*cfg)
    &&& lists_valid(all_file_lists(cfg))
    &&& scan_error(cfg.file_content_scan@) is None
}

/// Validate the configuration, then report, in this order, the failed
/// layout assertions (`present[i]` tells whether the `i`-th path of
/// [`fs_layout::targets`] exists), the content-scan hits over `scanned`, and
/// the violations of each file of `sources` that classifies into a layer.
pub fn run(
    cfg: &Config,
    project_root: &str,
    present: &[bool],
    scanned: &[ScannedFile],
    sources: &[SourceInput],
) -> (r: Result<Vec<Violation>, RunError>)
    requires
        present@.len() == probes(*cfg).len(),
    ensures
        match r {
            Ok(vs) => runnable(cfg) && views(vs@) == probe_violations(
                project_root@,
                probes(*cfg),
                present@,
            ) + scan_violations(*cfg, scanned@) + source_violations(*cfg, sources@),
            Err(RunError::Config(e)) => config_error(cfg) == Some(e@),
            Err(RunError::Layers(e)) => config_valid(cfg) && layer_build_error(*cfg, e),
            Err(RunError::Rules(e)) => config_valid(cfg) && layers_valid(*cfg) && first_bad_in(
                all_file_lists(cfg),
                e,
            ),
            Err(RunError::Scan(e)) => {
                &&& config_valid(cfg)
                &&& layers_valid(*cfg)
                &&& lists_valid(all_file_lists(cfg))
                &&& scan_error(cfg.file_content_scan@) == Some((e.glob@, e.exclude))
            },
        },
{
    match config::validate(cfg) {
        Err(e) => {
            return Err(RunError::Config(e));
        },
        Ok(()) => {},
    }
    let layer_set = match LayerSet::build(cfg) {
        Err(e) => {
            return Err(RunError::Layers(e));
        },
        Ok(s) => s,
    };
    let compiled = match CompiledRules::build(cfg) {
        Err(e) => {
            return Err(RunError::Rules(e));
        },
        Ok(c) => c,
    };
    let mut violations: Vec<Violation> = Vec::new();
    fs_layout::check(cfg, project_root, present, &mut violations);
    match file_content_scan::check(cfg, scanned, &mut violations) {
        Err(e) => {
            return Err(RunError::Scan(e));
        },
        Ok(()) => {},
    }
    let ghost base = views(violations@);
    let ghost sf = source_fn(*cfg, sources@);
    let mut j: usize = 0;
    assert(Seq::new(0, sf) =~= Seq::<Seq<ViolationView>>::empty());
    while j < sources.len()
        invariant
            j <= sources@.len(),
            sf == source_fn(*cfg, sources@),
            layer_set.compiles(cfg),
            compiled.compiles(cfg),
            views(violations@) == base + concat_all(Seq::new(j as nat, sf)),
        decreases sources@.len() - j,
    {
        proof {
            lemma_concat_new_step((j + 1) as nat, sf);
        }
        let s = &sources[j];
        proof {
            reveal_strlit("\\");
        }
        let rel = crate::text::replace(s.rel.as_str(), "\\", "/");
        match layer_set.classify_index(rel.as_str()) {
            Some(i) => {
                proof {
                    layer_set.lemma_first_match(cfg, rel@, i as int);
                    let c = choose|i: int| config_first_match(*cfg, rel@, i);
                    layer_set.lemma_first_match(cfg, rel@, c);
                    layer_set.lemma_first_match_unique(rel@, i as int, c);
                    assert(rel@ == slash_rel(s.rel@));
                    assert(sf(j as int) == file_violations(*cfg, s.path@, rel@, i as int, s.ast));
                }
                check_file(
                    cfg,
                    &layer_set,
                    &compiled,
                    s.path.as_str(),
                    rel.as_str(),
                    i,
                    &s.ast,
                    &mut violations,
                );
            },
            None => {
                proof {
                    assert forall|i: int| !config_first_match(*cfg, rel@, i) by {
                        layer_set.lemma_first_match(cfg, rel@, i);
                        if layer_set.first_match(rel@, i) {
                            assert(crate::glob::fs_path::set_matches(layer_set.layers@[i].paths.globs(), rel@));
                        }
                    }
                    assert(views(violations@) =~= views(violations@) + sf(j as int));
                }
            },
        }
        j = j + 1;
    }
    Ok(violations)
}

/// The exit status of `check`: `0` when the run found nothing, `1` when it
/// found violations, `2` when it could not run.
pub fn exit_code(r: &Result<Vec<Violation>, RunError>) -> (code: u8)
    ensures
        code == match r {
            Ok(vs) => if vs@.len() == 0 {
                0u8
            } else {
                1u8
            },
            Err(_) => 2u8,
        },
{
    match r {
        Ok(vs) => if vs.len() == 0 {
            0
        } else {
            1
        },
        Err(_) => 2,
    }
}

} // verus!
