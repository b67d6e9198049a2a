//! `file_content_scan`: substring scan over file contents.
//!
//! Right tool for non-Rust files (templates) and for catching rendered
//! method calls regardless of qualification. Line numbers are reported as
//! `0` (file-level). The caller walks the project root and hands over each
//! file with its contents; this module decides which files each entry
//! selects and which substrings it finds.

use vstd::prelude::*;

use crate::config::{Config, FileContentScan};
use crate::glob::fs_path::{fs_glob_matches, fs_glob_valid, glob_accepts, glob_is_match};
use crate::rules::{concat_all, lemma_concat_all_forall, lemma_concat_new_step};
use crate::text::{contains_seq, replace_all};
use crate::violations::{views, Violation, ViolationView};

verus! {

/// One file under the project root, as the walk found it.
pub struct ScannedFile {
    /// The file as reported in violations.
    pub path: String,
    /// The file relative to the project root.
    pub rel: String,
    /// Its contents, or `None` where they could not be read as text.
    pub contents: Option<String>,
}

/// A glob of a `file_content_scan` entry that `globset` rejects.
#[derive(Debug)]
pub struct ScanError {
    pub glob: String,
    /// The rejected glob is the entry's `exclude_glob`.
    pub exclude: bool,
}

impl ScanError {
    /// `invalid glob `<glob>`` or `invalid exclude_glob `<glob>``.
    pub open spec fn message_spec(&self) -> Seq<char> {
        (if self.exclude {
            "invalid exclude_glob `"@
        } else {
            "invalid glob `"@
        }) + self.glob@ + "`"@
    }

    pub fn message(&self) -> (r: String)
        ensures
            r@ == self.message_spec(),
    {
        let mut m = if self.exclude {
            String::from_str("invalid exclude_glob `")
        } else {
            String::from_str("invalid glob `")
        };
        m.append(self.glob.as_str());
        m.append("`");
        m
    }
}

/// The relative path with `\` turned into `/`.
pub open spec fn slash_rel(rel: Seq<char>) -> Seq<char> {
    replace_all(rel, "\\"@, "/"@)
}

/// The first rejected glob of `rules`, entries in order and each entry's
/// `glob` before its `exclude_glob`: the glob, and whether it is an
/// `exclude_glob`.
pub open spec fn scan_error(rules: Seq<FileContentScan>) -> Option<(Seq<char>, bool)>
    decreases rules.len(),
{
    if rules.len() == 0 {
        None
    } else {
        match scan_error(rules.drop_last()) {
            Some(e) => Some(e),
            None => {
                let r = rules.last();
                if !fs_glob_valid(r.glob@) {
                    Some((r.glob@, false))
                } else {
                    match r.exclude_glob {
                        Some(g) => if !fs_glob_valid(g@) {
                            Some((g@, true))
                        } else {
                            None
                        },
                        None => None,
                    }
                }
            },
        }
    }
}

/// Every glob of the entry is accepted.
pub open spec fn rule_globs_valid(r: FileContentScan) -> bool {
    fs_glob_valid(r.glob@) && (r.exclude_glob matches Some(g) ==> fs_glob_valid(g@))
}

/// The entry selects the file at `rel`: its `glob` matches and its
/// `exclude_glob`, if any, does not.
pub open spec fn scan_selects(r: FileContentScan, rel: Seq<char>) -> bool {
    fs_glob_matches(r.glob@, rel) && !(r.exclude_glob matches Some(g) && fs_glob_matches(g@, rel))
}

/// The message for `needle` found in the file at `rel`: the configured
/// template with `{substring}` then `{path}` substituted, or the default
/// text.
pub open spec fn scan_message(r: FileContentScan, needle: Seq<char>, rel: Seq<char>) -> Seq<char> {
    match r.message {
        Some(t) => replace_all(replace_all(t@, "{substring}"@, needle), "{path}"@, rel),
        None => "file contains forbidden substring `"@ + needle + "`"@,
    }
}

/// The violation, if any, of the `i`-th forbidden substring in a file.
pub open spec fn needle_hit(r: FileContentScan, f: ScannedFile, i: int) -> Seq<ViolationView> {
    let needle = r.forbidden_substrings@[i]@;
    if f.contents matches Some(c) && contains_seq(c@, needle) {
        seq![
            ViolationView {
                file: f.path@,
                line: 0,
                rule: r.rule@,
                message: scan_message(r, needle, slash_rel(f.rel@)),
            },
        ]
    } else {
        Seq::empty()
    }
}

pub open spec fn needle_fn(r: FileContentScan, f: ScannedFile) -> spec_fn(int) -> Seq<ViolationView> {
    |i: int| needle_hit(r, f, i)
}

/// The violations of one entry in one file: none unless the entry selects
/// the file and its contents were read; else one per forbidden substring
/// the contents hold, in configured order.
pub open spec fn file_hits(r: FileContentScan, f: ScannedFile) -> Seq<ViolationView> {
    if f.contents is Some && scan_selects(r, slash_rel(f.rel@)) {
        concat_all(Seq::new(r.forbidden_substrings@.len(), needle_fn(r, f)))
    } else {
        Seq::empty()
    }
}

pub open spec fn file_fn(r: FileContentScan, files: Seq<ScannedFile>) -> spec_fn(int) -> Seq<ViolationView> {
    |j: int| file_hits(r, files[j])
}

/// The violations of one entry over the files, in walk order.
pub open spec fn rule_hits(r: FileContentScan, files: Seq<ScannedFile>) -> Seq<ViolationView> {
    concat_all(Seq::new(files.len(), file_fn(r, files)))
}

pub open spec fn rule_fn(rules: Seq<FileContentScan>, files: Seq<ScannedFile>) -> spec_fn(int) -> Seq<ViolationView> {
    |k: int| rule_hits(rules[k], files)
}

/// The violations of every `file_content_scan` entry, entries in order.
pub open spec fn scan_violations(cfg: Config, files: Seq<ScannedFile>) -> Seq<ViolationView> {
    concat_all(Seq::new(cfg.file_content_scan@.len(), rule_fn(cfg.file_content_scan@, files)))
}

proof fn lemma_scan_error_none(rules: Seq<FileContentScan>)
    ensures
        scan_error(rules) is None <==> forall|k: int| 0 <= k < rules.len() ==> rule_globs_valid(#[trigger] rules[k]),
    decreases rules.len(),
{
    if rules.len() > 0 {
        lemma_scan_error_none(rules.drop_last());
        assert forall|k: int| 0 <= k < rules.len() - 1 implies rules.drop_last()[k] == rules[k] by {}
        if scan_error(rules) is None {
            assert forall|k: int| 0 <= k < rules.len() implies rule_globs_valid(#[trigger] rules[k]) by {
                if k < rules.len() - 1 {
                    assert(rules.drop_last()[k] == rules[k]);
                }
            }
        } else if scan_error(rules.drop_last()) is Some {
            let k = choose|k: int| 0 <= k < rules.len() - 1 && !rule_globs_valid(#[trigger] rules.drop_last()[k]);
            assert(rules.drop_last()[k] == rules[k]);
        }
    }
}

/// Checks every glob of the `file_content_scan` entries, in order.
pub fn validate(cfg: &Config) -> (r: Result<(), ScanError>)
    ensures
        match r {
            Ok(()) => scan_error(cfg.file_content_scan@) is None,
            Err(e) => scan_error(cfg.file_content_scan@) == Some((e.glob@, e.exclude)),
        },
{
    let rules = &cfg.file_content_scan;
    let mut k: usize = 0;
    while k < rules.len()
        invariant
            k <= rules@.len(),
            rules@ == cfg.file_content_scan@,
            scan_error(rules@.take(k as int)) is None,
        decreases rules@.len() - k,
    {
        let r = &rules[k];
        proof {
            assert(rules@.take(k + 1).drop_last() =~= rules@.take(k as int));
            assert(rules@.take(k + 1).last() == *r);
        }
        if !glob_accepts(r.glob.as_str()) {
            proof {
                assert(scan_error(rules@.take(k + 1)) == Some((r.glob@, false)));
                lemma_scan_error_prefix(rules@, (k + 1) as int);
            }
            return Err(ScanError { glob: r.glob.clone(), exclude: false });
        }
        match &r.exclude_glob {
            Some(g) => {
                if !glob_accepts(g.as_str()) {
                    proof {
                        assert(scan_error(rules@.take(k + 1)) == Some((g@, true)));
                        lemma_scan_error_prefix(rules@, (k + 1) as int);
                    }
                    return Err(ScanError { glob: g.clone(), exclude: true });
                }
            },
            None => {},
        }
        k = k + 1;
    }
    assert(rules@.take(k as int) =~= rules@);
    Ok(())
}

/// A rejected glob in a prefix is the first one of the whole list.
proof fn lemma_scan_error_prefix(rules: Seq<FileContentScan>, n: int)
    requires
        0 <= n <= rules.len(),
        scan_error(rules.take(n)) is Some,
    ensures
        scan_error(rules) == scan_error(rules.take(n)),
    decreases rules.len() - n,
{
    if n < rules.len() {
        assert(rules.take(n + 1).drop_last() =~= rules.take(n));
        assert(scan_error(rules.take(n + 1)) == scan_error(rules.take(n)));
        lemma_scan_error_prefix(rules, n + 1);
    } else {
        assert(rules.take(n) =~= rules);
    }
}

/// Whether the entry selects the file at `rel`.
fn selects(r: &FileContentScan, rel: &str) -> (b: bool)
    requires
        rule_globs_valid(*r),
    ensures
        b == scan_selects(*r, rel@),
{
    if !glob_is_match(r.glob.as_str(), rel) {
        return false;
    }
    match &r.exclude_glob {
        Some(g) => !glob_is_match(g.as_str(), rel),
        None => true,
    }
}

/// Whether any entry selects the file at `rel` (relative to the project
/// root), so that its contents are worth reading; `false` when a glob of
/// the entries is rejected.
pub fn wanted(cfg: &Config, rel: &str) -> (b: bool)
    ensures
        b == (scan_error(cfg.file_content_scan@) is None && exists|k: int|
            0 <= k < cfg.file_content_scan@.len() && scan_selects(
                #[trigger] cfg.file_content_scan@[k],
                slash_rel(rel@),
            )),
{
    if validate(cfg).is_err() {
        return false;
    }
    proof {
        lemma_scan_error_none(cfg.file_content_scan@);
        reveal_strlit("\\");
    }
    let norm = crate::text::replace(rel, "\\", "/");
    let rules = &cfg.file_content_scan;
    let mut k: usize = 0;
    while k < rules.len()
        invariant
            k <= rules@.len(),
            rules@ == cfg.file_content_scan@,
            scan_error(cfg.file_content_scan@) is None,
            norm@ == slash_rel(rel@),
            forall|q: int| 0 <= q < rules@.len() ==> rule_globs_valid(#[trigger] rules@[q]),
            forall|q: int| 0 <= q < k ==> !scan_selects(#[trigger] rules@[q], norm@),
        decreases rules@.len() - k,
    {
        if selects(&rules[k], norm.as_str()) {
            assert(scan_selects(cfg.file_content_scan@[k as int], slash_rel(rel@)));
            return true;
        }
        k = k + 1;
    }
    false
}

fn message_for(r: &FileContentScan, needle: &String, rel: &String) -> (m: String)
    ensures
        m@ == scan_message(*r, needle@, rel@),
{
    match &r.message {
        Some(t) => {
            proof {
                reveal_strlit("{substring}");
                reveal_strlit("{path}");
            }
            let once = crate::text::replace(t.as_str(), "{substring}", needle.as_str());
            crate::text::replace(once.as_str(), "{path}", rel.as_str())
        },
        None => {
            let mut m = String::from_str("file contains forbidden substring `");
            m.append(needle.as_str());
            m.append("`");
            m
        },
    }
}

/// Appends the violations of one entry in one file.
fn scan_file(r: &FileContentScan, f: &ScannedFile, violations: &mut Vec<Violation>)
    requires
        rule_globs_valid(*r),
    ensures
        views(final(violations)@) == views(old(violations)@) + file_hits(*r, *f),
{
    proof {
        reveal_strlit("\\");
    }
    let ghost base = views(violations@);
    let rel = crate::text::replace(f.rel.as_str(), "\\", "/");
    let contents = match &f.contents {
        Some(c) => c,
        None => {
            assert(base + Seq::empty() =~= base);
            return;
        },
    };
    if !selects(r, rel.as_str()) {
        assert(base + Seq::empty() =~= base);
        return;
    }
    let ghost hit = needle_fn(*r, *f);
    let mut i: usize = 0;
    assert(Seq::new(0, hit) =~= Seq::<Seq<ViolationView>>::empty());
    while i < r.forbidden_substrings.len()
        invariant
            i <= r.forbidden_substrings@.len(),
            hit == needle_fn(*r, *f),
            f.contents == Some(*contents),
            rel@ == slash_rel(f.rel@),
            views(violations@) == base + concat_all(Seq::new(i as nat, hit)),
        decreases r.forbidden_substrings@.len() - i,
    {
        proof {
            lemma_concat_new_step((i + 1) as nat, hit);
        }
        let needle = &r.forbidden_substrings[i];
        if crate::text::contains(contents.as_str(), needle.as_str()) {
            let ghost before = violations@;
            let message = message_for(r, needle, &rel);
            violations.push(
                Violation { file: f.path.clone(), line: 0, rule: r.rule.clone(), message },
            );
            proof {
                assert(views(violations@) =~= views(before) + hit(i as int));
            }
        } else {
            assert(hit(i as int) =~= Seq::<ViolationView>::empty());
            assert(views(violations@) =~= views(violations@) + hit(i as int));
        }
        i = i + 1;
    }
}

/// Runs every `file_content_scan` entry over `files` (entries in order,
/// then files in walk order) and appends what they find. Each entry's globs
/// are checked just before it runs: on the first one that `globset`
/// rejects, the hits of the entries before it stay appended and the call
/// fails.
pub fn check(cfg: &Config, files: &[ScannedFile], violations: &mut Vec<Violation>) -> (r: Result<
    (),
    ScanError,
>)
    ensures
        match r {
            Ok(()) => scan_error(cfg.file_content_scan@) is None && views(final(violations)@)
                == views(old(violations)@) + scan_violations(*cfg, files@),
            Err(e) => {
                &&& scan_error(cfg.file_content_scan@) == Some((e.glob@, e.exclude))
                &&& exists|k: int|
                    0 <= k < cfg.file_content_scan@.len() && (forall|q: int|
                        0 <= q < k ==> rule_globs_valid(#[trigger] cfg.file_content_scan@[q]))
                        && !rule_globs_valid(cfg.file_content_scan@[k]) && views(final(violations)@)
                        == views(old(violations)@) + concat_all(
                        Seq::new(k as nat, rule_fn(cfg.file_content_scan@, files@)),
                    )
            },
        },
{
    let rules = &cfg.file_content_scan;
    let ghost base = views(violations@);
    let ghost rf = rule_fn(rules@, files@);
    let mut k: usize = 0;
    assert(Seq::new(0, rf) =~= Seq::<Seq<ViolationView>>::empty());
    assert(rules@.take(0) =~= Seq::<FileContentScan>::empty());
    while k < rules.len()
        invariant
            k <= rules@.len(),
            rules@ == cfg.file_content_scan@,
            rf == rule_fn(rules@, files@),
            scan_error(rules@.take(k as int)) is None,
            forall|q: int| 0 <= q < k ==> rule_globs_valid(#[trigger] rules@[q]),
            base == views(old(violations)@),
            views(violations@) == base + concat_all(Seq::new(k as nat, rf)),
        decreases rules@.len() - k,
    {
        let r = &rules[k];
        proof {
            assert(rules@.take(k + 1).drop_last() =~= rules@.take(k as int));
            assert(rules@.take(k + 1).last() == *r);
        }
        if !glob_accepts(r.glob.as_str()) {
            proof {
                assert(scan_error(rules@.take(k + 1)) == Some((r.glob@, false)));
                lemma_scan_error_prefix(rules@, (k + 1) as int);
                assert(!rule_globs_valid(rules@[k as int]));
                assert(views(violations@) == views(old(violations)@) + concat_all(
                    Seq::new(k as nat, rule_fn(cfg.file_content_scan@, files@)),
                ));
            }
            return Err(ScanError { glob: r.glob.clone(), exclude: false });
        }
        match &r.exclude_glob {
            Some(g) => {
                if !glob_accepts(g.as_str()) {
                    proof {
                        assert(scan_error(rules@.take(k + 1)) == Some((g@, true)));
                        lemma_scan_error_prefix(rules@, (k + 1) as int);
                        assert(!rule_globs_valid(rules@[k as int]));
                        assert(views(violations@) == views(old(violations)@) + concat_all(
                            Seq::new(k as nat, rule_fn(cfg.file_content_scan@, files@)),
                        ));
                    }
                    return Err(ScanError { glob: g.clone(), exclude: true });
                }
            },
            None => {},
        }
        assert(rule_globs_valid(*r));
        proof {
            lemma_concat_new_step((k + 1) as nat, rf);
        }
        let ghost ff = file_fn(*r, files@);
        let ghost mid = views(violations@);
        let mut j: usize = 0;
        assert(Seq::new(0, ff) =~= Seq::<Seq<ViolationView>>::empty());
        while j < files.len()
            invariant
                j <= files@.len(),
                ff == file_fn(*r, files@),
                rule_globs_valid(*r),
                views(violations@) == mid + concat_all(Seq::new(j as nat, ff)),
            decreases files@.len() - j,
        {
            proof {
                lemma_concat_new_step((j + 1) as nat, ff);
            }
            scan_file(r, &files[j], violations);
            j = j + 1;
        }
        assert(rf(k as int) == rule_hits(*r, files@));
        k = k + 1;
    }
    assert(rules@.take(k as int) =~= rules@);
    Ok(())
}

/// Content-scan violations are file-level: every one is reported at line 0
/// of the file it was found in, under its entry's rule code.
pub proof fn law_scan_hits_are_file_level(cfg: Config, files: Seq<ScannedFile>)
    ensures
        forall|k: int|
            0 <= k < scan_violations(cfg, files).len() ==> (#[trigger] scan_violations(cfg, files)[k]).line == 0,
{
    let p = |v: ViolationView| v.line == 0;
    let rules = cfg.file_content_scan@;
    let outer = Seq::new(rules.len(), rule_fn(rules, files));
    assert forall|i: int, j: int| 0 <= i < outer.len() && 0 <= j < outer[i].len() implies p(#[trigger] outer[i][j]) by {
        let r = rules[i];
        let mid = Seq::new(files.len(), file_fn(r, files));
        assert forall|a: int, b: int| 0 <= a < mid.len() && 0 <= b < mid[a].len() implies p(#[trigger] mid[a][b]) by {
            let f = files[a];
            if f.contents is Some && scan_selects(r, slash_rel(f.rel@)) {
                let inner = Seq::new(r.forbidden_substrings@.len(), needle_fn(r, f));
                assert forall|x: int, y: int| 0 <= x < inner.len() && 0 <= y < inner[x].len() implies p(#[trigger] inner[x][y]) by {
                    assert(inner[x] == needle_hit(r, f, x));
                }
                lemma_concat_all_forall(inner, p);
            }
            assert(mid[a] == file_hits(r, f));
        }
        lemma_concat_all_forall(mid, p);
        assert(outer[i] == rule_hits(r, files));
    }
    lemma_concat_all_forall(outer, p);
}

} // verus!
