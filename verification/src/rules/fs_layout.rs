//! `fs_must_exist` / `fs_must_not_exist`: filesystem layout assertions,
//! checked before any source is parsed. Paths are relative to the
//! **project root**, not `src_root`.
//!
//! The assertions are laid out as a flat list of probes; the caller looks
//! each probe's path up on disk and hands back, per probe, whether it is
//! present.

use vstd::prelude::*;

use crate::config::{Config, FsMustExist, FsMustNotExist};
use crate::rules::concat_all;
use crate::text::{chars_of, replace_all};
use crate::violations::{views, Violation, ViolationView};

verus! {

/// `root` joined with `path` as a Unix filesystem path: an absolute `path`
/// replaces `root`; otherwise one `/` separates the two, unless `root` is
/// empty or already ends in `/`.
pub open spec fn join_path(root: Seq<char>, path: Seq<char>) -> Seq<char> {
    if path.len() > 0 && path[0] == '/' {
        path
    } else if root.len() == 0 || root.last() == '/' {
        root + path
    } else {
        root + "/"@ + path
    }
}

/// `root` joined with `path`.
pub fn join_path_exec(root: &str, path: &str) -> (r: String)
    ensures
        r@ == join_path(root@, path@),
{
    let pv = chars_of(path);
    let rv = chars_of(root);
    if pv.len() > 0 && pv[0] == '/' {
        return String::from_str(path);
    }
    let mut out = String::from_str(root);
    if rv.len() > 0 && rv[rv.len() - 1] != '/' {
        out.append("/");
    }
    out.append(path);
    out
}

/// One layout assertion: `path` must exist (`must_exist`), or must not.
pub struct FsProbe {
    pub must_exist: bool,
    pub path: String,
    pub rule: String,
    pub message: Option<String>,
}

pub struct ProbeView {
    pub must_exist: bool,
    pub path: Seq<char>,
    pub rule: Seq<char>,
    pub message: Option<Seq<char>>,
}

pub open spec fn opt_view(o: Option<String>) -> Option<Seq<char>> {
    match o {
        Some(s) => Some(s@),
        None => None,
    }
}

impl View for FsProbe {
    type V = ProbeView;

    open spec fn view(&self) -> ProbeView {
        ProbeView {
            must_exist: self.must_exist,
            path: self.path@,
            rule: self.rule@,
            message: opt_view(self.message),
        }
    }
}

/// The probe of a `fs_must_exist` entry.
pub open spec fn exist_probe(r: FsMustExist) -> ProbeView {
    ProbeView { must_exist: true, path: r.path@, rule: r.rule@, message: opt_view(r.message) }
}

/// The probe of one path of a `fs_must_not_exist` entry.
pub open spec fn absent_probe(r: FsMustNotExist, path: Seq<char>) -> ProbeView {
    ProbeView { must_exist: false, path, rule: r.rule@, message: opt_view(r.message) }
}

/// The paths a `fs_must_not_exist` entry names: `paths` in order, then
/// `path` when it is set.
pub open spec fn absent_targets(r: FsMustNotExist) -> Seq<Seq<char>> {
    let listed = r.paths@.map_values(|s: String| s@);
    match r.path {
        Some(p) => listed.push(p@),
        None => listed,
    }
}

/// The probes of a `fs_must_not_exist` entry.
pub open spec fn absent_probes(r: FsMustNotExist) -> Seq<ProbeView> {
    absent_targets(r).map_values(|p: Seq<char>| absent_probe(r, p))
}

/// All probes of a configuration: the `fs_must_exist` entries in order,
/// then the paths of each `fs_must_not_exist` entry in order.
pub open spec fn probes(cfg: Config) -> Seq<ProbeView> {
    cfg.fs_must_exist@.map_values(|r: FsMustExist| exist_probe(r)) + concat_all(
        cfg.fs_must_not_exist@.map_values(|r: FsMustNotExist| absent_probes(r)),
    )
}

/// The message of a failed probe: the configured template with `{path}`
/// substituted, or the default text.
pub open spec fn probe_message(p: ProbeView) -> Seq<char> {
    match p.message {
        Some(t) => replace_all(t, "{path}"@, p.path),
        None => if p.must_exist {
            "required path `"@ + p.path + "` does not exist"@
        } else {
            "forbidden path `"@ + p.path + "` exists"@
        },
    }
}

/// The violations of the probes `ps`, `present[i]` telling whether the path
/// of probe `i` exists: a required path that is absent, or a forbidden path
/// that is present, is reported at line 0 of its joined path.
pub open spec fn probe_violations(root: Seq<char>, ps: Seq<ProbeView>, present: Seq<bool>) -> Seq<
    ViolationView,
>
    decreases ps.len(),
{
    if ps.len() == 0 {
        Seq::empty()
    } else {
        let p = ps.last();
        let rest = probe_violations(root, ps.drop_last(), present);
        if p.must_exist != present[ps.len() - 1] {
            rest.push(
                ViolationView {
                    file: join_path(root, p.path),
                    line: 0,
                    rule: p.rule,
                    message: probe_message(p),
                },
            )
        } else {
            rest
        }
    }
}

proof fn lemma_map_push<A, B>(s: Seq<A>, x: A, f: spec_fn(A) -> B)
    ensures
        s.push(x).map_values(f) == s.map_values(f).push(f(x)),
{
    assert(s.push(x).map_values(f) =~= s.map_values(f).push(f(x)));
}

proof fn lemma_take_push<A>(s: Seq<A>, i: int)
    requires
        0 <= i < s.len(),
    ensures
        s.take(i + 1) == s.take(i).push(s[i]),
{
    assert(s.take(i + 1) =~= s.take(i).push(s[i]));
}

fn clone_opt(o: &Option<String>) -> (r: Option<String>)
    ensures
        opt_view(r) == opt_view(*o),
{
    match o {
        Some(s) => Some(s.clone()),
        None => None,
    }
}

/// The probes of `cfg`, in the order of [`probes`].
pub fn probe_list(cfg: &Config) -> (r: Vec<FsProbe>)
    ensures
        r@.map_values(|p: FsProbe| p@) == probes(*cfg),
{
    let mut out: Vec<FsProbe> = Vec::new();
    let mut i: usize = 0;
    while i < cfg.fs_must_exist.len()
        invariant
            i <= cfg.fs_must_exist@.len(),
            out@.map_values(|p: FsProbe| p@) == cfg.fs_must_exist@.take(i as int).map_values(
                |r: FsMustExist| exist_probe(r),
            ),
        decreases cfg.fs_must_exist@.len() - i,
    {
        let r = &cfg.fs_must_exist[i];
        let ghost before = out@;
        let probe = FsProbe {
            must_exist: true,
            path: r.path.clone(),
            rule: r.rule.clone(),
            message: clone_opt(&r.message),
        };
        assert(probe@ == exist_probe(*r));
        out.push(probe);
        proof {
            lemma_map_push(before, probe, |p: FsProbe| p@);
            lemma_take_push(cfg.fs_must_exist@, i as int);
            lemma_map_push(cfg.fs_must_exist@.take(i as int), *r, |r: FsMustExist| exist_probe(r));
        }
        i = i + 1;
    }
    assert(cfg.fs_must_exist@.take(i as int) =~= cfg.fs_must_exist@);
    let ghost base = out@.map_values(|p: FsProbe| p@);
    let ghost f = |r: FsMustNotExist| absent_probes(r);
    let mut j: usize = 0;
    assert(cfg.fs_must_not_exist@.take(0).map_values(f) =~= Seq::<Seq<ProbeView>>::empty());
    while j < cfg.fs_must_not_exist.len()
        invariant
            j <= cfg.fs_must_not_exist@.len(),
            f == (|r: FsMustNotExist| absent_probes(r)),
            base == cfg.fs_must_exist@.map_values(|r: FsMustExist| exist_probe(r)),
            out@.map_values(|p: FsProbe| p@) == base + concat_all(
                cfg.fs_must_not_exist@.take(j as int).map_values(f),
            ),
        decreases cfg.fs_must_not_exist@.len() - j,
    {
        let r = &cfg.fs_must_not_exist[j];
        let ghost pre = out@.map_values(|p: FsProbe| p@);
        let mut m: usize = 0;
        while m < r.paths.len()
            invariant
                m <= r.paths@.len(),
                out@.map_values(|p: FsProbe| p@) == pre + Seq::new(
                    m as nat,
                    |q: int| absent_probe(*r, r.paths@[q]@),
                ),
            decreases r.paths@.len() - m,
        {
            let ghost before = out@;
            let probe = FsProbe {
                must_exist: false,
                path: r.paths[m].clone(),
                rule: r.rule.clone(),
                message: clone_opt(&r.message),
            };
            out.push(probe);
            proof {
                lemma_map_push(before, probe, |p: FsProbe| p@);
                assert(out@.map_values(|p: FsProbe| p@) =~= pre + Seq::new(
                    (m + 1) as nat,
                    |q: int| absent_probe(*r, r.paths@[q]@),
                ));
            }
            m = m + 1;
        }
        let ghost listed = out@.map_values(|p: FsProbe| p@);
        proof {
            assert(listed =~= pre + r.paths@.map_values(|s: String| s@).map_values(
                |p: Seq<char>| absent_probe(*r, p),
            ));
        }
        match &r.path {
            Some(p) => {
                let ghost before = out@;
                let probe = FsProbe {
                    must_exist: false,
                    path: p.clone(),
                    rule: r.rule.clone(),
                    message: clone_opt(&r.message),
                };
                out.push(probe);
                proof {
                    lemma_map_push(before, probe, |p: FsProbe| p@);
                    lemma_map_push(
                        r.paths@.map_values(|s: String| s@),
                        p@,
                        |p: Seq<char>| absent_probe(*r, p),
                    );
                }
            },
            None => {},
        }
        proof {
            assert(out@.map_values(|p: FsProbe| p@) =~= pre + absent_probes(*r));
            let s = cfg.fs_must_not_exist@.take(j + 1).map_values(f);
            assert(s.drop_last() =~= cfg.fs_must_not_exist@.take(j as int).map_values(f));
            assert(s.last() == absent_probes(*r));
        }
        j = j + 1;
    }
    assert(cfg.fs_must_not_exist@.take(j as int) =~= cfg.fs_must_not_exist@);
    out
}

/// The paths to look up on disk, one per probe of `cfg`, each joined to
/// `project_root`.
pub fn targets(cfg: &Config, project_root: &str) -> (r: Vec<String>)
    ensures
        r@.map_values(|s: String| s@) == probes(*cfg).map_values(
            |p: ProbeView| join_path(project_root@, p.path),
        ),
{
    let ps = probe_list(cfg);
    let ghost pv = ps@.map_values(|p: FsProbe| p@);
    let mut out: Vec<String> = Vec::new();
    let mut i: usize = 0;
    while i < ps.len()
        invariant
            i <= ps@.len(),
            pv == ps@.map_values(|p: FsProbe| p@),
            out@.map_values(|s: String| s@) == pv.take(i as int).map_values(
                |p: ProbeView| join_path(project_root@, p.path),
            ),
        decreases ps@.len() - i,
    {
        let ghost before = out@;
        let t = join_path_exec(project_root, ps[i].path.as_str());
        out.push(t);
        proof {
            lemma_map_push(before, t, |s: String| s@);
            lemma_take_push(pv, i as int);
            lemma_map_push(pv.take(i as int), pv[i as int], |p: ProbeView| join_path(project_root@, p.path));
        }
        i = i + 1;
    }
    assert(pv.take(i as int) =~= pv);
    out
}

fn message_for(p: &FsProbe) -> (r: String)
    ensures
        r@ == probe_message(p@),
{
    match &p.message {
        Some(t) => {
            proof {
                reveal_strlit("{path}");
            }
            crate::text::replace(t.as_str(), "{path}", p.path.as_str())
        },
        None => {
            if p.must_exist {
                let mut m = String::from_str("required path `");
                m.append(p.path.as_str());
                m.append("` does not exist");
                m
            } else {
                let mut m = String::from_str("forbidden path `");
                m.append(p.path.as_str());
                m.append("` exists");
                m
            }
        },
    }
}

/// Reports the failed layout assertions of `cfg`: `present[i]` tells
/// whether the `i`-th path of [`targets`] exists.
pub fn check(cfg: &Config, project_root: &str, present: &[bool], violations: &mut Vec<Violation>)
    requires
        present@.len() == probes(*cfg).len(),
    ensures
        views(final(violations)@) == views(old(violations)@) + probe_violations(
            project_root@,
            probes(*cfg),
            present@,
        ),
{
    let ps = probe_list(cfg);
    let ghost pv = ps@.map_values(|p: FsProbe| p@);
    let ghost base = views(violations@);
    let mut i: usize = 0;
    assert(pv.take(0) =~= Seq::<ProbeView>::empty());
    while i < ps.len()
        invariant
            i <= ps@.len(),
            pv == ps@.map_values(|p: FsProbe| p@),
            pv.len() == present@.len(),
            views(violations@) == base + probe_violations(project_root@, pv.take(i as int), present@),
        decreases ps@.len() - i,
    {
        let p = &ps[i];
        proof {
            assert(pv.take(i + 1).drop_last() =~= pv.take(i as int));
            assert(pv.take(i + 1).last() == p@);
        }
        if p.must_exist != present[i] {
            let ghost before = violations@;
            let file = join_path_exec(project_root, p.path.as_str());
            let message = message_for(p);
            violations.push(Violation { file, line: 0, rule: p.rule.clone(), message });
            proof {
                assert(views(violations@) =~= views(before).push(
                    ViolationView {
                        file: join_path(project_root@, p@.path),
                        line: 0,
                        rule: p@.rule,
                        message: probe_message(p@),
                    },
                ));
            }
        }
        i = i + 1;
    }
    assert(pv.take(i as int) =~= pv);
}

/// Layout violations are file-level: every one is reported at line 0 of
/// the joined path of a probe that failed.
pub proof fn law_layout_hits_are_file_level(root: Seq<char>, ps: Seq<ProbeView>, present: Seq<bool>)
    ensures
        forall|k: int|
            0 <= k < probe_violations(root, ps, present).len() ==> {
                let v = #[trigger] probe_violations(root, ps, present)[k];
                &&& v.line == 0
                &&& exists|i: int|
                    0 <= i < ps.len() && ps[i].must_exist != present[i] && v.file == join_path(
                        root,
                        ps[i].path,
                    )
            },
    decreases ps.len(),
{
    if ps.len() > 0 {
        let d = ps.drop_last();
        law_layout_hits_are_file_level(root, d, present);
        let rest = probe_violations(root, d, present);
        assert forall|k: int| 0 <= k < probe_violations(root, ps, present).len() implies {
            let v = #[trigger] probe_violations(root, ps, present)[k];
            &&& v.line == 0
            &&& exists|i: int|
                0 <= i < ps.len() && ps[i].must_exist != present[i] && v.file == join_path(
                    root,
                    ps[i].path,
                )
        } by {
            if k < rest.len() {
                let v = rest[k];
                let i = choose|i: int|
                    0 <= i < d.len() && d[i].must_exist != present[i] && v.file == join_path(root, d[i].path);
                assert(d[i] == ps[i]);
            } else {
                let i = ps.len() - 1;
                assert(ps[i] == ps.last());
            }
        }
    }
}

} // verus!
