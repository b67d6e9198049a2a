//! The text the command line prints about a configuration: the list of
//! rule codes, the explanation of one rule, and what `inspect` says of a
//! file.

use vstd::prelude::*;

use crate::config::{
    Config, FileContentScan, ForbiddenImports, ForbiddenInlinePaths, ForbiddenMacros,
    ForbiddenMethods, FsMustExist, FsMustNotExist, Layer, NPlusOne, RequiredStructAttrs,
};
use crate::glob::fs_path::{set_matches, GlobSet};
use crate::layers::LayerSet;
use crate::rules::fs_layout::opt_view;
use crate::rules::{contains_name, names_contain, scope_applies, scope_holds, CompiledRules, FileScoped};
use crate::glob::region_eq;
use crate::text::{chars_of, decimal, replace_all, string_of};

verus! {

/// A configured rule entry: its code, the kind of rule, and its message
/// template.
pub struct RuleEntry {
    pub rule: String,
    pub kind: String,
    pub message: Option<String>,
}

pub struct EntryView {
    pub rule: Seq<char>,
    pub kind: Seq<char>,
    pub message: Option<Seq<char>>,
}

impl View for RuleEntry {
    type V = EntryView;

    open spec fn view(&self) -> EntryView {
        EntryView { rule: self.rule@, kind: self.kind@, message: opt_view(self.message) }
    }
}

/// A configuration entry with a rule code and a message template.
pub trait Coded {
    spec fn code(&self) -> Seq<char>;

    spec fn template(&self) -> Option<Seq<char>>;

    fn rule_code(&self) -> (r: &String)
        ensures
            r@ == self.code(),
    ;

    fn message_template(&self) -> (r: &Option<String>)
        ensures
            opt_view(*r) == self.template(),
    ;
}

impl Coded for ForbiddenImports {
    open spec fn code(&self) -> Seq<char> {
        self.rule@
    }

    open spec fn template(&self) -> Option<Seq<char>> {
        opt_view(self.message)
    }

    fn rule_code(&self) -> (r: &String) {
        &self.rule
    }

    fn message_template(&self) -> (r: &Option<String>) {
        &self.message
    }
}

impl Coded for ForbiddenInlinePaths {
    open spec fn code(&self) -> Seq<char> {
        self.rule@
    }

    open spec fn template(&self) -> Option<Seq<char>> {
        opt_view(self.message)
    }

    fn rule_code(&self) -> (r: &String) {
        &self.rule
    }

    fn message_template(&self) -> (r: &Option<String>) {
        &self.message
    }
}

impl Coded for ForbiddenMacros {
    open spec fn code(&self) -> Seq<char> {
        self.rule@
    }

    open spec fn template(&self) -> Option<Seq<char>> {
        opt_view(self.message)
    }

    fn rule_code(&self) -> (r: &String) {
        &self.rule
    }

    fn message_template(&self) -> (r: &Option<String>) {
        &self.message
    }
}

impl Coded for ForbiddenMethods {
    open spec fn code(&self) -> Seq<char> {
        self.rule@
    }

    open spec fn template(&self) -> Option<Seq<char>> {
        opt_view(self.message)
    }

    fn rule_code(&self) -> (r: &String) {
        &self.rule
    }

    fn message_template(&self) -> (r: &Option<String>) {
        &self.message
    }
}

impl Coded for RequiredStructAttrs {
    open spec fn code(&self) -> Seq<char> {
        self.rule@
    }

    open spec fn template(&self) -> Option<Seq<char>> {
        opt_view(self.message)
    }

    fn rule_code(&self) -> (r: &String) {
        &self.rule
    }

    fn message_template(&self) -> (r: &Option<String>) {
        &self.message
    }
}

impl Coded for FsMustExist {
    open spec fn code(&self) -> Seq<char> {
        self.rule@
    }

    open spec fn template(&self) -> Option<Seq<char>> {
        opt_view(self.message)
    }

    fn rule_code(&self) -> (r: &String) {
        &self.rule
    }

    fn message_template(&self) -> (r: &Option<String>) {
        &self.message
    }
}

impl Coded for FsMustNotExist {
    open spec fn code(&self) -> Seq<char> {
        self.rule@
    }

    open spec fn template(&self) -> Option<Seq<char>> {
        opt_view(self.message)
    }

    fn rule_code(&self) -> (r: &String) {
        &self.rule
    }

    fn message_template(&self) -> (r: &Option<String>) {
        &self.message
    }
}

impl Coded for FileContentScan {
    open spec fn code(&self) -> Seq<char> {
        self.rule@
    }

    open spec fn template(&self) -> Option<Seq<char>> {
        opt_view(self.message)
    }

    fn rule_code(&self) -> (r: &String) {
        &self.rule
    }

    fn message_template(&self) -> (r: &Option<String>) {
        &self.message
    }
}

impl Coded for NPlusOne {
    open spec fn code(&self) -> Seq<char> {
        self.rule@
    }

    open spec fn template(&self) -> Option<Seq<char>> {
        opt_view(self.message)
    }

    fn rule_code(&self) -> (r: &String) {
        &self.rule
    }

    fn message_template(&self) -> (r: &Option<String>) {
        &self.message
    }
}

pub open spec fn entry_view<R: Coded>(r: R, kind: Seq<char>) -> EntryView {
    EntryView { rule: r.code(), kind, message: r.template() }
}

/// The entries of one kind, in configured order.
pub open spec fn entries_of<R: Coded>(rs: Seq<R>, kind: Seq<char>) -> Seq<EntryView> {
    rs.map_values(|r: R| entry_view(r, kind))
}

/// Every rule entry of `cfg`: kind by kind (imports, inline paths,
/// constructors, macros, methods, struct attributes, paths that must exist,
/// paths that must not, content scans, then N+1), each in configured order.
pub open spec fn rule_entries(cfg: &Config) -> Seq<EntryView> {
    entries_of(cfg.forbidden_imports@, "forbidden_imports"@) + entries_of(
        cfg.forbidden_inline_paths@,
        "forbidden_inline_paths"@,
    ) + entries_of(cfg.forbidden_constructors@, "forbidden_constructors"@) + entries_of(
        cfg.forbidden_macros@,
        "forbidden_macros"@,
    ) + entries_of(cfg.forbidden_methods@, "forbidden_methods"@) + entries_of(
        cfg.required_struct_attrs@,
        "required_struct_attrs"@,
    ) + entries_of(cfg.fs_must_exist@, "fs_must_exist"@) + entries_of(
        cfg.fs_must_not_exist@,
        "fs_must_not_exist"@,
    ) + entries_of(cfg.file_content_scan@, "file_content_scan"@) + match cfg.n_plus_one {
        Some(n) => seq![entry_view(n, "n_plus_one"@)],
        None => Seq::empty(),
    }
}

pub open spec fn entry_views(es: Seq<RuleEntry>) -> Seq<EntryView> {
    es.map_values(|e: RuleEntry| e@)
}

fn clone_message(o: &Option<String>) -> (r: Option<String>)
    ensures
        opt_view(r) == opt_view(*o),
{
    match o {
        Some(s) => Some(s.clone()),
        None => None,
    }
}

fn push_entries<R: Coded>(out: &mut Vec<RuleEntry>, rs: &Vec<R>, kind: &str)
    ensures
        entry_views(final(out)@) == entry_views(old(out)@) + entries_of(rs@, kind@),
{
    let ghost base = entry_views(out@);
    let mut i: usize = 0;
    while i < rs.len()
        invariant
            i <= rs@.len(),
            entry_views(out@) == base + entries_of(rs@.take(i as int), kind@),
        decreases rs@.len() - i,
    {
        let r = &rs[i];
        let ghost before = out@;
        let e = RuleEntry {
            rule: r.rule_code().clone(),
            kind: String::from_str(kind),
            message: clone_message(r.message_template()),
        };
        out.push(e);
        proof {
            assert(entry_views(out@) =~= entry_views(before).push(e@));
            assert(entries_of(rs@.take(i + 1), kind@) =~= entries_of(rs@.take(i as int), kind@).push(
                entry_view(*r, kind@),
            ));
        }
        i = i + 1;
    }
    assert(rs@.take(i as int) =~= rs@);
}

/// Every rule entry of `cfg`, in the order of [`rule_entries`].
pub fn collect_rules(cfg: &Config) -> (r: Vec<RuleEntry>)
    ensures
        entry_views(r@) == rule_entries(cfg),
{
    let mut out: Vec<RuleEntry> = Vec::new();
    assert(entry_views(out@) =~= Seq::<EntryView>::empty());
    push_entries(&mut out, &cfg.forbidden_imports, "forbidden_imports");
    push_entries(&mut out, &cfg.forbidden_inline_paths, "forbidden_inline_paths");
    push_entries(&mut out, &cfg.forbidden_constructors, "forbidden_constructors");
    push_entries(&mut out, &cfg.forbidden_macros, "forbidden_macros");
    push_entries(&mut out, &cfg.forbidden_methods, "forbidden_methods");
    push_entries(&mut out, &cfg.required_struct_attrs, "required_struct_attrs");
    push_entries(&mut out, &cfg.fs_must_exist, "fs_must_exist");
    push_entries(&mut out, &cfg.fs_must_not_exist, "fs_must_not_exist");
    push_entries(&mut out, &cfg.file_content_scan, "file_content_scan");
    let ghost before = out@;
    match &cfg.n_plus_one {
        Some(n) => {
            let e = RuleEntry {
                rule: n.rule.clone(),
                kind: String::from_str("n_plus_one"),
                message: clone_message(&n.message),
            };
            out.push(e);
            proof {
                assert(entry_views(out@) =~= entry_views(before).push(e@));
            }
        },
        None => {},
    }
    proof {
        assert(entry_views(out@) =~= rule_entries(cfg));
    }
    out
}

/// `<rule> (<kind>)` and a newline.
pub open spec fn list_line(e: EntryView) -> Seq<char> {
    e.rule + " ("@ + e.kind + ")\n"@
}

/// One line per entry, in order.
pub open spec fn list_text(es: Seq<EntryView>) -> Seq<char>
    decreases es.len(),
{
    if es.len() == 0 {
        Seq::empty()
    } else {
        list_text(es.drop_last()) + list_line(es.last())
    }
}

/// The `rules list` output: one `<rule> (<kind>)` line per rule entry.
pub fn rule_list(cfg: &Config) -> (r: String)
    ensures
        r@ == list_text(rule_entries(cfg)),
{
    let es = collect_rules(cfg);
    let ghost ev = entry_views(es@);
    let mut out = String::new();
    let mut i: usize = 0;
    while i < es.len()
        invariant
            i <= es@.len(),
            ev == entry_views(es@),
            out@ == list_text(ev.take(i as int)),
        decreases es@.len() - i,
    {
        proof {
            assert(ev.take(i + 1).drop_last() =~= ev.take(i as int));
            assert(ev.take(i + 1).last() == es@[i as int]@);
        }
        let e = &es[i];
        out.append(e.rule.as_str());
        out.append(" (");
        out.append(e.kind.as_str());
        out.append(")\n");
        proof {
            assert(out@ =~= list_text(ev.take(i as int)) + list_line(es@[i as int]@));
        }
        i = i + 1;
    }
    assert(ev.take(i as int) =~= ev);
    out
}

/// The explanation of one entry: its code, kind and message, then a blank
/// line.
pub open spec fn explain_block(e: EntryView) -> Seq<char> {
    "rule: "@ + e.rule + "\n"@ + "kind: "@ + e.kind + "\n"@ + match e.message {
        Some(m) => "message: "@ + m + "\n"@,
        None => "message: (default)\n"@,
    } + "\n"@
}

/// The explanations of the entries coded `rule`, in order.
pub open spec fn explain_text(es: Seq<EntryView>, rule: Seq<char>) -> Seq<char>
    decreases es.len(),
{
    if es.len() == 0 {
        Seq::empty()
    } else {
        explain_text(es.drop_last(), rule) + if es.last().rule == rule {
            explain_block(es.last())
        } else {
            Seq::empty()
        }
    }
}

/// No rule entry has the code that was asked for.
#[derive(Debug)]
pub struct UnknownRule {
    pub rule: String,
}

impl UnknownRule {
    /// ``no rule named `<rule>` in config``
    pub fn message(&self) -> (r: String)
        ensures
            r@ == "no rule named `"@ + self.rule@ + "` in config"@,
    {
        let mut m = String::from_str("no rule named `");
        m.append(self.rule.as_str());
        m.append("` in config");
        m
    }
}

/// The `rules explain <rule>` output: the explanation of every entry coded
/// `rule`; an error when there is none.
pub fn rule_explain(cfg: &Config, rule: &str) -> (r: Result<String, UnknownRule>)
    ensures
        match r {
            Ok(t) => (exists|i: int|
                0 <= i < rule_entries(cfg).len() && (#[trigger] rule_entries(cfg)[i]).rule == rule@)
                && t@ == explain_text(rule_entries(cfg), rule@),
            Err(e) => !(exists|i: int|
                0 <= i < rule_entries(cfg).len() && (#[trigger] rule_entries(cfg)[i]).rule == rule@)
                && e.rule@ == rule@,
        },
{
    let es = collect_rules(cfg);
    let ghost ev = entry_views(es@);
    let mut out = String::new();
    let mut found = false;
    let mut i: usize = 0;
    while i < es.len()
        invariant
            i <= es@.len(),
            ev == entry_views(es@),
            out@ == explain_text(ev.take(i as int), rule@),
            found == exists|j: int| 0 <= j < i && (#[trigger] ev[j]).rule == rule@,
        decreases es@.len() - i,
    {
        proof {
            assert(ev.take(i + 1).drop_last() =~= ev.take(i as int));
            assert(ev.take(i + 1).last() == es@[i as int]@);
        }
        let e = &es[i];
        if crate::text::str_eq(e.rule.as_str(), rule) {
            found = true;
            out.append("rule: ");
            out.append(e.rule.as_str());
            out.append("\n");
            out.append("kind: ");
            out.append(e.kind.as_str());
            out.append("\n");
            match &e.message {
                Some(m) => {
                    out.append("message: ");
                    out.append(m.as_str());
                    out.append("\n");
                },
                None => {
                    out.append("message: (default)\n");
                },
            }
            out.append("\n");
            proof {
                assert(out@ =~= explain_text(ev.take(i as int), rule@) + explain_block(es@[i as int]@));
                assert(ev[i as int].rule == rule@);
            }
        } else {
            proof {
                assert(explain_text(ev.take(i as int), rule@) + Seq::empty() =~= explain_text(
                    ev.take(i as int),
                    rule@,
                ));
                assert forall|j: int| 0 <= j < i + 1 && (#[trigger] ev[j]).rule == rule@ implies j < i by {
                    if j == i {
                        assert(ev[j] == es@[i as int]@);
                    }
                }
            }
        }
        i = i + 1;
    }
    assert(ev.take(i as int) =~= ev);
    if !found {
        return Err(UnknownRule { rule: String::from_str(rule) });
    }
    Ok(out)
}

/// The labels `<kind>/<rule>` of the entries (paired in order with their
/// compiled `in_files` sets) whose scope holds (`applies`) or does not hold
/// (`!applies`) for the file `rel` of layer `layer_name`.
pub open spec fn kind_labels<R: Coded + FileScoped>(
    rs: Seq<R>,
    sets: Seq<GlobSet>,
    kind: Seq<char>,
    layer_name: Seq<char>,
    rel: Seq<char>,
    applies: bool,
) -> Seq<Seq<char>>
    decreases rs.len(),
{
    if rs.len() == 0 {
        Seq::empty()
    } else {
        let k = rs.len() - 1;
        let rest = kind_labels(rs.drop_last(), sets, kind, layer_name, rel, applies);
        if k < sets.len() && scope_holds(
            rs[k].layers_view(),
            rs[k].except_view(),
            sets[k].globs(),
            layer_name,
            rel,
        ) == applies {
            rest.push(kind + "/"@ + rs[k].code())
        } else {
            rest
        }
    }
}

/// The N+1 rule's label, if any: it applies when the layer is listed in
/// `n_plus_one.in_layers`; otherwise it is listed with the reason.
pub open spec fn n_plus_one_labels(cfg: &Config, layer_name: Seq<char>, applies: bool) -> Seq<Seq<char>> {
    match cfg.n_plus_one {
        Some(n) => {
            let in_scope = names_contain(n.in_layers@, layer_name);
            if applies && in_scope {
                seq!["n_plus_one/"@ + n.rule@]
            } else if !applies && !in_scope {
                seq![
                    "n_plus_one/"@ + n.rule@ + " (layer `"@ + layer_name
                        + "` not in n_plus_one.in_layers)"@,
                ]
            } else {
                Seq::empty()
            }
        },
        None => Seq::empty(),
    }
}

/// The labels of the rules that apply (`applies`) or do not apply to the
/// file `rel` of layer `layer_name`: the scoped kinds in order, then N+1.
pub open spec fn rule_labels(
    cfg: &Config,
    cr: CompiledRules,
    layer_name: Seq<char>,
    rel: Seq<char>,
    applies: bool,
) -> Seq<Seq<char>> {
    kind_labels(
        cfg.forbidden_imports@,
        cr.forbidden_imports@,
        "forbidden_imports"@,
        layer_name,
        rel,
        applies,
    ) + kind_labels(
        cfg.forbidden_inline_paths@,
        cr.forbidden_inline_paths@,
        "forbidden_inline_paths"@,
        layer_name,
        rel,
        applies,
    ) + kind_labels(
        cfg.forbidden_constructors@,
        cr.forbidden_constructors@,
        "forbidden_constructors"@,
        layer_name,
        rel,
        applies,
    ) + kind_labels(
        cfg.forbidden_macros@,
        cr.forbidden_macros@,
        "forbidden_macros"@,
        layer_name,
        rel,
        applies,
    ) + kind_labels(
        cfg.forbidden_methods@,
        cr.forbidden_methods@,
        "forbidden_methods"@,
        layer_name,
        rel,
        applies,
    ) + kind_labels(
        cfg.required_struct_attrs@,
        cr.required_struct_attrs@,
        "required_struct_attrs"@,
        layer_name,
        rel,
        applies,
    ) + n_plus_one_labels(cfg, layer_name, applies)
}

/// Each label on a line of its own, indented by two spaces.
pub open spec fn label_lines(ls: Seq<Seq<char>>) -> Seq<char>
    decreases ls.len(),
{
    if ls.len() == 0 {
        Seq::empty()
    } else {
        label_lines(ls.drop_last()) + "  "@ + ls.last() + "\n"@
    }
}

/// `<title> (<count>):`, then the labels, or `  (none)` when there are none.
pub open spec fn section(title: Seq<char>, ls: Seq<Seq<char>>) -> Seq<char> {
    title + " ("@ + decimal(ls.len()) + "):\n"@ + (if ls.len() == 0 {
        "  (none)\n"@
    } else {
        Seq::empty()
    }) + label_lines(ls)
}

/// The two lists of `inspect`: the rules that apply to the file `rel` of
/// layer `layer_name`, then those that do not.
pub open spec fn rules_text(cfg: &Config, cr: CompiledRules, layer_name: Seq<char>, rel: Seq<char>) -> Seq<char> {
    section("rules that apply"@, rule_labels(cfg, cr, layer_name, rel, true)) + "\n"@ + section(
        "rules that do NOT apply"@,
        rule_labels(cfg, cr, layer_name, rel, false),
    )
}

/// What `inspect` says of a file of the layer at `i`: the layer, whether
/// the file is listed under that layer's `exempt_files`, whether it is test
/// code by default, and, unless exempt, the rules that apply and those that
/// do not.
pub open spec fn layer_text(cfg: &Config, ls: LayerSet, cr: CompiledRules, i: int, rel: Seq<char>) -> Seq<char> {
    let layer = *ls.layers@[i].layer;
    let exempt = set_matches(ls.layers@[i].exempt.globs(), rel);
    "layer: "@ + layer.name@ + "\n"@ + "exempt: "@ + (if exempt {
        "yes (every layer-scoped rule skipped for this file)"@
    } else {
        "no"@
    }) + "\n"@ + "test_context: "@ + (if layer.implicit_test_context {
        "yes (layer has implicit_test_context = true)"@
    } else {
        "no (per-fn `#[test]` / `#[cfg(test)]` may still apply)"@
    }) + "\n"@ + "\n"@ + if exempt {
        "(no further rules listed because this file is layer-exempt)\n"@
    } else {
        rules_text(cfg, cr, layer.name@, rel)
    }
}

/// What `inspect` says of the file `rel` (relative to `src_root`): the
/// file, then what [`layer_text`] says for its layer (the first whose
/// `paths` match it), or that no layer matches.
pub open spec fn inspect_text(cfg: &Config, ls: LayerSet, cr: CompiledRules, rel: Seq<char>) -> Seq<char> {
    "file: "@ + rel + "\n"@ + if exists|i: int| ls.first_match(rel, i) {
        layer_text(cfg, ls, cr, choose|i: int| ls.first_match(rel, i), rel)
    } else {
        "layer: (unclassified — no [[layers]] entry matches; rules will be skipped)\n"@
    }
}

pub open spec fn label_views(v: Seq<String>) -> Seq<Seq<char>> {
    v.map_values(|s: String| s@)
}

proof fn lemma_label_push(v: Seq<String>, s: String)
    ensures
        label_views(v.push(s)) == label_views(v).push(s@),
{
    assert(label_views(v.push(s)) =~= label_views(v).push(s@));
}

/// Sorts the entries of one kind into those that apply to the file and
/// those that do not.
fn record<R: Coded + FileScoped>(
    applies: &mut Vec<String>,
    skipped: &mut Vec<String>,
    kind: &str,
    rules: &Vec<R>,
    compiled: &Vec<GlobSet>,
    layer: &Layer,
    rel_path: &str,
)
    ensures
        label_views(final(applies)@) == label_views(old(applies)@) + kind_labels(
            rules@,
            compiled@,
            kind@,
            layer.name@,
            rel_path@,
            true,
        ),
        label_views(final(skipped)@) == label_views(old(skipped)@) + kind_labels(
            rules@,
            compiled@,
            kind@,
            layer.name@,
            rel_path@,
            false,
        ),
{
    let ghost a0 = label_views(applies@);
    let ghost s0 = label_views(skipped@);
    let mut i: usize = 0;
    proof {
        assert(rules@.take(0).len() == 0);
        assert(a0 + kind_labels(rules@.take(0), compiled@, kind@, layer.name@, rel_path@, true) =~= a0);
        assert(s0 + kind_labels(rules@.take(0), compiled@, kind@, layer.name@, rel_path@, false) =~= s0);
    }
    while i < rules.len()
        invariant
            i <= rules@.len(),
            label_views(applies@) == a0 + kind_labels(
                rules@.take(i as int),
                compiled@,
                kind@,
                layer.name@,
                rel_path@,
                true,
            ),
            label_views(skipped@) == s0 + kind_labels(
                rules@.take(i as int),
                compiled@,
                kind@,
                layer.name@,
                rel_path@,
                false,
            ),
        decreases rules@.len() - i,
    {
        let ghost t = rules@.take(i + 1);
        proof {
            assert(t.drop_last() =~= rules@.take(i as int));
            assert(t[i as int] == rules@[i as int]);
        }
        if i < compiled.len() {
            let r = &rules[i];
            let mut label = String::from_str(kind);
            label.append("/");
            label.append(r.rule_code().as_str());
            let ghost before_a = applies@;
            let ghost before_s = skipped@;
            if scope_applies(
                r.in_layers().as_slice(),
                r.in_layers_except().as_slice(),
                &compiled[i],
                layer,
                rel_path,
            ) {
                applies.push(label);
                proof {
                    lemma_label_push(before_a, label);
                }
            } else {
                skipped.push(label);
                proof {
                    lemma_label_push(before_s, label);
                }
            }
        }
        i = i + 1;
    }
    assert(rules@.take(i as int) =~= rules@);
}

fn append_section(out: &mut String, title: &str, labels: &Vec<String>)
    ensures
        final(out)@ == old(out)@ + section(title@, label_views(labels@)),
{
    let ghost lv = label_views(labels@);
    out.append(title);
    out.append(" (");
    let digits = crate::text::decimal_chars(labels.len());
    let count = crate::text::string_of(digits.as_slice());
    out.append(count.as_str());
    out.append("):\n");
    if labels.len() == 0 {
        out.append("  (none)\n");
    }
    let ghost head = out@;
    let mut i: usize = 0;
    while i < labels.len()
        invariant
            i <= labels@.len(),
            lv == label_views(labels@),
            out@ == head + label_lines(lv.take(i as int)),
        decreases labels@.len() - i,
    {
        proof {
            assert(lv.take(i + 1).drop_last() =~= lv.take(i as int));
            assert(lv.take(i + 1).last() == labels@[i as int]@);
        }
        out.append("  ");
        out.append(labels[i].as_str());
        out.append("\n");
        proof {
            assert(out@ =~= head + label_lines(lv.take(i + 1)));
        }
        i = i + 1;
    }
    proof {
        assert(lv.take(i as int) =~= lv);
        assert(lv.len() == labels@.len());
        assert(out@ =~= old(out)@ + section(title@, lv));
    }
}

fn rules_report(cfg: &Config, compiled: &CompiledRules, layer: &Layer, rel: &str) -> (r: String)
    ensures
        r@ == rules_text(cfg, *compiled, layer.name@, rel@),
{
    let mut applies: Vec<String> = Vec::new();
    let mut skipped: Vec<String> = Vec::new();
    proof {
        assert(label_views(applies@) =~= Seq::<Seq<char>>::empty());
        assert(label_views(skipped@) =~= Seq::<Seq<char>>::empty());
    }
    record(&mut applies, &mut skipped, "forbidden_imports", &cfg.forbidden_imports, &compiled.forbidden_imports, layer, rel);
    record(
        &mut applies,
        &mut skipped,
        "forbidden_inline_paths",
        &cfg.forbidden_inline_paths,
        &compiled.forbidden_inline_paths,
        layer,
        rel,
    );
    record(
        &mut applies,
        &mut skipped,
        "forbidden_constructors",
        &cfg.forbidden_constructors,
        &compiled.forbidden_constructors,
        layer,
        rel,
    );
    record(&mut applies, &mut skipped, "forbidden_macros", &cfg.forbidden_macros, &compiled.forbidden_macros, layer, rel);
    record(&mut applies, &mut skipped, "forbidden_methods", &cfg.forbidden_methods, &compiled.forbidden_methods, layer, rel);
    record(
        &mut applies,
        &mut skipped,
        "required_struct_attrs",
        &cfg.required_struct_attrs,
        &compiled.required_struct_attrs,
        layer,
        rel,
    );
    match &cfg.n_plus_one {
        Some(n) => {
            let mut label = String::from_str("n_plus_one/");
            label.append(n.rule.as_str());
            let ghost before_a = applies@;
            let ghost before_s = skipped@;
            if contains_name(n.in_layers.as_slice(), &layer.name) {
                applies.push(label);
                proof {
                    lemma_label_push(before_a, label);
                }
            } else {
                label.append(" (layer `");
                label.append(layer.name.as_str());
                label.append("` not in n_plus_one.in_layers)");
                skipped.push(label);
                proof {
                    lemma_label_push(before_s, label);
                }
            }
        },
        None => {},
    }
    proof {
        assert(label_views(applies@) =~= rule_labels(cfg, *compiled, layer.name@, rel@, true));
        assert(label_views(skipped@) =~= rule_labels(cfg, *compiled, layer.name@, rel@, false));
    }
    let mut out = String::new();
    append_section(&mut out, "rules that apply", &applies);
    out.append("\n");
    append_section(&mut out, "rules that do NOT apply", &skipped);
    proof {
        assert(out@ =~= rules_text(cfg, *compiled, layer.name@, rel@));
    }
    out
}

fn layer_report(cfg: &Config, layer_set: &LayerSet, compiled: &CompiledRules, i: usize, rel: &str) -> (r: String)
    requires
        i < layer_set.layers@.len(),
    ensures
        r@ == layer_text(cfg, *layer_set, *compiled, i as int, rel@),
{
    let layer = layer_set.layers[i].layer;
    let mut out = String::from_str("layer: ");
    out.append(layer.name.as_str());
    out.append("\n");
    let exempt = layer_set.is_exempt(i, rel);
    out.append("exempt: ");
    if exempt {
        out.append("yes (every layer-scoped rule skipped for this file)");
    } else {
        out.append("no");
    }
    out.append("\n");
    out.append("test_context: ");
    if layer.implicit_test_context {
        out.append("yes (layer has implicit_test_context = true)");
    } else {
        out.append("no (per-fn `#[test]` / `#[cfg(test)]` may still apply)");
    }
    out.append("\n");
    out.append("\n");
    if exempt {
        out.append("(no further rules listed because this file is layer-exempt)\n");
    } else {
        let rest = rules_report(cfg, compiled, layer, rel);
        out.append(rest.as_str());
    }
    out
}

/// The `inspect` output for the file `rel` (relative to `src_root`), given
/// the layer set and rule scopes compiled from `cfg`.
pub fn inspect(cfg: &Config, layer_set: &LayerSet, compiled: &CompiledRules, rel: &str) -> (r: String)
    ensures
        r@ == inspect_text(cfg, *layer_set, *compiled, rel@),
{
    let mut out = String::from_str("file: ");
    out.append(rel);
    out.append("\n");
    match layer_set.classify_index(rel) {
        None => {
            out.append("layer: (unclassified — no [[layers]] entry matches; rules will be skipped)\n");
            proof {
                assert forall|i: int| !layer_set.first_match(rel@, i) by {
                    if layer_set.first_match(rel@, i) {
                        assert(crate::glob::fs_path::set_matches(layer_set.layers@[i].paths.globs(), rel@));
                    }
                }
            }
        },
        Some(i) => {
            proof {
                let c = choose|i: int| layer_set.first_match(rel@, i);
                layer_set.lemma_first_match_unique(rel@, i as int, c);
            }
            let rest = layer_report(cfg, layer_set, compiled, i, rel);
            out.append(rest.as_str());
        },
    }
    out
}

/// `s` without its trailing `/` characters.
pub open spec fn trim_end_slashes(s: Seq<char>) -> Seq<char>
    decreases s.len(),
{
    if s.len() > 0 && s.last() == '/' {
        trim_end_slashes(s.drop_last())
    } else {
        s
    }
}

/// A path that is not absolute, made relative to `src_root`: `\` becomes
/// `/`, and a leading `<src_root>/` (trailing slashes of `src_root`
/// ignored) is removed; a path without that prefix is taken as relative to
/// `src_root` already.
pub open spec fn rel_to_src_root(file: Seq<char>, src_root: Seq<char>) -> Seq<char> {
    let s = replace_all(file, "\\"@, "/"@);
    let prefix = trim_end_slashes(src_root) + "/"@;
    if prefix.len() <= s.len() && s.take(prefix.len() as int) == prefix {
        s.skip(prefix.len() as int)
    } else {
        s
    }
}

/// Normalizes a user-given path that is not absolute into one relative to
/// `src_root`, the form layer classification uses. Existence is not
/// checked: `inspect` answers what the file *would* classify as.
pub fn resolve_rel_to_src_root(file: &str, src_root: &str) -> (r: String)
    ensures
        r@ == rel_to_src_root(file@, src_root@),
{
    proof {
        reveal_strlit("\\");
    }
    let norm = crate::text::replace(file, "\\", "/");
    let sv = chars_of(norm.as_str());
    let rv = chars_of(src_root);
    let mut n: usize = rv.len();
    assert(rv@.take(n as int) =~= rv@);
    while n > 0 && rv[n - 1] == '/'
        invariant
            n <= rv@.len(),
            rv@ == src_root@,
            trim_end_slashes(rv@.take(n as int)) == trim_end_slashes(src_root@),
        decreases n,
    {
        proof {
            assert(rv@.take(n as int).drop_last() =~= rv@.take(n - 1));
        }
        n = n - 1;
    }
    let mut prefix: Vec<char> = Vec::new();
    let mut i: usize = 0;
    while i < n
        invariant
            i <= n,
            n <= rv@.len(),
            prefix@ == rv@.take(i as int),
        decreases n - i,
    {
        prefix.push(rv[i]);
        proof {
            assert(prefix@ =~= rv@.take(i + 1));
        }
        i = i + 1;
    }
    prefix.push('/');
    proof {
        reveal_strlit("/");
        assert(trim_end_slashes(rv@.take(n as int)) == rv@.take(n as int));
        assert(prefix@ =~= trim_end_slashes(src_root@) + "/"@);
    }
    let m = prefix.len();
    if m <= sv.len() && region_eq(&sv, 0, &prefix, 0, m) {
        let mut rest: Vec<char> = Vec::new();
        let mut k: usize = m;
        while k < sv.len()
            invariant
                m <= k <= sv@.len(),
                rest@ == sv@.subrange(m as int, k as int),
            decreases sv@.len() - k,
        {
            rest.push(sv[k]);
            proof {
                assert(rest@ =~= sv@.subrange(m as int, k + 1));
            }
            k = k + 1;
        }
        proof {
            assert(sv@.take(m as int) =~= sv@.subrange(0, m as int));
            assert(prefix@ =~= prefix@.subrange(0, m as int));
            assert(rest@ =~= sv@.skip(m as int));
        }
        string_of(rest.as_slice())
    } else {
        proof {
            if m <= sv.len() {
                assert(sv@.take(m as int) =~= sv@.subrange(0, m as int));
                assert(prefix@ =~= prefix@.subrange(0, m as int));
            }
        }
        norm
    }
}

} // verus!
