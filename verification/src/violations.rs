//! Violation type and grouped report rendering.

use vstd::prelude::*;

use crate::text::{decimal, decimal_chars, string_of};

verus! {

/// One finding: the file (as displayed), the line (0 for file-level
/// findings), the rule code and the message.
#[derive(Debug, Clone)]
pub struct Violation {
    pub file: String,
    pub line: usize,
    pub rule: String,
    pub message: String,
}

/// A violation with its text held as character sequences.
pub struct ViolationView {
    pub file: Seq<char>,
    pub line: usize,
    pub rule: Seq<char>,
    pub message: Seq<char>,
}

impl View for Violation {
    type V = ViolationView;

    open spec fn view(&self) -> ViolationView {
        ViolationView { file: self.file@, line: self.line, rule: self.rule@, message: self.message@ }
    }
}

/// The views of a sequence of violations.
pub open spec fn views(vs: Seq<Violation>) -> Seq<ViolationView> {
    vs.map_values(|v: Violation| v@)
}

/// The distinct rule codes of `vs`, in order of first occurrence.
pub open spec fn rule_order(vs: Seq<ViolationView>) -> Seq<Seq<char>>
    decreases vs.len(),
{
    if vs.len() == 0 {
        Seq::empty()
    } else {
        let r = rule_order(vs.drop_last());
        if r.contains(vs.last().rule) {
            r
        } else {
            r.push(vs.last().rule)
        }
    }
}

/// The violations of `vs` under `rule`, in order.
pub open spec fn members(vs: Seq<ViolationView>, rule: Seq<char>) -> Seq<ViolationView>
    decreases vs.len(),
{
    if vs.len() == 0 {
        Seq::empty()
    } else if vs.last().rule == rule {
        members(vs.drop_last(), rule).push(vs.last())
    } else {
        members(vs.drop_last(), rule)
    }
}

/// `  <file>:<line> — <message>` and a newline.
pub open spec fn violation_line(v: ViolationView) -> Seq<char> {
    "  "@ + v.file + ":"@ + decimal(v.line as nat) + " — "@ + v.message + "\n"@
}

/// The lines of the violations, in order.
pub open spec fn violation_lines(vs: Seq<ViolationView>) -> Seq<char>
    decreases vs.len(),
{
    if vs.len() == 0 {
        Seq::empty()
    } else {
        violation_lines(vs.drop_last()) + violation_line(vs.last())
    }
}

/// One group: `── <rule> (<n> violations) ──`, its lines, a blank line.
pub open spec fn group_block(rule: Seq<char>, group: Seq<ViolationView>) -> Seq<char> {
    "── "@ + rule + " ("@ + decimal(group.len()) + " violations) ──\n"@ + violation_lines(group)
        + "\n"@
}

/// The blocks of the rules `rules`, in order.
pub open spec fn group_blocks(vs: Seq<ViolationView>, rules: Seq<Seq<char>>) -> Seq<char>
    decreases rules.len(),
{
    if rules.len() == 0 {
        Seq::empty()
    } else {
        group_blocks(vs, rules.drop_last()) + group_block(rules.last(), members(vs, rules.last()))
    }
}

/// The report: the OK footer when there is no violation; else one block per
/// rule (in order of first occurrence) and the FAILED footer.
pub open spec fn report_text(vs: Seq<ViolationView>) -> Seq<char> {
    if vs.len() == 0 {
        "trammel: OK — no violations found.\n"@
    } else {
        group_blocks(vs, rule_order(vs)) + "trammel: FAILED — "@ + decimal(vs.len())
            + " violations found.\n"@
    }
}

proof fn lemma_rule_order_step(vs: Seq<ViolationView>, i: int)
    requires
        0 <= i < vs.len(),
    ensures
        rule_order(vs.take(i + 1)) == (if rule_order(vs.take(i)).contains(vs[i].rule) {
            rule_order(vs.take(i))
        } else {
            rule_order(vs.take(i)).push(vs[i].rule)
        }),
        members(vs.take(i + 1), vs[i].rule) == members(vs.take(i), vs[i].rule).push(vs[i]),
        forall|r: Seq<char>| r != vs[i].rule ==> members(vs.take(i + 1), r) == members(vs.take(i), r),
{
    assert(vs.take(i + 1).drop_last() =~= vs.take(i));
    assert(vs.take(i + 1).last() == vs[i]);
}

/// Appends the characters of `s` to `out`.
fn push_str_chars(out: &mut Vec<char>, s: &str)
    ensures
        final(out)@ == old(out)@ + s@,
{
    let v = crate::text::chars_of(s);
    crate::text::push_all(out, &v);
}

/// Group violations by rule (order of first occurrence) and render the
/// report. Empty input renders the OK footer.
pub fn render(violations: &[Violation]) -> (r: String)
    ensures
        r@ == report_text(views(violations@)),
{
    let ghost vs = views(violations@);
    if violations.len() == 0 {
        return String::from_str("trammel: OK — no violations found.\n");
    }
    // The rules, in order of first occurrence.
    let mut rules: Vec<String> = Vec::new();
    let mut i: usize = 0;
    proof {
        assert(vs.take(0) =~= Seq::<ViolationView>::empty());
    }
    while i < violations.len()
        invariant
            vs == views(violations@),
            i <= violations@.len(),
            rules@.map_values(|s: String| s@) == rule_order(vs.take(i as int)),
        decreases violations@.len() - i,
    {
        proof {
            lemma_rule_order_step(vs, i as int);
        }
        let rule = &violations[i].rule;
        let mut g: usize = 0;
        let mut found = false;
        while g < rules.len()
            invariant
                g <= rules@.len(),
                found ==> exists|h: int| 0 <= h < rules@.len() && (#[trigger] rules@[h])@ == rule@,
                !found ==> forall|h: int| 0 <= h < g ==> (#[trigger] rules@[h])@ != rule@,
            decreases rules@.len() - g,
        {
            if rules[g] == *rule {
                found = true;
            }
            g = g + 1;
        }
        let ghost ro = rule_order(vs.take(i as int));
        proof {
            assert(rule@ == vs[i as int].rule);
            assert forall|h: int| 0 <= h < rules@.len() implies (#[trigger] rules@[h])@ == ro[h] by {
                assert(rules@.map_values(|s: String| s@)[h] == rules@[h]@);
            }
            if found {
                let h = choose|h: int| 0 <= h < rules@.len() && (#[trigger] rules@[h])@ == rule@;
                assert(ro[h] == rule@);
                assert(ro.contains(rule@));
            } else {
                assert(!ro.contains(rule@)) by {
                    if ro.contains(rule@) {
                        let h = choose|h: int| 0 <= h < ro.len() && ro[h] == rule@;
                        assert(rules@[h]@ == ro[h]);
                    }
                }
            }
        }
        if !found {
            rules.push(rule.clone());
            proof {
                assert(rules@.map_values(|s: String| s@) =~= ro.push(rule@));
            }
        }
        i = i + 1;
    }
    proof {
        assert(vs.take(i as int) =~= vs);
    }
    let mut out: Vec<char> = Vec::new();
    let mut g: usize = 0;
    while g < rules.len()
        invariant
            vs == views(violations@),
            vs.len() == violations@.len(),
            g <= rules@.len(),
            rules@.map_values(|s: String| s@) == rule_order(vs),
            out@ == group_blocks(vs, rule_order(vs).take(g as int)),
        decreases rules@.len() - g,
    {
        let rule = &rules[g];
        proof {
            assert(rules@.map_values(|s: String| s@)[g as int] == rule@);
        }
        // The indices of the violations under `rule`.
        let mut idx: Vec<usize> = Vec::new();
        let mut j: usize = 0;
        proof {
            assert(vs.take(0) =~= Seq::<ViolationView>::empty());
            assert(idx@.map_values(|x: usize| vs[x as int]) =~= Seq::<ViolationView>::empty());
        }
        while j < violations.len()
            invariant
                vs == views(violations@),
                vs.len() == violations@.len(),
                j <= violations@.len(),
                forall|m: int| 0 <= m < idx@.len() ==> (#[trigger] idx@[m]) < violations@.len(),
                idx@.map_values(|x: usize| vs[x as int]) == members(vs.take(j as int), rule@),
            decreases violations@.len() - j,
        {
            proof {
                lemma_rule_order_step(vs, j as int);
                assert(violations@[j as int]@ == vs[j as int]);
            }
            if violations[j].rule == *rule {
                let ghost before = idx@;
                idx.push(j);
                proof {
                    assert(idx@.map_values(|x: usize| vs[x as int]) =~= before.map_values(
                        |x: usize| vs[x as int],
                    ).push(vs[j as int]));
                }
            }
            j = j + 1;
        }
        proof {
            assert(vs.take(j as int) =~= vs);
        }
        let ghost mv = idx@.map_values(|x: usize| vs[x as int]);
        push_str_chars(&mut out, "── ");
        push_str_chars(&mut out, rule.as_str());
        push_str_chars(&mut out, " (");
        let count = decimal_chars(idx.len());
        crate::text::push_all(&mut out, &count);
        push_str_chars(&mut out, " violations) ──\n");
        let ghost header = out@;
        let mut k: usize = 0;
        proof {
            assert(mv.take(0) =~= Seq::<ViolationView>::empty());
        }
        while k < idx.len()
            invariant
                vs == views(violations@),
                k <= idx@.len(),
                mv == idx@.map_values(|x: usize| vs[x as int]),
                forall|m: int| 0 <= m < idx@.len() ==> (#[trigger] idx@[m]) < violations@.len(),
                out@ == header + violation_lines(mv.take(k as int)),
            decreases idx@.len() - k,
        {
            let v = &violations[idx[k]];
            proof {
                assert(mv.take(k + 1).drop_last() =~= mv.take(k as int));
                assert(mv.take(k + 1).last() == v@);
            }
            push_str_chars(&mut out, "  ");
            push_str_chars(&mut out, v.file.as_str());
            push_str_chars(&mut out, ":");
            let ln = decimal_chars(v.line);
            crate::text::push_all(&mut out, &ln);
            push_str_chars(&mut out, " — ");
            push_str_chars(&mut out, v.message.as_str());
            push_str_chars(&mut out, "\n");
            k = k + 1;
            proof {
                assert(out@ =~= header + violation_lines(mv.take(k as int)));
            }
        }
        push_str_chars(&mut out, "\n");
        proof {
            assert(mv.take(k as int) =~= mv);
            let ro = rule_order(vs);
            assert(ro.take(g + 1).drop_last() =~= ro.take(g as int));
            assert(ro.take(g + 1).last() == rule@);
            assert(out@ =~= group_blocks(vs, ro.take(g as int)) + group_block(rule@, members(vs, rule@)));
        }
        g = g + 1;
    }
    proof {
        assert(rule_order(vs).take(g as int) =~= rule_order(vs));
    }
    push_str_chars(&mut out, "trammel: FAILED — ");
    let total = decimal_chars(violations.len());
    crate::text::push_all(&mut out, &total);
    push_str_chars(&mut out, " violations found.\n");
    string_of(out.as_slice())
}

} // verus!
