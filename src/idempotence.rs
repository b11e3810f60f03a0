//! Re-running a plan on the text a successful run wrote skips every step.
//! The markers a run installs, or finds, stay in the text through the
//! insertions of the later steps.
use vstd::prelude::*;

use crate::discovery::{
    group_or_empty, naive_case_label, nu_marker, spec_cmd_exists, spec_discover, spec_hint_wiring, spec_quick_detect,
    spec_shell_names, system_nu_marker, DiscoveryError, VarsView,
};
use crate::laws::{already_patched, lemma_run_outcome, run_on, FileState};
use crate::plan::{cli_plan, flag_set, fully_patched, ide_plan, spec_run_steps, Flag, StepKind};
use crate::session::all_skipped;
use crate::step::ok_view;
use crate::matcher::first_match;
use crate::patches::{
    fallback_replacement, naive_case_target, naive_case_text, spec_naive_case, spec_nu_detection, spec_opts_var,
    spec_shell_path_fallback, spec_system_nu_detection, spec_user_terminal_hint, SHELL_FALLBACK_LITERAL,
    SHELL_OPTION_ANCHOR, SHELL_TYPE_WINDOW,
};
use crate::text::{contains, find, lemma_find_from, lemma_rfind_upto, occurs_at, replace_first, rfind, splice};

verus! {

/// A character that `\w` can match: an ASCII letter, digit or `_`, or a
/// character outside ASCII.
pub open spec fn name_char(c: char) -> bool {
    let u = c as u32;
    (97 <= u <= 122) || (65 <= u <= 90) || (48 <= u <= 57) || u == 95 || u > 127
}

/// An identifier as the anchors capture it: one or more name characters.
pub open spec fn is_name(s: Seq<char>) -> bool {
    s.len() > 0 && forall|i: int| 0 <= i < s.len() ==> name_char(#[trigger] s[i])
}

/// The occurrence of `m` at `p` is cut by a splice at `at`.
pub open spec fn straddles(m: Seq<char>, p: int, at: int) -> bool {
    p < at < p + m.len()
}

/// An occurrence that a splice does not cut survives it, shifted where it
/// lay after the splice point.
pub proof fn lemma_splice_keeps(t: Seq<char>, at: int, ins: Seq<char>, m: Seq<char>, p: int)
    requires
        0 <= at <= t.len(),
        occurs_at(t, m, p),
        !straddles(m, p, at),
    ensures
        occurs_at(splice(t, at, ins), m, if p >= at { p + ins.len() } else { p }),
{
    let u = splice(t, at, ins);
    let q = if p >= at { p + ins.len() } else { p };
    assert forall|x: int| 0 <= x < m.len() implies u[q + x] == m[x] by {
        assert(t.subrange(p, p + m.len())[x] == m[x]);
    }
    assert(u.subrange(q, q + m.len()) =~= m);
}

/// The inserted text occurs where it was put.
pub proof fn lemma_splice_holds(t: Seq<char>, at: int, ins: Seq<char>)
    requires
        0 <= at <= t.len(),
    ensures
        occurs_at(splice(t, at, ins), ins, at),
{
    assert(splice(t, at, ins).subrange(at, at + ins.len()) =~= ins);
}

/// A text that contains `m`, spliced at a point that cuts none of its
/// occurrences, still contains `m`.
pub proof fn lemma_splice_keeps_contains(t: Seq<char>, at: int, ins: Seq<char>, m: Seq<char>)
    requires
        0 <= at <= t.len(),
        contains(t, m),
        forall|p: int| occurs_at(t, m, p) ==> !straddles(m, p, at),
    ensures
        contains(splice(t, at, ins), m),
{
    lemma_find_from(t, m, 0);
    let p = find(t, m)->Some_0;
    lemma_splice_keeps(t, at, ins, m, p);
    let q = if p >= at { p + ins.len() } else { p };
    lemma_contains_at(splice(t, at, ins), m, q);
}

/// An occurrence anywhere makes the text contain `m`.
pub proof fn lemma_contains_at(t: Seq<char>, m: Seq<char>, p: int)
    requires
        occurs_at(t, m, p),
    ensures
        contains(t, m),
{
    lemma_find_from(t, m, 0);
}

/// Where `m` at `p` is cut at `at`, and `pat` occurs at `at`, the two
/// agree on their overlap.
pub proof fn lemma_overlap(t: Seq<char>, m: Seq<char>, p: int, pat: Seq<char>, at: int, j: int)
    requires
        occurs_at(t, m, p),
        occurs_at(t, pat, at),
        straddles(m, p, at),
        0 <= j < pat.len(),
        at + j < p + m.len(),
    ensures
        m[at - p + j] == pat[j],
{
    assert(t.subrange(p, p + m.len())[at - p + j] == m[at - p + j]);
    assert(t.subrange(at, at + pat.len())[j] == pat[j]);
}

/// An occurrence of `m` is not cut right after a character `c` that `m`
/// holds nowhere but at its end.
pub proof fn lemma_no_cut_after(t: Seq<char>, m: Seq<char>, p: int, at: int, c: char)
    requires
        occurs_at(t, m, p),
        1 <= at <= t.len(),
        t[at - 1] == c,
        forall|x: int| 0 <= x < m.len() - 1 ==> m[x] != c,
    ensures
        !straddles(m, p, at),
{
    if straddles(m, p, at) {
        assert(t.subrange(p, p + m.len())[at - 1 - p] == m[at - 1 - p]);
    }
}

/// An occurrence in a slice is an occurrence in the whole text.
pub proof fn lemma_occurs_in_slice(t: Seq<char>, z: int, end: int, m: Seq<char>, p: int)
    requires
        0 <= z <= end <= t.len(),
        occurs_at(t.subrange(z, end), m, p),
    ensures
        occurs_at(t, m, z + p),
{
    assert(t.subrange(z, end).subrange(p, p + m.len()) =~= t.subrange(z + p, z + p + m.len()));
}

/// `m` inside `ins`, put in at `a`, is in the result at `a + k`.
pub proof fn lemma_occurs_within(s: Seq<char>, ins: Seq<char>, a: int, m: Seq<char>, k: int)
    requires
        occurs_at(s, ins, a),
        occurs_at(ins, m, k),
    ensures
        occurs_at(s, m, a + k),
{
    assert(s.subrange(a, a + ins.len()).subrange(k, k + m.len()) =~= s.subrange(a + k, a + k + m.len()));
}

// ---------------------------------------------------------------------
//  The markers, and where the insertions go
// ---------------------------------------------------------------------

/// The system-level nu marker is not cut where the nu check goes in,
/// before `<hint>.includes("pwsh")`.
proof fn lemma_system_marker_not_cut_at_pwsh(t: Seq<char>, f: Seq<char>, h: Seq<char>, p: int, a: int)
    requires
        is_name(f),
        is_name(h),
        occurs_at(t, system_nu_marker(f), p),
        occurs_at(t, h + ".includes(\"pwsh\")"@, a),
    ensures
        !straddles(system_nu_marker(f), p, a),
{
    reveal_strlit("(\"nu\")");
    reveal_strlit(".includes(\"pwsh\")");
    let m = system_nu_marker(f);
    let pat = h + ".includes(\"pwsh\")"@;
    if straddles(m, p, a) {
        let k = p + m.len() - a;
        if k <= h.len() {
            lemma_overlap(t, m, p, pat, a, k - 1);
            assert(m[m.len() - 1] == ')');
            assert(name_char(h[k - 1]));
        } else {
            lemma_overlap(t, m, p, pat, a, h.len() as int);
            assert(pat[h.len() as int] == '.');
            let x = a - p + h.len();
            if x < f.len() {
                assert(name_char(f[x]));
            }
        }
    }
}

/// The Naive case label is not cut before `<hint>.includes("pwsh")`.
proof fn lemma_case_label_not_cut_at_pwsh(t: Seq<char>, e: Seq<char>, h: Seq<char>, p: int, a: int)
    requires
        is_name(e),
        is_name(h),
        occurs_at(t, naive_case_label(e), p),
        occurs_at(t, h + ".includes(\"pwsh\")"@, a),
    ensures
        !straddles(naive_case_label(e), p, a),
{
    reveal_strlit("case ");
    reveal_strlit(".Naive:");
    reveal_strlit(".includes(\"pwsh\")");
    let m = naive_case_label(e);
    let pat = h + ".includes(\"pwsh\")"@;
    if straddles(m, p, a) {
        let k = p + m.len() - a;
        if k <= pat.len() {
            lemma_overlap(t, m, p, pat, a, k - 1);
            assert(m[m.len() - 1] == ':');
            if k - 1 < h.len() {
                assert(name_char(h[k - 1]));
            }
        } else {
            lemma_overlap(t, m, p, pat, a, pat.len() - 1);
            assert(pat[pat.len() - 1] == ')');
            let x = a - p + pat.len() - 1;
            if 5 <= x < 5 + e.len() {
                assert(name_char(e[x - 5]));
            }
        }
    }
}

/// The nu marker holds no `:`.
proof fn lemma_nu_marker_no_colon(e: Seq<char>)
    requires
        is_name(e),
    ensures
        forall|x: int| 0 <= x < nu_marker(e).len() ==> nu_marker(e)[x] != ':',
{
    reveal_strlit(".includes(\"nu\")?");
    reveal_strlit(".Naive");
    let m = nu_marker(e);
    assert forall|x: int| 0 <= x < m.len() implies m[x] != ':' by {
        if 16 <= x < 16 + e.len() {
            assert(name_char(e[x - 16]));
        }
    }
}

/// The system-level nu marker holds no `:`.
proof fn lemma_system_marker_no_colon(f: Seq<char>)
    requires
        is_name(f),
    ensures
        forall|x: int| 0 <= x < system_nu_marker(f).len() ==> system_nu_marker(f)[x] != ':',
{
    reveal_strlit("(\"nu\")");
    let m = system_nu_marker(f);
    assert forall|x: int| 0 <= x < m.len() implies m[x] != ':' by {
        if x < f.len() {
            assert(name_char(f[x]));
        }
    }
}

/// The Naive case label holds `:` only at its end.
proof fn lemma_case_label_colon_last(e: Seq<char>)
    requires
        is_name(e),
    ensures
        forall|x: int| 0 <= x < naive_case_label(e).len() - 1 ==> naive_case_label(e)[x] != ':',
{
    reveal_strlit("case ");
    reveal_strlit(".Naive:");
    let m = naive_case_label(e);
    assert forall|x: int| 0 <= x < m.len() - 1 implies m[x] != ':' by {
        if 5 <= x < 5 + e.len() {
            assert(name_char(e[x - 5]));
        }
    }
}

/// The nu marker is not cut before `default:`.
proof fn lemma_nu_marker_not_cut_at_default(t: Seq<char>, e: Seq<char>, p: int, c: int)
    requires
        is_name(e),
        occurs_at(t, nu_marker(e), p),
        occurs_at(t, "default:"@, c),
    ensures
        !straddles(nu_marker(e), p, c),
{
    reveal_strlit("default:");
    reveal_strlit(".includes(\"nu\")?");
    reveal_strlit(".Naive");
    let m = nu_marker(e);
    let pat = "default:"@;
    lemma_nu_marker_no_colon(e);
    if straddles(m, p, c) {
        let k = p + m.len() - c;
        if k <= 6 {
            lemma_overlap(t, m, p, pat, c, 0);
        } else if k == 7 {
            lemma_overlap(t, m, p, pat, c, 1);
        } else {
            lemma_overlap(t, m, p, pat, c, 7);
        }
    }
}

/// The nu marker is not cut before `case <enum>.ZshLight:`.
proof fn lemma_nu_marker_not_cut_at_zsh_light(t: Seq<char>, e: Seq<char>, p: int, c: int)
    requires
        is_name(e),
        occurs_at(t, nu_marker(e), p),
        occurs_at(t, "case "@ + e + ".ZshLight:"@, c),
    ensures
        !straddles(nu_marker(e), p, c),
{
    reveal_strlit("case ");
    reveal_strlit(".ZshLight:");
    reveal_strlit(".includes(\"nu\")?");
    reveal_strlit(".Naive");
    let m = nu_marker(e);
    let pat = "case "@ + e + ".ZshLight:"@;
    lemma_nu_marker_no_colon(e);
    if straddles(m, p, c) {
        let k = p + m.len() - c;
        if k <= 5 {
            lemma_overlap(t, m, p, pat, c, 0);
        } else if k <= pat.len() {
            lemma_overlap(t, m, p, pat, c, k - 6);
            let y = k - 6;
            if 5 <= y < 5 + e.len() {
                assert(name_char(e[y - 5]));
            } else if y == 5 + e.len() {
                lemma_overlap(t, m, p, pat, c, k - 5);
            }
        } else {
            lemma_overlap(t, m, p, pat, c, pat.len() - 1);
        }
    }
}

/// The system-level nu marker is not cut before `default:`.
proof fn lemma_system_marker_not_cut_at_default(t: Seq<char>, f: Seq<char>, p: int, c: int)
    requires
        is_name(f),
        occurs_at(t, system_nu_marker(f), p),
        occurs_at(t, "default:"@, c),
    ensures
        !straddles(system_nu_marker(f), p, c),
{
    reveal_strlit("default:");
    reveal_strlit("(\"nu\")");
    let m = system_nu_marker(f);
    let pat = "default:"@;
    lemma_system_marker_no_colon(f);
    if straddles(m, p, c) {
        let k = p + m.len() - c;
        if k <= 8 {
            lemma_overlap(t, m, p, pat, c, k - 1);
        } else {
            lemma_overlap(t, m, p, pat, c, 7);
        }
    }
}

/// The system-level nu marker is not cut before `case <enum>.ZshLight:`.
proof fn lemma_system_marker_not_cut_at_zsh_light(t: Seq<char>, f: Seq<char>, e: Seq<char>, p: int, c: int)
    requires
        is_name(f),
        is_name(e),
        occurs_at(t, system_nu_marker(f), p),
        occurs_at(t, "case "@ + e + ".ZshLight:"@, c),
    ensures
        !straddles(system_nu_marker(f), p, c),
{
    reveal_strlit("case ");
    reveal_strlit(".ZshLight:");
    reveal_strlit("(\"nu\")");
    let m = system_nu_marker(f);
    let pat = "case "@ + e + ".ZshLight:"@;
    lemma_system_marker_no_colon(f);
    if straddles(m, p, c) {
        let k = p + m.len() - c;
        if k <= pat.len() {
            lemma_overlap(t, m, p, pat, c, k - 1);
            let y = k - 1;
            if 5 <= y < 5 + e.len() {
                assert(name_char(e[y - 5]));
            }
        } else {
            lemma_overlap(t, m, p, pat, c, pat.len() - 1);
        }
    }
}

// ---------------------------------------------------------------------
//  What each step leaves
// ---------------------------------------------------------------------

pub open spec fn nu_insertion(v: VarsView) -> Seq<char> {
    v.hint_var + ".includes(\"nu\")?"@ + v.enum_var + ".Naive:"@
}

/// A nu step that succeeds leaves the nu marker: it found it, or put it in
/// before `<hint>.includes("pwsh")`.
proof fn lemma_nu_step(t: Seq<char>, v: VarsView)
    requires
        spec_nu_detection(t, v).1.ok,
        v.has_nu_detection ==> contains(t, nu_marker(v.enum_var)),
    ensures
        match spec_nu_detection(t, v).0 {
            None => contains(t, nu_marker(v.enum_var)),
            Some(t1) => exists|a: int|
                0 <= a <= t.len() && occurs_at(t, v.hint_var + ".includes(\"pwsh\")"@, a) && t1 == splice(
                    t,
                    a,
                    nu_insertion(v),
                ) && contains(t1, nu_marker(v.enum_var)),
        },
{
    reveal_strlit(".Naive:");
    reveal_strlit(".Naive");
    let ins = nu_insertion(v);
    let m = nu_marker(v.enum_var);
    assert(ins.subrange(v.hint_var.len() as int, (v.hint_var.len() + m.len()) as int) =~= m);
    if !v.has_nu_detection {
        let zsh = v.hint_var + ".includes(\"zsh\")"@;
        lemma_find_from(t, zsh, 0);
        let z = find(t, zsh)->Some_0;
        let end = if z + SHELL_TYPE_WINDOW <= t.len() {
            z + SHELL_TYPE_WINDOW
        } else {
            t.len() as int
        };
        let ps = v.hint_var + ".includes(\"pwsh\")"@;
        lemma_find_from(t.subrange(z, end), ps, 0);
        let p = find(t.subrange(z, end), ps)->Some_0;
        lemma_occurs_in_slice(t, z, end, ps, p);
        let at = z + p;
        if occurs_at(t, ins, at) {
            lemma_occurs_within(t, ins, at, m, v.hint_var.len() as int);
            lemma_contains_at(t, m, at + v.hint_var.len());
        } else {
            let t1 = splice(t, at, ins);
            lemma_splice_holds(t, at, ins);
            lemma_occurs_within(t1, ins, at, m, v.hint_var.len() as int);
            lemma_contains_at(t1, m, at + v.hint_var.len());
        }
    }
}

/// A system-level nu step that succeeds leaves the system marker: it found
/// it, or put it in right after a `:`.
proof fn lemma_system_nu_step(t: Seq<char>, v: VarsView)
    requires
        spec_system_nu_detection(t, v).1.ok,
        v.has_system_nu ==> v.cmd_exists_fn is Some && contains(t, system_nu_marker(v.cmd_exists_fn->Some_0)),
    ensures
        v.cmd_exists_fn is Some,
        match spec_system_nu_detection(t, v).0 {
            None => contains(t, system_nu_marker(v.cmd_exists_fn->Some_0)),
            Some(t2) => exists|b: int, ins: Seq<char>|
                1 <= b <= t.len() && t[b - 1] == ':' && t2 == splice(t, b, ins) && contains(
                    t2,
                    system_nu_marker(v.cmd_exists_fn->Some_0),
                ),
        },
{
    if !v.has_system_nu {
        reveal_strlit(".PowerShell:");
        reveal_strlit("(\"nu\")?");
        reveal_strlit("(\"nu\")");
        let f = v.cmd_exists_fn->Some_0;
        let ps_colon = v.enum_var + ".PowerShell:"@;
        let tail = ps_colon + v.enum_var + ".Naive}"@;
        lemma_rfind_upto(t, tail, t.len() - tail.len());
        let r = rfind(t, tail)->Some_0;
        let b = r + ps_colon.len();
        assert(t.subrange(r, r + tail.len())[b - 1 - r] == tail[b - 1 - r]);
        assert(t[b - 1] == ':');
        let ins = f + "(\"nu\")?"@ + v.enum_var + ".Naive:"@;
        let m = system_nu_marker(f);
        assert(ins.subrange(0, m.len() as int) =~= m);
        let t2 = splice(t, b, ins);
        lemma_splice_holds(t, b, ins);
        lemma_occurs_within(t2, ins, b, m, 0);
        lemma_contains_at(t2, m, b);
    }
}

/// A Naive-case step that succeeds leaves the case label: it found it, or
/// put it in before `default:` or before `case <enum>.ZshLight:`.
proof fn lemma_naive_case_step(t: Seq<char>, v: VarsView)
    requires
        spec_naive_case(t, v).1.ok,
        v.has_naive_case ==> contains(t, naive_case_label(v.enum_var)),
    ensures
        match spec_naive_case(t, v).0 {
            None => contains(t, naive_case_label(v.enum_var)),
            Some(t3) => exists|c: int, ins: Seq<char>|
                0 <= c <= t.len() && (occurs_at(t, "default:"@, c) || occurs_at(
                    t,
                    "case "@ + v.enum_var + ".ZshLight:"@,
                    c,
                )) && t3 == splice(t, c, ins) && contains(t3, naive_case_label(v.enum_var)),
        },
{
    if !v.has_naive_case {
        reveal_strlit(".Naive:{const _np=");
        reveal_strlit(".Naive:");
        let ev = v.enum_var;
        let from = find(t, "case "@ + ev + ".Zsh:"@);
        lemma_find_from(t, "case "@ + ev + ".Zsh:"@, 0);
        let from = from->Some_0;
        lemma_find_from(t, "default:"@, from);
        lemma_find_from(t, "case "@ + ev + ".ZshLight:"@, from);
        let ins = naive_case_text(
            ev,
            v.find_exec_call->Some_0,
            v.lazy_exec->Some_0,
            v.naive_exec->Some_0,
            spec_opts_var(t),
        );
        let m = naive_case_label(ev);
        assert(ins.subrange(0, m.len() as int) =~= m);
        let c = naive_case_target(t, ev, from)->Some_0.0;
        let t3 = splice(t, c, ins);
        lemma_splice_holds(t, c, ins);
        lemma_occurs_within(t3, ins, c, m, 0);
        lemma_contains_at(t3, m, c);
    }
}

// ---------------------------------------------------------------------
//  The CLI plan
// ---------------------------------------------------------------------

/// The names the anchors recover from `t` are identifiers, as `\w+`
/// captures them.
pub open spec fn names_are_identifiers(t: Seq<char>) -> bool {
    match spec_discover(t) {
        Ok(v) => is_name(v.hint_var) && is_name(v.enum_var) && (v.cmd_exists_fn matches Some(f) ==> is_name(f)),
        Err(_) => true,
    }
}

/// The anchors recover from `t2` what they recovered from `t`.
pub open spec fn anchors_agree(t: Seq<char>, t2: Seq<char>) -> bool {
    &&& spec_shell_names(t2) == spec_shell_names(t)
    &&& spec_cmd_exists(t2) == spec_cmd_exists(t)
    &&& spec_hint_wiring(t2) is Ok
}

/// The three CLI steps, run on `t` with names that are identifiers, leave
/// all three CLI markers in the text.
proof fn lemma_cli_steps_leave_markers(t: Seq<char>, v: VarsView)
    requires
        spec_discover(t) == Ok::<VarsView, DiscoveryError>(v),
        is_name(v.hint_var),
        is_name(v.enum_var),
        v.cmd_exists_fn matches Some(f) ==> is_name(f),
        spec_run_steps(cli_plan().steps, t, v).2,
    ensures
        v.cmd_exists_fn is Some,
        ({
            let fin = spec_run_steps(cli_plan().steps, t, v).1;
            &&& contains(fin, nu_marker(v.enum_var))
            &&& contains(fin, system_nu_marker(v.cmd_exists_fn->Some_0))
            &&& contains(fin, naive_case_label(v.enum_var))
        }),
{
    let steps = cli_plan().steps;
    let e = v.enum_var;
    let h = v.hint_var;
    let m1 = nu_marker(e);
    let m3 = naive_case_label(e);
    assert(steps.drop_first() =~= seq![StepKind::SystemNuDetection, StepKind::NaiveCase]);
    assert(steps.drop_first().drop_first() =~= seq![StepKind::NaiveCase]);
    assert(steps.drop_first().drop_first().drop_first() =~= Seq::<StepKind>::empty());
    let (ta, ra) = spec_nu_detection(t, v);
    let t1 = match ta {
        Some(n) => n,
        None => t,
    };
    let (tb, rb) = spec_system_nu_detection(t1, v);
    let t2 = match tb {
        Some(n) => n,
        None => t1,
    };
    let (tc, rc) = spec_naive_case(t2, v);
    let t3 = match tc {
        Some(n) => n,
        None => t2,
    };
    reveal_with_fuel(spec_run_steps, 4);
    assert(steps[0] == StepKind::NuDetection);
    assert(steps.drop_first()[0] == StepKind::SystemNuDetection);
    assert(steps.drop_first().drop_first()[0] == StepKind::NaiveCase);
    assert(ra.ok && rb.ok && rc.ok);
    assert(spec_run_steps(steps, t, v).1 == t3);
    lemma_nu_step(t, v);
    // The markers found in `t` are still in `t1`.
    let pwsh = h + ".includes(\"pwsh\")"@;
    if let Some(n) = ta {
        let a = choose|a: int|
            0 <= a <= t.len() && occurs_at(t, pwsh, a) && n == splice(t, a, nu_insertion(v)) && contains(
                n,
                m1,
            );
        if v.has_system_nu {
            let f = v.cmd_exists_fn->Some_0;
            assert forall|p: int| occurs_at(t, system_nu_marker(f), p) implies !straddles(
                system_nu_marker(f),
                p,
                a,
            ) by {
                lemma_system_marker_not_cut_at_pwsh(t, f, h, p, a);
            }
            lemma_splice_keeps_contains(t, a, nu_insertion(v), system_nu_marker(f));
        }
        if v.has_naive_case {
            assert forall|p: int| occurs_at(t, m3, p) implies !straddles(m3, p, a) by {
                lemma_case_label_not_cut_at_pwsh(t, e, h, p, a);
            }
            lemma_splice_keeps_contains(t, a, nu_insertion(v), m3);
        }
    }
    lemma_system_nu_step(t1, v);
    let f = v.cmd_exists_fn->Some_0;
    let m2 = system_nu_marker(f);
    lemma_nu_marker_no_colon(e);
    lemma_case_label_colon_last(e);
    lemma_system_marker_no_colon(f);
    if let Some(n) = tb {
        let (b, ins) = choose|b: int, ins: Seq<char>|
            1 <= b <= t1.len() && t1[b - 1] == ':' && n == splice(t1, b, ins) && contains(n, m2);
        assert forall|p: int| occurs_at(t1, m1, p) implies !straddles(m1, p, b) by {
            lemma_no_cut_after(t1, m1, p, b, ':');
        }
        lemma_splice_keeps_contains(t1, b, ins, m1);
        if v.has_naive_case {
            assert forall|p: int| occurs_at(t1, m3, p) implies !straddles(m3, p, b) by {
                lemma_no_cut_after(t1, m3, p, b, ':');
            }
            lemma_splice_keeps_contains(t1, b, ins, m3);
        }
    }
    lemma_naive_case_step(t2, v);
    if let Some(n) = tc {
        let zl = "case "@ + e + ".ZshLight:"@;
        let (c, ins) = choose|c: int, ins: Seq<char>|
            0 <= c <= t2.len() && (occurs_at(t2, "default:"@, c) || occurs_at(t2, zl, c)) && n == splice(t2, c, ins)
                && contains(n, m3);
        assert forall|p: int| occurs_at(t2, m1, p) implies !straddles(m1, p, c) by {
            if occurs_at(t2, "default:"@, c) {
                lemma_nu_marker_not_cut_at_default(t2, e, p, c);
            } else {
                lemma_nu_marker_not_cut_at_zsh_light(t2, e, p, c);
            }
        }
        lemma_splice_keeps_contains(t2, c, ins, m1);
        assert forall|p: int| occurs_at(t2, m2, p) implies !straddles(m2, p, c) by {
            if occurs_at(t2, "default:"@, c) {
                lemma_system_marker_not_cut_at_default(t2, f, p, c);
            } else {
                lemma_system_marker_not_cut_at_zsh_light(t2, f, e, p, c);
            }
        }
        lemma_splice_keeps_contains(t2, c, ins, m2);
    }
}

/// Running the CLI plan again on what a successful run wrote skips every
/// step and leaves the files as they are, where the anchors recover from
/// the written text the names they recovered from the text before, and
/// those names are identifiers.
pub proof fn lemma_cli_plan_idempotent(path: Seq<char>, t: Seq<char>)
    requires
        run_on(cli_plan(), false, path, FileState { target: t, backup: None }).0.success,
        anchors_agree(t, run_on(cli_plan(), false, path, FileState { target: t, backup: None }).1.target),
        names_are_identifiers(t),
    ensures
        ({
            let fs1 = run_on(cli_plan(), false, path, FileState { target: t, backup: None }).1;
            let (s2, fs2) = run_on(cli_plan(), false, path, fs1);
            &&& s2.success
            &&& fs2 == fs1
            &&& s2.steps == seq![ok_view("Pattern discovery"@, "Discovered minified variable names"@, Seq::empty())]
                + all_skipped(cli_plan().steps)
        }),
{
    let plan = cli_plan();
    let fs0 = FileState { target: t, backup: None };
    lemma_run_outcome(plan, false, path, fs0);
    let fs1 = run_on(plan, false, path, fs0).1;
    lemma_run_outcome(plan, false, path, fs1);
    if !already_patched(plan, t) {
        let v = spec_discover(t)->Ok_0;
        lemma_cli_steps_leave_markers(t, v);
        let fin = fs1.target;
        assert(fin == spec_run_steps(plan.steps, t, v).1);
        let f = spec_quick_detect(fin)->Some_0;
        assert(flag_set(f, Flag::Nu) && flag_set(f, Flag::SystemNu) && flag_set(f, Flag::NaiveCase));
        assert(fully_patched(plan.required, f));
        assert(already_patched(plan, fin));
    }
}

// ---------------------------------------------------------------------
//  The IDE plan
// ---------------------------------------------------------------------

/// `t` with `len` characters at `i` replaced by `rep`.
pub open spec fn replace_range(t: Seq<char>, i: int, len: int, rep: Seq<char>) -> Seq<char> {
    t.subrange(0, i) + rep + t.subrange(i + len, t.len() as int)
}

/// An occurrence clear of a replaced range survives the replacement.
proof fn lemma_replace_keeps(t: Seq<char>, i: int, len: int, rep: Seq<char>, m: Seq<char>, p: int)
    requires
        0 <= i,
        0 <= len,
        i + len <= t.len(),
        occurs_at(t, m, p),
        p + m.len() <= i || p >= i + len,
    ensures
        contains(replace_range(t, i, len, rep), m),
{
    let u = replace_range(t, i, len, rep);
    let q = if p >= i + len { p + rep.len() - len } else { p };
    assert forall|x: int| 0 <= x < m.len() implies u[q + x] == m[x] by {
        assert(t.subrange(p, p + m.len())[x] == m[x]);
    }
    assert(u.subrange(q, q + m.len()) =~= m);
    lemma_contains_at(u, m, q);
}

/// Replacing the first occurrence of `pat` by `pat + x` puts `x` in
/// right after it.
proof fn lemma_extend_first(t: Seq<char>, pat: Seq<char>, x: Seq<char>)
    requires
        find(t, pat) is Some,
    ensures
        ({
            let i = find(t, pat)->Some_0;
            &&& occurs_at(t, pat, i)
            &&& replace_first(t, pat, pat + x) == splice(t, i + pat.len(), x)
        }),
{
    lemma_find_from(t, pat, 0);
    let i = find(t, pat)->Some_0;
    assert(t.subrange(i, i + pat.len()) == pat);
    assert(replace_first(t, pat, pat + x) =~= splice(t, i + pat.len(), x));
}

/// The nu marker holds `?` once, after a `)`.
proof fn lemma_nu_marker_questions(e: Seq<char>)
    requires
        is_name(e),
    ensures
        forall|x: int| 0 <= x < nu_marker(e).len() && nu_marker(e)[x] == '?' ==> x == 15,
        nu_marker(e)[14] == ')',
{
    reveal_strlit(".includes(\"nu\")?");
    reveal_strlit(".Naive");
    let m = nu_marker(e);
    assert forall|x: int| 0 <= x < m.len() && m[x] == '?' implies x == 15 by {
        if 16 <= x < 16 + e.len() {
            assert(name_char(e[x - 16]));
        }
    }
}

/// The system marker holds no `?`.
proof fn lemma_system_marker_no_question(f: Seq<char>)
    requires
        is_name(f),
    ensures
        forall|x: int| 0 <= x < system_nu_marker(f).len() ==> system_nu_marker(f)[x] != '?',
{
    reveal_strlit("(\"nu\")");
    let m = system_nu_marker(f);
    assert forall|x: int| 0 <= x < m.len() implies m[x] != '?' by {
        if x < f.len() {
            assert(name_char(f[x]));
        }
    }
}

/// Neither marker is cut right after `??`.
proof fn lemma_markers_not_cut_after_questions(t: Seq<char>, e: Seq<char>, f: Seq<char>, u: int)
    requires
        is_name(e),
        is_name(f),
        2 <= u <= t.len(),
        t[u - 1] == '?',
        t[u - 2] == '?',
    ensures
        forall|p: int| occurs_at(t, nu_marker(e), p) ==> !straddles(nu_marker(e), p, u),
        forall|p: int| occurs_at(t, system_nu_marker(f), p) ==> !straddles(system_nu_marker(f), p, u),
{
    lemma_nu_marker_questions(e);
    lemma_system_marker_no_question(f);
    assert forall|p: int| occurs_at(t, nu_marker(e), p) implies !straddles(nu_marker(e), p, u) by {
        let m = nu_marker(e);
        if straddles(m, p, u) {
            assert(t.subrange(p, p + m.len())[u - 1 - p] == m[u - 1 - p]);
            assert(t.subrange(p, p + m.len())[u - 2 - p] == m[u - 2 - p]);
        }
    }
    assert forall|p: int| occurs_at(t, system_nu_marker(f), p) implies !straddles(system_nu_marker(f), p, u) by {
        let m = system_nu_marker(f);
        if straddles(m, p, u) {
            assert(t.subrange(p, p + m.len())[u - 1 - p] == m[u - 1 - p]);
        }
    }
}

/// The nu marker does not overlap the shell fallback literal.
proof fn lemma_nu_marker_clear_of_fallback(t: Seq<char>, e: Seq<char>, p: int, i: int)
    requires
        is_name(e),
        occurs_at(t, nu_marker(e), p),
        occurs_at(t, SHELL_FALLBACK_LITERAL@, i),
    ensures
        p + nu_marker(e).len() <= i || p >= i + SHELL_FALLBACK_LITERAL@.len(),
{
    reveal_strlit("default:return process.env.SHELL||\"/bin/sh\"");
    reveal_strlit(".includes(\"nu\")?");
    reveal_strlit(".Naive");
    let m = nu_marker(e);
    let lit = SHELL_FALLBACK_LITERAL@;
    lemma_nu_marker_no_colon(e);
    if !(p + m.len() <= i || p >= i + lit.len()) {
        if p < i {
            let k = p + m.len() - i;
            if k <= 6 {
                lemma_overlap(t, m, p, lit, i, 0);
            } else if k == 7 {
                lemma_overlap(t, m, p, lit, i, 1);
            } else {
                lemma_overlap(t, m, p, lit, i, 7);
            }
        } else {
            assert(t.subrange(p, p + m.len())[0] == m[0]);
            assert(t.subrange(i, i + lit.len())[p - i] == lit[p - i]);
            assert(m[0] == '.');
            assert(p - i == 22 || p - i == 26);
            assert(t.subrange(p, p + m.len())[1] == m[1]);
            assert(t.subrange(i, i + lit.len())[p - i + 1] == lit[p - i + 1]);
        }
    }
}

/// The system marker does not overlap the shell fallback literal.
proof fn lemma_system_marker_clear_of_fallback(t: Seq<char>, f: Seq<char>, p: int, i: int)
    requires
        is_name(f),
        occurs_at(t, system_nu_marker(f), p),
        occurs_at(t, SHELL_FALLBACK_LITERAL@, i),
    ensures
        p + system_nu_marker(f).len() <= i || p >= i + SHELL_FALLBACK_LITERAL@.len(),
{
    reveal_strlit("default:return process.env.SHELL||\"/bin/sh\"");
    reveal_strlit("(\"nu\")");
    let m = system_nu_marker(f);
    let lit = SHELL_FALLBACK_LITERAL@;
    lemma_system_marker_no_colon(f);
    if !(p + m.len() <= i || p >= i + lit.len()) {
        if p < i {
            let k = p + m.len() - i;
            if k <= 8 {
                lemma_overlap(t, m, p, lit, i, k - 1);
            } else {
                lemma_overlap(t, m, p, lit, i, 7);
            }
        } else {
            let x = p - i;
            let y = x + f.len();
            if y < lit.len() {
                assert(t.subrange(p, p + m.len())[f.len() as int] == m[f.len() as int]);
                assert(t.subrange(i, i + lit.len())[y] == lit[y]);
            } else {
                assert(t.subrange(p, p + m.len())[42 - x] == m[42 - x]);
                assert(t.subrange(i, i + lit.len())[42] == lit[42]);
                assert(name_char(f[42 - x]));
            }
        }
    }
}

/// A hint-wiring step puts text in right after a `??`, or changes nothing.
proof fn lemma_hint_step(t: Seq<char>, v: VarsView)
    ensures
        match spec_user_terminal_hint(t, v).0 {
            None => true,
            Some(t3) => t3 == t || exists|u: int, x: Seq<char>|
                2 <= u <= t.len() && t[u - 1] == '?' && t[u - 2] == '?' && t3 == splice(t, u, x),
        },
{
    if !v.has_user_terminal_hint {
        if let Ok(Some(c)) = first_match(SHELL_OPTION_ANCHOR@, t) {
            reveal_strlit("?.shell??");
            let sv = group_or_empty(c, 1);
            let pat = sv + "?.shell??"@;
            let x = sv + "?.userTerminalHint??"@;
            assert(sv + "?.shell??"@ + sv + "?.userTerminalHint??"@ =~= pat + x);
            if find(t, pat) is Some {
                lemma_extend_first(t, pat, x);
                let i = find(t, pat)->Some_0;
                let u = i + pat.len();
                assert(t.subrange(i, i + pat.len())[pat.len() - 1] == pat[pat.len() - 1]);
                assert(t.subrange(i, i + pat.len())[pat.len() - 2] == pat[pat.len() - 2]);
                assert(t[u - 1] == '?' && t[u - 2] == '?');
            } else {
                assert(replace_first(t, pat, pat + x) == t);
            }
        }
    }
}

/// A fallback step that changes the text replaces one occurrence of the
/// fallback literal.
proof fn lemma_fallback_step(t: Seq<char>, v: VarsView)
    ensures
        match spec_shell_path_fallback(t, v).0 {
            None => true,
            Some(t4) => exists|i: int, rep: Seq<char>|
                0 <= i && i + SHELL_FALLBACK_LITERAL@.len() <= t.len() && occurs_at(t, SHELL_FALLBACK_LITERAL@, i)
                    && t4 == replace_range(t, i, SHELL_FALLBACK_LITERAL@.len() as int, rep),
        },
{
    let lit = SHELL_FALLBACK_LITERAL@;
    lemma_find_from(t, lit, 0);
    if let Some(t4) = spec_shell_path_fallback(t, v).0 {
        let i = find(t, lit)->Some_0;
        let rep = fallback_replacement(v.enum_var, v.find_exec_call->Some_0);
        assert(t4 == replace_range(t, i, lit.len() as int, rep));
    }
}

/// The four IDE steps, run on `t` with names that are identifiers, leave
/// the nu marker and the system marker in the text.
proof fn lemma_ide_steps_leave_markers(t: Seq<char>, v: VarsView)
    requires
        spec_discover(t) == Ok::<VarsView, DiscoveryError>(v),
        is_name(v.hint_var),
        is_name(v.enum_var),
        v.cmd_exists_fn matches Some(f) ==> is_name(f),
        spec_run_steps(ide_plan().steps, t, v).2,
    ensures
        v.cmd_exists_fn is Some,
        ({
            let fin = spec_run_steps(ide_plan().steps, t, v).1;
            &&& contains(fin, nu_marker(v.enum_var))
            &&& contains(fin, system_nu_marker(v.cmd_exists_fn->Some_0))
        }),
{
    let steps = ide_plan().steps;
    let e = v.enum_var;
    let h = v.hint_var;
    let m1 = nu_marker(e);
    reveal_with_fuel(spec_run_steps, 5);
    assert(steps[0] == StepKind::NuDetection);
    assert(steps.drop_first()[0] == StepKind::SystemNuDetection);
    assert(steps.drop_first().drop_first()[0] == StepKind::UserTerminalHint);
    assert(steps.drop_first().drop_first().drop_first()[0] == StepKind::ShellPathFallback);
    assert(steps.drop_first().drop_first().drop_first().drop_first() =~= Seq::<StepKind>::empty());
    let (ta, ra) = spec_nu_detection(t, v);
    let t1 = match ta {
        Some(n) => n,
        None => t,
    };
    let (tb, rb) = spec_system_nu_detection(t1, v);
    let t2 = match tb {
        Some(n) => n,
        None => t1,
    };
    let (tc, rc) = spec_user_terminal_hint(t2, v);
    let t3 = match tc {
        Some(n) => n,
        None => t2,
    };
    let (td, rd) = spec_shell_path_fallback(t3, v);
    let t4 = match td {
        Some(n) => n,
        None => t3,
    };
    assert(ra.ok && rb.ok && rc.ok && rd.ok);
    assert(spec_run_steps(steps, t, v).1 == t4);
    lemma_nu_step(t, v);
    let pwsh = h + ".includes(\"pwsh\")"@;
    if let Some(n) = ta {
        let a = choose|a: int|
            0 <= a <= t.len() && occurs_at(t, pwsh, a) && n == splice(t, a, nu_insertion(v)) && contains(
                n,
                m1,
            );
        if v.has_system_nu {
            let f = v.cmd_exists_fn->Some_0;
            assert forall|p: int| occurs_at(t, system_nu_marker(f), p) implies !straddles(
                system_nu_marker(f),
                p,
                a,
            ) by {
                lemma_system_marker_not_cut_at_pwsh(t, f, h, p, a);
            }
            lemma_splice_keeps_contains(t, a, nu_insertion(v), system_nu_marker(f));
        }
    }
    lemma_system_nu_step(t1, v);
    let f = v.cmd_exists_fn->Some_0;
    let m2 = system_nu_marker(f);
    lemma_nu_marker_no_colon(e);
    if let Some(n) = tb {
        let (b, ins) = choose|b: int, ins: Seq<char>|
            1 <= b <= t1.len() && t1[b - 1] == ':' && n == splice(t1, b, ins) && contains(n, m2);
        assert forall|p: int| occurs_at(t1, m1, p) implies !straddles(m1, p, b) by {
            lemma_no_cut_after(t1, m1, p, b, ':');
        }
        lemma_splice_keeps_contains(t1, b, ins, m1);
    }
    lemma_hint_step(t2, v);
    if let Some(n) = tc {
        if n != t2 {
            let (u, x) = choose|u: int, x: Seq<char>|
                2 <= u <= t2.len() && t2[u - 1] == '?' && t2[u - 2] == '?' && n == splice(t2, u, x);
            lemma_markers_not_cut_after_questions(t2, e, f, u);
            lemma_splice_keeps_contains(t2, u, x, m1);
            lemma_splice_keeps_contains(t2, u, x, m2);
        }
    }
    lemma_fallback_step(t3, v);
    if let Some(n) = td {
        let lit = SHELL_FALLBACK_LITERAL@;
        let (i, rep) = choose|i: int, rep: Seq<char>|
            0 <= i && i + lit.len() <= t3.len() && occurs_at(t3, lit, i) && n == replace_range(
                t3,
                i,
                lit.len() as int,
                rep,
            );
        lemma_find_from(t3, m1, 0);
        let p1 = find(t3, m1)->Some_0;
        lemma_nu_marker_clear_of_fallback(t3, e, p1, i);
        lemma_replace_keeps(t3, i, lit.len() as int, rep, m1, p1);
        lemma_find_from(t3, m2, 0);
        let p2 = find(t3, m2)->Some_0;
        lemma_system_marker_clear_of_fallback(t3, f, p2, i);
        lemma_replace_keeps(t3, i, lit.len() as int, rep, m2, p2);
    }
}

/// Running the IDE plan again on what a successful run wrote skips every
/// step and leaves the files as they are, where the anchors recover from
/// the written text the names they recovered from the text before, those
/// names are identifiers, and the hint-wiring anchor finds the wiring in
/// the written text.
pub proof fn lemma_ide_plan_idempotent(path: Seq<char>, t: Seq<char>)
    requires
        run_on(ide_plan(), false, path, FileState { target: t, backup: None }).0.success,
        anchors_agree(t, run_on(ide_plan(), false, path, FileState { target: t, backup: None }).1.target),
        spec_hint_wiring(run_on(ide_plan(), false, path, FileState { target: t, backup: None }).1.target)
            == Ok::<bool, DiscoveryError>(true),
        names_are_identifiers(t),
    ensures
        ({
            let fs1 = run_on(ide_plan(), false, path, FileState { target: t, backup: None }).1;
            let (s2, fs2) = run_on(ide_plan(), false, path, fs1);
            &&& s2.success
            &&& fs2 == fs1
            &&& s2.steps == seq![ok_view("Pattern discovery"@, "Discovered minified variable names"@, Seq::empty())]
                + all_skipped(ide_plan().steps)
        }),
{
    let plan = ide_plan();
    let fs0 = FileState { target: t, backup: None };
    lemma_run_outcome(plan, false, path, fs0);
    let fs1 = run_on(plan, false, path, fs0).1;
    lemma_run_outcome(plan, false, path, fs1);
    if !already_patched(plan, t) {
        let v = spec_discover(t)->Ok_0;
        lemma_ide_steps_leave_markers(t, v);
        let fin = fs1.target;
        assert(fin == spec_run_steps(plan.steps, t, v).1);
        let f = spec_quick_detect(fin)->Some_0;
        assert(flag_set(f, Flag::Nu) && flag_set(f, Flag::SystemNu) && flag_set(f, Flag::UserTerminalHint));
        assert(fully_patched(plan.required, f));
        assert(already_patched(plan, fin));
    }
}

} // verus!
