//! The five patch steps. Each takes the current text and the discovered
//! identifiers, and returns the new text (`None`: unchanged) with a report.
//! A step whose behaviour is already present reports itself skipped.
use vstd::prelude::*;

use crate::discovery::{group_or_empty, DiscoveredVars, VarsView};
use crate::matcher::{first_match, group, group_of, AnchorSet, Fixed};
use crate::step::{fail_view, ok_view, skip_view, StepResult, StepView};
use crate::text::{
    cat, cat_str, chars_of, contains, contains_chars, find, find_chars, find_from, lemma_find_from,
    lemma_rfind_upto, matches_at, occurs_at, replace_first, replace_first_chars, rfind, rfind_chars,
    splice, splice_chars, string_of,
};

verus! {

pub const NU_DETECTION: &'static str = "Nu detection";

pub const SYSTEM_NU_DETECTION: &'static str = "System nu detection";

pub const USER_TERMINAL_HINT: &'static str = "userTerminalHint";

pub const NAIVE_CASE: &'static str = "Naive case";

pub const SHELL_PATH_FALLBACK: &'static str = "Shell path fallback";

/// Characters after the `zsh` check searched for the PowerShell check.
pub const SHELL_TYPE_WINDOW: usize = 2000;

/// Characters after the `Zsh` case searched for its `default:` branch.
pub const DEFAULT_LOOKAHEAD: usize = 10000;

/// Characters before the fallback literal searched for its enclosing
/// function's tokens.
pub const FALLBACK_CONTEXT: usize = 500;

/// `<opts>?.shell??` not yet followed by the hint.
pub const SHELL_OPTION_ANCHOR: &'static str = r"(\w+)\?\.shell\?\?(?!\w+\?\.userTerminalHint)";

/// `switch(<f>(<opts>?.userTerminalHint`: the executor factory's switch.
pub const OPTS_SWITCH_ANCHOR: &'static str = r"switch\(\w+\((\w+)\?\.userTerminalHint";

/// The unpatched fallback of the shell-path resolver.
pub const SHELL_FALLBACK_LITERAL: &'static str = "default:return process.env.SHELL||\"/bin/sh\"";

/// The slice of `t` around `len` characters at `at`, widened by `before`
/// and `after` characters and cut at the ends of `t`.
pub open spec fn context(t: Seq<char>, at: int, len: int, before: int, after: int) -> Seq<char> {
    let s = if at >= before {
        at - before
    } else {
        0
    };
    let e = if at + len + after <= t.len() {
        at + len + after
    } else {
        t.len() as int
    };
    t.subrange(s, e)
}

pub open spec fn insertion_detail(ins: Seq<char>, ctx: Seq<char>) -> Seq<char> {
    "Insertion: "@ + ins + "\nContext:   ..."@ + ctx + "..."@
}

pub open spec fn replacement_detail(find: Seq<char>, rep: Seq<char>) -> Seq<char> {
    "Find:    "@ + find + "\nReplace: "@ + rep
}

/// `Some("x")` or `None`, as a diagnostic.
pub open spec fn show_opt(o: Option<Seq<char>>) -> Seq<char> {
    match o {
        Some(s) => "Some(\""@ + s + "\")"@,
        None => "None"@,
    }
}

// ---------------------------------------------------------------------
//  Nu detection in the shell-type ternary
// ---------------------------------------------------------------------

/// Inserts `<hint>.includes("nu")?<enum>.Naive:` right before the
/// PowerShell check that follows the `zsh` check.
pub open spec fn spec_nu_detection(code: Seq<char>, v: VarsView) -> (Option<Seq<char>>, StepView) {
    let name = NU_DETECTION@;
    if v.has_nu_detection {
        (None, skip_view(name, "Already present, skipped"@))
    } else {
        match find(code, v.hint_var + ".includes(\"zsh\")"@) {
            None => (None, fail_view(name, "Cannot locate detectShellType region"@)),
            Some(z) => {
                let end = if z + SHELL_TYPE_WINDOW <= code.len() {
                    z + SHELL_TYPE_WINDOW
                } else {
                    code.len() as int
                };
                let ps = v.hint_var + ".includes(\"pwsh\")"@;
                match find(code.subrange(z, end), ps) {
                    None => (None, fail_view(name, "Cannot find "@ + ps + " in detectShellType"@)),
                    Some(p) => {
                        let at = z + p;
                        let ins = v.hint_var + ".includes(\"nu\")?"@ + v.enum_var + ".Naive:"@;
                        if occurs_at(code, ins, at) {
                            (None, skip_view(name, "Already present at insertion point, skipped"@))
                        } else {
                            let new = splice(code, at, ins);
                            (
                                Some(new),
                                ok_view(
                                    name,
                                    "Inserted before PowerShell check"@,
                                    insertion_detail(ins, context(new, at, ins.len() as int, 40, 60)),
                                ),
                            )
                        }
                    },
                }
            },
        }
    }
}

fn context_of(t: &[char], at: usize, len: usize, before: usize, after: usize) -> (r: Vec<char>)
    requires
        at + len <= t.len(),
    ensures
        r@ == context(t@, at as int, len as int, before as int, after as int),
{
    let s = if at >= before {
        at - before
    } else {
        0
    };
    let e = if after <= t.len() - (at + len) {
        at + len + after
    } else {
        t.len()
    };
    let mut v: Vec<char> = Vec::new();
    v.extend_from_slice(&t[s..e]);
    v
}

fn insertion_detail_of(ins: &[char], ctx: &[char]) -> (r: String)
    ensures
        r@ == insertion_detail(ins@, ctx@),
{
    let d = cat_str(cat(cat_str(cat(chars_of("Insertion: ").as_slice(), ins).as_slice(), "\nContext:   ...").as_slice(), ctx).as_slice(), "...");
    string_of(d.as_slice())
}

fn replacement_detail_of(find: &[char], rep: &[char]) -> (r: String)
    ensures
        r@ == replacement_detail(find@, rep@),
{
    let d = cat(cat_str(cat(chars_of("Find:    ").as_slice(), find).as_slice(), "\nReplace: ").as_slice(), rep);
    string_of(d.as_slice())
}

pub fn patch_nu_detection(code: &str, v: &DiscoveredVars) -> (r: (Option<String>, StepResult))
    ensures
        (r.0.deep_view(), r.1@) == spec_nu_detection(code@, v@),
{
    if v.has_nu_detection {
        return (None, StepResult::skipped(NU_DETECTION, "Already present, skipped"));
    }
    let tc = chars_of(code);
    let hint = chars_of(v.hint_var.as_str());
    let zsh = cat_str(hint.as_slice(), ".includes(\"zsh\")");
    let found = find_chars(tc.as_slice(), zsh.as_slice(), 0);
    proof {
        lemma_find_from(tc@, zsh@, 0);
    }
    let z = match found {
        Some(z) => z,
        None => {
            return (None, StepResult::fail(NU_DETECTION, "Cannot locate detectShellType region"));
        },
    };
    let end = if SHELL_TYPE_WINDOW <= tc.len() - z {
        z + SHELL_TYPE_WINDOW
    } else {
        tc.len()
    };
    let region = &tc[z..end];
    let ps = cat_str(hint.as_slice(), ".includes(\"pwsh\")");
    let pfound = find_chars(region, ps.as_slice(), 0);
    proof {
        lemma_find_from(region@, ps@, 0);
    }
    let p = match pfound {
        Some(p) => p,
        None => {
            let msg = cat_str(cat(chars_of("Cannot find ").as_slice(), ps.as_slice()).as_slice(), " in detectShellType");
            return (None, StepResult::fail(NU_DETECTION, string_of(msg.as_slice()).as_str()));
        },
    };
    let at = z + p;
    let ins = cat_str(
        cat(cat_str(hint.as_slice(), ".includes(\"nu\")?").as_slice(), chars_of(v.enum_var.as_str()).as_slice()).as_slice(),
        ".Naive:",
    );
    if matches_at(tc.as_slice(), ins.as_slice(), at) {
        return (None, StepResult::skipped(NU_DETECTION, "Already present at insertion point, skipped"));
    }
    let new = splice_chars(tc.as_slice(), at, ins.as_slice());
    let ctx = context_of(new.as_slice(), at, ins.len(), 40, 60);
    let detail = insertion_detail_of(ins.as_slice(), ctx.as_slice());
    let step = StepResult::ok(NU_DETECTION, "Inserted before PowerShell check").with_detail(detail.as_str());
    (Some(string_of(new.as_slice())), step)
}

// ---------------------------------------------------------------------
//  System-level nu detection
// ---------------------------------------------------------------------

/// Inserts `<cmdExists>("nu")?<enum>.Naive:` before the final
/// `<enum>.Naive}` fallback of the shell-type chain (its last occurrence).
pub open spec fn spec_system_nu_detection(code: Seq<char>, v: VarsView) -> (Option<Seq<char>>, StepView) {
    let name = SYSTEM_NU_DETECTION@;
    if v.has_system_nu {
        (None, skip_view(name, "Already present, skipped"@))
    } else {
        match v.cmd_exists_fn {
            None => (None, fail_view(name, "Cannot find commandExists function (Ie/Qe)"@)),
            Some(f) => {
                let ps_colon = v.enum_var + ".PowerShell:"@;
                let tail = ps_colon + v.enum_var + ".Naive}"@;
                match rfind(code, tail) {
                    None => (None, fail_view(name, "Cannot find `"@ + tail + "` at end of detectShellType"@)),
                    Some(t) => {
                        let at = t + ps_colon.len();
                        let ins = f + "(\"nu\")?"@ + v.enum_var + ".Naive:"@;
                        let new = splice(code, at, ins);
                        (
                            Some(new),
                            ok_view(
                                name,
                                "Inserted PATH-based nu check before final fallback"@,
                                insertion_detail(ins, context(new, at, ins.len() as int, 40, 40)),
                            ),
                        )
                    },
                }
            },
        }
    }
}

pub fn patch_system_nu_detection(code: &str, v: &DiscoveredVars) -> (r: (Option<String>, StepResult))
    ensures
        (r.0.deep_view(), r.1@) == spec_system_nu_detection(code@, v@),
{
    if v.has_system_nu {
        return (None, StepResult::skipped(SYSTEM_NU_DETECTION, "Already present, skipped"));
    }
    let f = match &v.cmd_exists_fn {
        Some(f) => f,
        None => {
            return (None, StepResult::fail(SYSTEM_NU_DETECTION, "Cannot find commandExists function (Ie/Qe)"));
        },
    };
    let tc = chars_of(code);
    let ev = chars_of(v.enum_var.as_str());
    let ps_colon = cat_str(ev.as_slice(), ".PowerShell:");
    let tail = cat_str(cat(ps_colon.as_slice(), ev.as_slice()).as_slice(), ".Naive}");
    let found = rfind_chars(tc.as_slice(), tail.as_slice());
    proof {
        lemma_rfind_upto(tc@, tail@, tc@.len() - tail@.len());
    }
    let t = match found {
        Some(t) => t,
        None => {
            let msg = cat_str(cat(chars_of("Cannot find `").as_slice(), tail.as_slice()).as_slice(), "` at end of detectShellType");
            return (None, StepResult::fail(SYSTEM_NU_DETECTION, string_of(msg.as_slice()).as_str()));
        },
    };
    let tl = tc.len();
    assert(t + tail@.len() <= tl);
    assert(tail@.len() >= ps_colon@.len());
    let at = t + ps_colon.len();
    let ins = cat_str(cat(cat_str(chars_of(f.as_str()).as_slice(), "(\"nu\")?").as_slice(), ev.as_slice()).as_slice(), ".Naive:");
    let new = splice_chars(tc.as_slice(), at, ins.as_slice());
    let ctx = context_of(new.as_slice(), at, ins.len(), 40, 40);
    let detail = insertion_detail_of(ins.as_slice(), ctx.as_slice());
    let step = StepResult::ok(SYSTEM_NU_DETECTION, "Inserted PATH-based nu check before final fallback").with_detail(
        detail.as_str(),
    );
    (Some(string_of(new.as_slice())), step)
}

// ---------------------------------------------------------------------
//  userTerminalHint in shell resolution
// ---------------------------------------------------------------------

/// Makes the first `<opts>?.shell??` fall back to `<opts>?.userTerminalHint`.
pub open spec fn spec_user_terminal_hint(code: Seq<char>, v: VarsView) -> (Option<Seq<char>>, StepView) {
    let name = USER_TERMINAL_HINT@;
    if v.has_user_terminal_hint {
        (None, skip_view(name, "Already present, skipped"@))
    } else {
        match first_match(SHELL_OPTION_ANCHOR@, code) {
            Err(_) => (None, fail_view(name, "Invalid anchor pattern"@)),
            Ok(None) => (None, fail_view(name, "Cannot find ?.shell?? pattern"@)),
            Ok(Some(c)) => {
                let sv = group_or_empty(c, 1);
                let pat = sv + "?.shell??"@;
                let rep = sv + "?.shell??"@ + sv + "?.userTerminalHint??"@;
                (Some(replace_first(code, pat, rep)), ok_view(name, pat + " -> "@ + rep, replacement_detail(pat, rep)))
            },
        }
    }
}

pub fn patch_user_terminal_hint(code: &str, v: &DiscoveredVars, anchors: &AnchorSet) -> (r: (
    Option<String>,
    StepResult,
))
    ensures
        (r.0.deep_view(), r.1@) == spec_user_terminal_hint(code@, v@),
{
    if v.has_user_terminal_hint {
        return (None, StepResult::skipped(USER_TERMINAL_HINT, "Already present, skipped"));
    }
    let caps = match anchors.get(Fixed::ShellOption).first(code) {
        None => {
            return (None, StepResult::fail(USER_TERMINAL_HINT, "Cannot find ?.shell?? pattern"));
        },
        Some(c) => c,
    };
    let sv = match group_of(&caps, 1) {
        Some(g) => chars_of(g.as_str()),
        None => Vec::new(),
    };
    assert(sv@ == group_or_empty(caps.deep_view(), 1));
    let pat = cat_str(sv.as_slice(), "?.shell??");
    let rep = cat_str(cat(pat.as_slice(), sv.as_slice()).as_slice(), "?.userTerminalHint??");
    let tc = chars_of(code);
    let new = replace_first_chars(tc.as_slice(), pat.as_slice(), rep.as_slice());
    let msg = cat(cat_str(pat.as_slice(), " -> ").as_slice(), rep.as_slice());
    let detail = replacement_detail_of(pat.as_slice(), rep.as_slice());
    let step = StepResult::ok(USER_TERMINAL_HINT, string_of(msg.as_slice()).as_str()).with_detail(detail.as_str());
    (Some(string_of(new.as_slice())), step)
}

// ---------------------------------------------------------------------
//  Naive case in the executor factory
// ---------------------------------------------------------------------

/// The options variable of the executor factory's switch; `t` where the
/// switch is not found.
pub open spec fn spec_opts_var(code: Seq<char>) -> Seq<char> {
    match first_match(OPTS_SWITCH_ANCHOR@, code) {
        Ok(Some(c)) => match group(c, 1) {
            Some(g) => g,
            None => "t"@,
        },
        _ => "t"@,
    }
}

/// The inserted branch: a naive executor whose shell is, in order, the
/// user's hint, nu found on PATH, `$SHELL`, and `/bin/sh`.
pub open spec fn naive_case_text(
    ev: Seq<char>,
    fex: Seq<char>,
    lazy: Seq<char>,
    naive: Seq<char>,
    ov: Seq<char>,
) -> Seq<char> {
    "case "@ + ev + ".Naive:{const _np="@ + fex + "(\"nu\",[]).cmd;return new "@ + lazy
        + "(Promise.resolve(new "@ + naive + "(process.cwd(),{shell:"@ + ov
        + "?.userTerminalHint||(_np!==\"nu\"?_np:void 0)||process.env.SHELL||\"/bin/sh\",..."@ + ov
        + "})))}"@
}

/// Where the branch goes: before a `default:` within the lookahead window
/// after the `Zsh` case, else before the first `ZshLight` case after it.
pub open spec fn naive_case_target(code: Seq<char>, ev: Seq<char>, from: int) -> Option<(int, Seq<char>)> {
    match find_from(code, "default:"@, from) {
        Some(d) if d - from < DEFAULT_LOOKAHEAD => Some((d, "before default:"@)),
        _ => match find_from(code, "case "@ + ev + ".ZshLight:"@, from) {
            Some(zl) => Some((zl, "before ZshLight"@)),
            None => None,
        },
    }
}

/// Adds a `case <enum>.Naive:` branch to the executor factory.
pub open spec fn spec_naive_case(code: Seq<char>, v: VarsView) -> (Option<Seq<char>>, StepView) {
    let name = NAIVE_CASE@;
    if v.has_naive_case {
        (None, skip_view(name, "Already exists, skipped"@))
    } else if v.lazy_exec is None || v.naive_exec is None {
        (
            None,
            fail_view(
                name,
                "Cannot construct Naive case (lazy_exec="@ + show_opt(v.lazy_exec) + ", naive_exec="@
                    + show_opt(v.naive_exec) + ")"@,
            ),
        )
    } else {
        match v.find_exec_call {
            None => (None, fail_view(name, "Cannot find findActualExecutable call pattern"@)),
            Some(fex) => {
                let case_text = naive_case_text(
                    v.enum_var,
                    fex,
                    v.lazy_exec->Some_0,
                    v.naive_exec->Some_0,
                    spec_opts_var(code),
                );
                match find(code, "case "@ + v.enum_var + ".Zsh:"@) {
                    None => (None, fail_view(name, "Cannot find executor factory"@)),
                    Some(from) => match naive_case_target(code, v.enum_var, from) {
                        None => (None, fail_view(name, "Cannot find insertion point for Naive case"@)),
                        Some((at, label)) => (
                            Some(splice(code, at, case_text)),
                            ok_view(name, "Inserted "@ + label, "Insertion: "@ + case_text),
                        ),
                    },
                }
            },
        }
    }
}

pub(crate) fn show_opt_of(o: &Option<String>) -> (r: Vec<char>)
    ensures
        r@ == show_opt(o.deep_view()),
{
    match o {
        Some(s) => cat_str(cat(chars_of("Some(\"").as_slice(), chars_of(s.as_str()).as_slice()).as_slice(), "\")"),
        None => chars_of("None"),
    }
}

fn opts_var_of(code: &str, anchors: &AnchorSet) -> (r: Vec<char>)
    ensures
        r@ == spec_opts_var(code@),
{
    match anchors.get(Fixed::OptsSwitch).first(code) {
        Some(c) => match group_of(&c, 1) {
            Some(g) => chars_of(g.as_str()),
            None => chars_of("t"),
        },
        None => chars_of("t"),
    }
}

fn naive_case_text_of(ev: &[char], fex: &[char], lazy: &[char], naive: &[char], ov: &[char]) -> (r: Vec<char>)
    ensures
        r@ == naive_case_text(ev@, fex@, lazy@, naive@, ov@),
{
    let t = cat(chars_of("case ").as_slice(), ev);
    let t = cat_str(t.as_slice(), ".Naive:{const _np=");
    let t = cat(t.as_slice(), fex);
    let t = cat_str(t.as_slice(), "(\"nu\",[]).cmd;return new ");
    let t = cat(t.as_slice(), lazy);
    let t = cat_str(t.as_slice(), "(Promise.resolve(new ");
    let t = cat(t.as_slice(), naive);
    let t = cat_str(t.as_slice(), "(process.cwd(),{shell:");
    let t = cat(t.as_slice(), ov);
    let t = cat_str(t.as_slice(), "?.userTerminalHint||(_np!==\"nu\"?_np:void 0)||process.env.SHELL||\"/bin/sh\",...");
    let t = cat(t.as_slice(), ov);
    cat_str(t.as_slice(), "})))}")
}

fn naive_case_target_of(tc: &Vec<char>, ev: &[char], from: usize) -> (r: Option<(usize, &'static str)>)
    requires
        from <= tc.len(),
    ensures
        match r {
            Some((at, label)) => naive_case_target(tc@, ev@, from as int) == Some((at as int, label@)) && at
                <= tc.len(),
            None => naive_case_target(tc@, ev@, from as int) is None,
        },
{
    let default_label = chars_of("default:");
    let d = find_chars(tc.as_slice(), default_label.as_slice(), from);
    proof {
        lemma_find_from(tc@, default_label@, from as int);
    }
    if let Some(d) = d {
        if d - from < DEFAULT_LOOKAHEAD {
            return Some((d, "before default:"));
        }
    }
    let zsh_light = cat_str(cat(chars_of("case ").as_slice(), ev).as_slice(), ".ZshLight:");
    let zl = find_chars(tc.as_slice(), zsh_light.as_slice(), from);
    proof {
        lemma_find_from(tc@, zsh_light@, from as int);
    }
    match zl {
        Some(zl) => Some((zl, "before ZshLight")),
        None => None,
    }
}

pub fn patch_naive_case(code: &str, v: &DiscoveredVars, anchors: &AnchorSet) -> (r: (Option<String>, StepResult))
    ensures
        (r.0.deep_view(), r.1@) == spec_naive_case(code@, v@),
{
    if v.has_naive_case {
        return (None, StepResult::skipped(NAIVE_CASE, "Already exists, skipped"));
    }
    let (lazy, naive) = match (&v.lazy_exec, &v.naive_exec) {
        (Some(l), Some(n)) => (l, n),
        _ => {
            let msg = cat(chars_of("Cannot construct Naive case (lazy_exec=").as_slice(), show_opt_of(&v.lazy_exec).as_slice());
            let msg = cat(cat_str(msg.as_slice(), ", naive_exec=").as_slice(), show_opt_of(&v.naive_exec).as_slice());
            let msg = cat_str(msg.as_slice(), ")");
            return (None, StepResult::fail(NAIVE_CASE, string_of(msg.as_slice()).as_str()));
        },
    };
    let fex = match &v.find_exec_call {
        Some(f) => f,
        None => {
            return (None, StepResult::fail(NAIVE_CASE, "Cannot find findActualExecutable call pattern"));
        },
    };
    let tc = chars_of(code);
    let ev = chars_of(v.enum_var.as_str());
    let ov = opts_var_of(code, anchors);
    let case_text = naive_case_text_of(
        ev.as_slice(),
        chars_of(fex.as_str()).as_slice(),
        chars_of(lazy.as_str()).as_slice(),
        chars_of(naive.as_str()).as_slice(),
        ov.as_slice(),
    );
    let zsh_case = cat_str(cat(chars_of("case ").as_slice(), ev.as_slice()).as_slice(), ".Zsh:");
    let found = find_chars(tc.as_slice(), zsh_case.as_slice(), 0);
    proof {
        lemma_find_from(tc@, zsh_case@, 0);
    }
    let from = match found {
        Some(i) => i,
        None => {
            return (None, StepResult::fail(NAIVE_CASE, "Cannot find executor factory"));
        },
    };
    let (at, label) = match naive_case_target_of(&tc, ev.as_slice(), from) {
        Some(t) => t,
        None => {
            return (None, StepResult::fail(NAIVE_CASE, "Cannot find insertion point for Naive case"));
        },
    };
    let new = splice_chars(tc.as_slice(), at, case_text.as_slice());
    let msg = cat_str(chars_of("Inserted ").as_slice(), label);
    let detail = cat(chars_of("Insertion: ").as_slice(), case_text.as_slice());
    let step = StepResult::ok(NAIVE_CASE, string_of(msg.as_slice()).as_str()).with_detail(
        string_of(detail.as_slice()).as_str(),
    );
    (Some(string_of(new.as_slice())), step)
}

// ---------------------------------------------------------------------
//  Shell path fallback
// ---------------------------------------------------------------------

/// The replacement for the fallback literal: a `Naive` case that resolves
/// nu from PATH, and a default that picks PowerShell on Windows.
pub open spec fn fallback_replacement(ev: Seq<char>, fex: Seq<char>) -> Seq<char> {
    "case "@ + ev + ".Naive:{const _np="@ + fex
        + "(\"nu\",[]).cmd;if(_np!==\"nu\")return _np}default:return process.env.SHELL||(\"win32\"===process.platform?ne():\"/bin/sh\")"@
}

/// Replaces the single occurrence of the shell-path fallback literal,
/// checked to stand inside the shell-path resolver.
pub open spec fn spec_shell_path_fallback(code: Seq<char>, v: VarsView) -> (Option<Seq<char>>, StepView) {
    let name = SHELL_PATH_FALLBACK@;
    let lit = SHELL_FALLBACK_LITERAL@;
    match v.find_exec_call {
        None => (None, fail_view(name, "Cannot find findActualExecutable call pattern"@)),
        Some(fex) => if contains(code, fex + "(\"nu\",[])"@) {
            (None, skip_view(name, "Already patched, skipped"@))
        } else {
            match find(code, lit) {
                None => (None, fail_view(name, "Cannot find `"@ + lit + "` pattern"@)),
                Some(i) => if find_from(code, lit, i + 1) is Some {
                    (None, fail_view(name, "Found `"@ + lit + "` more than once"@))
                } else {
                    let region = code.subrange(
                        if i >= FALLBACK_CONTEXT {
                            i - FALLBACK_CONTEXT
                        } else {
                            0
                        },
                        i,
                    );
                    if !contains(region, "findActualExecutable"@) && !contains(region, "PowerShell"@) {
                        (None, fail_view(name, "Found pattern but not in getShellExecutablePath context"@))
                    } else {
                        let rep = fallback_replacement(v.enum_var, fex);
                        (
                            Some(replace_first(code, lit, rep)),
                            ok_view(
                                name,
                                "Added Naive case with PATH-based nu discovery"@,
                                replacement_detail(lit, rep),
                            ),
                        )
                    }
                },
            }
        },
    }
}

pub fn patch_shell_path_fallback(code: &str, v: &DiscoveredVars) -> (r: (Option<String>, StepResult))
    ensures
        (r.0.deep_view(), r.1@) == spec_shell_path_fallback(code@, v@),
{
    let fex = match &v.find_exec_call {
        Some(f) => chars_of(f.as_str()),
        None => {
            return (None, StepResult::fail(SHELL_PATH_FALLBACK, "Cannot find findActualExecutable call pattern"));
        },
    };
    let tc = chars_of(code);
    let marker = cat_str(fex.as_slice(), "(\"nu\",[])");
    if contains_chars(tc.as_slice(), marker.as_slice()) {
        return (None, StepResult::skipped(SHELL_PATH_FALLBACK, "Already patched, skipped"));
    }
    let lit = chars_of(SHELL_FALLBACK_LITERAL);
    let found = find_chars(tc.as_slice(), lit.as_slice(), 0);
    proof {
        lemma_find_from(tc@, lit@, 0);
    }
    let i = match found {
        Some(i) => i,
        None => {
            let msg = cat_str(cat(chars_of("Cannot find `").as_slice(), lit.as_slice()).as_slice(), "` pattern");
            return (None, StepResult::fail(SHELL_PATH_FALLBACK, string_of(msg.as_slice()).as_str()));
        },
    };
    let tl = tc.len();
    proof {
        reveal_strlit("default:return process.env.SHELL||\"/bin/sh\"");
    }
    assert(lit@.len() > 0);
    assert(i + lit@.len() <= tl);
    if find_chars(tc.as_slice(), lit.as_slice(), i + 1).is_some() {
        let msg = cat_str(cat(chars_of("Found `").as_slice(), lit.as_slice()).as_slice(), "` more than once");
        return (None, StepResult::fail(SHELL_PATH_FALLBACK, string_of(msg.as_slice()).as_str()));
    }
    let start = if i >= FALLBACK_CONTEXT {
        i - FALLBACK_CONTEXT
    } else {
        0
    };
    let region = &tc[start..i];
    if !contains_chars(region, chars_of("findActualExecutable").as_slice()) && !contains_chars(
        region,
        chars_of("PowerShell").as_slice(),
    ) {
        return (None, StepResult::fail(SHELL_PATH_FALLBACK, "Found pattern but not in getShellExecutablePath context"));
    }
    let ev = chars_of(v.enum_var.as_str());
    let rep = cat(cat(chars_of("case ").as_slice(), ev.as_slice()).as_slice(), chars_of(".Naive:{const _np=").as_slice());
    let rep = cat(rep.as_slice(), fex.as_slice());
    let rep = cat_str(
        rep.as_slice(),
        "(\"nu\",[]).cmd;if(_np!==\"nu\")return _np}default:return process.env.SHELL||(\"win32\"===process.platform?ne():\"/bin/sh\")",
    );
    let new = replace_first_chars(tc.as_slice(), lit.as_slice(), rep.as_slice());
    let detail = replacement_detail_of(lit.as_slice(), rep.as_slice());
    let step = StepResult::ok(SHELL_PATH_FALLBACK, "Added Naive case with PATH-based nu discovery").with_detail(
        detail.as_str(),
    );
    (Some(string_of(new.as_slice())), step)
}

} // verus!
