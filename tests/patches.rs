use nupatch::{
    discover_vars, patch_naive_case, patch_nu_detection, patch_shell_path_fallback, patch_system_nu_detection,
    patch_user_terminal_hint, quick_detect, AnchorSet, DiscoveredVars, DiscoveryError, PatchPlan, StepKind,
};

fn anchors() -> AnchorSet {
    AnchorSet::new().ok().unwrap()
}

const CLI_TEXT: &str = "var a=1;function Qe(e){try{return(0,Ab.findActualExecutable)(e,[]).cmd!==e}catch{return!1}}\
function detectShellType(e){const t=e??\"\";return t.includes(\"zsh\")?O.Zsh:t.includes(\"bash\")?O.Bash:\
t.includes(\"pwsh\")||t.includes(\"powershell\")?O.PowerShell:Qe(\"zsh\")?O.Zsh:\
Qe(\"pwsh\")||Qe(\"powershell\")?O.PowerShell:O.Naive}\
function makeExecutor(e,t){switch(Te(t?.userTerminalHint)){case O.Zsh:return new LazyExec(\
Promise.resolve(new ZshExec(e)));case O.ZshLight:return null;default:return new LazyExec(\
Promise.resolve(new NaiveExec(process.cwd(),{shell:t?.shell??\"/bin/sh\"})))}}";

const IDE_TEXT: &str = "function Ie(e){try{return(0,Xy.findActualExecutable)(e,[]).cmd!==e}catch{return!1}}\
function ne(){return\"powershell.exe\"}\
function detectShellType(n){return n.includes(\"zsh\")?P.Zsh:n.includes(\"pwsh\")?P.PowerShell:\
Ie(\"pwsh\")?P.PowerShell:P.Naive}\
function Se(e){switch(e){case P.PowerShell:return(0,Xy.findActualExecutable)(\"pwsh\",[]).cmd;\
default:return process.env.SHELL||\"/bin/sh\"}}\
function ce(r){const s=r?.shell??\"/bin/sh\";return new Nv(r.cwd,{...r,shell:s})}";

fn vars(hint: &str, en: &str) -> DiscoveredVars {
    DiscoveredVars {
        hint_var: hint.to_string(),
        enum_var: en.to_string(),
        lazy_exec: None,
        naive_exec: None,
        cmd_exists_fn: None,
        find_exec_call: None,
        has_naive_case: false,
        has_nu_detection: false,
        has_system_nu: false,
        has_user_terminal_hint: false,
    }
}

#[test]
fn discovery_recovers_cli_names() {
    let v = discover_vars(CLI_TEXT, &anchors()).ok().unwrap();
    assert_eq!(v.hint_var, "t");
    assert_eq!(v.enum_var, "O");
    assert_eq!(v.lazy_exec.as_deref(), Some("LazyExec"));
    assert_eq!(v.naive_exec.as_deref(), Some("NaiveExec"));
    assert_eq!(v.cmd_exists_fn.as_deref(), Some("Qe"));
    assert_eq!(v.find_exec_call.as_deref(), Some("(0,Ab.findActualExecutable)"));
    assert!(!v.has_naive_case && !v.has_nu_detection && !v.has_system_nu && !v.has_user_terminal_hint);
}

#[test]
fn discovery_recovers_ide_names() {
    let v = discover_vars(IDE_TEXT, &anchors()).ok().unwrap();
    assert_eq!(v.hint_var, "n");
    assert_eq!(v.enum_var, "P");
    assert_eq!(v.lazy_exec, None);
    assert_eq!(v.naive_exec, None);
    assert_eq!(v.cmd_exists_fn.as_deref(), Some("Ie"));
    assert_eq!(v.find_exec_call.as_deref(), Some("(0,Xy.findActualExecutable)"));
}

#[test]
fn discovery_fails_without_shell_anchor() {
    let r = discover_vars("function f(){return 1}", &anchors());
    assert!(matches!(r, Err(DiscoveryError::ShellAnchorMissing)));
    assert_eq!(
        DiscoveryError::ShellAnchorMissing.message(),
        "Cannot find includes(\"zsh\")?<enum>.Zsh pattern"
    );
    assert!(quick_detect("function f(){return 1}", &anchors()).is_none());
}

#[test]
fn discovery_finds_naive_executor_by_spread_shape() {
    let text = "a.includes(\"zsh\")?E.Zsh:0;const x=new Runner(n,{...opts, shell:s})";
    let v = discover_vars(text, &anchors()).ok().unwrap();
    assert_eq!(v.naive_exec.as_deref(), Some("Runner"));
    assert_eq!(v.lazy_exec, None);
}

#[test]
fn nu_detection_inserts_before_pwsh_check() {
    let text = "X.includes(\"zsh\")?Y.Zsh:X.includes(\"pwsh\")?Y.PowerShell:Y.Naive";
    let (new, step) = patch_nu_detection(text, &vars("X", "Y"));
    let new = new.unwrap();
    assert!(step.ok && !step.skipped);
    assert_eq!(step.name, "Nu detection");
    assert_eq!(step.message, "Inserted before PowerShell check");
    assert_eq!(
        new,
        "X.includes(\"zsh\")?Y.Zsh:X.includes(\"nu\")?Y.Naive:X.includes(\"pwsh\")?Y.PowerShell:Y.Naive"
    );
    assert!(new.contains("X.includes(\"nu\")?Y.Naive:X.includes(\"pwsh\")"));
    assert!(step.detail.starts_with("Insertion: X.includes(\"nu\")?Y.Naive:\nContext:   ..."));
}

#[test]
fn nu_detection_skips_on_flag() {
    let mut v = vars("X", "Y");
    v.has_nu_detection = true;
    let (new, step) = patch_nu_detection("anything", &v);
    assert!(new.is_none());
    assert!(step.skipped && step.ok);
    assert_eq!(step.message, "Already present, skipped");
    assert_eq!(step.detail, "");
}

#[test]
fn nu_detection_fails_without_region() {
    let (new, step) = patch_nu_detection("nothing here", &vars("X", "Y"));
    assert!(new.is_none());
    assert!(!step.ok && !step.skipped);
    assert_eq!(step.message, "Cannot locate detectShellType region");
}

#[test]
fn nu_detection_fails_when_pwsh_check_outside_window() {
    let text = format!("X.includes(\"zsh\")?Y.Zsh:{}X.includes(\"pwsh\")", "a".repeat(2100));
    let (new, step) = patch_nu_detection(&text, &vars("X", "Y"));
    assert!(new.is_none());
    assert!(!step.ok);
    assert_eq!(step.message, "Cannot find X.includes(\"pwsh\") in detectShellType");
}

#[test]
fn system_nu_detection_inserts_before_final_fallback() {
    let mut v = vars("t", "O");
    v.cmd_exists_fn = Some("Qe".to_string());
    let text = "a?O.PowerShell:O.Naive};b?O.PowerShell:O.Naive}";
    let (new, step) = patch_system_nu_detection(text, &v);
    assert!(step.ok && !step.skipped);
    assert_eq!(new.unwrap(), "a?O.PowerShell:O.Naive};b?O.PowerShell:Qe(\"nu\")?O.Naive:O.Naive}");
    assert_eq!(step.message, "Inserted PATH-based nu check before final fallback");
}

#[test]
fn system_nu_detection_needs_helper_and_tail() {
    let (_, step) = patch_system_nu_detection("x", &vars("t", "O"));
    assert!(!step.ok);
    assert_eq!(step.message, "Cannot find commandExists function (Ie/Qe)");
    let mut v = vars("t", "O");
    v.cmd_exists_fn = Some("Qe".to_string());
    let (new, step) = patch_system_nu_detection("x", &v);
    assert!(new.is_none() && !step.ok);
    assert_eq!(step.message, "Cannot find `O.PowerShell:O.Naive}` at end of detectShellType");
    v.has_system_nu = true;
    let (_, step) = patch_system_nu_detection("x", &v);
    assert!(step.skipped);
}

#[test]
fn user_terminal_hint_wires_first_shell_option() {
    let text = "const s=r?.shell??\"/bin/sh\";";
    let (new, step) = patch_user_terminal_hint(text, &vars("t", "O"), &anchors());
    assert!(step.ok);
    assert_eq!(new.unwrap(), "const s=r?.shell??r?.userTerminalHint??\"/bin/sh\";");
    assert_eq!(step.message, "r?.shell?? -> r?.shell??r?.userTerminalHint??");
    assert_eq!(step.detail, "Find:    r?.shell??\nReplace: r?.shell??r?.userTerminalHint??");
}

#[test]
fn user_terminal_hint_fails_without_shell_option() {
    let (new, step) = patch_user_terminal_hint("nothing", &vars("t", "O"), &anchors());
    assert!(new.is_none() && !step.ok);
    assert_eq!(step.message, "Cannot find ?.shell?? pattern");
}

#[test]
fn naive_case_inserted_before_default() {
    let v = discover_vars(CLI_TEXT, &anchors()).ok().unwrap();
    let (new, step) = patch_naive_case(CLI_TEXT, &v, &anchors());
    let new = new.unwrap();
    assert!(step.ok);
    assert_eq!(step.message, "Inserted before default:");
    let case = "case O.Naive:{const _np=(0,Ab.findActualExecutable)(\"nu\",[]).cmd;return new LazyExec(\
Promise.resolve(new NaiveExec(process.cwd(),{shell:t?.userTerminalHint||\
(_np!==\"nu\"?_np:void 0)||process.env.SHELL||\"/bin/sh\",...t})))}";
    assert!(new.contains(&format!("{case}default:return new LazyExec(")));
    assert_eq!(step.detail, format!("Insertion: {case}"));
    assert_eq!(new.len(), CLI_TEXT.len() + case.len());
}

#[test]
fn naive_case_falls_back_to_zsh_light() {
    let mut v = vars("t", "O");
    v.lazy_exec = Some("L".to_string());
    v.naive_exec = Some("N".to_string());
    v.find_exec_call = Some("(0,m.f)".to_string());
    let text = format!("case O.Zsh:{}case O.ZshLight:x;default:y", "z".repeat(10001));
    let (new, step) = patch_naive_case(&text, &v, &anchors());
    assert!(step.ok);
    assert_eq!(step.message, "Inserted before ZshLight");
    assert!(new.unwrap().contains("...t})))}case O.ZshLight:"));
}

#[test]
fn naive_case_reports_missing_names() {
    let mut v = vars("t", "O");
    v.lazy_exec = Some("L".to_string());
    let (new, step) = patch_naive_case("x", &v, &anchors());
    assert!(new.is_none() && !step.ok);
    assert_eq!(step.message, "Cannot construct Naive case (lazy_exec=Some(\"L\"), naive_exec=None)");
    v.naive_exec = Some("N".to_string());
    let (_, step) = patch_naive_case("x", &v, &anchors());
    assert_eq!(step.message, "Cannot find findActualExecutable call pattern");
    v.find_exec_call = Some("(0,m.f)".to_string());
    let (_, step) = patch_naive_case("x", &v, &anchors());
    assert_eq!(step.message, "Cannot find executor factory");
    let (_, step) = patch_naive_case("case O.Zsh:x", &v, &anchors());
    assert_eq!(step.message, "Cannot find insertion point for Naive case");
}

#[test]
fn shell_path_fallback_adds_naive_case_and_windows_default() {
    let text = "function Se(e){return(0,Xy.findActualExecutable)(\"pwsh\",[]).cmd;default:return process.env.SHELL||\"/bin/sh\"}";
    let mut v = vars("n", "Y");
    v.find_exec_call = Some("(0,Xy.findActualExecutable)".to_string());
    let (new, step) = patch_shell_path_fallback(text, &v);
    assert!(step.ok && !step.skipped);
    assert_eq!(step.message, "Added Naive case with PATH-based nu discovery");
    let new = new.unwrap();
    assert!(new.contains("case Y.Naive:{const _np=(0,Xy.findActualExecutable)(\"nu\",[]).cmd;if(_np!==\"nu\")return _np}\
default:return process.env.SHELL||(\"win32\"===process.platform?ne():\"/bin/sh\")}"));
    assert!(!new.contains("default:return process.env.SHELL||\"/bin/sh\""));
    let (again, step) = patch_shell_path_fallback(&new, &v);
    assert!(again.is_none() && step.skipped);
    assert_eq!(step.message, "Already patched, skipped");
}

#[test]
fn shell_path_fallback_checks_context_and_uniqueness() {
    let mut v = vars("n", "Y");
    v.find_exec_call = Some("(0,Xy.f)".to_string());
    let (_, step) = patch_shell_path_fallback("nothing", &v);
    assert_eq!(step.message, "Cannot find `default:return process.env.SHELL||\"/bin/sh\"` pattern");
    let far = format!("findActualExecutable{}default:return process.env.SHELL||\"/bin/sh\"", "x".repeat(600));
    let (new, step) = patch_shell_path_fallback(&far, &v);
    assert!(new.is_none() && !step.ok);
    assert_eq!(step.message, "Found pattern but not in getShellExecutablePath context");
    let twice = "PowerShell;default:return process.env.SHELL||\"/bin/sh\";default:return process.env.SHELL||\"/bin/sh\"";
    let (new, step) = patch_shell_path_fallback(twice, &v);
    assert!(new.is_none() && !step.ok);
    assert_eq!(step.message, "Found `default:return process.env.SHELL||\"/bin/sh\"` more than once");
    let (_, step) = patch_shell_path_fallback("x", &vars("n", "Y"));
    assert_eq!(step.message, "Cannot find findActualExecutable call pattern");
}

#[test]
fn quick_detect_reports_markers() {
    let f = quick_detect(CLI_TEXT, &anchors()).unwrap();
    assert!(!f.has_nu && !f.has_system_nu && !f.has_naive_case && !f.has_uth);
    let patched = format!("{CLI_TEXT};x.includes(\"nu\")?O.Naive;Qe(\"nu\");case O.Naive:;a.shell??b?.userTerminalHint??");
    let f = quick_detect(&patched, &anchors()).unwrap();
    assert!(f.has_nu && f.has_system_nu && f.has_naive_case && f.has_uth);
    let ide = quick_detect(IDE_TEXT, &anchors()).unwrap();
    assert!(!ide.has_uth);
}

#[test]
fn re_compiles_valid_patterns_only() {
    assert!(nupatch::re(r"(\w+)\.includes\(").is_ok());
    match nupatch::re("(unclosed") {
        Err(e) => assert_eq!(e.pattern, "(unclosed"),
        Ok(_) => panic!("an unclosed group must be refused"),
    }
}

#[test]
fn plans_list_their_steps() {
    let cli = PatchPlan::cli();
    assert_eq!(cli.steps, vec![StepKind::NuDetection, StepKind::SystemNuDetection, StepKind::NaiveCase]);
    assert!(!cli.restore_before_patch);
    let ide = PatchPlan::ide();
    assert_eq!(ide.steps.len(), 4);
    assert!(ide.restore_before_patch);
    assert_eq!(ide.label, "IDE");
}
