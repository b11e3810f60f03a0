use nupatch::{
    patch_cli_agent, patch_ide_agent, AnchorSet, DriverAction, DriverEvent, PatchResult, PatchSession, Phase,
};

const CLI_TEXT: &str = "var a=1;function Qe(e){try{return(0,Ab.findActualExecutable)(e,[]).cmd!==e}catch{return!1}}\
function detectShellType(e){const t=e??\"\";return t.includes(\"zsh\")?O.Zsh:t.includes(\"bash\")?O.Bash:\
t.includes(\"pwsh\")||t.includes(\"powershell\")?O.PowerShell:Qe(\"zsh\")?O.Zsh:\
Qe(\"pwsh\")||Qe(\"powershell\")?O.PowerShell:O.Naive}\
function makeExecutor(e,t){switch(Te(t?.userTerminalHint)){case O.Zsh:return new LazyExec(\
Promise.resolve(new ZshExec(e)));case O.ZshLight:return null;default:return new LazyExec(\
Promise.resolve(new NaiveExec(process.cwd(),{shell:t?.shell??\"/bin/sh\"})))}}";

const IDE_TEXT: &str = "function Ie(e){try{return(0,Xy.findActualExecutable)(e,[]).cmd!==e}catch{return!1}}\
function ne(){return\"powershell.exe\"}\
function detectShellType(n){return n.includes(\"zsh\")?P.Zsh:n.includes(\"pwsh\")?P.PowerShell:\
Ie(\"pwsh\")?P.PowerShell:P.Naive}\
function Se(e){switch(e){case P.PowerShell:return(0,Xy.findActualExecutable)(\"pwsh\",[]).cmd;\
default:return process.env.SHELL||\"/bin/sh\"}}\
function ce(r){const s=r?.shell??\"/bin/sh\";return new Nv(r.cwd,{...r,shell:s})}";

struct Files {
    target: String,
    backup: Option<String>,
    writes: usize,
}

fn files(text: &str) -> Files {
    Files { target: text.to_string(), backup: None, writes: 0 }
}

/// Performs each action the session asks for on the in-memory files.
fn run(mut s: PatchSession, f: &mut Files) -> PatchResult {
    let anchors = AnchorSet::new().ok().unwrap();
    let mut action = DriverAction::ReadTarget;
    loop {
        let event = match action {
            DriverAction::ReadTarget => DriverEvent::TargetRead(Ok(f.target.clone())),
            DriverAction::CreateBackup => {
                if f.backup.is_none() {
                    f.backup = Some(f.target.clone());
                }
                DriverEvent::BackupDone(Ok(()))
            }
            DriverAction::RestoreFromBackup => match &f.backup {
                Some(b) => {
                    f.target = b.clone();
                    DriverEvent::Restored(Ok(true))
                }
                None => DriverEvent::Restored(Ok(false)),
            },
            DriverAction::WriteTarget(t) => {
                f.target = t;
                f.writes += 1;
                DriverEvent::WriteDone(Ok(()))
            }
            DriverAction::Finish => break,
        };
        action = s.advance(event, &anchors);
    }
    assert_eq!(s.phase(), Phase::Done);
    s.into_result()
}

fn names(r: &PatchResult) -> Vec<String> {
    r.steps.iter().map(|s| s.name.clone()).collect()
}

#[test]
fn cli_run_patches_and_writes() {
    let mut f = files(CLI_TEXT);
    let r = run(patch_cli_agent("/home/u/.cursor-agent/versions/1/index.js", false), &mut f);
    assert!(r.success);
    assert_eq!(
        names(&r),
        vec!["Pattern discovery", "Nu detection", "System nu detection", "Naive case", "Write"]
    );
    assert!(r.steps.iter().all(|s| s.ok && !s.skipped));
    assert_eq!(r.steps[4].message, "Written: index.js");
    assert!(r.steps[0].detail.starts_with("hint_var=t  enum_var=O  lazy_exec=Some(\"LazyExec\")"));
    assert_eq!(f.backup.as_deref(), Some(CLI_TEXT));
    assert_eq!(f.writes, 1);
    assert!(f.target.contains("t.includes(\"nu\")?O.Naive:t.includes(\"pwsh\")"));
    assert!(f.target.contains("O.PowerShell:Qe(\"nu\")?O.Naive:O.Naive}"));
    assert!(f.target.contains("case O.Naive:{const _np=(0,Ab.findActualExecutable)(\"nu\",[]).cmd;"));
}

#[test]
fn second_run_skips_every_step_and_keeps_text() {
    let mut f = files(CLI_TEXT);
    let first = run(patch_cli_agent("index.js", false), &mut f);
    assert!(first.success);
    let after_first = f.target.clone();
    let second = run(patch_cli_agent("index.js", false), &mut f);
    assert!(second.success);
    assert_eq!(names(&second), vec!["Pattern discovery", "Nu detection", "System nu detection", "Naive case"]);
    assert!(second.steps[1..].iter().all(|s| s.ok && s.skipped && s.message == "Already present, skipped"));
    assert_eq!(f.target, after_first);
    assert_eq!(f.writes, 1);
}

#[test]
fn ide_second_run_skips_every_step_and_keeps_text() {
    let mut f = files(IDE_TEXT);
    let first = run(patch_ide_agent("main.js", false), &mut f);
    assert!(first.success, "{:?}", first.steps);
    assert_eq!(
        names(&first),
        vec!["Pattern discovery", "Nu detection", "System nu detection", "userTerminalHint", "Shell path fallback", "Write"]
    );
    let after_first = f.target.clone();
    let second = run(patch_ide_agent("main.js", false), &mut f);
    assert!(second.success);
    assert!(second.steps[1..].iter().all(|s| s.skipped));
    assert_eq!(f.target, after_first);
    assert_eq!(f.backup.as_deref(), Some(IDE_TEXT));
}

#[test]
fn dry_run_reports_what_live_run_does() {
    let mut dry = files(CLI_TEXT);
    let mut live = files(CLI_TEXT);
    let d = run(patch_cli_agent("index.js", true), &mut dry);
    let l = run(patch_cli_agent("index.js", false), &mut live);
    assert_eq!(d.steps.len(), l.steps.len());
    let n = d.steps.len();
    for i in 0..n - 1 {
        assert_eq!(d.steps[i].name, l.steps[i].name);
        assert_eq!(d.steps[i].ok, l.steps[i].ok);
        assert_eq!(d.steps[i].skipped, l.steps[i].skipped);
        assert_eq!(d.steps[i].message, l.steps[i].message);
        assert_eq!(d.steps[i].detail, l.steps[i].detail);
    }
    assert_eq!(d.steps[n - 1].name, "Write");
    assert!(d.steps[n - 1].skipped);
    assert_eq!(d.steps[n - 1].message, "Would write: index.js");
    assert!(!l.steps[n - 1].skipped);
    assert_eq!(dry.target, CLI_TEXT);
    assert!(dry.backup.is_none());
    assert_eq!(dry.writes, 0);
}

#[test]
fn failed_run_writes_nothing() {
    let text = CLI_TEXT.replace("O.PowerShell:O.Naive}", "O.PowerShell:O.Other}");
    let mut f = files(&text);
    let r = run(patch_cli_agent("index.js", false), &mut f);
    assert!(!r.success);
    assert_eq!(names(&r), vec!["Pattern discovery", "Nu detection", "System nu detection"]);
    assert!(r.steps[0].ok && r.steps[1].ok);
    assert!(!r.steps[2].ok);
    assert_eq!(f.target, text);
    assert_eq!(f.writes, 0);
    assert_eq!(f.backup.as_deref(), Some(text.as_str()));
}

#[test]
fn missing_shell_anchor_fails_discovery() {
    let mut f = files("function f(){}");
    let r = run(patch_cli_agent("index.js", false), &mut f);
    assert!(!r.success);
    assert_eq!(r.steps.len(), 1);
    assert_eq!(r.steps[0].name, "Pattern discovery");
    assert_eq!(r.steps[0].message, "Cannot find includes(\"zsh\")?<enum>.Zsh pattern");
    assert_eq!(f.target, "function f(){}");
    assert_eq!(f.backup.as_deref(), Some("function f(){}"));
}

#[test]
fn restore_plan_discovers_from_backup() {
    let mut f = files(IDE_TEXT);
    assert!(run(patch_ide_agent("main.js", false), &mut f).success);
    // Hand edit that renames the enum and drops the markers.
    let edited = IDE_TEXT.replace("P.", "Q.");
    f.target = edited;
    let r = run(patch_ide_agent("main.js", false), &mut f);
    assert!(r.success);
    assert!(r.steps[0].detail.starts_with("hint_var=n  enum_var=P  "));
    assert!(f.target.contains("n.includes(\"nu\")?P.Naive:"));
    assert!(!f.target.contains("Q."));
}

#[test]
fn read_and_io_failures_are_reported() {
    let anchors = AnchorSet::new().ok().unwrap();
    let mut s = patch_cli_agent("index.js", false);
    let a = s.advance(DriverEvent::TargetRead(Err("denied".to_string())), &anchors);
    assert!(matches!(a, DriverAction::Finish));
    let r = s.into_result();
    assert!(!r.success);
    assert_eq!(r.steps[0].name, "Read");
    assert_eq!(r.steps[0].message, "Failed to read CLI agent: denied");

    let mut s = patch_ide_agent("main.js", false);
    assert!(matches!(s.advance(DriverEvent::TargetRead(Ok(IDE_TEXT.to_string())), &anchors), DriverAction::CreateBackup));
    assert!(matches!(s.advance(DriverEvent::BackupDone(Err("disk full".to_string())), &anchors), DriverAction::Finish));
    assert_eq!(s.result().steps[0].message, "Failed to create backup: disk full");

    let mut s = patch_ide_agent("main.js", false);
    s.advance(DriverEvent::TargetRead(Ok(IDE_TEXT.to_string())), &anchors);
    assert!(matches!(s.advance(DriverEvent::BackupDone(Ok(())), &anchors), DriverAction::RestoreFromBackup));
    s.advance(DriverEvent::Restored(Err("busy".to_string())), &anchors);
    assert_eq!(s.result().steps[0].name, "Restore");
    assert_eq!(s.result().steps[0].message, "Failed to restore from backup: busy");

    let mut s = patch_cli_agent("index.js", false);
    s.advance(DriverEvent::TargetRead(Ok(CLI_TEXT.to_string())), &anchors);
    s.advance(DriverEvent::BackupDone(Ok(())), &anchors);
    let a = s.advance(DriverEvent::TargetRead(Ok(CLI_TEXT.to_string())), &anchors);
    assert!(matches!(a, DriverAction::WriteTarget(_)));
    s.advance(DriverEvent::WriteDone(Err("read-only".to_string())), &anchors);
    let r = s.into_result();
    assert!(!r.success);
    assert_eq!(r.steps.last().unwrap().message, "Failed to write CLI agent: read-only");
}

#[test]
fn unexpected_event_leaves_session_waiting() {
    let anchors = AnchorSet::new().ok().unwrap();
    let mut s = patch_cli_agent("index.js", false);
    let a = s.advance(DriverEvent::WriteDone(Ok(())), &anchors);
    assert!(matches!(a, DriverAction::ReadTarget));
    assert_eq!(s.phase(), Phase::ReadLive);
}
