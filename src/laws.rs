//! Properties of whole patch runs, over a model of the two files a run
//! touches: the target and its backup. In the model every file operation
//! succeeds, as the caller of `PatchSession::advance` performs it.
use vstd::prelude::*;

use crate::discovery::{spec_discover, spec_quick_detect};
use crate::plan::{fully_patched, spec_run_steps, PlanView};
use crate::session::{
    initial, patch_outcome, transition, vars_detail, ActionView, EventView, Phase, SessionView,
};
use crate::step::{fail_view, ok_view, StepView};

verus! {

/// The target's text, and its backup's where one exists.
pub struct FileState {
    pub target: Seq<char>,
    pub backup: Option<Seq<char>>,
}

/// What performing `a` does to the files, and the event it reports.
pub open spec fn perform(fs: FileState, a: ActionView) -> (FileState, EventView) {
    match a {
        ActionView::CreateBackup => (
            match fs.backup {
                None => FileState { backup: Some(fs.target), ..fs },
                Some(_) => fs,
            },
            EventView::BackupDone(Ok(())),
        ),
        ActionView::RestoreFromBackup => match fs.backup {
            Some(b) => (FileState { target: b, ..fs }, EventView::Restored(Ok(true))),
            None => (fs, EventView::Restored(Ok(false))),
        },
        ActionView::WriteTarget(t) => (FileState { target: t, ..fs }, EventView::WriteDone(Ok(()))),
        _ => (fs, EventView::TargetRead(Ok(fs.target))),
    }
}

/// Performs `a` and feeds its outcome to the session, until the session
/// finishes or `fuel` runs out.
pub open spec fn drive(s: SessionView, fs: FileState, a: ActionView, fuel: nat) -> (SessionView, FileState)
    decreases fuel,
{
    if fuel == 0 || a is Finish {
        (s, fs)
    } else {
        let (fs2, e) = perform(fs, a);
        let (s2, a2) = transition(s, e);
        drive(s2, fs2, a2, (fuel - 1) as nat)
    }
}

/// A whole run of `plan` over the files `fs`.
pub open spec fn run_on(plan: PlanView, dry_run: bool, path: Seq<char>, fs: FileState) -> (SessionView, FileState) {
    drive(initial(plan, dry_run, path), fs, ActionView::ReadTarget, 8)
}

/// Whether quick detection finds `t` already patched as `plan` requires.
pub open spec fn already_patched(plan: PlanView, t: Seq<char>) -> bool {
    match spec_quick_detect(t) {
        Some(f) => fully_patched(plan.required, f),
        None => false,
    }
}

/// The reports of a run that failed end with the one failure: every
/// earlier report is a success.
pub open spec fn failure_is_last(steps: Seq<StepView>) -> bool {
    steps.len() > 0 && !steps.last().ok && forall|i: int| 0 <= i < steps.len() - 1 ==> #[trigger] steps[i].ok
}

pub open spec fn all_ok(steps: Seq<StepView>) -> bool {
    forall|i: int| 0 <= i < steps.len() ==> #[trigger] steps[i].ok
}

/// The reports of a step sequence: all successes, or successes followed
/// by one failure, which ends them.
pub proof fn lemma_run_steps_shape(steps: Seq<crate::plan::StepKind>, code: Seq<char>, v: crate::discovery::VarsView)
    ensures
        ({
            let (reports, fin, ok) = spec_run_steps(steps, code, v);
            (ok ==> all_ok(reports)) && (!ok ==> failure_is_last(reports))
        }),
    decreases steps.len(),
{
    if steps.len() > 0 {
        let (t, r) = crate::plan::spec_apply_step(steps[0], code, v);
        if r.ok {
            let next = match t {
                Some(t) => t,
                None => code,
            };
            lemma_run_steps_shape(steps.drop_first(), next, v);
            let (rest, fin, ok) = spec_run_steps(steps.drop_first(), next, v);
            let all = seq![r] + rest;
            assert forall|i: int| 1 <= i < all.len() implies all[i] == rest[i - 1] by {}
            if !ok {
                assert(all.last() == rest.last());
            }
        }
    }
}

/// The text a run patches: the backup where the plan restores from one
/// (a missing backup is first made from the target), else the target.
pub open spec fn text_to_patch(plan: PlanView, dry_run: bool, fs: FileState) -> Seq<char> {
    if !dry_run && plan.restore_before_patch {
        match fs.backup {
            Some(b) => b,
            None => fs.target,
        }
    } else {
        fs.target
    }
}

/// The files once the backup and restore actions have run.
pub open spec fn files_before_patch(plan: PlanView, dry_run: bool, fs: FileState) -> FileState {
    if dry_run {
        fs
    } else {
        FileState {
            target: text_to_patch(plan, dry_run, fs),
            backup: match fs.backup {
                Some(b) => Some(b),
                None => Some(fs.target),
            },
        }
    }
}

/// A session that waits for the text to patch.
pub open spec fn awaiting_patch(plan: PlanView, dry_run: bool, path: Seq<char>) -> SessionView {
    SessionView { phase: Phase::ReadPatched, ..initial(plan, dry_run, path) }
}

/// The reports and files at the end of a whole run, step by step.
pub open spec fn run_outcome(plan: PlanView, dry_run: bool, path: Seq<char>, fs: FileState) -> (SessionView, FileState) {
    let s0 = initial(plan, dry_run, path);
    if already_patched(plan, fs.target) {
        (transition(s0, EventView::TargetRead(Ok(fs.target))).0, fs)
    } else {
        let mid = files_before_patch(plan, dry_run, fs);
        let (s1, a1) = patch_outcome(awaiting_patch(plan, dry_run, path), text_to_patch(plan, dry_run, fs));
        match a1 {
            ActionView::WriteTarget(t) => (
                transition(s1, EventView::WriteDone(Ok(()))).0,
                FileState { target: t, ..mid },
            ),
            _ => (s1, mid),
        }
    }
}

proof fn lemma_drive_finish(s: SessionView, fs: FileState, fuel: nat)
    ensures
        drive(s, fs, ActionView::Finish, fuel) == (s, fs),
{
}

/// A whole run unfolds into the read, backup, restore, discovery, steps
/// and write that the driver decides on.
pub proof fn lemma_run_outcome(plan: PlanView, dry_run: bool, path: Seq<char>, fs: FileState)
    ensures
        run_on(plan, dry_run, path, fs) == run_outcome(plan, dry_run, path, fs),
{
    let s0 = initial(plan, dry_run, path);
    let (fs1, e1) = perform(fs, ActionView::ReadTarget);
    let (s1, a1) = transition(s0, e1);
    assert(run_on(plan, dry_run, path, fs) == drive(s1, fs1, a1, 7));
    if already_patched(plan, fs.target) {
        lemma_drive_finish(s1, fs1, 7);
    } else {
        let sp = awaiting_patch(plan, dry_run, path);
        let code = text_to_patch(plan, dry_run, fs);
        let mid = files_before_patch(plan, dry_run, fs);
        let (s3, a3) = patch_outcome(sp, code);
        if dry_run {
            assert(a1 == ActionView::ReadTarget);
            let (fs2, e2) = perform(fs1, a1);
            assert(transition(s1, e2) == patch_outcome(sp, code));
            assert(drive(s1, fs1, a1, 7) == drive(s3, mid, a3, 6));
            lemma_drive_finish(s3, mid, 6);
        } else {
            assert(a1 == ActionView::CreateBackup);
            let (fs2, e2) = perform(fs1, a1);
            let (s2, a2) = transition(s1, e2);
            assert(drive(s1, fs1, a1, 7) == drive(s2, fs2, a2, 6));
            if plan.restore_before_patch {
                assert(a2 == ActionView::RestoreFromBackup);
                let (fs3, e3) = perform(fs2, a2);
                let (s4, a4) = transition(s2, e3);
                assert(fs3 == mid);
                assert(a4 == ActionView::ReadTarget);
                assert(drive(s2, fs2, a2, 6) == drive(s4, fs3, a4, 5));
                let (fs5, e5) = perform(fs3, a4);
                assert(transition(s4, e5) == patch_outcome(sp, code));
                assert(drive(s4, fs3, a4, 5) == drive(s3, mid, a3, 4));
                if let ActionView::WriteTarget(t) = a3 {
                    let (fs6, e6) = perform(mid, a3);
                    lemma_drive_finish(transition(s3, e6).0, fs6, 3);
                } else {
                    lemma_drive_finish(s3, mid, 4);
                }
            } else {
                assert(a2 == ActionView::ReadTarget);
                assert(fs2 == mid);
                let (fs3, e3) = perform(fs2, a2);
                assert(transition(s2, e3) == patch_outcome(sp, code));
                assert(drive(s2, fs2, a2, 6) == drive(s3, mid, a3, 5));
                if let ActionView::WriteTarget(t) = a3 {
                    let (fs6, e6) = perform(mid, a3);
                    lemma_drive_finish(transition(s3, e6).0, fs6, 4);
                } else {
                    lemma_drive_finish(s3, mid, 5);
                }
            }
        }
    }
}

/// A live run on a target that has no backup, unless cut short because
/// the target is already patched, leaves one backup, holding the target's
/// text from before the run, whether the run succeeds or fails.
pub proof fn lemma_backup_holds_original(plan: PlanView, path: Seq<char>, t: Seq<char>)
    requires
        !already_patched(plan, t),
    ensures
        run_on(plan, false, path, FileState { target: t, backup: None }).1.backup == Some(t),
{
    lemma_run_outcome(plan, false, path, FileState { target: t, backup: None });
}

/// A run on a target without a backup that fails leaves the target's
/// text as it was, and its reports end with the failure, every earlier
/// report a success; a run that succeeds reports successes only.
pub proof fn lemma_failure_leaves_target(plan: PlanView, dry_run: bool, path: Seq<char>, t: Seq<char>)
    ensures
        ({
            let (s, fs) = run_on(plan, dry_run, path, FileState { target: t, backup: None });
            (!s.success ==> fs.target == t && failure_is_last(s.steps)) && (s.success ==> all_ok(s.steps))
        }),
{
    let fs0 = FileState { target: t, backup: None };
    lemma_run_outcome(plan, dry_run, path, fs0);
    let (s, fs) = run_on(plan, dry_run, path, fs0);
    if already_patched(plan, t) {
        let first = seq![ok_view("Pattern discovery"@, "Discovered minified variable names"@, Seq::empty())];
        let all = first + crate::session::all_skipped(plan.steps);
        assert(s.steps == all);
        assert forall|i: int| 0 <= i < all.len() implies #[trigger] all[i].ok by {
            if i > 0 {
                assert(all[i] == crate::session::all_skipped(plan.steps)[i - 1]);
            }
        }
    } else {
        let sp = awaiting_patch(plan, dry_run, path);
        match spec_discover(t) {
            Err(e) => {},
            Ok(v) => {
                lemma_run_steps_shape(plan.steps, t, v);
                let (reports, fin, ok) = spec_run_steps(plan.steps, t, v);
                let first = ok_view("Pattern discovery"@, "Discovered minified variable names"@, vars_detail(v));
                let steps = seq![first] + reports;
                assert forall|i: int| 1 <= i < steps.len() implies steps[i] == reports[i - 1] by {}
                if !ok {
                    assert(steps.last() == reports.last());
                } else {
                    assert(all_ok(steps));
                    let w = s.steps;
                    assert(w.len() == steps.len() + 1);
                    assert forall|i: int| 0 <= i < w.len() implies #[trigger] w[i].ok by {
                        if i < steps.len() {
                            assert(w[i] == steps[i]);
                        }
                    }
                }
            },
        }
    }
}

/// On the same target without a backup, a dry run reports what a live run
/// reports, but for its final `Write` report, which is skipped; and it
/// leaves the files as they were.
pub proof fn lemma_dry_run_matches_live(plan: PlanView, path: Seq<char>, t: Seq<char>)
    ensures
        ({
            let fs0 = FileState { target: t, backup: None };
            let (d, dfs) = run_on(plan, true, path, fs0);
            let (l, lfs) = run_on(plan, false, path, fs0);
            &&& dfs == fs0
            &&& d.success == l.success
            &&& d.steps.len() == l.steps.len()
            &&& (d.steps == l.steps || (d.steps.drop_last() == l.steps.drop_last() && d.steps.last().name
                == "Write"@ && l.steps.last().name == "Write"@ && d.steps.last().skipped
                && !l.steps.last().skipped))
        }),
{
    let fs0 = FileState { target: t, backup: None };
    lemma_run_outcome(plan, true, path, fs0);
    lemma_run_outcome(plan, false, path, fs0);
    let (d, dfs) = run_on(plan, true, path, fs0);
    let (l, lfs) = run_on(plan, false, path, fs0);
    if !already_patched(plan, t) {
        match spec_discover(t) {
            Err(e) => {},
            Ok(v) => {
                let (reports, fin, ok) = spec_run_steps(plan.steps, t, v);
                let first = ok_view("Pattern discovery"@, "Discovered minified variable names"@, vars_detail(v));
                let steps = seq![first] + reports;
                if ok {
                    assert(d.steps.drop_last() =~= steps);
                    assert(l.steps.drop_last() =~= steps);
                }
            },
        }
    }
}

/// A plan that restores before patching, run on a target that was patched
/// and then edited by hand (and is not found fully patched), discovers the
/// identifiers of the backup's text, not of the edited one; what it
/// leaves in the target is the backup's text, patched where all succeeded.
pub proof fn lemma_restore_patches_backup(plan: PlanView, path: Seq<char>, edited: Seq<char>, orig: Seq<char>)
    requires
        plan.restore_before_patch,
        !already_patched(plan, edited),
    ensures
        ({
            let (s, fs) = run_on(plan, false, path, FileState { target: edited, backup: Some(orig) });
            match spec_discover(orig) {
                Err(e) => s.steps == seq![fail_view("Pattern discovery"@, e.spec_message())] && fs.target == orig,
                Ok(v) => s.steps[0] == ok_view(
                    "Pattern discovery"@,
                    "Discovered minified variable names"@,
                    vars_detail(v),
                ) && fs.target == (if s.success {
                    spec_run_steps(plan.steps, orig, v).1
                } else {
                    orig
                }),
            }
        }),
{
    lemma_run_outcome(plan, false, path, FileState { target: edited, backup: Some(orig) });
}

} // verus!
