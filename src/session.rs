//! The patch driver: a state machine that decides, from each outcome of
//! reading, backing up, restoring and writing the target, what to do next.
//! The caller performs each action and hands back its outcome.
use vstd::prelude::*;

use crate::discovery::{discover_vars, quick_detect, spec_discover, spec_quick_detect, VarsView};
use crate::matcher::AnchorSet;
use crate::paths::{display_name, spec_display_name};
use crate::patches::{show_opt, show_opt_of};
use crate::plan::{fully_patched, run_steps, spec_run_steps, views, PatchPlan, PatchResult, PlanView, StepKind};
use crate::step::{fail_view, ok_view, skip_view, StepResult, StepView};
use crate::text::{cat, cat_str, chars_of, concat2, concat3, string_of};

verus! {

/// Where a session stands.
#[derive(PartialEq, Eq, Structural, Clone, Copy, Debug)]
pub enum Phase {
    /// Waiting for the live text.
    ReadLive,
    /// Waiting for the backup to be made.
    Backup,
    /// Waiting for the restore from backup.
    Restore,
    /// Waiting for the text to patch.
    ReadPatched,
    /// Waiting for the patched text to be written.
    Write,
    /// Finished; the result is final.
    Done,
}

/// What the caller is to do next.
pub enum DriverAction {
    /// Read the target file and report [`DriverEvent::TargetRead`].
    ReadTarget,
    /// Copy the target to its backup path unless a backup exists already,
    /// and report [`DriverEvent::BackupDone`].
    CreateBackup,
    /// Copy the backup over the target where a backup exists, and report
    /// [`DriverEvent::Restored`].
    RestoreFromBackup,
    /// Write this text to the target and report [`DriverEvent::WriteDone`].
    WriteTarget(String),
    /// Nothing more: the result is final.
    Finish,
}

/// The outcome of an action; errors carry a message.
pub enum DriverEvent {
    TargetRead(Result<String, String>),
    BackupDone(Result<(), String>),
    Restored(Result<bool, String>),
    WriteDone(Result<(), String>),
}

pub enum ActionView {
    ReadTarget,
    CreateBackup,
    RestoreFromBackup,
    WriteTarget(Seq<char>),
    Finish,
}

pub enum EventView {
    TargetRead(Result<Seq<char>, Seq<char>>),
    BackupDone(Result<(), Seq<char>>),
    Restored(Result<bool, Seq<char>>),
    WriteDone(Result<(), Seq<char>>),
}

impl View for DriverAction {
    type V = ActionView;

    open spec fn view(&self) -> ActionView {
        match self {
            DriverAction::ReadTarget => ActionView::ReadTarget,
            DriverAction::CreateBackup => ActionView::CreateBackup,
            DriverAction::RestoreFromBackup => ActionView::RestoreFromBackup,
            DriverAction::WriteTarget(t) => ActionView::WriteTarget(t@),
            DriverAction::Finish => ActionView::Finish,
        }
    }
}

impl View for DriverEvent {
    type V = EventView;

    open spec fn view(&self) -> EventView {
        match self {
            DriverEvent::TargetRead(r) => EventView::TargetRead(
                match r {
                    Ok(t) => Ok(t@),
                    Err(e) => Err(e@),
                },
            ),
            DriverEvent::BackupDone(r) => EventView::BackupDone(
                match r {
                    Ok(()) => Ok(()),
                    Err(e) => Err(e@),
                },
            ),
            DriverEvent::Restored(r) => EventView::Restored(
                match r {
                    Ok(b) => Ok(*b),
                    Err(e) => Err(e@),
                },
            ),
            DriverEvent::WriteDone(r) => EventView::WriteDone(
                match r {
                    Ok(()) => Ok(()),
                    Err(e) => Err(e@),
                },
            ),
        }
    }
}

/// One run of a plan against one target file.
pub struct PatchSession {
    plan: PatchPlan,
    dry_run: bool,
    target_name: String,
    phase: Phase,
    text: String,
    result: PatchResult,
}

pub struct SessionView {
    pub plan: PlanView,
    pub dry_run: bool,
    pub target_name: Seq<char>,
    pub phase: Phase,
    /// The patched text, once the steps have run.
    pub text: Seq<char>,
    pub success: bool,
    pub steps: Seq<StepView>,
}

impl View for PatchSession {
    type V = SessionView;

    closed spec fn view(&self) -> SessionView {
        SessionView {
            plan: self.plan@,
            dry_run: self.dry_run,
            target_name: self.target_name@,
            phase: self.phase,
            text: self.text@,
            success: self.result.success,
            steps: views(self.result.steps@),
        }
    }
}

/// A fresh session, waiting for the live text.
pub open spec fn initial(plan: PlanView, dry_run: bool, path: Seq<char>) -> SessionView {
    SessionView {
        plan,
        dry_run,
        target_name: spec_display_name(path),
        phase: Phase::ReadLive,
        text: Seq::empty(),
        success: false,
        steps: Seq::empty(),
    }
}

/// The action a session in phase `s.phase` waits on.
pub open spec fn pending(s: SessionView) -> ActionView {
    match s.phase {
        Phase::ReadLive => ActionView::ReadTarget,
        Phase::ReadPatched => ActionView::ReadTarget,
        Phase::Backup => ActionView::CreateBackup,
        Phase::Restore => ActionView::RestoreFromBackup,
        Phase::Write => ActionView::WriteTarget(s.text),
        Phase::Done => ActionView::Finish,
    }
}

pub open spec fn finish(s: SessionView, steps: Seq<StepView>, success: bool) -> (SessionView, ActionView) {
    (SessionView { phase: Phase::Done, steps, success, ..s }, ActionView::Finish)
}

pub open spec fn goto(s: SessionView, phase: Phase) -> (SessionView, ActionView) {
    let n = SessionView { phase, ..s };
    (n, pending(n))
}

pub open spec fn show_bool(b: bool) -> Seq<char> {
    if b {
        "true"@
    } else {
        "false"@
    }
}

/// The discovered names, for preview.
pub open spec fn vars_detail(v: VarsView) -> Seq<char> {
    "hint_var="@ + v.hint_var + "  enum_var="@ + v.enum_var + "  lazy_exec="@ + show_opt(v.lazy_exec)
        + "  naive_exec="@ + show_opt(v.naive_exec) + "  cmd_exists="@ + show_opt(v.cmd_exists_fn)
        + "  find_exec="@ + show_opt(v.find_exec_call) + "  has_uth="@ + show_bool(v.has_user_terminal_hint)
        + "  has_sys_nu="@ + show_bool(v.has_system_nu)
}

pub open spec fn read_failure(s: SessionView, msg: Seq<char>) -> StepView {
    fail_view("Read"@, "Failed to read "@ + s.plan.label + " agent: "@ + msg)
}

pub open spec fn all_skipped(steps: Seq<StepKind>) -> Seq<StepView> {
    steps.map_values(|k: StepKind| skip_view(k.spec_name(), "Already present, skipped"@))
}

/// Discovery and the plan's steps over `code`, the text to patch.
pub open spec fn patch_outcome(s: SessionView, code: Seq<char>) -> (SessionView, ActionView) {
    match spec_discover(code) {
        Err(e) => finish(s, seq![fail_view("Pattern discovery"@, e.spec_message())], false),
        Ok(v) => {
            let first = ok_view("Pattern discovery"@, "Discovered minified variable names"@, vars_detail(v));
            let (reports, fin, ok) = spec_run_steps(s.plan.steps, code, v);
            let steps = seq![first] + reports;
            if !ok {
                finish(s, steps, false)
            } else if s.dry_run {
                finish(s, steps + seq![skip_view("Write"@, "Would write: "@ + s.target_name)], true)
            } else {
                let n = SessionView { phase: Phase::Write, steps, text: fin, success: false, ..s };
                (n, ActionView::WriteTarget(fin))
            }
        },
    }
}

/// The driver's decision on event `e` in state `s`. An event that does not
/// answer the pending action leaves the session as it is.
pub open spec fn transition(s: SessionView, e: EventView) -> (SessionView, ActionView) {
    match (s.phase, e) {
        (Phase::ReadLive, EventView::TargetRead(Err(msg))) => finish(s, seq![read_failure(s, msg)], false),
        (Phase::ReadLive, EventView::TargetRead(Ok(live))) => match spec_quick_detect(live) {
            Some(f) if fully_patched(s.plan.required, f) => finish(
                s,
                seq![ok_view("Pattern discovery"@, "Discovered minified variable names"@, Seq::empty())]
                    + all_skipped(s.plan.steps),
                true,
            ),
            _ => if s.dry_run {
                goto(s, Phase::ReadPatched)
            } else {
                goto(s, Phase::Backup)
            },
        },
        (Phase::Backup, EventView::BackupDone(Err(msg))) => finish(
            s,
            seq![fail_view("Backup"@, "Failed to create backup: "@ + msg)],
            false,
        ),
        (Phase::Backup, EventView::BackupDone(Ok(()))) => if s.plan.restore_before_patch {
            goto(s, Phase::Restore)
        } else {
            goto(s, Phase::ReadPatched)
        },
        (Phase::Restore, EventView::Restored(Err(msg))) => finish(
            s,
            seq![fail_view("Restore"@, "Failed to restore from backup: "@ + msg)],
            false,
        ),
        (Phase::Restore, EventView::Restored(Ok(_))) => goto(s, Phase::ReadPatched),
        (Phase::ReadPatched, EventView::TargetRead(Err(msg))) => finish(s, seq![read_failure(s, msg)], false),
        (Phase::ReadPatched, EventView::TargetRead(Ok(code))) => patch_outcome(s, code),
        (Phase::Write, EventView::WriteDone(Err(msg))) => finish(
            s,
            s.steps + seq![fail_view("Write"@, "Failed to write "@ + s.plan.label + " agent: "@ + msg)],
            false,
        ),
        (Phase::Write, EventView::WriteDone(Ok(()))) => finish(
            s,
            s.steps + seq![ok_view("Write"@, "Written: "@ + s.target_name, Seq::empty())],
            true,
        ),
        _ => (s, pending(s)),
    }
}

fn show_bool_of(b: bool) -> (r: &'static str)
    ensures
        r@ == show_bool(b),
{
    if b {
        "true"
    } else {
        "false"
    }
}

fn vars_detail_of(v: &crate::discovery::DiscoveredVars) -> (r: String)
    ensures
        r@ == vars_detail(v@),
{
    let t = cat(chars_of("hint_var=").as_slice(), chars_of(v.hint_var.as_str()).as_slice());
    let t = cat(cat_str(t.as_slice(), "  enum_var=").as_slice(), chars_of(v.enum_var.as_str()).as_slice());
    let t = cat(cat_str(t.as_slice(), "  lazy_exec=").as_slice(), show_opt_of(&v.lazy_exec).as_slice());
    let t = cat(cat_str(t.as_slice(), "  naive_exec=").as_slice(), show_opt_of(&v.naive_exec).as_slice());
    let t = cat(cat_str(t.as_slice(), "  cmd_exists=").as_slice(), show_opt_of(&v.cmd_exists_fn).as_slice());
    let t = cat(cat_str(t.as_slice(), "  find_exec=").as_slice(), show_opt_of(&v.find_exec_call).as_slice());
    let t = cat_str(cat_str(t.as_slice(), "  has_uth=").as_slice(), show_bool_of(v.has_user_terminal_hint));
    let t = cat_str(cat_str(t.as_slice(), "  has_sys_nu=").as_slice(), show_bool_of(v.has_system_nu));
    string_of(t.as_slice())
}

impl PatchSession {
    /// A session that runs `plan` against the file at `path`; its first
    /// action is [`DriverAction::ReadTarget`].
    pub fn new(plan: PatchPlan, path: &str, dry_run: bool) -> (r: PatchSession)
        ensures
            r@ == initial(plan@, dry_run, path@),
    {
        let r = PatchSession {
            plan,
            dry_run,
            target_name: display_name(path),
            phase: Phase::ReadLive,
            text: String::new(),
            result: PatchResult { success: false, steps: Vec::new() },
        };
        assert(views(r.result.steps@) =~= Seq::<StepView>::empty());
        r
    }

    pub fn phase(&self) -> (r: Phase)
        ensures
            r == self@.phase,
    {
        self.phase
    }

    /// The result; final once the phase is [`Phase::Done`].
    pub fn result(&self) -> (r: &PatchResult)
        ensures
            r.success == self@.success,
            views(r.steps@) == self@.steps,
    {
        &self.result
    }

    /// The result, taken out of the session.
    pub fn into_result(self) -> (r: PatchResult)
        ensures
            r.success == self@.success,
            views(r.steps@) == self@.steps,
    {
        self.result
    }

    fn pending_action(&self) -> (r: DriverAction)
        ensures
            r@ == pending(self@),
    {
        match self.phase {
            Phase::ReadLive => DriverAction::ReadTarget,
            Phase::ReadPatched => DriverAction::ReadTarget,
            Phase::Backup => DriverAction::CreateBackup,
            Phase::Restore => DriverAction::RestoreFromBackup,
            Phase::Write => DriverAction::WriteTarget(self.text.clone()),
            Phase::Done => DriverAction::Finish,
        }
    }

    fn finish_with(&mut self, steps: Vec<StepResult>, success: bool) -> (r: DriverAction)
        ensures
            (final(self)@, r@) == finish(old(self)@, views(steps@), success),
    {
        self.phase = Phase::Done;
        self.result = PatchResult { success, steps };
        DriverAction::Finish
    }

    fn fail_one(&mut self, name: &str, msg: &str) -> (r: DriverAction)
        ensures
            (final(self)@, r@) == finish(old(self)@, seq![fail_view(name@, msg@)], false),
    {
        let steps = vec![StepResult::fail(name, msg)];
        assert(views(steps@) =~= seq![fail_view(name@, msg@)]);
        self.finish_with(steps, false)
    }

    fn goto_phase(&mut self, phase: Phase) -> (r: DriverAction)
        ensures
            (final(self)@, r@) == goto(old(self)@, phase),
    {
        self.phase = phase;
        self.pending_action()
    }

    fn read_failed(&mut self, msg: &String) -> (r: DriverAction)
        ensures
            (final(self)@, r@) == finish(old(self)@, seq![read_failure(old(self)@, msg@)], false),
    {
        let m = concat3("Failed to read ", self.plan.label.as_str(), " agent: ");
        let m = concat2(m.as_str(), msg.as_str());
        self.fail_one("Read", m.as_str())
    }

    fn skip_all(&mut self) -> (r: DriverAction)
        ensures
            (final(self)@, r@) == finish(
                old(self)@,
                seq![ok_view("Pattern discovery"@, "Discovered minified variable names"@, Seq::empty())]
                    + all_skipped(old(self)@.plan.steps),
                true,
            ),
    {
        let mut steps: Vec<StepResult> = vec![StepResult::ok("Pattern discovery", "Discovered minified variable names")];
        let ghost first = seq![ok_view("Pattern discovery"@, "Discovered minified variable names"@, Seq::empty())];
        assert(views(steps@) =~= first);
        let mut i: usize = 0;
        while i < self.plan.steps.len()
            invariant
                i <= self.plan.steps.len(),
                views(steps@) =~= first + all_skipped(self.plan.steps@.take(i as int)),
            decreases self.plan.steps.len() - i,
        {
            let k = self.plan.steps[i];
            let ghost before = steps@;
            steps.push(StepResult::skipped(k.name(), "Already present, skipped"));
            assert(views(steps@) =~= views(before).push(skip_view(k.spec_name(), "Already present, skipped"@)));
            assert(self.plan.steps@.take(i + 1) =~= self.plan.steps@.take(i as int).push(k));
            assert(all_skipped(self.plan.steps@.take(i + 1)) =~= all_skipped(self.plan.steps@.take(i as int)).push(
                skip_view(k.spec_name(), "Already present, skipped"@),
            ));
            i += 1;
        }
        assert(self.plan.steps@.take(i as int) =~= self.plan.steps@);
        self.finish_with(steps, true)
    }

    fn patch_text(&mut self, code: String, anchors: &AnchorSet) -> (r: DriverAction)
        ensures
            (final(self)@, r@) == patch_outcome(old(self)@, code@),
    {
        let v = match discover_vars(code.as_str(), anchors) {
            Ok(v) => v,
            Err(e) => {
                return self.fail_one("Pattern discovery", e.message().as_str());
            },
        };
        let detail = vars_detail_of(&v);
        let mut steps: Vec<StepResult> = vec![
            StepResult::ok("Pattern discovery", "Discovered minified variable names").with_detail(detail.as_str()),
        ];
        let ghost first = ok_view("Pattern discovery"@, "Discovered minified variable names"@, vars_detail(v@));
        assert(views(steps@) =~= seq![first]);
        let (fin, ok) = run_steps(&self.plan.steps, code, &v, anchors, &mut steps);
        if !ok {
            return self.finish_with(steps, false);
        }
        if self.dry_run {
            let msg = concat2("Would write: ", self.target_name.as_str());
            let ghost before = steps@;
            steps.push(StepResult::skipped("Write", msg.as_str()));
            assert(views(steps@) =~= views(before) + seq![skip_view("Write"@, "Would write: "@ + self@.target_name)]);
            return self.finish_with(steps, true);
        }
        self.phase = Phase::Write;
        self.result = PatchResult { success: false, steps };
        self.text = fin.clone();
        DriverAction::WriteTarget(fin)
    }

    fn write_outcome(&mut self, outcome: &Result<(), String>) -> (r: DriverAction)
        requires
            old(self)@.phase == Phase::Write,
        ensures
            (final(self)@, r@) == transition(
                old(self)@,
                EventView::WriteDone(
                    match outcome {
                        Ok(()) => Ok(()),
                        Err(e) => Err(e@),
                    },
                ),
            ),
    {
        let step = match outcome {
            Ok(()) => StepResult::ok("Write", concat2("Written: ", self.target_name.as_str()).as_str()),
            Err(e) => {
                let m = concat3("Failed to write ", self.plan.label.as_str(), " agent: ");
                StepResult::fail("Write", concat2(m.as_str(), e.as_str()).as_str())
            },
        };
        let success = outcome.is_ok();
        let ghost before = self.result.steps@;
        let mut steps = Vec::new();
        std::mem::swap(&mut steps, &mut self.result.steps);
        steps.push(step);
        assert(views(steps@) =~= views(before) + seq![step@]);
        self.finish_with(steps, success)
    }

    /// Takes the outcome of the pending action and decides the next one,
    /// matching with the compiled `anchors`.
    pub fn advance(&mut self, event: DriverEvent, anchors: &AnchorSet) -> (r: DriverAction)
        ensures
            (final(self)@, r@) == transition(old(self)@, event@),
    {
        match (self.phase, event) {
            (Phase::ReadLive, DriverEvent::TargetRead(Err(msg))) => self.read_failed(&msg),
            (Phase::ReadLive, DriverEvent::TargetRead(Ok(live))) => {
                let done = match quick_detect(live.as_str(), anchors) {
                    Some(f) => self.plan.is_fully_patched(&f),
                    None => false,
                };
                if done {
                    self.skip_all()
                } else if self.dry_run {
                    self.goto_phase(Phase::ReadPatched)
                } else {
                    self.goto_phase(Phase::Backup)
                }
            },
            (Phase::Backup, DriverEvent::BackupDone(Err(msg))) => {
                let m = concat2("Failed to create backup: ", msg.as_str());
                self.fail_one("Backup", m.as_str())
            },
            (Phase::Backup, DriverEvent::BackupDone(Ok(()))) => {
                if self.plan.restore_before_patch {
                    self.goto_phase(Phase::Restore)
                } else {
                    self.goto_phase(Phase::ReadPatched)
                }
            },
            (Phase::Restore, DriverEvent::Restored(Err(msg))) => {
                let m = concat2("Failed to restore from backup: ", msg.as_str());
                self.fail_one("Restore", m.as_str())
            },
            (Phase::Restore, DriverEvent::Restored(Ok(_))) => self.goto_phase(Phase::ReadPatched),
            (Phase::ReadPatched, DriverEvent::TargetRead(Err(msg))) => self.read_failed(&msg),
            (Phase::ReadPatched, DriverEvent::TargetRead(Ok(code))) => self.patch_text(code, anchors),
            (Phase::Write, DriverEvent::WriteDone(outcome)) => self.write_outcome(&outcome),
            _ => self.pending_action(),
        }
    }
}

/// A session that patches the CLI agent at `path`.
pub fn patch_cli_agent(path: &str, dry_run: bool) -> (r: PatchSession)
    ensures
        r@ == initial(crate::plan::cli_plan(), dry_run, path@),
{
    PatchSession::new(PatchPlan::cli(), path, dry_run)
}

/// A session that patches the IDE agent at `path`.
pub fn patch_ide_agent(path: &str, dry_run: bool) -> (r: PatchSession)
    ensures
        r@ == initial(crate::plan::ide_plan(), dry_run, path@),
{
    PatchSession::new(PatchPlan::ide(), path, dry_run)
}

} // verus!
