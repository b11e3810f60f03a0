//! Patch plans: an ordered list of steps, the presence markers that mean
//! "already fully patched", and whether to restore from backup first.
use vstd::prelude::*;

use crate::discovery::{DiscoveredVars, PresenceFlags, VarsView};
use crate::patches::{
    patch_naive_case, patch_nu_detection, patch_shell_path_fallback, patch_system_nu_detection,
    patch_user_terminal_hint, spec_naive_case, spec_nu_detection, spec_shell_path_fallback,
    spec_system_nu_detection, spec_user_terminal_hint, NAIVE_CASE, NU_DETECTION, SHELL_PATH_FALLBACK,
    SYSTEM_NU_DETECTION, USER_TERMINAL_HINT,
};
use crate::matcher::AnchorSet;
use crate::step::{StepResult, StepView};

verus! {

/// One of the five patch steps.
#[derive(PartialEq, Eq, Structural, Clone, Copy, Debug)]
pub enum StepKind {
    NuDetection,
    SystemNuDetection,
    UserTerminalHint,
    NaiveCase,
    ShellPathFallback,
}

/// One of the four presence markers.
#[derive(PartialEq, Eq, Structural, Clone, Copy, Debug)]
pub enum Flag {
    Nu,
    SystemNu,
    NaiveCase,
    UserTerminalHint,
}

impl StepKind {
    pub open spec fn spec_name(self) -> Seq<char> {
        match self {
            StepKind::NuDetection => NU_DETECTION@,
            StepKind::SystemNuDetection => SYSTEM_NU_DETECTION@,
            StepKind::UserTerminalHint => USER_TERMINAL_HINT@,
            StepKind::NaiveCase => NAIVE_CASE@,
            StepKind::ShellPathFallback => SHELL_PATH_FALLBACK@,
        }
    }

    /// The name the step reports under.
    pub fn name(self) -> (r: &'static str)
        ensures
            r@ == self.spec_name(),
    {
        match self {
            StepKind::NuDetection => NU_DETECTION,
            StepKind::SystemNuDetection => SYSTEM_NU_DETECTION,
            StepKind::UserTerminalHint => USER_TERMINAL_HINT,
            StepKind::NaiveCase => NAIVE_CASE,
            StepKind::ShellPathFallback => SHELL_PATH_FALLBACK,
        }
    }
}

pub open spec fn spec_apply_step(k: StepKind, code: Seq<char>, v: VarsView) -> (Option<Seq<char>>, StepView) {
    match k {
        StepKind::NuDetection => spec_nu_detection(code, v),
        StepKind::SystemNuDetection => spec_system_nu_detection(code, v),
        StepKind::UserTerminalHint => spec_user_terminal_hint(code, v),
        StepKind::NaiveCase => spec_naive_case(code, v),
        StepKind::ShellPathFallback => spec_shell_path_fallback(code, v),
    }
}

/// Runs step `k` on `code`.
pub fn apply_step(k: StepKind, code: &str, v: &DiscoveredVars, anchors: &AnchorSet) -> (r: (
    Option<String>,
    StepResult,
))
    ensures
        (r.0.deep_view(), r.1@) == spec_apply_step(k, code@, v@),
{
    match k {
        StepKind::NuDetection => patch_nu_detection(code, v),
        StepKind::SystemNuDetection => patch_system_nu_detection(code, v),
        StepKind::UserTerminalHint => patch_user_terminal_hint(code, v, anchors),
        StepKind::NaiveCase => patch_naive_case(code, v, anchors),
        StepKind::ShellPathFallback => patch_shell_path_fallback(code, v),
    }
}

pub open spec fn flag_set(f: PresenceFlags, fl: Flag) -> bool {
    match fl {
        Flag::Nu => f.has_nu,
        Flag::SystemNu => f.has_system_nu,
        Flag::NaiveCase => f.has_naive_case,
        Flag::UserTerminalHint => f.has_uth,
    }
}

/// A patch plan.
pub struct PatchPlan {
    pub label: String,
    /// The steps, in the order they run.
    pub steps: Vec<StepKind>,
    /// The text is fully patched when all of these markers are present.
    pub required: Vec<Flag>,
    /// Restore the target from its backup before patching.
    pub restore_before_patch: bool,
}

pub struct PlanView {
    pub label: Seq<char>,
    pub steps: Seq<StepKind>,
    pub required: Seq<Flag>,
    pub restore_before_patch: bool,
}

impl View for PatchPlan {
    type V = PlanView;

    open spec fn view(&self) -> PlanView {
        PlanView {
            label: self.label@,
            steps: self.steps@,
            required: self.required@,
            restore_before_patch: self.restore_before_patch,
        }
    }
}

pub open spec fn cli_plan() -> PlanView {
    PlanView {
        label: "CLI"@,
        steps: seq![StepKind::NuDetection, StepKind::SystemNuDetection, StepKind::NaiveCase],
        required: seq![Flag::Nu, Flag::SystemNu, Flag::NaiveCase],
        restore_before_patch: false,
    }
}

pub open spec fn ide_plan() -> PlanView {
    PlanView {
        label: "IDE"@,
        steps: seq![
            StepKind::NuDetection,
            StepKind::SystemNuDetection,
            StepKind::UserTerminalHint,
            StepKind::ShellPathFallback,
        ],
        required: seq![Flag::Nu, Flag::SystemNu, Flag::UserTerminalHint],
        restore_before_patch: true,
    }
}

/// Whether every marker that `required` names is set in `f`.
pub open spec fn fully_patched(required: Seq<Flag>, f: PresenceFlags) -> bool {
    forall|i: int| 0 <= i < required.len() ==> flag_set(f, #[trigger] required[i])
}

impl PatchPlan {
    /// The CLI agent's plan: nu detection, system nu detection, and the
    /// executor factory's Naive case; no restore.
    pub fn cli() -> (r: PatchPlan)
        ensures
            r@ == cli_plan(),
    {
        let r = PatchPlan {
            label: "CLI".to_owned(),
            steps: vec![StepKind::NuDetection, StepKind::SystemNuDetection, StepKind::NaiveCase],
            required: vec![Flag::Nu, Flag::SystemNu, Flag::NaiveCase],
            restore_before_patch: false,
        };
        assert(r.steps@ =~= cli_plan().steps);
        assert(r.required@ =~= cli_plan().required);
        r
    }

    /// The IDE agent's plan: nu detection, system nu detection, the
    /// userTerminalHint wiring and the shell-path fallback; restores first.
    pub fn ide() -> (r: PatchPlan)
        ensures
            r@ == ide_plan(),
    {
        let r = PatchPlan {
            label: "IDE".to_owned(),
            steps: vec![
                StepKind::NuDetection,
                StepKind::SystemNuDetection,
                StepKind::UserTerminalHint,
                StepKind::ShellPathFallback,
            ],
            required: vec![Flag::Nu, Flag::SystemNu, Flag::UserTerminalHint],
            restore_before_patch: true,
        };
        assert(r.steps@ =~= ide_plan().steps);
        assert(r.required@ =~= ide_plan().required);
        r
    }

    /// Whether `f` shows every marker this plan requires.
    pub fn is_fully_patched(&self, f: &PresenceFlags) -> (r: bool)
        ensures
            r == fully_patched(self.required@, *f),
    {
        let mut i: usize = 0;
        while i < self.required.len()
            invariant
                i <= self.required.len(),
                forall|j: int| 0 <= j < i ==> flag_set(*f, #[trigger] self.required@[j]),
            decreases self.required.len() - i,
        {
            let set = match self.required[i] {
                Flag::Nu => f.has_nu,
                Flag::SystemNu => f.has_system_nu,
                Flag::NaiveCase => f.has_naive_case,
                Flag::UserTerminalHint => f.has_uth,
            };
            if !set {
                return false;
            }
            i += 1;
        }
        true
    }
}

/// Runs `steps` in order over `code`, stopping at the first failure:
/// the reports of the steps attempted, the final text, and whether all
/// succeeded.
pub open spec fn spec_run_steps(steps: Seq<StepKind>, code: Seq<char>, v: VarsView) -> (Seq<StepView>, Seq<char>, bool)
    decreases steps.len(),
{
    if steps.len() == 0 {
        (Seq::empty(), code, true)
    } else {
        let (t, r) = spec_apply_step(steps[0], code, v);
        if !r.ok {
            (seq![r], code, false)
        } else {
            let next = match t {
                Some(t) => t,
                None => code,
            };
            let (rest, fin, ok) = spec_run_steps(steps.drop_first(), next, v);
            (seq![r] + rest, fin, ok)
        }
    }
}

pub open spec fn views(steps: Seq<StepResult>) -> Seq<StepView> {
    steps.map_values(|s: StepResult| s@)
}

/// Runs the plan's steps over `code`; appends their reports to `out`.
pub fn run_steps(
    steps: &Vec<StepKind>,
    code: String,
    v: &DiscoveredVars,
    anchors: &AnchorSet,
    out: &mut Vec<StepResult>,
) -> (r: (
    String,
    bool,
))
    ensures
        ({
            let (reports, fin, ok) = spec_run_steps(steps@, code@, v@);
            views(final(out)@) == views(old(out)@) + reports && r.0@ == fin && r.1 == ok
        }),
{
    let mut cur = code;
    let mut i: usize = 0;
    assert(steps@.skip(0) =~= steps@);
    assert(views(out@).skip(old(out)@.len() as int) =~= Seq::<StepView>::empty());
    assert(views(out@).take(old(out)@.len() as int) =~= views(old(out)@));
    assert(Seq::<StepView>::empty() + spec_run_steps(steps@, code@, v@).0 =~= spec_run_steps(steps@, code@, v@).0);
    while i < steps.len()
        invariant
            i <= steps.len(),
            ({
                let (reports, fin, ok) = spec_run_steps(steps@, code@, v@);
                let (rest, rfin, rok) = spec_run_steps(steps@.skip(i as int), cur@, v@);
                reports == views(out@).skip(old(out)@.len() as int) + rest && fin == rfin && ok == rok
                    && out@.len() >= old(out)@.len() && views(out@).take(old(out)@.len() as int)
                    == views(old(out)@)
            }),
        decreases steps.len() - i,
    {
        assert(steps@.skip(i as int).drop_first() =~= steps@.skip(i + 1));
        let (t, step) = apply_step(steps[i], cur.as_str(), v, anchors);
        let ok = step.ok;
        let ghost before = out@;
        out.push(step);
        assert(views(out@).skip(old(out)@.len() as int) =~= views(before).skip(old(out)@.len() as int)
            + seq![step@]);
        assert(views(out@).take(old(out)@.len() as int) =~= views(before).take(old(out)@.len() as int));
        if !ok {
            proof {
                assert(views(out@) =~= views(old(out)@) + views(out@).skip(old(out)@.len() as int));
            }
            return (cur, false);
        }
        match t {
            Some(n) => {
                cur = n;
            },
            None => {},
        }
        i += 1;
    }
    assert(views(out@) =~= views(old(out)@) + views(out@).skip(old(out)@.len() as int));
    (cur, true)
}

/// Result of a patch run: the reports of the steps attempted, in order.
#[derive(Debug)]
pub struct PatchResult {
    pub success: bool,
    pub steps: Vec<StepResult>,
}

} // verus!
