//! Read-only status of the patch targets, and the result of reverting them.
use vstd::prelude::*;

use crate::discovery::{quick_detect, spec_quick_detect, PresenceFlags};
use crate::matcher::AnchorSet;
use crate::paths::{display_name, spec_display_name, CursorPaths};
use crate::patches::{NAIVE_CASE, NU_DETECTION, SYSTEM_NU_DETECTION, USER_TERMINAL_HINT};
use crate::plan::{flag_set, Flag, PatchPlan};

verus! {

/// Status of one component (CLI or IDE agent).
#[derive(Default)]
pub struct ComponentStatus {
    pub path: Option<String>,
    pub exists: bool,
    pub backup_exists: bool,
    /// Each behaviour the component's plan requires, by the name of the
    /// step that installs it, and whether it is present.
    pub patches: Vec<(String, bool)>,
}

/// Status of the integrity checks; each is absent where it could not run.
#[derive(Default)]
pub struct IntegrityStatus {
    pub ehp_hash_matches: Option<bool>,
    pub product_checksums_match: Option<bool>,
}

/// Overall status.
#[derive(Default)]
pub struct PatchStatus {
    pub cli: ComponentStatus,
    pub ide: ComponentStatus,
    pub integrity: IntegrityStatus,
}

/// The name of the step that installs the behaviour `fl` marks.
pub open spec fn flag_name(fl: Flag) -> Seq<char> {
    match fl {
        Flag::Nu => NU_DETECTION@,
        Flag::SystemNu => SYSTEM_NU_DETECTION@,
        Flag::NaiveCase => NAIVE_CASE@,
        Flag::UserTerminalHint => USER_TERMINAL_HINT@,
    }
}

pub open spec fn patches_view(p: Seq<(String, bool)>) -> Seq<(Seq<char>, bool)> {
    p.map_values(|e: (String, bool)| (e.0@, e.1))
}

/// The required behaviours of a plan, each with its presence in `f`.
pub open spec fn spec_patches(required: Seq<Flag>, f: PresenceFlags) -> Seq<(Seq<char>, bool)> {
    required.map_values(|fl: Flag| (flag_name(fl), flag_set(f, fl)))
}

/// Status of a component found at `path`. `code` is its text where it
/// could be read; presence is reported only where the shell-type anchor
/// is found in it.
pub fn component_status(
    plan: &PatchPlan,
    path: &str,
    backup_exists: bool,
    code: Option<&str>,
    anchors: &AnchorSet,
) -> (r: ComponentStatus)
    ensures
        r.exists,
        r.path.deep_view() == Some(spec_display_name(path@)),
        r.backup_exists == backup_exists,
        patches_view(r.patches@) == match code {
            Some(c) => match spec_quick_detect(c@) {
                Some(f) => spec_patches(plan.required@, f),
                None => Seq::empty(),
            },
            None => Seq::<(Seq<char>, bool)>::empty(),
        },
{
    let mut patches: Vec<(String, bool)> = Vec::new();
    let det = match code {
        Some(c) => quick_detect(c, anchors),
        None => None,
    };
    if let Some(f) = det {
        let mut i: usize = 0;
        while i < plan.required.len()
            invariant
                i <= plan.required.len(),
                patches_view(patches@) =~= spec_patches(plan.required@.take(i as int), f),
            decreases plan.required.len() - i,
        {
            let fl = plan.required[i];
            let (name, set) = match fl {
                Flag::Nu => (NU_DETECTION, f.has_nu),
                Flag::SystemNu => (SYSTEM_NU_DETECTION, f.has_system_nu),
                Flag::NaiveCase => (NAIVE_CASE, f.has_naive_case),
                Flag::UserTerminalHint => (USER_TERMINAL_HINT, f.has_uth),
            };
            let ghost before = patches@;
            patches.push((name.to_owned(), set));
            assert(patches_view(patches@) =~= patches_view(before).push((flag_name(fl), flag_set(f, fl))));
            assert(plan.required@.take(i + 1) =~= plan.required@.take(i as int).push(fl));
            i += 1;
        }
        assert(plan.required@.take(i as int) =~= plan.required@);
    } else {
        assert(patches_view(patches@) =~= Seq::<(Seq<char>, bool)>::empty());
    }
    ComponentStatus { path: Some(display_name(path)), exists: true, backup_exists, patches }
}

/// Whether every behaviour is present: at least one listed, all set.
pub open spec fn spec_all_patched(p: Seq<(Seq<char>, bool)>) -> bool {
    p.len() > 0 && forall|i: int| 0 <= i < p.len() ==> #[trigger] p[i].1
}

/// Whether the component exists and carries every behaviour of its plan.
pub fn fully_applied(c: &ComponentStatus) -> (r: bool)
    ensures
        r == (c.exists && spec_all_patched(patches_view(c.patches@))),
{
    if !c.exists || c.patches.len() == 0 {
        return false;
    }
    let mut i: usize = 0;
    while i < c.patches.len()
        invariant
            i <= c.patches.len(),
            forall|j: int| 0 <= j < i ==> #[trigger] patches_view(c.patches@)[j].1,
        decreases c.patches.len() - i,
    {
        if !c.patches[i].1 {
            assert(!patches_view(c.patches@)[i as int].1);
            return false;
        }
        i += 1;
    }
    true
}

/// Result of reverting one file.
pub struct RevertFileResult {
    pub filename: String,
    pub restored: bool,
}

/// Result of the revert operation.
pub struct RevertResult {
    pub files: Vec<RevertFileResult>,
}

/// The files a revert restores, in order: the CLI agent, the IDE agent,
/// the extension host script and the product manifest, where known.
pub open spec fn spec_revert_targets(p: CursorPaths) -> Seq<Seq<char>> {
    let opt = |o: Option<String>|
        match o {
            Some(s) => seq![s@],
            None => Seq::<Seq<char>>::empty(),
        };
    opt(p.cli_index) + opt(p.ide_main) + opt(p.ehp) + opt(p.product_json)
}

fn push_target(v: &mut Vec<String>, o: &Option<String>)
    ensures
        final(v)@.map_values(|s: String| s@) == old(v)@.map_values(|s: String| s@) + match o {
            Some(s) => seq![s@],
            None => Seq::<Seq<char>>::empty(),
        },
{
    let ghost before = v@;
    if let Some(s) = o {
        v.push(s.clone());
    }
    assert(v@.map_values(|s: String| s@) =~= before.map_values(|s: String| s@) + match o {
        Some(s) => seq![s@],
        None => Seq::<Seq<char>>::empty(),
    });
}

/// The paths of the files a revert restores, in order.
pub fn revert_targets(paths: &CursorPaths) -> (r: Vec<String>)
    ensures
        r@.map_values(|s: String| s@) == spec_revert_targets(*paths),
{
    let mut v: Vec<String> = Vec::new();
    assert(v@.map_values(|s: String| s@) =~= Seq::<Seq<char>>::empty());
    push_target(&mut v, &paths.cli_index);
    push_target(&mut v, &paths.ide_main);
    push_target(&mut v, &paths.ehp);
    push_target(&mut v, &paths.product_json);
    assert(v@.map_values(|s: String| s@) =~= spec_revert_targets(*paths));
    v
}

/// The result of reverting `targets`, given the outcome of restoring each
/// from its backup (`Ok(true)`: restored; `Ok(false)`: no backup). A
/// restore that failed counts as not restored.
pub fn revert_all(targets: &Vec<String>, outcomes: &Vec<Result<bool, String>>) -> (r: RevertResult)
    requires
        targets.len() == outcomes.len(),
    ensures
        r.files.len() == targets.len(),
        forall|i: int|
            0 <= i < targets.len() ==> (#[trigger] r.files@[i]).filename@ == spec_display_name(targets@[i]@)
                && r.files@[i].restored == (outcomes@[i] == Ok::<bool, String>(true)),
{
    let mut files: Vec<RevertFileResult> = Vec::new();
    let mut i: usize = 0;
    while i < targets.len()
        invariant
            i <= targets.len(),
            targets.len() == outcomes.len(),
            files.len() == i,
            forall|j: int|
                0 <= j < i ==> (#[trigger] files@[j]).filename@ == spec_display_name(targets@[j]@)
                    && files@[j].restored == (outcomes@[j] == Ok::<bool, String>(true)),
        decreases targets.len() - i,
    {
        let restored = match &outcomes[i] {
            Ok(b) => *b,
            Err(_) => false,
        };
        files.push(RevertFileResult { filename: display_name(targets[i].as_str()), restored });
        i += 1;
    }
    RevertResult { files }
}

} // verus!
