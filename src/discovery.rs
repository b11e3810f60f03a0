//! Discovery of the minified identifiers that the patches refer to, and of
//! the markers that tell which patches a text already carries.
use vstd::prelude::*;

use crate::matcher::{escape_pattern, first_match, group, group_of, match_anchor, regex_escape, AnchorSet, Fixed};
use crate::text::{chars_of, concat2, concat3, contains, contains_chars};

verus! {

/// `<hint>.includes("zsh")?<enum>.Zsh`: the shell-type ternary.
pub const SHELL_TYPE_ANCHOR: &'static str = r#"(\w+)\.includes\("zsh"\)\?(\w+)\.Zsh"#;

/// `new <X>(process.cwd(), {shell:`: a naive executor built for the cwd.
pub const NAIVE_BY_CWD_ANCHOR: &'static str = r"new\s+(\w+)\(process\.cwd\(\)\s*,\s*\{shell:";

/// `new <X>(n, {...e, shell:`: a naive executor built from spread options.
pub const NAIVE_BY_SPREAD_ANCHOR: &'static str = r"new\s+(\w+)\(\w+,\s*\{\.\.\.\w+\s*,\s*shell\s*:";

/// The "command exists on PATH" helper; group 1 is its name, group 2 the
/// `(0,<mod>.findActualExecutable)` expression it calls.
pub const CMD_EXISTS_ANCHOR: &'static str = r"function\s+(\w+)\(\w+\)\{try\{return(\(0,\w+\.\w+\))\(\w+,\[\]\)\.cmd!==\w+\}";

/// `.shell??<opts>?.userTerminalHint??`: the hint wiring once installed.
pub const HINT_WIRING_ANCHOR: &'static str = r"\.shell\?\?\w+\?\.userTerminalHint\?\?";

/// Why discovery failed.
#[derive(PartialEq, Eq, Structural, Clone, Copy, Debug)]
pub enum DiscoveryError {
    /// The shell-type ternary that every other name depends on is absent.
    ShellAnchorMissing,
    /// An anchor pattern was refused by the regex engine.
    InvalidPattern,
}

impl DiscoveryError {
    pub open spec fn spec_message(self) -> Seq<char> {
        match self {
            DiscoveryError::ShellAnchorMissing => "Cannot find includes(\"zsh\")?<enum>.Zsh pattern"@,
            DiscoveryError::InvalidPattern => "Invalid anchor pattern"@,
        }
    }

    /// A human-readable account of the failure.
    pub fn message(&self) -> (r: String)
        ensures
            r@ == self.spec_message(),
    {
        match self {
            DiscoveryError::ShellAnchorMissing => "Cannot find includes(\"zsh\")?<enum>.Zsh pattern".to_owned(),
            DiscoveryError::InvalidPattern => "Invalid anchor pattern".to_owned(),
        }
    }
}

/// Identifiers and presence markers recovered from one source text.
pub struct DiscoveredVars {
    pub hint_var: String,
    pub enum_var: String,
    pub lazy_exec: Option<String>,
    pub naive_exec: Option<String>,
    /// Name of the "command exists on PATH" helper.
    pub cmd_exists_fn: Option<String>,
    /// The `(0,<mod>.findActualExecutable)` expression, verbatim.
    pub find_exec_call: Option<String>,
    pub has_naive_case: bool,
    pub has_nu_detection: bool,
    pub has_system_nu: bool,
    pub has_user_terminal_hint: bool,
}

/// What [`DiscoveredVars`] holds, as sequences.
pub struct VarsView {
    pub hint_var: Seq<char>,
    pub enum_var: Seq<char>,
    pub lazy_exec: Option<Seq<char>>,
    pub naive_exec: Option<Seq<char>>,
    pub cmd_exists_fn: Option<Seq<char>>,
    pub find_exec_call: Option<Seq<char>>,
    pub has_naive_case: bool,
    pub has_nu_detection: bool,
    pub has_system_nu: bool,
    pub has_user_terminal_hint: bool,
}

impl View for DiscoveredVars {
    type V = VarsView;

    open spec fn view(&self) -> VarsView {
        VarsView {
            hint_var: self.hint_var@,
            enum_var: self.enum_var@,
            lazy_exec: self.lazy_exec.deep_view(),
            naive_exec: self.naive_exec.deep_view(),
            cmd_exists_fn: self.cmd_exists_fn.deep_view(),
            find_exec_call: self.find_exec_call.deep_view(),
            has_naive_case: self.has_naive_case,
            has_nu_detection: self.has_nu_detection,
            has_system_nu: self.has_system_nu,
            has_user_terminal_hint: self.has_user_terminal_hint,
        }
    }
}

/// The four presence markers, one per behaviour the patches install.
#[derive(PartialEq, Eq, Structural, Clone, Copy, Debug)]
pub struct PresenceFlags {
    pub has_nu: bool,
    pub has_system_nu: bool,
    pub has_naive_case: bool,
    pub has_uth: bool,
}

/// Text of a capture group, empty where the group took no part.
pub open spec fn group_or_empty(caps: Seq<Option<Seq<char>>>, i: int) -> Seq<char> {
    match group(caps, i) {
        Some(g) => g,
        None => Seq::empty(),
    }
}

/// `case <enum>.Naive:`
pub open spec fn naive_case_label(enum_var: Seq<char>) -> Seq<char> {
    "case "@ + enum_var + ".Naive:"@
}

/// `.includes("nu")?<enum>.Naive`
pub open spec fn nu_marker(enum_var: Seq<char>) -> Seq<char> {
    ".includes(\"nu\")?"@ + enum_var + ".Naive"@
}

/// `<cmdExists>("nu")`
pub open spec fn system_nu_marker(cmd_exists: Seq<char>) -> Seq<char> {
    cmd_exists + "(\"nu\")"@
}

pub open spec fn lazy_exec_pattern(enum_var: Seq<char>) -> Seq<char> {
    "case\\s*"@ + regex_escape(enum_var) + "\\.Zsh\\s*:.*?new\\s+(\\w+)\\("@
}

pub open spec fn naive_case_pattern(enum_var: Seq<char>) -> Seq<char> {
    "case\\s*"@ + regex_escape(enum_var) + "\\.Naive\\s*:.*?new\\s+\\w+\\(.*?new\\s+(\\w+)\\("@
}

/// Hint and enum identifiers of the shell-type ternary.
pub open spec fn spec_shell_names(text: Seq<char>) -> Result<Option<(Seq<char>, Seq<char>)>, DiscoveryError> {
    match first_match(SHELL_TYPE_ANCHOR@, text) {
        Err(_) => Err(DiscoveryError::InvalidPattern),
        Ok(None) => Ok(None),
        Ok(Some(c)) => Ok(Some((group_or_empty(c, 1), group_or_empty(c, 2)))),
    }
}

/// The executor class built in the `Zsh` branch.
pub open spec fn spec_lazy_exec(text: Seq<char>, enum_var: Seq<char>) -> Result<Option<Seq<char>>, DiscoveryError> {
    match first_match(lazy_exec_pattern(enum_var), text) {
        Err(_) => Err(DiscoveryError::InvalidPattern),
        Ok(None) => Ok(None),
        Ok(Some(c)) => Ok(group(c, 1)),
    }
}

/// One shape of the naive executor: the class named by group 1 of the
/// leftmost match of `pattern`.
pub open spec fn spec_naive_shape(text: Seq<char>, pattern: Seq<char>) -> Result<Option<Seq<char>>, DiscoveryError> {
    match first_match(pattern, text) {
        Err(_) => Err(DiscoveryError::InvalidPattern),
        Ok(None) => Ok(None),
        Ok(Some(c)) => Ok(Some(group_or_empty(c, 1))),
    }
}

/// The naive executor class: the first of three shapes that matches.
pub open spec fn spec_naive_exec(text: Seq<char>, enum_var: Seq<char>) -> Result<Option<Seq<char>>, DiscoveryError> {
    let by_case = if contains(text, naive_case_label(enum_var)) {
        spec_naive_shape(text, naive_case_pattern(enum_var))
    } else {
        Ok(None)
    };
    match by_case {
        Ok(None) => match spec_naive_shape(text, NAIVE_BY_CWD_ANCHOR@) {
            Ok(None) => spec_naive_shape(text, NAIVE_BY_SPREAD_ANCHOR@),
            other => other,
        },
        other => other,
    }
}

/// The "command exists" helper's name and the resolution call it makes.
pub open spec fn spec_cmd_exists(text: Seq<char>) -> Result<(Option<Seq<char>>, Option<Seq<char>>), DiscoveryError> {
    match first_match(CMD_EXISTS_ANCHOR@, text) {
        Err(_) => Err(DiscoveryError::InvalidPattern),
        Ok(None) => Ok((None, None)),
        Ok(Some(c)) => Ok((group(c, 1), group(c, 2))),
    }
}

/// Whether the hint wiring is present.
pub open spec fn spec_hint_wiring(text: Seq<char>) -> Result<bool, DiscoveryError> {
    match first_match(HINT_WIRING_ANCHOR@, text) {
        Err(_) => Err(DiscoveryError::InvalidPattern),
        Ok(c) => Ok(c is Some),
    }
}

/// Whether the system-level nu check is present, given the helper's name.
pub open spec fn has_system_nu_for(text: Seq<char>, cmd_exists: Option<Seq<char>>) -> bool {
    match cmd_exists {
        Some(f) => contains(text, system_nu_marker(f)),
        None => false,
    }
}

/// Full discovery over `text`.
pub open spec fn spec_discover(text: Seq<char>) -> Result<VarsView, DiscoveryError> {
    match spec_shell_names(text) {
        Err(e) => Err(e),
        Ok(None) => Err(DiscoveryError::ShellAnchorMissing),
        Ok(Some((hint, en))) => match spec_lazy_exec(text, en) {
            Err(e) => Err(e),
            Ok(lazy) => match spec_naive_exec(text, en) {
                Err(e) => Err(e),
                Ok(naive) => match spec_cmd_exists(text) {
                    Err(e) => Err(e),
                    Ok((f, call)) => match spec_hint_wiring(text) {
                        Err(e) => Err(e),
                        Ok(uth) => Ok(
                            VarsView {
                                hint_var: hint,
                                enum_var: en,
                                lazy_exec: lazy,
                                naive_exec: naive,
                                cmd_exists_fn: f,
                                find_exec_call: call,
                                has_naive_case: contains(text, naive_case_label(en)),
                                has_nu_detection: contains(text, nu_marker(en)),
                                has_system_nu: has_system_nu_for(text, f),
                                has_user_terminal_hint: uth,
                            },
                        ),
                    },
                },
            },
        },
    }
}

/// Presence markers alone; `None` where the shell-type ternary is absent or
/// an anchor cannot be compiled.
pub open spec fn spec_quick_detect(text: Seq<char>) -> Option<PresenceFlags> {
    match (spec_shell_names(text), spec_hint_wiring(text), spec_cmd_exists(text)) {
        (Ok(Some((_, en))), Ok(uth), Ok((f, _))) => Some(
            PresenceFlags {
                has_nu: contains(text, nu_marker(en)),
                has_system_nu: has_system_nu_for(text, f),
                has_naive_case: contains(text, naive_case_label(en)),
                has_uth: uth,
            },
        ),
        _ => None,
    }
}

/// Text of capture group `i`, empty where it took no part.
fn group_text(caps: &Vec<Option<String>>, i: usize) -> (r: String)
    ensures
        r@ == group_or_empty(caps.deep_view(), i as int),
{
    match group_of(caps, i) {
        Some(g) => g,
        None => String::new(),
    }
}

fn shell_names(text: &str, anchors: &AnchorSet) -> (r: Result<Option<(String, String)>, DiscoveryError>)
    ensures
        spec_shell_names(text@) == match r {
            Ok(Some((h, e))) => Ok(Some((h@, e@))),
            Ok(None) => Ok(None),
            Err(e) => Err::<Option<(Seq<char>, Seq<char>)>, _>(e),
        },
{
    match anchors.get(Fixed::ShellType).first(text) {
        None => Ok(None),
        Some(c) => Ok(Some((group_text(&c, 1), group_text(&c, 2)))),
    }
}

fn lazy_exec_of(text: &str, enum_var: &str) -> (r: Result<Option<String>, DiscoveryError>)
    ensures
        spec_lazy_exec(text@, enum_var@) == match r {
            Ok(o) => Ok(o.deep_view()),
            Err(e) => Err::<Option<Seq<char>>, _>(e),
        },
{
    let esc = escape_pattern(enum_var);
    let pattern = concat3("case\\s*", esc.as_str(), "\\.Zsh\\s*:.*?new\\s+(\\w+)\\(");
    match match_anchor(pattern.as_str(), text) {
        Err(_) => Err(DiscoveryError::InvalidPattern),
        Ok(None) => Ok(None),
        Ok(Some(c)) => Ok(group_of(&c, 1)),
    }
}

fn naive_shape(text: &str, pattern: &str) -> (r: Result<Option<String>, DiscoveryError>)
    ensures
        spec_naive_shape(text@, pattern@) == match r {
            Ok(o) => Ok(o.deep_view()),
            Err(e) => Err::<Option<Seq<char>>, _>(e),
        },
{
    match match_anchor(pattern, text) {
        Err(_) => Err(DiscoveryError::InvalidPattern),
        Ok(None) => Ok(None),
        Ok(Some(c)) => Ok(Some(group_text(&c, 1))),
    }
}

/// The naive executor by a fixed shape.
fn naive_fixed_shape(text: &str, anchors: &AnchorSet, f: Fixed) -> (r: Option<String>)
    ensures
        spec_naive_shape(text@, f.pattern()) == Ok::<_, DiscoveryError>(r.deep_view()),
{
    match anchors.get(f).first(text) {
        None => None,
        Some(c) => Some(group_text(&c, 1)),
    }
}

fn naive_exec_of(text: &str, text_chars: &Vec<char>, enum_var: &str, anchors: &AnchorSet) -> (r: Result<
    Option<String>,
    DiscoveryError,
>)
    requires
        text_chars@ == text@,
    ensures
        spec_naive_exec(text@, enum_var@) == match r {
            Ok(o) => Ok(o.deep_view()),
            Err(e) => Err::<Option<Seq<char>>, _>(e),
        },
{
    let label = concat3("case ", enum_var, ".Naive:");
    let label_chars = chars_of(label.as_str());
    let by_case = if contains_chars(text_chars.as_slice(), label_chars.as_slice()) {
        let esc = escape_pattern(enum_var);
        let pattern = concat3("case\\s*", esc.as_str(), "\\.Naive\\s*:.*?new\\s+\\w+\\(.*?new\\s+(\\w+)\\(");
        naive_shape(text, pattern.as_str())
    } else {
        Ok(None)
    };
    match by_case {
        Ok(None) => match naive_fixed_shape(text, anchors, Fixed::NaiveByCwd) {
            None => Ok(naive_fixed_shape(text, anchors, Fixed::NaiveBySpread)),
            other => Ok(other),
        },
        other => other,
    }
}

fn cmd_exists_of(text: &str, anchors: &AnchorSet) -> (r: Result<(Option<String>, Option<String>), DiscoveryError>)
    ensures
        spec_cmd_exists(text@) == match r {
            Ok((f, call)) => Ok((f.deep_view(), call.deep_view())),
            Err(e) => Err::<(Option<Seq<char>>, Option<Seq<char>>), _>(e),
        },
{
    match anchors.get(Fixed::CmdExists).first(text) {
        None => Ok((None, None)),
        Some(c) => Ok((group_of(&c, 1), group_of(&c, 2))),
    }
}

fn hint_wiring_of(text: &str, anchors: &AnchorSet) -> (r: Result<bool, DiscoveryError>)
    ensures
        spec_hint_wiring(text@) == r,
{
    Ok(anchors.get(Fixed::HintWiring).first(text).is_some())
}

fn system_nu_of(text_chars: &Vec<char>, cmd_exists: &Option<String>) -> (r: bool)
    ensures
        r == has_system_nu_for(text_chars@, cmd_exists.deep_view()),
{
    match cmd_exists {
        Some(f) => {
            let marker = concat2(f.as_str(), "(\"nu\")");
            contains_chars(text_chars.as_slice(), chars_of(marker.as_str()).as_slice())
        },
        None => false,
    }
}

fn contains_str(text_chars: &Vec<char>, needle: &String) -> (r: bool)
    ensures
        r == contains(text_chars@, needle@),
{
    contains_chars(text_chars.as_slice(), chars_of(needle.as_str()).as_slice())
}

/// Recovers the identifiers and presence markers of `text`.
pub fn discover_vars(text: &str, anchors: &AnchorSet) -> (r: Result<DiscoveredVars, DiscoveryError>)
    ensures
        match r {
            Ok(v) => spec_discover(text@) == Ok::<_, DiscoveryError>(v@),
            Err(e) => spec_discover(text@) == Err::<VarsView, _>(e),
        },
{
    let tc = chars_of(text);
    let (hint_var, enum_var) = match shell_names(text, anchors)? {
        Some(names) => names,
        None => {
            return Err(DiscoveryError::ShellAnchorMissing);
        },
    };
    let lazy_exec = lazy_exec_of(text, enum_var.as_str())?;
    let naive_exec = naive_exec_of(text, &tc, enum_var.as_str(), anchors)?;
    let (cmd_exists_fn, find_exec_call) = cmd_exists_of(text, anchors)?;
    let uth = hint_wiring_of(text, anchors)?;
    let has_naive_case = contains_str(&tc, &concat3("case ", enum_var.as_str(), ".Naive:"));
    let has_nu_detection = contains_str(&tc, &concat3(".includes(\"nu\")?", enum_var.as_str(), ".Naive"));
    let has_system_nu = system_nu_of(&tc, &cmd_exists_fn);
    Ok(
        DiscoveredVars {
            hint_var,
            enum_var,
            lazy_exec,
            naive_exec,
            cmd_exists_fn,
            find_exec_call,
            has_naive_case,
            has_nu_detection,
            has_system_nu,
            has_user_terminal_hint: uth,
        },
    )
}

/// Recovers the presence markers alone, without the optional identifiers.
pub fn quick_detect(text: &str, anchors: &AnchorSet) -> (r: Option<PresenceFlags>)
    ensures
        r == spec_quick_detect(text@),
{
    let tc = chars_of(text);
    let names = shell_names(text, anchors);
    let uth = hint_wiring_of(text, anchors);
    let cmd = cmd_exists_of(text, anchors);
    match (names, uth, cmd) {
        (Ok(Some((_, enum_var))), Ok(has_uth), Ok((f, _))) => Some(
            PresenceFlags {
                has_nu: contains_str(&tc, &concat3(".includes(\"nu\")?", enum_var.as_str(), ".Naive")),
                has_system_nu: system_nu_of(&tc, &f),
                has_naive_case: contains_str(&tc, &concat3("case ", enum_var.as_str(), ".Naive:")),
                has_uth,
            },
        ),
        _ => None,
    }
}

} // verus!
