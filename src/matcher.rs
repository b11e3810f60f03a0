//! Anchor matching: backtracking regular expressions over the whole source
//! text, with a generous backtracking budget.
use vstd::prelude::*;

use crate::discovery::{
    CMD_EXISTS_ANCHOR, HINT_WIRING_ANCHOR, NAIVE_BY_CWD_ANCHOR, NAIVE_BY_SPREAD_ANCHOR, SHELL_TYPE_ANCHOR,
};
use crate::integrity::EHP_HASH_ANCHOR;
use crate::patches::{OPTS_SWITCH_ANCHOR, SHELL_OPTION_ANCHOR};

verus! {

#[verifier::external_type_specification]
#[verifier::external_body]
pub struct ExRegex(fancy_regex::Regex);

#[verifier::external_type_specification]
#[verifier::external_body]
pub struct ExRegexError(fancy_regex::Error);

/// Backtracking steps allowed to one match: minified lines can be long
/// enough to exhaust the engine's default budget on look-around patterns.
pub const BACKTRACK_LIMIT: usize = 10_000_000;

/// Whether the regex engine accepts `pattern`.
pub uninterp spec fn regex_compiles(pattern: Seq<char>) -> bool;

/// The capture groups (group 0 first) of the leftmost match of `pattern`,
/// compiled with the given backtracking budget, in `text`; `None` where
/// there is no match or the engine gave up.
pub uninterp spec fn regex_captures(pattern: Seq<char>, backtrack_limit: nat, text: Seq<char>) -> Option<Seq<Option<Seq<char>>>>;

/// `s` with every regex meta-character escaped.
pub uninterp spec fn regex_escape(s: Seq<char>) -> Seq<char>;

/// Relies on fancy_regex::RegexBuilder::build (with a backtrack limit set):
/// it fails exactly on the patterns that the engine refuses.
#[verifier::external_body]
fn build_regex(pattern: &str, backtrack_limit: usize) -> (r: Result<fancy_regex::Regex, fancy_regex::Error>)
    ensures
        r is Ok <==> regex_compiles(pattern@),
{
    fancy_regex::RegexBuilder::new(pattern).backtrack_limit(backtrack_limit).build()
}

/// Relies on fancy_regex::escape: the text that, as a pattern, matches `s`
/// literally.
#[verifier::external_body]
pub(crate) fn escape_pattern(s: &str) -> (r: String)
    ensures
        r@ == regex_escape(s@),
{
    fancy_regex::escape(s).into_owned()
}

/// A pattern not accepted by the regex engine.
pub struct PatternError {
    pub pattern: String,
}

/// A compiled anchor pattern. Its fields are private and set only by
/// [`re`], so `regex` is always `pattern` compiled with
/// `backtrack_limit`.
pub struct Anchor {
    pattern: String,
    backtrack_limit: usize,
    regex: fancy_regex::Regex,
}

impl Anchor {
    #[verifier::type_invariant]
    spec fn compiled(self) -> bool {
        regex_compiles(self.pattern@) && self.backtrack_limit == BACKTRACK_LIMIT
    }

    /// The pattern this anchor was compiled from.
    pub closed spec fn pattern(&self) -> Seq<char> {
        self.pattern@
    }

    /// Relies on fancy_regex::Regex::captures: the groups of the leftmost
    /// match, each as the text it matched. An engine error (the backtracking
    /// budget ran out) counts as no match.
    #[verifier::external_body]
    pub(crate) fn captures(&self, text: &str) -> (r: Option<Vec<Option<String>>>)
        ensures
            r.deep_view() == regex_captures(self.pattern(), BACKTRACK_LIMIT as nat, text@),
    {
        self.regex.captures(text).ok().flatten().map(
            |c| c.iter().map(|m| m.map(|m| m.as_str().to_string())).collect(),
        )
    }

    /// The capture groups of the leftmost match in `text`.
    pub fn first(&self, text: &str) -> (r: Option<Vec<Option<String>>>)
        ensures
            first_match(self.pattern(), text@) == Ok::<_, ()>(r.deep_view()),
    {
        proof {
            use_type_invariant(self);
        }
        self.captures(text)
    }
}

/// Compiles `pattern` with the elevated backtracking budget.
pub fn re(pattern: &str) -> (r: Result<Anchor, PatternError>)
    ensures
        r is Ok <==> regex_compiles(pattern@),
        r matches Ok(a) ==> a.pattern() == pattern@,
        r matches Err(e) ==> e.pattern@ == pattern@,
{
    match build_regex(pattern, BACKTRACK_LIMIT) {
        Ok(regex) => Ok(Anchor { pattern: pattern.to_owned(), backtrack_limit: BACKTRACK_LIMIT, regex }),
        Err(_) => Err(PatternError { pattern: pattern.to_owned() }),
    }
}

/// The leftmost match of `pattern` in `text`, as its capture groups.
pub open spec fn first_match(pattern: Seq<char>, text: Seq<char>) -> Result<Option<Seq<Option<Seq<char>>>>, ()> {
    if regex_compiles(pattern) {
        Ok(regex_captures(pattern, BACKTRACK_LIMIT as nat, text))
    } else {
        Err(())
    }
}

/// Compiles `pattern` and returns the capture groups of its leftmost match
/// in `text`.
pub fn match_anchor(pattern: &str, text: &str) -> (r: Result<Option<Vec<Option<String>>>, PatternError>)
    ensures
        match r {
            Ok(c) => first_match(pattern@, text@) == Ok::<_, ()>(c.deep_view()),
            Err(e) => first_match(pattern@, text@) is Err && e.pattern@ == pattern@,
        },
{
    let a = re(pattern)?;
    Ok(a.first(text))
}

/// One of the fixed anchors.
#[derive(PartialEq, Eq, Structural, Clone, Copy, Debug)]
pub enum Fixed {
    ShellType,
    NaiveByCwd,
    NaiveBySpread,
    CmdExists,
    HintWiring,
    ShellOption,
    OptsSwitch,
    EhpHash,
}

impl Fixed {
    pub open spec fn pattern(self) -> Seq<char> {
        match self {
            Fixed::ShellType => SHELL_TYPE_ANCHOR@,
            Fixed::NaiveByCwd => NAIVE_BY_CWD_ANCHOR@,
            Fixed::NaiveBySpread => NAIVE_BY_SPREAD_ANCHOR@,
            Fixed::CmdExists => CMD_EXISTS_ANCHOR@,
            Fixed::HintWiring => HINT_WIRING_ANCHOR@,
            Fixed::ShellOption => SHELL_OPTION_ANCHOR@,
            Fixed::OptsSwitch => OPTS_SWITCH_ANCHOR@,
            Fixed::EhpHash => EHP_HASH_ANCHOR@,
        }
    }

    fn text(self) -> (r: &'static str)
        ensures
            r@ == self.pattern(),
    {
        match self {
            Fixed::ShellType => SHELL_TYPE_ANCHOR,
            Fixed::NaiveByCwd => NAIVE_BY_CWD_ANCHOR,
            Fixed::NaiveBySpread => NAIVE_BY_SPREAD_ANCHOR,
            Fixed::CmdExists => CMD_EXISTS_ANCHOR,
            Fixed::HintWiring => HINT_WIRING_ANCHOR,
            Fixed::ShellOption => SHELL_OPTION_ANCHOR,
            Fixed::OptsSwitch => OPTS_SWITCH_ANCHOR,
            Fixed::EhpHash => EHP_HASH_ANCHOR,
        }
    }
}

/// The fixed anchors, each compiled once and reused for every text.
pub struct AnchorSet {
    anchors: Vec<Anchor>,
}

pub open spec fn fixed_at(i: int) -> Fixed {
    if i == 0 {
        Fixed::ShellType
    } else if i == 1 {
        Fixed::NaiveByCwd
    } else if i == 2 {
        Fixed::NaiveBySpread
    } else if i == 3 {
        Fixed::CmdExists
    } else if i == 4 {
        Fixed::HintWiring
    } else if i == 5 {
        Fixed::ShellOption
    } else if i == 6 {
        Fixed::OptsSwitch
    } else {
        Fixed::EhpHash
    }
}

fn index_of(f: Fixed) -> (r: usize)
    ensures
        r < 8,
        fixed_at(r as int) == f,
{
    match f {
        Fixed::ShellType => 0,
        Fixed::NaiveByCwd => 1,
        Fixed::NaiveBySpread => 2,
        Fixed::CmdExists => 3,
        Fixed::HintWiring => 4,
        Fixed::ShellOption => 5,
        Fixed::OptsSwitch => 6,
        Fixed::EhpHash => 7,
    }
}

impl AnchorSet {
    #[verifier::type_invariant]
    spec fn complete(self) -> bool {
        &&& self.anchors.len() == 8
        &&& forall|i: int| 0 <= i < 8 ==> (#[trigger] self.anchors@[i]).pattern() == fixed_at(i).pattern()
    }

    /// Compiles every fixed anchor; fails on the first the engine refuses.
    pub fn new() -> (r: Result<AnchorSet, PatternError>)
        ensures
            r is Ok <==> forall|i: int| 0 <= i < 8 ==> regex_compiles(#[trigger] fixed_at(i).pattern()),
    {
        let mut anchors: Vec<Anchor> = Vec::new();
        let mut i: usize = 0;
        while i < 8
            invariant
                i <= 8,
                anchors.len() == i,
                forall|j: int| 0 <= j < i ==> (#[trigger] anchors@[j]).pattern() == fixed_at(j).pattern(),
                forall|j: int| 0 <= j < i ==> regex_compiles(#[trigger] fixed_at(j).pattern()),
            decreases 8 - i,
        {
            let f = if i == 0 {
                Fixed::ShellType
            } else if i == 1 {
                Fixed::NaiveByCwd
            } else if i == 2 {
                Fixed::NaiveBySpread
            } else if i == 3 {
                Fixed::CmdExists
            } else if i == 4 {
                Fixed::HintWiring
            } else if i == 5 {
                Fixed::ShellOption
            } else if i == 6 {
                Fixed::OptsSwitch
            } else {
                Fixed::EhpHash
            };
            assert(f == fixed_at(i as int));
            let a = re(f.text())?;
            anchors.push(a);
            i += 1;
        }
        Ok(AnchorSet { anchors })
    }

    /// The compiled anchor `f`.
    pub fn get(&self, f: Fixed) -> (r: &Anchor)
        ensures
            r.pattern() == f.pattern(),
    {
        proof {
            use_type_invariant(self);
        }
        let i = index_of(f);
        &self.anchors[i]
    }
}

/// Text of capture group `i`, where it took part in the match.
pub open spec fn group(caps: Seq<Option<Seq<char>>>, i: int) -> Option<Seq<char>> {
    if 0 <= i < caps.len() {
        caps[i]
    } else {
        None
    }
}

/// Text of capture group `i` of an exec match.
pub fn group_of(caps: &Vec<Option<String>>, i: usize) -> (r: Option<String>)
    ensures
        r.deep_view() == group(caps.deep_view(), i as int),
{
    if i < caps.len() {
        match &caps[i] {
            Some(s) => Some(s.clone()),
            None => None,
        }
    } else {
        None
    }
}

} // verus!
