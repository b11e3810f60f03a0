//! The outcome of one patch step.
use vstd::prelude::*;

verus! {

/// Result of a single patch step: `skipped` implies `ok`.
#[derive(Debug)]
pub struct StepResult {
    pub name: String,
    pub ok: bool,
    pub message: String,
    pub skipped: bool,
    pub detail: String,
}

/// What a [`StepResult`] holds, as sequences.
pub struct StepView {
    pub name: Seq<char>,
    pub ok: bool,
    pub message: Seq<char>,
    pub skipped: bool,
    pub detail: Seq<char>,
}

impl View for StepResult {
    type V = StepView;

    open spec fn view(&self) -> StepView {
        StepView {
            name: self.name@,
            ok: self.ok,
            message: self.message@,
            skipped: self.skipped,
            detail: self.detail@,
        }
    }
}

/// A successful step.
pub open spec fn ok_view(name: Seq<char>, message: Seq<char>, detail: Seq<char>) -> StepView {
    StepView { name, ok: true, message, skipped: false, detail }
}

/// A failed step.
pub open spec fn fail_view(name: Seq<char>, message: Seq<char>) -> StepView {
    StepView { name, ok: false, message, skipped: false, detail: Seq::empty() }
}

/// A step that found nothing to do.
pub open spec fn skip_view(name: Seq<char>, message: Seq<char>) -> StepView {
    StepView { name, ok: true, message, skipped: true, detail: Seq::empty() }
}

impl StepResult {
    pub fn ok(name: &str, msg: &str) -> (r: Self)
        ensures
            r@ == ok_view(name@, msg@, Seq::empty()),
    {
        StepResult { name: name.to_owned(), ok: true, message: msg.to_owned(), skipped: false, detail: String::new() }
    }

    pub fn fail(name: &str, msg: &str) -> (r: Self)
        ensures
            r@ == fail_view(name@, msg@),
    {
        StepResult { name: name.to_owned(), ok: false, message: msg.to_owned(), skipped: false, detail: String::new() }
    }

    pub fn skipped(name: &str, msg: &str) -> (r: Self)
        ensures
            r@ == skip_view(name@, msg@),
    {
        StepResult { name: name.to_owned(), ok: true, message: msg.to_owned(), skipped: true, detail: String::new() }
    }

    /// The same result, carrying `detail`.
    pub fn with_detail(self, detail: &str) -> (r: Self)
        ensures
            r@ == (StepView { detail: detail@, ..self@ }),
    {
        let mut s = self;
        s.detail = detail.to_owned();
        s
    }
}

} // verus!
