//! The last OCR problem and its suggested fix, shown in the settings.
use vstd::prelude::*;

verus! {

/// An OCR problem and how to fix it; both empty when there is none.
#[derive(Debug, PartialEq, Eq)]
pub struct OcrHealth {
    pub message: Option<String>,
    pub fix: Option<String>,
}

/// The view of an optional string.
pub open spec fn opt_string_view(o: Option<String>) -> Option<Seq<char>> {
    match o {
        Some(s) => Some(s@),
        None => None,
    }
}

/// The view of a health report: message and fix.
pub open spec fn health_view(h: OcrHealth) -> (Option<Seq<char>>, Option<Seq<char>>) {
    (opt_string_view(h.message), opt_string_view(h.fix))
}

impl Default for OcrHealth {
    fn default() -> (r: Self)
        ensures
            r.message is None && r.fix is None,
    {
        OcrHealth { message: None, fix: None }
    }
}

fn clone_opt(o: &Option<String>) -> (r: Option<String>)
    ensures
        opt_string_view(r) == opt_string_view(*o),
{
    match o {
        Some(s) => Some(s.clone()),
        None => None,
    }
}

/// The OCR health the settings window reads.
#[derive(Debug)]
pub struct OcrHealthState {
    health: OcrHealth,
}

impl OcrHealthState {
    /// The current report, as a snapshot would show it.
    pub closed spec fn current(&self) -> (Option<Seq<char>>, Option<Seq<char>>) {
        health_view(self.health)
    }

    /// No problem reported.
    pub fn new() -> (r: Self)
        ensures
            r.current() == (None::<Seq<char>>, None::<Seq<char>>),
    {
        OcrHealthState { health: OcrHealth::default() }
    }

    /// Report a problem and its fix.
    pub fn set_error(&mut self, message: String, fix: String)
        ensures
            final(self).current() == (Some(message@), Some(fix@)),
    {
        self.health.message = Some(message);
        self.health.fix = Some(fix);
    }

    /// Forget the reported problem.
    pub fn clear(&mut self)
        ensures
            final(self).current() == (None::<Seq<char>>, None::<Seq<char>>),
    {
        self.health = OcrHealth::default();
    }

    /// A copy of the current report.
    pub fn snapshot(&self) -> (r: OcrHealth)
        ensures
            health_view(r) == self.current(),
    {
        OcrHealth { message: clone_opt(&self.health.message), fix: clone_opt(&self.health.fix) }
    }
}

} // verus!
