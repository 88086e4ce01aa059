//! The optional-note dialog shown before a clip: which clip is pending, and
//! what submitting, cancelling or closing the dialog does with it.
use vstd::prelude::*;
use crate::clip::formatter::{format_image_link, format_text, image_line, text_block};
use crate::clip::image::{clip_image_filename, image_filename};
use crate::clipboard::ClipboardContent;
use crate::config::{AppConfig, TextFormat};
use crate::text::{trim, trim_str};

verus! {

/// A clip waiting for the dialog's answer.
#[derive(Debug)]
pub struct PendingClip {
    pub id: u64,
    pub content: ClipboardContent,
    pub config: AppConfig,
}

/// The dialog's bookkeeping as numbers: the current session, whether it has
/// been answered, and the session of the clip still pending, if any.
pub struct AnnotationModel {
    pub session: u64,
    pub completed: bool,
    pub pending: Option<u64>,
}

/// A new session: the next number, unanswered, its clip pending.
pub open spec fn start_model(m: AnnotationModel) -> AnnotationModel {
    AnnotationModel { session: (m.session + 1) as u64, completed: false, pending: Some((m.session + 1) as u64) }
}

/// Taking the pending clip for session `id`: it is gone afterwards either
/// way, and it is handed out only when it belongs to that session.
pub open spec fn take_model(m: AnnotationModel, id: u64) -> (AnnotationModel, bool) {
    (AnnotationModel { pending: None, ..m }, m.pending == Some(id))
}

/// Answering the dialog (submit, or cancel): nothing when the session was
/// already answered; else the session counts as answered and its clip is
/// taken (to run on submit, to drop on cancel).
pub open spec fn answer_model(m: AnnotationModel) -> (AnnotationModel, bool) {
    if m.completed {
        (m, false)
    } else {
        take_model(AnnotationModel { completed: true, ..m }, m.session)
    }
}

/// Closing the window: an answered session just hides it; otherwise the
/// session is answered and its clip dropped, the window hidden when there
/// was one.
pub open spec fn close_model(m: AnnotationModel) -> (AnnotationModel, bool) {
    if m.completed {
        (m, true)
    } else {
        take_model(AnnotationModel { completed: true, ..m }, m.session)
    }
}

/// The state shared by the dialog's commands.
#[derive(Debug)]
pub struct AnnotationState {
    session_id: u64,
    completed: bool,
    pending: Option<PendingClip>,
}

impl View for AnnotationState {
    type V = AnnotationModel;

    closed spec fn view(&self) -> AnnotationModel {
        AnnotationModel {
            session: self.session_id,
            completed: self.completed,
            pending: match self.pending {
                Some(p) => Some(p.id),
                None => None,
            },
        }
    }
}

/// The note a dialog answer carries: none when empty or white space, else trimmed.
pub open spec fn note_of(text: Seq<char>) -> Option<Seq<char>> {
    if trim(text).len() == 0 {
        None
    } else {
        Some(trim(text))
    }
}

impl AnnotationState {
    /// The clip held for the current session, if any.
    pub closed spec fn pending_clip(&self) -> Option<PendingClip> {
        self.pending
    }

    /// No session yet, nothing pending.
    pub fn new() -> (r: Self)
        ensures
            r@ == (AnnotationModel { session: 0, completed: false, pending: None }),
            r.pending_clip() is None,
    {
        AnnotationState { session_id: 0, completed: false, pending: None }
    }

    /// The number of the current session.
    pub fn session(&self) -> (r: u64)
        ensures
            r == self@.session,
    {
        self.session_id
    }

    /// Start a session for a clip; its number is returned.
    pub fn start(&mut self, content: ClipboardContent, config: AppConfig) -> (id: u64)
        requires
            old(self)@.session < u64::MAX,
        ensures
            final(self)@ == start_model(old(self)@),
            id == final(self)@.session,
            final(self).pending_clip() == Some(PendingClip { id, content, config }),
    {
        let id = self.session_id + 1;
        self.session_id = id;
        self.completed = false;
        self.pending = Some(PendingClip { id, content, config });
        id
    }

    /// Take the pending clip when it belongs to session `id`, to run with `annotation`.
    pub fn finish(&mut self, id: u64, annotation: Option<String>) -> (r: Option<(PendingClip, Option<String>)>)
        ensures
            (final(self)@, r is Some) == take_model(old(self)@, id),
            r matches Some((p, a)) ==> Some(p) == old(self).pending_clip() && a == annotation,
    {
        let pending = self.pending.take();
        match pending {
            None => None,
            Some(p) => {
                if p.id != id {
                    None
                } else {
                    Some((p, annotation))
                }
            },
        }
    }

    /// Submit the dialog with the typed note: the clip to run and its note,
    /// or nothing when the session was already answered.
    pub fn submit(&mut self, text: &str) -> (r: Option<(PendingClip, Option<String>)>)
        ensures
            (final(self)@, r is Some) == answer_model(old(self)@),
            r matches Some((p, a)) ==> {
                &&& Some(p) == old(self).pending_clip()
                &&& match a {
                    Some(s) => note_of(text@) == Some(s@),
                    None => note_of(text@) is None,
                }
            },
    {
        let id = self.session_id;
        if self.completed {
            return None;
        }
        self.completed = true;
        let trimmed = trim_str(text);
        let annotation = if trimmed.as_str().is_empty() { None } else { Some(trimmed) };
        self.finish(id, annotation)
    }

    /// Cancel the dialog: the pending clip is dropped; `true` when the window
    /// is to be hidden.
    pub fn cancel(&mut self) -> (hide: bool)
        ensures
            (final(self)@, hide) == answer_model(old(self)@),
    {
        let id = self.session_id;
        if self.completed {
            return false;
        }
        self.completed = true;
        self.finish(id, None).is_some()
    }

    /// The window's close button: `true` when the window is to be hidden.
    pub fn close_requested(&mut self) -> (hide: bool)
        ensures
            (final(self)@, hide) == close_model(old(self)@),
    {
        let id = self.session_id;
        if self.completed {
            return true;
        }
        self.completed = true;
        self.finish(id, None).is_some()
    }
}

/// An answered session runs no clip, however it is answered again.
pub proof fn lemma_answered_session_runs_nothing(m: AnnotationModel)
    requires
        m.completed,
    ensures
        !answer_model(m).1,
        answer_model(m).0 == m,
{
}

/// After any answer the session is answered and nothing is pending, so a
/// clip runs at most once per session.
pub proof fn lemma_answer_settles(m: AnnotationModel)
    ensures
        answer_model(m).0.completed,
        answer_model(m).0.pending is None || answer_model(m).0 == m,
        !answer_model(answer_model(m).0).1,
        !answer_model(close_model(m).0).1,
{
}

/// A fresh session answered by submit runs its clip.
pub proof fn lemma_started_session_runs(m: AnnotationModel)
    requires
        m.session < u64::MAX,
    ensures
        answer_model(start_model(m)).1,
{
}

/// A cancelled or closed session runs nothing afterwards.
pub proof fn lemma_cancelled_session_runs_nothing(m: AnnotationModel)
    requires
        m.session < u64::MAX,
    ensures
        !answer_model(answer_model(start_model(m)).0).1,
        !answer_model(close_model(start_model(m)).0).1,
{
}

/// The preview line of a clip in the dialog.
pub open spec fn preview(content: ClipboardContent, format: TextFormat, time: Seq<char>, date: Seq<char>, time_hms: Seq<char>) -> Seq<char> {
    match content {
        ClipboardContent::Text(t) => text_block(format, t@, time),
        ClipboardContent::Image { .. } => image_line(time, image_filename(date, time_hms)),
        ClipboardContent::Empty => seq![],
    }
}

/// The entry the dialog previews, for a clip taken on `date` (`YYYY-MM-DD`)
/// at `time` (`HH:mm`, and `time_hms` as `HHmmss`).
pub fn entry_preview(content: &ClipboardContent, text_format: TextFormat, time: &str, date: &str, time_hms: &str) -> (r: String)
    ensures
        r@ == preview(*content, text_format, time@, date@, time_hms@),
{
    match content {
        ClipboardContent::Text(t) => format_text(text_format, t.as_str(), time),
        ClipboardContent::Image { .. } => {
            let filename = clip_image_filename(date, time_hms);
            format_image_link(time, filename.as_str())
        },
        ClipboardContent::Empty => String::new(),
    }
}

} // verus!
