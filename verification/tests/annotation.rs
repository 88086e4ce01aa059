use obsclip::annotation::{entry_preview, AnnotationState};
use obsclip::clipboard::ClipboardContent;
use obsclip::config::{AppConfig, TextFormat};

fn text(t: &str) -> ClipboardContent {
    ClipboardContent::Text(t.to_string())
}

#[test]
fn submit_runs_the_pending_clip_once() {
    let mut state = AnnotationState::new();
    let id = state.start(text("hello"), AppConfig::default());
    assert_eq!(id, 1);
    let (pending, note) = state.submit("  follow up \n").unwrap();
    assert_eq!(pending.id, 1);
    assert!(matches!(pending.content, ClipboardContent::Text(ref t) if t == "hello"));
    assert_eq!(note, Some("follow up".to_string()));
    assert!(state.submit("again").is_none());
    assert!(!state.cancel());
    assert!(state.close_requested());
}

#[test]
fn empty_note_still_clips() {
    let mut state = AnnotationState::new();
    state.start(text("x"), AppConfig::default());
    let (_, note) = state.submit(" \t").unwrap();
    assert_eq!(note, None);
}

#[test]
fn cancel_and_close_drop_the_clip() {
    let mut state = AnnotationState::new();
    state.start(text("x"), AppConfig::default());
    assert!(state.cancel());
    assert!(state.submit("n").is_none());

    let mut state = AnnotationState::new();
    state.start(text("x"), AppConfig::default());
    assert!(state.close_requested());
    assert!(state.submit("n").is_none());
}

#[test]
fn new_session_replaces_the_old_one() {
    let mut state = AnnotationState::new();
    state.start(text("first"), AppConfig::default());
    let id = state.start(text("second"), AppConfig::default());
    assert_eq!(id, 2);
    assert!(state.finish(1, None).is_none());
    assert!(state.submit("").is_none());
}

#[test]
fn finish_takes_the_matching_clip() {
    let mut state = AnnotationState::new();
    let id = state.start(text("x"), AppConfig::default());
    let (p, note) = state.finish(id, Some("n".to_string())).unwrap();
    assert_eq!(p.id, id);
    assert_eq!(note, Some("n".to_string()));
    assert!(state.finish(id, None).is_none());
}

#[test]
fn previews() {
    assert_eq!(
        entry_preview(&text("a\nb"), TextFormat::Bullet, "14:32", "2026-06-29", "143052"),
        "- a\n- b"
    );
    let image = ClipboardContent::Image { rgba: vec![0; 4], width: 1, height: 1 };
    assert_eq!(
        entry_preview(&image, TextFormat::Bullet, "14:32", "2026-06-29", "143052"),
        "- 14:32 — ![[clip-2026-06-29-143052.png]]"
    );
    assert_eq!(entry_preview(&ClipboardContent::Empty, TextFormat::Bullet, "14:32", "d", "t"), "");
}
