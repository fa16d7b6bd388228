use editor_core::Command;
use editor_core::EditAction;
use editor_core::Error;
use editor_core::Event;
use editor_core::HighlightTheme;
use editor_core::IoErrorKind;
use editor_core::Motion;
use editor_core::Pending;
use editor_core::Session;
use editor_core::default_file;

fn opened(path: &str, content: &str) -> Event {
    Event::LoadCompleted(Ok((String::from(path), String::from(content))))
}

#[test]
fn startup_state_and_initial_load() {
    let (s, cmd) = Session::new(default_file());
    assert_eq!(cmd, Command::Load(String::from("src/main.rs")));
    assert_eq!(s.path(), &None);
    assert!(s.is_dirty());
    assert_eq!(s.error(), None);
    assert_eq!(s.theme(), HighlightTheme::SolarizedDark);
    assert_eq!(s.pending(), Pending::LoadPending);
    assert_eq!(s.text(), "");
}

#[test]
fn open_succeeds_with_path_and_content() {
    let (mut s, _) = Session::new(default_file());
    assert_eq!(s.update(Event::RequestOpen), Command::PromptAndLoad);
    assert_eq!(s.pending(), Pending::LoadPending);
    assert_eq!(s.update(opened("/tmp/a.txt", "hello\nworld")), Command::Nothing);
    assert_eq!(s.text(), "hello\nworld");
    assert!(!s.is_dirty());
    assert_eq!(s.path(), &Some(String::from("/tmp/a.txt")));
    assert_eq!(s.pending(), Pending::Idle);
    assert_eq!(s.error(), None);
}

#[test]
fn edit_then_save_with_known_path() {
    let (mut s, _) = Session::new(default_file());
    s.update(opened("/tmp/a.txt", "hello\nworld"));
    assert!(!s.is_dirty());
    s.update(Event::Edit(EditAction::Move(Motion::LineEnd)));
    assert!(!s.is_dirty());
    s.update(Event::Edit(EditAction::Insert('!')));
    assert!(s.is_dirty());
    assert_eq!(s.text(), "hello!\nworld");
    let cmd = s.update(Event::RequestSave);
    assert_eq!(
        cmd,
        Command::Save(Some(String::from("/tmp/a.txt")), String::from("hello!\nworld"))
    );
    assert_eq!(s.pending(), Pending::SavePending);
    s.update(Event::SaveCompleted(Ok(String::from("/tmp/a.txt"))));
    assert!(!s.is_dirty());
    assert_eq!(s.path(), &Some(String::from("/tmp/a.txt")));
    assert_eq!(s.pending(), Pending::Idle);
}

#[test]
fn request_new_resets_from_any_state() {
    let (mut s, _) = Session::new(default_file());
    s.update(opened("/tmp/a.txt", "hello"));
    s.update(Event::Edit(EditAction::Insert('x')));
    assert_eq!(s.update(Event::RequestNew), Command::Nothing);
    assert_eq!(s.path(), &None);
    assert!(s.is_dirty());
    assert_eq!(s.text(), "");
    assert_eq!(s.cursor_position(), (0, 0));
    assert_eq!(s.error(), None);
    assert_eq!(s.pending(), Pending::Idle);
}

#[test]
fn cursor_moves_never_set_dirty() {
    let (mut s, _) = Session::new(default_file());
    s.update(opened("/tmp/a.txt", "ab\ncd"));
    assert!(!s.is_dirty());
    for m in [
        Motion::Right,
        Motion::Down,
        Motion::LineEnd,
        Motion::Up,
        Motion::Left,
        Motion::DocumentEnd,
        Motion::DocumentStart,
        Motion::LineStart,
    ] {
        s.update(Event::Edit(EditAction::Move(m)));
        s.update(Event::Edit(EditAction::Select(m)));
    }
    s.update(Event::Edit(EditAction::SelectAll));
    assert!(!s.is_dirty());
    assert_eq!(s.text(), "ab\ncd");
}

#[test]
fn deleting_a_character_sets_dirty() {
    let (mut s, _) = Session::new(default_file());
    s.update(opened("/tmp/a.txt", "ab"));
    assert!(!s.is_dirty());
    s.update(Event::Edit(EditAction::Delete));
    assert!(s.is_dirty());
    assert_eq!(s.text(), "b");
}

#[test]
fn edge_delete_changes_nothing_and_keeps_clean() {
    let (mut s, _) = Session::new(default_file());
    s.update(opened("/tmp/a.txt", "ab"));
    s.update(Event::Edit(EditAction::Backspace));
    assert!(!s.is_dirty());
    assert_eq!(s.text(), "ab");
}

#[test]
fn failed_load_preserves_state() {
    let (mut s, _) = Session::new(default_file());
    s.update(opened("/tmp/a.txt", "hello"));
    assert!(!s.is_dirty());
    s.update(Event::RequestOpen);
    s.update(Event::LoadCompleted(Err(Error::IOFailed(IoErrorKind::NotFound))));
    assert_eq!(s.path(), &Some(String::from("/tmp/a.txt")));
    assert_eq!(s.text(), "hello");
    assert!(!s.is_dirty());
    assert_eq!(s.error(), Some(Error::IOFailed(IoErrorKind::NotFound)));
    assert_eq!(s.pending(), Pending::Idle);
}

#[test]
fn save_without_path_asks_for_one_and_cancellation_is_recorded() {
    let (mut s, _) = Session::new(default_file());
    s.update(Event::Edit(EditAction::Insert('x')));
    let cmd = s.update(Event::RequestSave);
    assert_eq!(cmd, Command::Save(None, String::from("x")));
    s.update(Event::SaveCompleted(Err(Error::DialogClosed)));
    assert_eq!(s.error(), Some(Error::DialogClosed));
    assert_eq!(s.path(), &None);
    assert!(s.is_dirty());
    assert_eq!(s.text(), "x");
}

#[test]
fn theme_change_alters_nothing_but_the_preference() {
    let (mut s, _) = Session::new(default_file());
    s.update(opened("/tmp/a.txt", "hello"));
    s.update(Event::Edit(EditAction::Insert('!')));
    let dirty_before = s.is_dirty();
    let text_before = s.text();
    assert_eq!(s.update(Event::ThemeSelected(HighlightTheme::InspiredGithub)), Command::Nothing);
    assert_eq!(s.theme(), HighlightTheme::InspiredGithub);
    assert_eq!(s.is_dirty(), dirty_before);
    assert_eq!(s.text(), text_before);
    assert_eq!(s.path(), &Some(String::from("/tmp/a.txt")));
}

#[test]
fn any_interaction_clears_a_stale_error() {
    let (mut s, _) = Session::new(default_file());
    s.update(Event::LoadCompleted(Err(Error::IOFailed(IoErrorKind::Other))));
    assert!(s.error().is_some());
    s.update(Event::Edit(EditAction::Move(Motion::Right)));
    assert_eq!(s.error(), None);
    s.update(Event::LoadCompleted(Err(Error::DialogClosed)));
    assert!(s.error().is_some());
    s.update(Event::ThemeSelected(HighlightTheme::Base16Ocean));
    assert_eq!(s.error(), None);
}

#[test]
fn overlapping_completions_last_writer_wins_save_then_load() {
    let (mut s, _) = Session::new(default_file());
    s.update(Event::RequestSave);
    s.update(Event::RequestOpen);
    s.update(Event::SaveCompleted(Ok(String::from("/tmp/saved.txt"))));
    s.update(opened("/tmp/loaded.txt", "loaded"));
    assert_eq!(s.path(), &Some(String::from("/tmp/loaded.txt")));
    assert_eq!(s.text(), "loaded");
    assert!(!s.is_dirty());
}

#[test]
fn overlapping_completions_last_writer_wins_load_then_save() {
    let (mut s, _) = Session::new(default_file());
    s.update(Event::RequestSave);
    s.update(Event::RequestOpen);
    s.update(opened("/tmp/loaded.txt", "loaded"));
    s.update(Event::SaveCompleted(Ok(String::from("/tmp/saved.txt"))));
    assert_eq!(s.path(), &Some(String::from("/tmp/saved.txt")));
    assert_eq!(s.text(), "loaded");
    assert!(!s.is_dirty());
}

#[test]
fn title_is_fixed() {
    let (s, _) = Session::new(default_file());
    assert_eq!(s.title(), "A cool editor");
}

#[test]
fn appearance_follows_theme_darkness() {
    let (mut s, _) = Session::new(default_file());
    assert_eq!(s.appearance(), editor_core::Appearance::Dark);
    assert!(s.theme().is_dark());
    s.update(Event::ThemeSelected(HighlightTheme::InspiredGithub));
    assert_eq!(s.appearance(), editor_core::Appearance::Light);
    assert!(!s.theme().is_dark());
    s.update(Event::ThemeSelected(HighlightTheme::Base16Mocha));
    assert_eq!(s.appearance(), editor_core::Appearance::Dark);
}

#[test]
fn language_token_comes_from_the_extension() {
    let (mut s, _) = Session::new(default_file());
    assert_eq!(s.language_token(), "rs");
    s.update(opened("/tmp/notes.txt", ""));
    assert_eq!(s.language_token(), "txt");
    s.update(opened("/tmp/archive.tar.gz", ""));
    assert_eq!(s.language_token(), "gz");
    s.update(opened("/tmp/.bashrc", ""));
    assert_eq!(s.language_token(), "rs");
    s.update(opened("/tmp/dir.d/plain", ""));
    assert_eq!(s.language_token(), "rs");
    s.update(opened("trailing.", ""));
    assert_eq!(s.language_token(), "");
}

#[test]
fn status_text_shows_failures_path_or_placeholder() {
    let (mut s, _) = Session::new(default_file());
    assert_eq!(s.status_text(), "New file");
    s.update(opened("/tmp/a.txt", "hello"));
    assert_eq!(s.status_text(), "/tmp/a.txt");
    s.update(Event::RequestOpen);
    s.update(Event::LoadCompleted(Err(Error::IOFailed(IoErrorKind::PermissionDenied))));
    assert_eq!(s.status_text(), "permission denied");
    s.update(Event::RequestOpen);
    s.update(Event::LoadCompleted(Err(Error::DialogClosed)));
    assert_eq!(s.status_text(), "/tmp/a.txt");
}

#[test]
fn cursor_position_is_zero_based() {
    let (mut s, _) = Session::new(default_file());
    s.update(opened("/tmp/a.txt", "ab\ncd"));
    assert_eq!(s.cursor_position(), (0, 0));
    s.update(Event::Edit(EditAction::Move(Motion::Down)));
    s.update(Event::Edit(EditAction::Move(Motion::Right)));
    assert_eq!(s.cursor_position(), (1, 1));
}
