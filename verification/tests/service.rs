use editor_core::Error;
use editor_core::IoErrorKind;
use editor_core::SaveStep;
use editor_core::default_file;
use editor_core::service::load_outcome;
use editor_core::service::picked_path;
use editor_core::service::save_outcome;
use editor_core::service::save_target;

#[test]
fn default_file_is_the_well_known_document() {
    assert_eq!(default_file(), "src/main.rs");
}

#[test]
fn save_with_known_path_skips_the_dialog() {
    let step = save_target(Some(String::from("/tmp/a.txt")));
    assert_eq!(step, SaveStep::WriteTo(String::from("/tmp/a.txt")));
}

#[test]
fn save_without_path_prompts_first() {
    assert_eq!(save_target(None), SaveStep::PromptForPath);
}

#[test]
fn cancelled_dialog_is_dialog_closed() {
    assert_eq!(picked_path(None), Err(Error::DialogClosed));
}

#[test]
fn picked_dialog_path_is_passed_through() {
    assert_eq!(picked_path(Some(String::from("/tmp/b.txt"))), Ok(String::from("/tmp/b.txt")));
}

#[test]
fn finished_read_becomes_a_load_completion() {
    assert_eq!(
        load_outcome(String::from("/tmp/a.txt"), Ok(String::from("hello"))),
        Ok((String::from("/tmp/a.txt"), String::from("hello")))
    );
    assert_eq!(
        load_outcome(String::from("/tmp/a.txt"), Err(IoErrorKind::NotFound)),
        Err(Error::IOFailed(IoErrorKind::NotFound))
    );
}

#[test]
fn finished_write_becomes_a_save_completion() {
    assert_eq!(
        save_outcome(String::from("/tmp/a.txt"), Ok(())),
        Ok(String::from("/tmp/a.txt"))
    );
    assert_eq!(
        save_outcome(String::from("/tmp/a.txt"), Err(IoErrorKind::AlreadyExists)),
        Err(Error::IOFailed(IoErrorKind::AlreadyExists))
    );
}

#[test]
fn every_failure_kind_has_a_label() {
    assert_eq!(IoErrorKind::NotFound.describe(), "file not found");
    assert_eq!(IoErrorKind::PermissionDenied.describe(), "permission denied");
    assert_eq!(IoErrorKind::AlreadyExists.describe(), "file already exists");
    assert_eq!(IoErrorKind::Other.describe(), "i/o error");
}
