use std::sync::mpsc::channel;

use gmod_wstool::steam::update::{
    create_outcome, update_outcome, vis_from_u8, CreateJob, CreateState, UpdateRequest,
    UpdateState, Visibility, VIS_FRIENDS, VIS_PRIVATE, VIS_PUBLIC, VIS_UNLISTED,
};
use gmod_wstool::tabs::Tab;

fn request(note: &str, visibility: u8) -> UpdateRequest {
    UpdateRequest {
        id: 42,
        title: None,
        description: None,
        visibility,
        tags: None,
        content_path: None,
        preview_path: None,
        change_note: note.to_string(),
    }
}

#[test]
fn visibility_codes() {
    assert_eq!(vis_from_u8(VIS_PUBLIC), Visibility::Public);
    assert_eq!(vis_from_u8(VIS_FRIENDS), Visibility::FriendsOnly);
    assert_eq!(vis_from_u8(VIS_PRIVATE), Visibility::Private);
    assert_eq!(vis_from_u8(VIS_UNLISTED), Visibility::Unlisted);
    assert_eq!(vis_from_u8(200), Visibility::Public);
    assert_eq!(request("", 2).requested_visibility(), Visibility::Private);
}

#[test]
fn blank_change_note_is_not_sent() {
    assert_eq!(request("   \n", 0).note_for_submit(), None);
    assert_eq!(request("", 0).note_for_submit(), None);
    assert_eq!(request(" fixed a bug ", 0).note_for_submit(), Some(" fixed a bug "));
}

#[test]
fn outcomes() {
    assert!(matches!(update_outcome(Ok(true)), UpdateState::Done { needs_legal_agreement: true }));
    match update_outcome(Err("IOFailure".into())) {
        UpdateState::Error(e) => assert_eq!(e, "IOFailure"),
        _ => panic!("expected an error"),
    }
    assert!(matches!(create_outcome(Ok(false)), CreateState::Done { needs_legal_agreement: false }));
}

#[test]
fn create_job_takes_in_its_result() {
    let (tx, rx) = channel();
    let mut job = CreateJob::new(rx);
    assert!(matches!(job.poll(), CreateState::Creating));
    assert!(matches!(job.poll(), CreateState::Creating));
    tx.send(create_outcome(Ok(true))).unwrap();
    assert!(matches!(job.poll(), CreateState::Done { needs_legal_agreement: true }));
    assert!(matches!(job.poll(), CreateState::Done { needs_legal_agreement: true }));
    assert!(matches!(job.apply(Some(CreateState::Error("x".into()))), CreateState::Error(_)));
}

#[test]
fn update_state_clone_keeps_contents() {
    let s = UpdateState::Error("bad".into());
    match s.clone() {
        UpdateState::Error(e) => assert_eq!(e, "bad"),
        _ => panic!("expected an error"),
    }
}

#[test]
fn tabs_compare() {
    assert_eq!(Tab::MyWorkshop, Tab::MyWorkshop);
    assert_ne!(Tab::MyWorkshop, Tab::Download);
}
