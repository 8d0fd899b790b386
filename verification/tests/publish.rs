use pubsys_ecr::error::Error;
use pubsys_ecr::manifest::{resolve_images, ResolvedImage};
use pubsys_ecr::publish::{Publication, PublishAction};
use std::path::PathBuf;

fn remote() -> ResolvedImage {
    resolve_images(None, Some("h/r:v1"), None, Some("repo"), None)
        .unwrap()
        .remove(0)
}

fn archive() -> ResolvedImage {
    let path = PathBuf::from("/tmp/i.tar");
    resolve_images(None, None, Some(&path), Some("repo"), Some("v2"))
        .unwrap()
        .remove(0)
}

#[test]
fn remote_image_is_pulled_and_pushed() {
    let (mut publication, action) = Publication::start(remote(), "reg");
    assert!(matches!(action, PublishAction::CreateTempDir { uri } if uri == "h/r:v1"));
    let action = publication.step(Ok(()));
    assert!(matches!(action, PublishAction::Pull { uri } if uri == "h/r:v1"));
    let action = publication.step(Ok(()));
    assert!(
        matches!(action, PublishAction::PushLayout { destination_uri } if destination_uri == "reg/repo:v1")
    );
    assert!(!publication.is_finished());
    let action = publication.step(Ok(()));
    assert!(matches!(action, PublishAction::Finish(Ok(()))));
    assert!(publication.is_finished());
}

#[test]
fn archive_is_pushed_at_once() {
    let (mut publication, action) = Publication::start(archive(), "reg");
    match action {
        PublishAction::PushArchive { path, destination_uri } => {
            assert_eq!(path, PathBuf::from("/tmp/i.tar"));
            assert_eq!(destination_uri, "reg/repo:v2");
        }
        other => panic!("{other:?}"),
    }
    let action = publication.step(Ok(()));
    assert!(matches!(action, PublishAction::Finish(Ok(()))));
}

#[test]
fn failed_temp_dir_ends_the_publication() {
    let (mut publication, _) = Publication::start(remote(), "reg");
    match publication.step(Err("disk full".to_owned())) {
        PublishAction::Finish(Err(e)) => {
            assert!(matches!(e, Error::PullTempDir { .. }));
            assert_eq!(
                e.message(),
                "Failed to create temp directory for pulling h/r:v1: disk full"
            );
        }
        other => panic!("{other:?}"),
    }
    assert!(publication.is_finished());
}

#[test]
fn failed_pull_ends_the_publication() {
    let (mut publication, _) = Publication::start(remote(), "reg");
    publication.step(Ok(()));
    match publication.step(Err("no such image".to_owned())) {
        PublishAction::Finish(Err(e)) => {
            assert!(matches!(e, Error::ImageTool { .. }));
            assert_eq!(e.message(), "Failed to run image tool for reg: no such image");
        }
        other => panic!("{other:?}"),
    }
    assert!(publication.is_finished());
}

#[test]
fn failed_push_ends_the_publication() {
    let (mut publication, _) = Publication::start(archive(), "reg");
    match publication.step(Err("denied".to_owned())) {
        PublishAction::Finish(Err(e)) => {
            assert_eq!(e.message(), "Failed to run image tool for reg: denied");
        }
        other => panic!("{other:?}"),
    }
    let (mut publication, _) = Publication::start(remote(), "reg");
    publication.step(Ok(()));
    publication.step(Ok(()));
    match publication.step(Err("denied".to_owned())) {
        PublishAction::Finish(Err(e)) => {
            assert_eq!(e.message(), "Failed to run image tool for reg: denied");
        }
        other => panic!("{other:?}"),
    }
}

#[test]
fn only_pushes_take_credentials() {
    let (mut publication, action) = Publication::start(remote(), "reg");
    assert!(!action.takes_credentials());
    assert!(!publication.step(Ok(())).takes_credentials());
    assert!(publication.step(Ok(())).takes_credentials());
    assert!(!publication.step(Ok(())).takes_credentials());
    let (mut publication, action) = Publication::start(archive(), "reg");
    assert!(action.takes_credentials());
    assert!(!publication.step(Err("denied".to_owned())).takes_credentials());
}
