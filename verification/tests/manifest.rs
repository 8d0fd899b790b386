use pubsys_ecr::manifest::{
    infer_tag, resolve_entry, resolve_images, Error, ImageEntry, Manifest, ManifestLoad,
    ResolvedSource,
};
use std::path::PathBuf;

fn entry(uri: Option<&str>, archive: Option<&str>, name: &str, tag: Option<&str>) -> ImageEntry {
    ImageEntry {
        source_uri: uri.map(|s| s.to_owned()),
        source_archive: archive.map(PathBuf::from),
        repository_name: name.to_owned(),
        tag: tag.map(|s| s.to_owned()),
    }
}

fn inferred(uri: &str) -> Result<String, Error> {
    infer_tag(&ResolvedSource::Registry(uri.to_owned()), 4)
}

#[test]
fn test_resolve_images_from_uri() {
    let images = resolve_images(
        None,
        Some("111222333444.dkr.ecr.us-west-2.amazonaws.com/my-repo:v1.0.0"),
        None,
        Some("my-repo"),
        None,
    )
    .unwrap();
    assert_eq!(images.len(), 1);
    assert_eq!(images[0].repository_name, "my-repo");
    assert_eq!(images[0].tag, "v1.0.0");
    assert!(matches!(images[0].source, ResolvedSource::Registry(_)));
}

#[test]
fn test_resolve_images_from_archive() {
    let images = resolve_images(
        None,
        None,
        Some(&PathBuf::from("/tmp/my-image.tar")),
        Some("my-repo"),
        Some("v2.0.0"),
    )
    .unwrap();
    assert_eq!(images.len(), 1);
    assert_eq!(images[0].repository_name, "my-repo");
    assert_eq!(images[0].tag, "v2.0.0");
    assert!(matches!(images[0].source, ResolvedSource::OciArchive(_)));
}

#[test]
fn test_resolve_images_archive_requires_tag() {
    let result = resolve_images(
        None,
        None,
        Some(&PathBuf::from("/tmp/my-image.tar")),
        Some("my-repo"),
        None,
    );
    assert!(result.is_err());
}

#[test]
fn test_resolve_images_no_source_fails() {
    let result = resolve_images(None, None, None, Some("my-repo"), Some("v1"));
    assert!(result.is_err());
}

#[test]
fn test_infer_tag_from_uri() {
    let source = ResolvedSource::Registry(
        "111222333444.dkr.ecr.us-west-2.amazonaws.com/my-repo:v1.2.3".to_owned(),
    );
    let tag = infer_tag(&source, 0).unwrap();
    assert_eq!(tag, "v1.2.3");
}

#[test]
fn test_infer_tag_from_digest_fails() {
    let source = ResolvedSource::Registry(
        "111222333444.dkr.ecr.us-west-2.amazonaws.com/my-repo@sha256:abc123".to_owned(),
    );
    assert!(infer_tag(&source, 0).is_err());
}

#[test]
fn tag_is_what_follows_the_last_colon_of_the_last_segment() {
    assert_eq!(inferred("repo:v1").unwrap(), "v1");
    assert_eq!(inferred("localhost:5000/a/repo:v1").unwrap(), "v1");
    assert_eq!(inferred("host/repo:a:b").unwrap(), "b");
    assert_eq!(inferred("höst/répo:größe").unwrap(), "größe");
    assert_eq!(inferred(":x").unwrap(), "x");
}

#[test]
fn port_of_a_host_is_no_tag() {
    match inferred("localhost:5000/repo") {
        Err(Error::CannotInferTag { uri, index }) => {
            assert_eq!(uri, "localhost:5000/repo");
            assert_eq!(index, 4);
        }
        other => panic!("{other:?}"),
    }
}

#[test]
fn uri_without_tag_gives_none() {
    for uri in ["", "repo", "host/repo:", "host/repo:v1/", "a:b/"] {
        assert!(matches!(
            inferred(uri),
            Err(Error::CannotInferTag { index: 4, .. })
        ));
    }
}

#[test]
fn digest_anywhere_rules_out_a_tag() {
    for uri in ["user@host/repo:v1", "host/repo:v1@sha256:0", "@"] {
        match inferred(uri) {
            Err(Error::CannotInferTagFromDigest { uri: named, index }) => {
                assert_eq!(named, uri);
                assert_eq!(index, 4);
            }
            other => panic!("{other:?}"),
        }
    }
}

#[test]
fn archive_without_tag_names_its_path() {
    match resolve_entry(&entry(None, Some("/tmp/i.tar"), "r", None), 7) {
        Err(Error::TagRequiredForOciArchive { path, index }) => {
            assert_eq!(path, PathBuf::from("/tmp/i.tar"));
            assert_eq!(index, 7);
        }
        other => panic!("{other:?}"),
    }
}

#[test]
fn given_tag_is_kept() {
    let image = resolve_entry(&entry(Some("h/r@sha256:0"), None, "name", Some("")), 0).unwrap();
    assert_eq!(image.tag, "");
    assert_eq!(image.repository_name, "name");
    match image.source {
        ResolvedSource::Registry(uri) => assert_eq!(uri, "h/r@sha256:0"),
        other => panic!("{other:?}"),
    }
}

#[test]
fn entry_must_name_exactly_one_source() {
    assert!(matches!(
        resolve_entry(&entry(Some("h/r:v1"), Some("/a"), "r", Some("v")), 2),
        Err(Error::AmbiguousSource { index: 2 })
    ));
    assert!(matches!(
        resolve_entry(&entry(None, None, "r", Some("v")), 3),
        Err(Error::MissingSource { index: 3 })
    ));
}

#[test]
fn manifest_gives_its_images_in_order() {
    let manifest = Manifest {
        images: vec![
            entry(
                Some("public.ecr.aws/bottlerocket/bottlerocket-admin:v0.20.0"),
                None,
                "bottlerocket-admin",
                None,
            ),
            entry(
                Some("public.ecr.aws/bottlerocket/bottlerocket-control:v0.6.1"),
                None,
                "bottlerocket-control",
                Some("latest"),
            ),
        ],
    };
    let images = resolve_images(Some(Ok(manifest)), None, None, None, None).unwrap();
    assert_eq!(images.len(), 2);
    assert_eq!(images[0].repository_name, "bottlerocket-admin");
    assert_eq!(images[0].tag, "v0.20.0");
    assert_eq!(images[1].repository_name, "bottlerocket-control");
    assert_eq!(images[1].tag, "latest");
}

#[test]
fn first_entry_that_fails_gives_the_error() {
    let manifest = Manifest {
        images: vec![
            entry(Some("h/r:v1"), None, "r", None),
            entry(Some("h/r"), None, "r", None),
            entry(None, None, "r", None),
        ],
    };
    assert!(matches!(
        resolve_images(Some(Ok(manifest)), None, None, None, None),
        Err(Error::CannotInferTag { index: 1, .. })
    ));
}

#[test]
fn manifest_decides_over_the_other_arguments() {
    let manifest = Manifest { images: vec![] };
    let archive = PathBuf::from("/a");
    let images = resolve_images(
        Some(Ok(manifest)),
        Some("h/r:v1"),
        Some(&archive),
        Some("r"),
        Some("v"),
    )
    .unwrap();
    assert!(images.is_empty());
}

#[test]
fn missing_repository_name_is_empty() {
    let images = resolve_images(None, Some("h/r:v1"), None, None, None).unwrap();
    assert_eq!(images[0].repository_name, "");
}

#[test]
fn unreadable_manifest_is_an_error() {
    let path = PathBuf::from("/etc/images.toml");
    let loaded = Manifest::from_path(&path, ManifestLoad::Unreadable("gone".to_owned()));
    let error = resolve_images(Some(loaded), Some("h/r:v1"), None, None, None).unwrap_err();
    assert_eq!(error.message(), "Failed to read '/etc/images.toml': gone");
}

#[test]
fn invalid_manifest_is_an_error() {
    let path = PathBuf::from("/etc/images.toml");
    let loaded = Manifest::from_path(&path, ManifestLoad::Invalid("line 1".to_owned()));
    let error = resolve_images(Some(loaded), None, None, None, None).unwrap_err();
    assert_eq!(error.message(), "Invalid TOML in '/etc/images.toml': line 1");
    assert!(matches!(error, Error::ParseToml { .. }));
}

#[test]
fn loaded_manifest_is_handed_on() {
    let path = PathBuf::from("/etc/images.toml");
    let manifest = Manifest {
        images: vec![entry(None, None, "r", None)],
    };
    let manifest = Manifest::from_path(&path, ManifestLoad::Loaded(manifest)).unwrap();
    assert_eq!(manifest.images.len(), 1);
}

#[test]
fn messages_say_what_is_wrong() {
    let ambiguous = Error::AmbiguousSource { index: 0 };
    assert_eq!(
        ambiguous.message(),
        "Image entry 0: both source_uri and source_archive specified"
    );
    let missing = Error::MissingSource { index: 1203 };
    assert_eq!(
        missing.message(),
        "Image entry 1203: neither source_uri nor source_archive specified"
    );
    let digest = inferred("h/r@sha256:0").unwrap_err();
    assert_eq!(
        digest.message(),
        "Image entry 4: cannot infer tag from digest reference 'h/r@sha256:0'; specify tag explicitly"
    );
    let no_tag = inferred("h/r").unwrap_err();
    assert_eq!(
        no_tag.message(),
        "Image entry 4: cannot infer tag from URI 'h/r'; specify tag explicitly"
    );
    let archive = resolve_entry(&entry(None, Some("/tmp/i.tar"), "r", None), 10).unwrap_err();
    assert_eq!(
        archive.message(),
        "Image entry 10: tag is required when source is an archive '/tmp/i.tar'; specify tag explicitly"
    );
    assert_eq!(
        archive.message_showing("?"),
        "Image entry 10: tag is required when source is an archive '?'; specify tag explicitly"
    );
}
