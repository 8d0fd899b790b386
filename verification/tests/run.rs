use pubsys_ecr::config::{aws_config, select_regions, AwsConfig, AwsRegionConfig};
use pubsys_ecr::error::Error;
use pubsys_ecr::manifest::{resolve_images, Manifest, ManifestLoad, ResolvedImage};
use pubsys_ecr::publish::{Publication, PublishAction};
use pubsys_ecr::run::{
    credential_env, dry_run_line, show_source, Action, Credentials, CredentialsReply, Event,
    Output, Run, Step,
};
use std::path::PathBuf;

fn strings(list: &[&str]) -> Vec<String> {
    list.iter().map(|s| s.to_string()).collect()
}

fn images() -> Vec<ResolvedImage> {
    let path = PathBuf::from("/tmp/b.tar");
    let mut images = resolve_images(None, Some("h/a:1"), None, Some("a"), None).unwrap();
    images.extend(resolve_images(None, None, Some(&path), Some("b"), Some("2")).unwrap());
    images
}

fn config() -> AwsConfig {
    let mut config = AwsConfig::new(strings(&["r1", "r2"]), None);
    config.set_region(
        "r1".to_owned(),
        AwsRegionConfig {
            role: Some("arn:aws-cn:iam::111:role/R".to_owned()),
        },
    );
    config
}

fn credentials(token: Option<&str>) -> Credentials {
    Credentials {
        access_key_id: "id".to_owned(),
        secret_access_key: "key".to_owned(),
        session_token: token.map(|s| s.to_owned()),
    }
}

fn provided() -> Event {
    Event::Credentials(CredentialsReply::Provided(credentials(None)))
}

fn said(step: &Step) -> Vec<String> {
    step.outputs
        .iter()
        .map(|output| match output {
            Output::Info(line) => format!("I:{line}"),
            Output::Println(line) => format!("P:{line}"),
            Output::Advance => "+".to_owned(),
            Output::FinishAndClear => "-".to_owned(),
        })
        .collect()
}

fn asked(step: &Step) -> String {
    match &step.action {
        Action::Connect { region, sts_region } => format!("connect {region} {sts_region}"),
        Action::GetCallerIdentity { region } => format!("identity {region}"),
        Action::ProvideCredentials { region } => format!("credentials {region}"),
        Action::PublishImage { image, registry, env } => {
            format!("publish {} {registry} {}", image.repository_name, env.len())
        }
        Action::Finish(Ok(())) => "ok".to_owned(),
        Action::Finish(Err(e)) => format!("error {}", e.message()),
    }
}

fn tell(run: &mut Run, event: Event) -> (Vec<String>, String) {
    assert!(run.expects(&event));
    let step = run.step(event);
    (said(&step), asked(&step))
}

fn identity(account: &str) -> Event {
    Event::CallerIdentity(Ok(Some(account.to_owned())))
}

fn refused() -> Event {
    Event::Published(Err(Error::ImageTool {
        region: "reg".to_owned(),
        source: "denied".to_owned(),
    }))
}

fn begun(requested: &[&str], dry_run: bool) -> Run {
    let mut run = Run::new(&config(), Ok(images()), &strings(requested), dry_run).unwrap();
    assert!(!run.expects(&Event::Connected));
    run.step(Event::Begin);
    run
}

#[test]
fn run_publishes_everything_everywhere() {
    let mut run = Run::new(&config(), Ok(images()), &vec![], false).unwrap();
    assert_eq!(run.total(), 4);
    let none: Vec<String> = vec![];
    assert_eq!(tell(&mut run, Event::Begin), (none.clone(), "connect r1 r1".to_owned()));
    assert_eq!(tell(&mut run, Event::Connected), (none.clone(), "credentials r1".to_owned()));
    assert_eq!(
        tell(&mut run, provided()),
        (
            strings(&["P:Publishing to r1 (111)"]),
            "publish a 111.dkr.ecr.r1.amazonaws.com.cn 2".to_owned()
        )
    );
    assert_eq!(
        tell(&mut run, Event::Published(Ok(()))),
        (
            strings(&["P:  Published r1/a:1", "+"]),
            "publish b 111.dkr.ecr.r1.amazonaws.com.cn 2".to_owned()
        )
    );
    assert_eq!(
        tell(&mut run, Event::Published(Ok(()))),
        (strings(&["P:  Published r1/b:2", "+"]), "connect r2 r1".to_owned())
    );
    assert_eq!(tell(&mut run, Event::Connected), (none.clone(), "identity r2".to_owned()));
    assert_eq!(tell(&mut run, identity("222")), (none.clone(), "credentials r2".to_owned()));
    let with_token = Event::Credentials(CredentialsReply::Provided(credentials(Some("t"))));
    assert_eq!(
        tell(&mut run, with_token),
        (
            strings(&["P:Publishing to r2 (222)"]),
            "publish a 222.dkr.ecr.r2.amazonaws.com 3".to_owned()
        )
    );
    tell(&mut run, Event::Published(Ok(())));
    assert_eq!(
        tell(&mut run, Event::Published(Ok(()))),
        (
            strings(&["P:  Published r2/b:2", "+", "-", "I:All 4 targets succeeded"]),
            "ok".to_owned()
        )
    );
    assert!(!run.expects(&Event::Begin));
    assert!(!run.expects(&Event::Connected));
}

#[test]
fn failed_publications_do_not_stop_the_run() {
    let mut run = begun(&[], false);
    tell(&mut run, Event::Connected);
    tell(&mut run, provided());
    assert_eq!(
        tell(&mut run, refused()),
        (
            strings(&[
                "P:  FAILED r1/a:1 - Failed to run image tool for reg: denied",
                "+"
            ]),
            "publish b 111.dkr.ecr.r1.amazonaws.com.cn 2".to_owned()
        )
    );
    tell(&mut run, Event::Published(Ok(())));
    tell(&mut run, Event::Connected);
    tell(&mut run, identity("222"));
    tell(&mut run, provided());
    tell(&mut run, Event::Published(Ok(())));
    let (lines, end) = tell(&mut run, refused());
    assert_eq!(lines.len(), 3);
    assert_eq!(lines[2], "-");
    assert_eq!(end, "error Publish failed for 2 target(s): r1/a:1, r2/b:2");
}

#[test]
fn dry_run_reports_and_publishes_nothing() {
    let mut run = Run::new(&config(), Ok(images()), &vec![], true).unwrap();
    assert_eq!(
        tell(&mut run, Event::Begin),
        (
            strings(&["I:Dry-run mode enabled, no images will be published."]),
            "connect r1 r1".to_owned()
        )
    );
    assert_eq!(
        tell(&mut run, Event::Connected),
        (
            strings(&[
                "I:[dry-run] r1 (111):",
                "I:[dry-run]   h/a:1 -> 111.dkr.ecr.r1.amazonaws.com.cn/a:1",
                "I:[dry-run]   /tmp/b.tar -> 111.dkr.ecr.r1.amazonaws.com.cn/b:2",
            ]),
            "connect r2 r1".to_owned()
        )
    );
    tell(&mut run, Event::Connected);
    assert_eq!(
        tell(&mut run, identity("222")),
        (
            strings(&[
                "I:[dry-run] r2 (222):",
                "I:[dry-run]   h/a:1 -> 222.dkr.ecr.r2.amazonaws.com/a:1",
                "I:[dry-run]   /tmp/b.tar -> 222.dkr.ecr.r2.amazonaws.com/b:2",
                "-",
                "I:All 4 targets succeeded",
            ]),
            "ok".to_owned()
        )
    );
}

#[test]
fn account_that_cannot_be_had_ends_the_run() {
    let mut run = begun(&["r2"], false);
    tell(&mut run, Event::Connected);
    let (lines, end) = tell(&mut run, Event::CallerIdentity(Ok(None)));
    assert!(lines.is_empty());
    assert_eq!(end, "error No account ID returned for region r2");

    let mut run = begun(&["r2"], true);
    tell(&mut run, Event::Connected);
    let (_, end) = tell(&mut run, Event::CallerIdentity(Err("timeout".to_owned())));
    assert_eq!(end, "error Error getting account ID in r2: timeout");
}

#[test]
fn credentials_that_cannot_be_had_end_the_run() {
    let mut run = begun(&[], false);
    tell(&mut run, Event::Connected);
    let (_, end) = tell(&mut run, Event::Credentials(CredentialsReply::NoProvider));
    assert_eq!(end, "error Missing config: credentials provider");

    let mut run = begun(&[], false);
    tell(&mut run, Event::Connected);
    tell(&mut run, provided());
    tell(&mut run, refused());
    tell(&mut run, refused());
    tell(&mut run, Event::Connected);
    tell(&mut run, identity("222"));
    let failed = Event::Credentials(CredentialsReply::Failed("expired".to_owned()));
    let (lines, end) = tell(&mut run, failed);
    assert!(lines.is_empty());
    assert_eq!(end, "error Failed to obtain credentials for r2: expired");
}

#[test]
fn run_without_images_or_targets_succeeds() {
    let mut run = Run::new(&config(), Ok(vec![]), &strings(&["r1"]), false).unwrap();
    assert_eq!(run.total(), 0);
    run.step(Event::Begin);
    run.step(Event::Connected);
    assert_eq!(
        tell(&mut run, provided()),
        (
            strings(&["P:Publishing to r1 (111)", "-", "I:All 0 targets succeeded"]),
            "ok".to_owned()
        )
    );
    let mut run = Run::new(&config(), Ok(images()), &strings(&["elsewhere"]), false).unwrap();
    assert_eq!(
        tell(&mut run, Event::Begin),
        (strings(&["-", "I:All 0 targets succeeded"]), "ok".to_owned())
    );
}

#[test]
fn run_needs_images_and_then_regions() {
    let path = PathBuf::from("/m.toml");
    let loaded = Manifest::from_path(&path, ManifestLoad::Unreadable("gone".to_owned()));
    let no_images = resolve_images(Some(loaded), None, None, None, None);
    let error = Run::new(&AwsConfig::default(), no_images, &vec![], false).unwrap_err();
    assert_eq!(
        error.message(),
        "Failed to resolve image manifest: Failed to read '/m.toml': gone"
    );
    let error = Run::new(&AwsConfig::default(), Ok(images()), &vec![], false).unwrap_err();
    assert_eq!(error.message(), "Missing config: aws.regions");
}

#[test]
fn sts_region_is_the_first_configured_one() {
    let mut run = Run::new(&config(), Ok(images()), &strings(&["r2"]), false).unwrap();
    assert_eq!(run.total(), 2);
    assert_eq!(tell(&mut run, Event::Begin).1, "connect r2 r1");
}

#[test]
fn regions_are_selected_in_configured_order() {
    let configured = strings(&["a", "b", "c", "a"]);
    assert_eq!(select_regions(&configured, &vec![]), configured);
    assert_eq!(
        select_regions(&configured, &strings(&["c", "x", "a"])),
        strings(&["a", "c", "a"])
    );
    assert!(select_regions(&configured, &strings(&["x"])).is_empty());
}

#[test]
fn own_role_comes_before_the_general_one() {
    let mut config = AwsConfig::new(strings(&["a"]), Some("general".to_owned()));
    assert_eq!(config.role_in("a"), Some("general".to_owned()));
    config.set_region("a".to_owned(), AwsRegionConfig { role: None });
    assert_eq!(config.role_in("a"), Some("general".to_owned()));
    config.set_region(
        "a".to_owned(),
        AwsRegionConfig {
            role: Some("own".to_owned()),
        },
    );
    assert_eq!(config.role_in("a"), Some("own".to_owned()));
    assert_eq!(config.role_in("b"), Some("general".to_owned()));
}

#[test]
fn configuration_is_read_or_empty() {
    assert!(aws_config(Ok(None)).ok().unwrap().regions.is_empty());
    let config = aws_config(Ok(Some(config()))).ok().unwrap();
    assert_eq!(config.regions, strings(&["r1", "r2"]));
    let error = aws_config(Err("no file".to_owned())).err().unwrap();
    assert_eq!(error.message(), "Error reading config: no file");
}

#[test]
fn environment_holds_the_credentials() {
    let pairs = |token| {
        credential_env(&credentials(token))
            .into_iter()
            .map(|var| (var.name, var.value))
            .collect::<Vec<_>>()
    };
    let keys = vec![
        ("AWS_ACCESS_KEY_ID".to_owned(), "id".to_owned()),
        ("AWS_SECRET_ACCESS_KEY".to_owned(), "key".to_owned()),
    ];
    assert_eq!(pairs(None), keys);
    let mut all = keys;
    all.push(("AWS_SESSION_TOKEN".to_owned(), "tok".to_owned()));
    assert_eq!(pairs(Some("tok")), all);
    assert!(all[0].0 != all[1].0 && all[0].0 != all[2].0 && all[1].0 != all[2].0);
}

#[test]
fn sources_are_shown() {
    let images = images();
    assert_eq!(show_source(&images[0].source), "h/a:1");
    assert_eq!(show_source(&images[1].source), "/tmp/b.tar");
    assert_eq!(dry_run_line("s", "d"), "[dry-run]   s -> d");
}

#[test]
fn image_copies_are_the_same() {
    let images = images();
    let copy = images[1].clone();
    assert_eq!(copy.repository_name, "b");
    assert_eq!(copy.tag, "2");
    assert_eq!(show_source(&copy.source), "/tmp/b.tar");
}

#[test]
fn dry_run_names_where_a_publication_pushes() {
    let registry = "111.dkr.ecr.r1.amazonaws.com.cn";
    let image = images().remove(1);
    let source = show_source(&image.source);
    let (_, action) = Publication::start(image, registry);
    let PublishAction::PushArchive { destination_uri, .. } = action else {
        panic!("{action:?}");
    };
    let mut run = begun(&["r1"], true);
    let (lines, _) = tell(&mut run, Event::Connected);
    assert_eq!(lines[2], format!("I:{}", dry_run_line(&source, &destination_uri)));
}

#[test]
fn stopped_runs_report_what_came_before() {
    let mut run = Run::new(&config(), Ok(images()), &vec![], true).unwrap();
    let mut lines = tell(&mut run, Event::Begin).0;
    lines.extend(tell(&mut run, Event::Connected).0);
    lines.extend(tell(&mut run, Event::Connected).0);
    lines.extend(tell(&mut run, Event::CallerIdentity(Ok(None))).0);
    assert_eq!(
        lines,
        strings(&[
            "I:Dry-run mode enabled, no images will be published.",
            "I:[dry-run] r1 (111):",
            "I:[dry-run]   h/a:1 -> 111.dkr.ecr.r1.amazonaws.com.cn/a:1",
            "I:[dry-run]   /tmp/b.tar -> 111.dkr.ecr.r1.amazonaws.com.cn/b:2",
        ])
    );

    let mut run = Run::new(&config(), Ok(images()), &vec![], false).unwrap();
    let mut lines = tell(&mut run, Event::Begin).0;
    lines.extend(tell(&mut run, Event::Connected).0);
    lines.extend(tell(&mut run, provided()).0);
    lines.extend(tell(&mut run, Event::Published(Ok(()))).0);
    lines.extend(tell(&mut run, Event::Published(Ok(()))).0);
    lines.extend(tell(&mut run, Event::Connected).0);
    lines.extend(tell(&mut run, Event::CallerIdentity(Err("timeout".to_owned()))).0);
    assert_eq!(
        lines,
        strings(&[
            "P:Publishing to r1 (111)",
            "P:  Published r1/a:1",
            "+",
            "P:  Published r1/b:2",
            "+",
        ])
    );
}
