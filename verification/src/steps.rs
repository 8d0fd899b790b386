//! What a run does at each of its steps, for every run and every event.

use crate::config::AwsConfigView;
use crate::error::ErrorView;
use crate::manifest::{ImageView, SourceView};
use crate::model::{
    ActionView, CredentialsReplyView, EnvVarView, EventView, OutputView, PhaseView, RunView,
    Transition,
};
use vstd::prelude::*;

verus! {

/// What a run was made for has not changed: neither its images, nor its targets,
/// nor whether it is a dry run.
pub open spec fn same_plan(run: RunView, next: RunView) -> bool {
    &&& next.images == run.images
    &&& next.targets == run.targets
    &&& next.sts_region == run.sts_region
    &&& next.dry_run == run.dry_run
}

/// A run that has failed at `failures` so far reports `report` and goes on to
/// the given target. Behind the last one it ends: with success where nothing
/// failed, and else with an error that counts and lists the failures.
pub open spec fn goes_on(
    run: RunView,
    failures: Seq<Seq<char>>,
    target: nat,
    report: Seq<OutputView>,
    next: Transition,
) -> bool {
    &&& same_plan(run, next.run)
    &&& next.run.failures == failures
    &&& target < run.targets.len() ==> {
        &&& next.run.phase == PhaseView::Connecting { target }
        &&& next.outputs == report
        &&& next.action == ActionView::Connect {
            region: run.targets[target as int].region,
            sts_region: run.sts_region,
        }
    }
    &&& target >= run.targets.len() ==> next.run.phase is Finished
    &&& target >= run.targets.len() && failures.len() == 0 ==> {
        &&& next.outputs == report + seq![
            OutputView::FinishAndClear,
            OutputView::Info(
                "All "@ + crate::text::decimal(run.targets.len() * run.images.len())
                    + " targets succeeded"@,
            ),
        ]
        &&& next.action == ActionView::Finish(Ok(()))
    }
    &&& target >= run.targets.len() && failures.len() > 0 ==> {
        &&& next.outputs == report.push(OutputView::FinishAndClear)
        &&& next.action == ActionView::Finish(
            Err(
                ErrorView::PublishFailed {
                    count: failures.len(),
                    targets: crate::text::joined(failures, ", "@),
                },
            ),
        )
    }
}

/// A run stops with an error, and reports nothing more.
pub open spec fn stops(run: RunView, error: ErrorView, next: Transition) -> bool {
    &&& same_plan(run, next.run)
    &&& next.run.failures == run.failures
    &&& next.run.phase is Finished
    &&& next.outputs.len() == 0
    &&& next.action == ActionView::Finish(Err(error))
}

/// A run that has learnt the account of a target: a dry run names every image
/// with its source and its destination and goes on to the next target, any other
/// run asks for the credentials of the region and reports nothing.
pub open spec fn knows_account(
    run: RunView,
    target: nat,
    account_id: Seq<char>,
    next: Transition,
) -> bool {
    let region = run.targets[target as int].region;
    let registry = crate::registry::registry_of(
        region,
        account_id,
        run.targets[target as int].role_arn,
    );
    &&& run.dry_run ==> {
        &&& next.outputs.len() > run.images.len()
        &&& next.outputs[0] == OutputView::Info(
            "[dry-run] "@ + region + " ("@ + account_id + "):"@,
        )
        &&& forall|i: int|
            0 <= i < run.images.len() ==> #[trigger] next.outputs[i + 1] == OutputView::Info(
                "[dry-run]   "@ + match run.images[i].source {
                    SourceView::Registry(uri) => uri,
                    SourceView::OciArchive(path) => crate::paths::path_text(path),
                } + " -> "@ + (registry + "/"@ + run.images[i].repository_name + ":"@
                    + run.images[i].tag),
            )
        &&& goes_on(
            run,
            run.failures,
            target + 1,
            next.outputs.take(run.images.len() as int + 1),
            next,
        )
    }
    &&& !run.dry_run ==> {
        &&& same_plan(run, next.run)
        &&& next.run.failures == run.failures
        &&& next.run.phase == PhaseView::Authenticating { target, account_id, registry }
        &&& next.outputs.len() == 0
        &&& next.action == ActionView::ProvideCredentials { region }
    }
}

/// A run reports `report` and goes on to the given image, or to the next target
/// where the images of the present one are done.
pub open spec fn goes_on_to_image(
    run: RunView,
    failures: Seq<Seq<char>>,
    target: nat,
    image: nat,
    registry: Seq<char>,
    env: Seq<EnvVarView>,
    report: Seq<OutputView>,
    next: Transition,
) -> bool {
    &&& image < run.images.len() ==> {
        &&& same_plan(run, next.run)
        &&& next.run.failures == failures
        &&& next.run.phase == PhaseView::Publishing { target, image, registry, env }
        &&& next.outputs == report
        &&& next.action == ActionView::PublishImage {
            image: run.images[image as int],
            registry,
            env,
        }
    }
    &&& image >= run.images.len() ==> goes_on(run, failures, target + 1, report, next)
}

/// A run that begins turns to its first target. A dry run says first that it is
/// one, and no other run does.
pub proof fn lemma_begins(run: RunView)
    requires
        run.phase is Ready,
    ensures
        goes_on(
            run,
            run.failures,
            0,
            if run.dry_run {
                seq![OutputView::Info("Dry-run mode enabled, no images will be published."@)]
            } else {
                Seq::empty()
            },
            run.after(EventView::Begin),
        ),
{
    let next = run.after(EventView::Begin);
    let report = if run.dry_run {
        seq![OutputView::Info("Dry-run mode enabled, no images will be published."@)]
    } else {
        Seq::<OutputView>::empty()
    };
    assert(report + Seq::<OutputView>::empty() == report);
    assert(report + seq![OutputView::FinishAndClear] == report.push(OutputView::FinishAndClear));
}

/// A run takes the account of a target from the fifth field of its role. Where
/// there is no role or no such field, it asks in the region of the target.
pub proof fn lemma_connected(run: RunView, target: nat)
    requires
        run.phase == (PhaseView::Connecting { target }),
        run.wf(),
    ensures
        ({
            let next = run.after(EventView::Connected);
            let named: Option<Seq<char>> = match run.targets[target as int].role_arn {
                Some(arn) => crate::text::piece(arn, ':', 4),
                None => None,
            };
            match named {
                Some(account_id) => knows_account(run, target, account_id, next),
                None => {
                    &&& same_plan(run, next.run)
                    &&& next.run.failures == run.failures
                    &&& next.run.phase == PhaseView::Identifying { target }
                    &&& next.outputs.len() == 0
                    &&& next.action == ActionView::GetCallerIdentity {
                        region: run.targets[target as int].region,
                    }
                },
            }
        }),
{
    if let Some(account_id) = crate::registry::account_of(run.targets[target as int].role_arn) {
        lemma_knows_account(run, target, account_id);
    }
}

/// A run takes the account that it is told, and stops where it is told none.
pub proof fn lemma_identified(
    run: RunView,
    target: nat,
    reply: Result<Option<Seq<char>>, Seq<char>>,
)
    requires
        run.phase == (PhaseView::Identifying { target }),
        run.wf(),
    ensures
        ({
            let next = run.after(EventView::CallerIdentity(reply));
            let region = run.targets[target as int].region;
            match reply {
                Ok(Some(account_id)) => knows_account(run, target, account_id, next),
                Ok(None) => stops(run, ErrorView::MissingAccountId { region }, next),
                Err(source) => stops(run, ErrorView::GetCallerIdentity { region, source }, next),
            }
        }),
{
    if let Ok(Some(account_id)) = reply {
        lemma_knows_account(run, target, account_id);
    }
}

proof fn lemma_knows_account(run: RunView, target: nat, account_id: Seq<char>)
    ensures
        knows_account(run, target, account_id, run.with_account(target, account_id)),
{
    let next = run.with_account(target, account_id);
    if run.dry_run {
        let region = run.targets[target as int].region;
        let registry = crate::registry::registry_of(
            region,
            account_id,
            run.targets[target as int].role_arn,
        );
        let report = crate::model::dry_run_report(region, account_id, registry, run.images);
        assert(next.outputs.take(run.images.len() as int + 1) == report);
        assert forall|i: int| 0 <= i < run.images.len() implies #[trigger] next.outputs[i + 1]
            == report[i + 1] by {}
        assert(report + Seq::<OutputView>::empty() == report);
        assert(report + seq![OutputView::FinishAndClear] == report.push(
            OutputView::FinishAndClear,
        ));
    }
}

/// With the credentials of a region, a run announces the region and goes through
/// the images in order. It hands both keys to the image tool, and the session
/// token where there is one. Without credentials it stops.
pub proof fn lemma_authenticated(
    run: RunView,
    target: nat,
    account_id: Seq<char>,
    registry: Seq<char>,
    reply: CredentialsReplyView,
)
    requires
        run.phase == (PhaseView::Authenticating { target, account_id, registry }),
        run.wf(),
    ensures
        ({
            let next = run.after(EventView::Credentials(reply));
            let region = run.targets[target as int].region;
            match reply {
                CredentialsReplyView::NoProvider => stops(
                    run,
                    ErrorView::MissingConfig { missing: "credentials provider"@ },
                    next,
                ),
                CredentialsReplyView::Failed(source) => stops(
                    run,
                    ErrorView::Credentials { region, source },
                    next,
                ),
                CredentialsReplyView::Provided(credentials) => goes_on_to_image(
                    run,
                    run.failures,
                    target,
                    0,
                    registry,
                    match credentials.session_token {
                        Some(token) => seq![
                            EnvVarView {
                                name: "AWS_ACCESS_KEY_ID"@,
                                value: credentials.access_key_id,
                            },
                            EnvVarView {
                                name: "AWS_SECRET_ACCESS_KEY"@,
                                value: credentials.secret_access_key,
                            },
                            EnvVarView { name: "AWS_SESSION_TOKEN"@, value: token },
                        ],
                        None => seq![
                            EnvVarView {
                                name: "AWS_ACCESS_KEY_ID"@,
                                value: credentials.access_key_id,
                            },
                            EnvVarView {
                                name: "AWS_SECRET_ACCESS_KEY"@,
                                value: credentials.secret_access_key,
                            },
                        ],
                    },
                    seq![
                        OutputView::Println(
                            "Publishing to "@ + region + " ("@ + account_id + ")"@,
                        ),
                    ],
                    next,
                ),
            }
        }),
{
    let region = run.targets[target as int].region;
    let report = seq![
        OutputView::Println("Publishing to "@ + region + " ("@ + account_id + ")"@),
    ];
    assert(report + Seq::<OutputView>::empty() == report);
    assert(report + seq![OutputView::FinishAndClear] == report.push(OutputView::FinishAndClear));
    if let CredentialsReplyView::Provided(credentials) = reply {
        if let Some(token) = credentials.session_token {
            assert(crate::model::credential_env_of(credentials) == seq![
                EnvVarView { name: "AWS_ACCESS_KEY_ID"@, value: credentials.access_key_id },
                EnvVarView { name: "AWS_SECRET_ACCESS_KEY"@, value: credentials.secret_access_key },
                EnvVarView { name: "AWS_SESSION_TOKEN"@, value: token },
            ]);
        }
    }
}

/// An image that was published, or failed to be, is reported under its region,
/// repository and tag, and one more job is done. One that failed is added to the
/// failures, and nothing else is. The run goes on to the next image either way.
pub proof fn lemma_published(
    run: RunView,
    target: nat,
    image: nat,
    registry: Seq<char>,
    env: Seq<EnvVarView>,
    outcome: Result<(), ErrorView>,
)
    requires
        run.phase == (PhaseView::Publishing { target, image, registry, env }),
        run.wf(),
    ensures
        ({
            let label = run.targets[target as int].region + "/"@
                + run.images[image as int].repository_name + ":"@ + run.images[image as int].tag;
            goes_on_to_image(
                run,
                match outcome {
                    Ok(_) => run.failures,
                    Err(_) => run.failures.push(label),
                },
                target,
                image + 1,
                registry,
                env,
                seq![
                    OutputView::Println(
                        match outcome {
                            Ok(_) => "  Published "@ + label,
                            Err(e) => "  FAILED "@ + label + " - "@ + e.text(),
                        },
                    ),
                    OutputView::Advance,
                ],
                run.after(EventView::Published(outcome)),
            )
        }),
{
    let report = run.published_report(target, image, outcome);
    assert(report + Seq::<OutputView>::empty() == report);
    assert(report + seq![OutputView::FinishAndClear] == report.push(OutputView::FinishAndClear));
}

/// A run is made as it is asked for: a dry run exactly where one is asked for,
/// with exactly the images that are given, and with the selected regions as its
/// targets, in order, each with the role that the configuration gives it. It
/// asks for accounts in the first configured region, has not failed at anything,
/// and waits to begin.
pub proof fn lemma_new_run(
    config: AwsConfigView,
    images: Seq<ImageView>,
    requested: Seq<Seq<char>>,
    dry_run: bool,
)
    ensures
        ({
            let run = crate::model::new_run(config, images, requested, dry_run);
            let regions = crate::config::selected(config.regions, requested);
            &&& run.dry_run <==> dry_run
            &&& run.images.len() == images.len()
            &&& forall|i: int| 0 <= i < images.len() ==> #[trigger] run.images[i] == images[i]
            &&& run.targets.len() == regions.len()
            &&& forall|i: int|
                0 <= i < regions.len() ==> {
                    let target = #[trigger] run.targets[i];
                    &&& target.region == regions[i]
                    &&& config.region.contains_key(regions[i]) && config.region[regions[i]] is Some
                        ==> target.role_arn == config.region[regions[i]]
                    &&& !(config.region.contains_key(regions[i])
                        && config.region[regions[i]] is Some) ==> target.role_arn == config.role
                }
            &&& config.regions.len() > 0 ==> run.sts_region == config.regions[0]
            &&& run.failures.len() == 0
            &&& run.phase is Ready
            &&& run.wf()
            &&& run.total() == regions.len() * images.len()
            &&& forall|event: EventView| run.expects(event) <==> event is Begin
        }),
{
}

/// Two runs that differ in nothing but in whether they are dry runs have the
/// same targets and the same images, and just one of them is a dry run.
pub proof fn lemma_new_run_flag(
    config: AwsConfigView,
    images: Seq<ImageView>,
    requested: Seq<Seq<char>>,
)
    ensures
        ({
            let dry = crate::model::new_run(config, images, requested, true);
            let actual = crate::model::new_run(config, images, requested, false);
            &&& dry.dry_run
            &&& !actual.dry_run
            &&& dry == (RunView { dry_run: true, ..actual })
        }),
{
}

/// A run that is made as a dry run never asks for credentials and never
/// publishes an image, whichever regions and images it is for and whatever it is
/// answered.
pub proof fn lemma_new_dry_run_touches_no_registry(
    config: AwsConfigView,
    images: Seq<ImageView>,
    requested: Seq<Seq<char>>,
    replies: crate::laws::Replies,
)
    ensures
        ({
            let run = crate::model::new_run(config, images, requested, true);
            forall|i: int|
                0 <= i < crate::laws::course(run, replies).actions.len() ==> {
                    let action = #[trigger] crate::laws::course(run, replies).actions[i];
                    !(action is ProvideCredentials) && !(action is PublishImage)
                }
        }),
{
    let run = crate::model::new_run(config, images, requested, true);
    crate::laws::lemma_dry_run_touches_no_registry(run, replies);
    assert forall|i: int| 0 <= i < crate::laws::course(run, replies).actions.len() implies {
        let action = #[trigger] crate::laws::course(run, replies).actions[i];
        !(action is ProvideCredentials) && !(action is PublishImage)
    } by {
        let action = crate::laws::course(run, replies).actions[i];
        assert(!crate::laws::touches_registry(action));
    }
}

} // verus!
