//! The model of a run: where it can be, and what follows from each event there.

use crate::config::AwsConfigView;
use crate::error::ErrorView;
use crate::manifest::{ImageView, SourceView};
use vstd::prelude::*;

verus! {

/// The model of [`crate::run::Credentials`].
pub struct CredentialsView {
    pub access_key_id: Seq<char>,
    pub secret_access_key: Seq<char>,
    pub session_token: Option<Seq<char>>,
}

/// The model of [`crate::run::CredentialsReply`].
pub enum CredentialsReplyView {
    NoProvider,
    Failed(Seq<char>),
    Provided(CredentialsView),
}

/// The model of [`crate::run::EnvVar`].
pub struct EnvVarView {
    pub name: Seq<char>,
    pub value: Seq<char>,
}

/// The model of [`crate::run::Target`].
pub struct TargetView {
    pub region: Seq<char>,
    pub role_arn: Option<Seq<char>>,
}

/// The model of [`crate::run::Output`].
pub enum OutputView {
    Info(Seq<char>),
    Println(Seq<char>),
    Advance,
    FinishAndClear,
}

/// The model of [`crate::run::Action`].
pub enum ActionView {
    Connect { region: Seq<char>, sts_region: Seq<char> },
    GetCallerIdentity { region: Seq<char> },
    ProvideCredentials { region: Seq<char> },
    PublishImage { image: ImageView, registry: Seq<char>, env: Seq<EnvVarView> },
    Finish(Result<(), ErrorView>),
}

/// The model of [`crate::run::Event`].
pub enum EventView {
    Begin,
    Connected,
    CallerIdentity(Result<Option<Seq<char>>, Seq<char>>),
    Credentials(CredentialsReplyView),
    Published(Result<(), ErrorView>),
}

/// Where a run is, with what it knows there.
pub enum PhaseView {
    Ready,
    Connecting { target: nat },
    Identifying { target: nat },
    Authenticating { target: nat, account_id: Seq<char>, registry: Seq<char> },
    Publishing { target: nat, image: nat, registry: Seq<char>, env: Seq<EnvVarView> },
    Finished,
}

/// The model of [`crate::run::Run`].
pub struct RunView {
    pub images: Seq<ImageView>,
    pub targets: Seq<TargetView>,
    pub sts_region: Seq<char>,
    pub dry_run: bool,
    /// The labels of the publications that failed, in order.
    pub failures: Seq<Seq<char>>,
    pub phase: PhaseView,
}

/// Where a run is next, and what is reported and done on the way.
pub struct Transition {
    pub run: RunView,
    pub outputs: Seq<OutputView>,
    pub action: ActionView,
}

/// The environment that hands credentials to the image tool. The session token
/// is left out where there is none.
pub open spec fn credential_env_of(credentials: CredentialsView) -> Seq<EnvVarView> {
    let keys = seq![
        EnvVarView { name: "AWS_ACCESS_KEY_ID"@, value: credentials.access_key_id },
        EnvVarView { name: "AWS_SECRET_ACCESS_KEY"@, value: credentials.secret_access_key },
    ];
    match credentials.session_token {
        Some(token) => keys.push(EnvVarView { name: "AWS_SESSION_TOKEN"@, value: token }),
        None => keys,
    }
}

/// An image's source in words.
pub open spec fn source_text(source: SourceView) -> Seq<char> {
    match source {
        SourceView::Registry(uri) => uri,
        SourceView::OciArchive(path) => crate::paths::path_text(path),
    }
}

/// The line by which a dry run reports one image.
pub open spec fn dry_run_line_of(source: Seq<char>, destination: Seq<char>) -> Seq<char> {
    "[dry-run]   "@ + source + " -> "@ + destination
}

/// What a dry run reports of one region.
pub open spec fn dry_run_report(
    region: Seq<char>,
    account_id: Seq<char>,
    registry: Seq<char>,
    images: Seq<ImageView>,
) -> Seq<OutputView> {
    seq![OutputView::Info("[dry-run] "@ + region + " ("@ + account_id + "):"@)]
        + images.map_values(
        |image: ImageView|
            OutputView::Info(
                dry_run_line_of(
                    source_text(image.source),
                    crate::registry::image_name(registry, image),
                ),
            ),
    )
}

impl Transition {
    /// The same transition, with more to report before it.
    pub open spec fn reporting(self, outputs: Seq<OutputView>) -> Transition {
        Transition { outputs: outputs + self.outputs, ..self }
    }
}

impl RunView {
    /// The run is at a target and an image that it has.
    pub open spec fn wf(self) -> bool {
        match self.phase {
            PhaseView::Ready => true,
            PhaseView::Connecting { target } => target < self.targets.len(),
            PhaseView::Identifying { target } => target < self.targets.len(),
            PhaseView::Authenticating { target, .. } => target < self.targets.len(),
            PhaseView::Publishing { target, image, .. } => {
                &&& target < self.targets.len()
                &&& image < self.images.len()
            },
            PhaseView::Finished => true,
        }
    }

    /// Whether `event` answers what the run has asked for.
    pub open spec fn expects(self, event: EventView) -> bool {
        match self.phase {
            PhaseView::Ready => event is Begin,
            PhaseView::Connecting { .. } => event is Connected,
            PhaseView::Identifying { .. } => event is CallerIdentity,
            PhaseView::Authenticating { .. } => event is Credentials,
            PhaseView::Publishing { .. } => event is Published,
            PhaseView::Finished => false,
        }
    }

    /// How many publications the run consists of.
    pub open spec fn total(self) -> nat {
        self.targets.len() * self.images.len()
    }

    /// The same run in another phase.
    pub open spec fn with_phase(self, phase: PhaseView) -> RunView {
        RunView { phase, ..self }
    }

    /// The run ends with an error at once.
    pub open spec fn abort(self, error: ErrorView) -> Transition {
        Transition {
            run: self.with_phase(PhaseView::Finished),
            outputs: Seq::empty(),
            action: ActionView::Finish(Err(error)),
        }
    }

    /// The run has been through all of its targets.
    pub open spec fn complete(self) -> Transition {
        if self.failures.len() == 0 {
            Transition {
                run: self.with_phase(PhaseView::Finished),
                outputs: seq![
                    OutputView::FinishAndClear,
                    OutputView::Info(
                        "All "@ + crate::text::decimal(self.total()) + " targets succeeded"@,
                    ),
                ],
                action: ActionView::Finish(Ok(())),
            }
        } else {
            Transition {
                run: self.with_phase(PhaseView::Finished),
                outputs: seq![OutputView::FinishAndClear],
                action: ActionView::Finish(
                    Err(
                        ErrorView::PublishFailed {
                            count: self.failures.len(),
                            targets: crate::text::joined(self.failures, ", "@),
                        },
                    ),
                ),
            }
        }
    }

    /// The run turns to the given target, or ends where there is none.
    pub open spec fn enter(self, target: nat) -> Transition {
        if target < self.targets.len() {
            Transition {
                run: self.with_phase(PhaseView::Connecting { target }),
                outputs: Seq::empty(),
                action: ActionView::Connect {
                    region: self.targets[target as int].region,
                    sts_region: self.sts_region,
                },
            }
        } else {
            self.complete()
        }
    }

    /// The account of the target is known: a dry run reports what would be
    /// published and goes on to the next target, any other run asks for
    /// credentials.
    pub open spec fn with_account(self, target: nat, account_id: Seq<char>) -> Transition {
        let region = self.targets[target as int].region;
        let registry = crate::registry::registry_of(
            region,
            account_id,
            self.targets[target as int].role_arn,
        );
        if self.dry_run {
            self.enter(target + 1).reporting(
                dry_run_report(region, account_id, registry, self.images),
            )
        } else {
            Transition {
                run: self.with_phase(PhaseView::Authenticating { target, account_id, registry }),
                outputs: Seq::empty(),
                action: ActionView::ProvideCredentials { region },
            }
        }
    }

    /// The run turns to the given image of the target, or to the next target
    /// where there is none.
    pub open spec fn publish(
        self,
        target: nat,
        image: nat,
        registry: Seq<char>,
        env: Seq<EnvVarView>,
    ) -> Transition {
        if image < self.images.len() {
            Transition {
                run: self.with_phase(PhaseView::Publishing { target, image, registry, env }),
                outputs: Seq::empty(),
                action: ActionView::PublishImage {
                    image: self.images[image as int],
                    registry,
                    env,
                },
            }
        } else {
            self.enter(target + 1)
        }
    }

    /// The publication of the given image ended as `outcome`.
    pub open spec fn note(
        self,
        target: nat,
        image: nat,
        outcome: Result<(), ErrorView>,
    ) -> RunView {
        match outcome {
            Ok(_) => self,
            Err(_) => RunView { failures: self.failures.push(self.label(target, image)), ..self },
        }
    }

    /// What the publication of an image for a target is called.
    pub open spec fn label(self, target: nat, image: nat) -> Seq<char> {
        crate::registry::image_name(
            self.targets[target as int].region,
            self.images[image as int],
        )
    }

    /// What is reported of a publication that ended as `outcome`.
    pub open spec fn published_report(
        self,
        target: nat,
        image: nat,
        outcome: Result<(), ErrorView>,
    ) -> Seq<OutputView> {
        seq![
            OutputView::Println(
                match outcome {
                    Ok(_) => "  Published "@ + self.label(target, image),
                    Err(e) => "  FAILED "@ + self.label(target, image) + " - "@ + e.text(),
                },
            ),
            OutputView::Advance,
        ]
    }

    /// What follows from an event that the run expects.
    pub open spec fn after(self, event: EventView) -> Transition
        recommends
            self.expects(event),
    {
        match (self.phase, event) {
            (PhaseView::Ready, _) => self.enter(0).reporting(
                if self.dry_run {
                    seq![OutputView::Info("Dry-run mode enabled, no images will be published."@)]
                } else {
                    Seq::empty()
                },
            ),
            (PhaseView::Connecting { target }, _) => match crate::registry::account_of(
                self.targets[target as int].role_arn,
            ) {
                Some(account_id) => self.with_account(target, account_id),
                None => Transition {
                    run: self.with_phase(PhaseView::Identifying { target }),
                    outputs: Seq::empty(),
                    action: ActionView::GetCallerIdentity {
                        region: self.targets[target as int].region,
                    },
                },
            },
            (PhaseView::Identifying { target }, EventView::CallerIdentity(reply)) => match reply {
                Ok(Some(account_id)) => self.with_account(target, account_id),
                Ok(None) => self.abort(
                    ErrorView::MissingAccountId { region: self.targets[target as int].region },
                ),
                Err(source) => self.abort(
                    ErrorView::GetCallerIdentity {
                        region: self.targets[target as int].region,
                        source,
                    },
                ),
            },
            (
                PhaseView::Authenticating { target, account_id, registry },
                EventView::Credentials(reply),
            ) => match reply {
                CredentialsReplyView::NoProvider => self.abort(
                    ErrorView::MissingConfig { missing: "credentials provider"@ },
                ),
                CredentialsReplyView::Failed(source) => self.abort(
                    ErrorView::Credentials { region: self.targets[target as int].region, source },
                ),
                CredentialsReplyView::Provided(credentials) => self.publish(
                    target,
                    0,
                    registry,
                    credential_env_of(credentials),
                ).reporting(
                    seq![
                        OutputView::Println(
                            "Publishing to "@ + self.targets[target as int].region + " ("@
                                + account_id + ")"@,
                        ),
                    ],
                ),
            },
            (
                PhaseView::Publishing { target, image, registry, env },
                EventView::Published(outcome),
            ) => self.note(target, image, outcome).publish(
                target,
                image + 1,
                registry,
                env,
            ).reporting(self.published_report(target, image, outcome)),
            _ => arbitrary(),
        }
    }
}

/// A run that has not begun: the images for the regions of `config` that are
/// asked for.
pub open spec fn new_run(
    config: AwsConfigView,
    images: Seq<ImageView>,
    requested: Seq<Seq<char>>,
    dry_run: bool,
) -> RunView {
    RunView {
        images,
        targets: crate::config::selected(config.regions, requested).map_values(
            |region: Seq<char>| TargetView { region, role_arn: config.role_in(region) },
        ),
        sts_region: config.regions[0],
        dry_run,
        failures: Seq::empty(),
        phase: PhaseView::Ready,
    }
}

} // verus!
