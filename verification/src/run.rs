//! A whole run: every image to every region that was asked for.
//!
//! A [`Run`] says what is to be done next and what is to be reported, and takes
//! in what came of it. It goes through the regions in order and, in each of
//! them, through the images in order. An image that cannot be published is
//! noted and does not stop the run; a region whose account or credentials
//! cannot be had does.

use crate::config::{select_regions, AwsConfig};
use crate::error::{Error, ErrorView};
use crate::manifest;
use crate::manifest::{ResolvedImage, ResolvedSource};
use crate::model::{
    ActionView, CredentialsReplyView, CredentialsView, EnvVarView, EventView, OutputView, PhaseView,
    RunView, TargetView, Transition,
};
use crate::paths::show_path;
use crate::registry::{destination_uri, ecr_registry, job_label, role_account};
use crate::text::{decimal_text, join};
use vstd::prelude::*;
use vstd::string::*;

verus! {

/// Credentials for one region.
#[derive(Debug)]
pub struct Credentials {
    pub access_key_id: String,
    pub secret_access_key: String,
    pub session_token: Option<String>,
}

/// An environment variable of the image tool.
#[derive(Debug)]
pub struct EnvVar {
    pub name: String,
    pub value: String,
}

/// What came of asking for credentials.
#[derive(Debug)]
pub enum CredentialsReply {
    /// There is nobody to ask.
    NoProvider,
    /// They could not be had, with the reason.
    Failed(String),
    Provided(Credentials),
}

/// A region to publish to, with the role that is taken there.
#[derive(Debug)]
pub struct Target {
    pub region: String,
    pub role_arn: Option<String>,
}

/// What is reported while a run goes on.
#[derive(Debug)]
pub enum Output {
    /// A line for the log.
    Info(String),
    /// A line above the progress bar.
    Println(String),
    /// One more of the run's jobs is done.
    Advance,
    /// The progress bar is no longer needed.
    FinishAndClear,
}

/// What is to be done next in a run.
#[derive(Debug)]
pub enum Action {
    /// Prepare the services of `region`.
    Connect { region: String, sts_region: String },
    /// Ask in `region` which account the run belongs to.
    GetCallerIdentity { region: String },
    /// Ask for the credentials for `region`.
    ProvideCredentials { region: String },
    /// Publish `image` in `registry`, with `env` for the image tool.
    PublishImage { image: ResolvedImage, registry: String, env: Vec<EnvVar> },
    /// Nothing more: this is how the run ended.
    Finish(Result<(), Error>),
}

/// What came of an action.
#[derive(Debug)]
pub enum Event {
    /// The run begins.
    Begin,
    /// The services of the region are ready.
    Connected,
    /// The account, where the answer names one, or why there was no answer.
    CallerIdentity(Result<Option<String>, String>),
    Credentials(CredentialsReply),
    /// How the publication ended.
    Published(Result<(), Error>),
}

/// What is to be reported, in order, and what is to be done then.
#[derive(Debug)]
pub struct Step {
    pub outputs: Vec<Output>,
    pub action: Action,
}

#[derive(Debug, Clone, Copy, PartialEq, Eq, Structural)]
enum Phase {
    Ready,
    Connecting,
    Identifying,
    Authenticating,
    Publishing,
    Finished,
}

/// A run.
#[derive(Debug)]
pub struct Run {
    images: Vec<ResolvedImage>,
    targets: Vec<Target>,
    sts_region: String,
    dry_run: bool,
    total: usize,
    failures: Vec<String>,
    phase: Phase,
    /// The target that the run is at, and the image in it.
    target: usize,
    image: usize,
    account_id: String,
    registry: String,
    env: Vec<EnvVar>,
}

impl View for Credentials {
    type V = CredentialsView;

    open spec fn view(&self) -> CredentialsView {
        CredentialsView {
            access_key_id: self.access_key_id@,
            secret_access_key: self.secret_access_key@,
            session_token: crate::text::opt_view(self.session_token),
        }
    }
}

impl View for CredentialsReply {
    type V = CredentialsReplyView;

    open spec fn view(&self) -> CredentialsReplyView {
        match *self {
            CredentialsReply::NoProvider => CredentialsReplyView::NoProvider,
            CredentialsReply::Failed(reason) => CredentialsReplyView::Failed(reason@),
            CredentialsReply::Provided(credentials) => CredentialsReplyView::Provided(credentials@),
        }
    }
}

impl View for EnvVar {
    type V = EnvVarView;

    open spec fn view(&self) -> EnvVarView {
        EnvVarView { name: self.name@, value: self.value@ }
    }
}

impl View for Target {
    type V = TargetView;

    open spec fn view(&self) -> TargetView {
        TargetView { region: self.region@, role_arn: crate::text::opt_view(self.role_arn) }
    }
}

impl View for Output {
    type V = OutputView;

    open spec fn view(&self) -> OutputView {
        match *self {
            Output::Info(line) => OutputView::Info(line@),
            Output::Println(line) => OutputView::Println(line@),
            Output::Advance => OutputView::Advance,
            Output::FinishAndClear => OutputView::FinishAndClear,
        }
    }
}

impl View for Action {
    type V = ActionView;

    open spec fn view(&self) -> ActionView {
        match *self {
            Action::Connect { region, sts_region } => ActionView::Connect {
                region: region@,
                sts_region: sts_region@,
            },
            Action::GetCallerIdentity { region } => ActionView::GetCallerIdentity {
                region: region@,
            },
            Action::ProvideCredentials { region } => ActionView::ProvideCredentials {
                region: region@,
            },
            Action::PublishImage { image, registry, env } => ActionView::PublishImage {
                image: image@,
                registry: registry@,
                env: env_views(env@),
            },
            Action::Finish(r) => ActionView::Finish(crate::publish::outcome_view(r)),
        }
    }
}

impl View for Event {
    type V = EventView;

    open spec fn view(&self) -> EventView {
        match *self {
            Event::Begin => EventView::Begin,
            Event::Connected => EventView::Connected,
            Event::CallerIdentity(r) => EventView::CallerIdentity(
                match r {
                    Ok(account_id) => Ok(crate::text::opt_view(account_id)),
                    Err(reason) => Err(reason@),
                },
            ),
            Event::Credentials(reply) => EventView::Credentials(reply@),
            Event::Published(r) => EventView::Published(crate::publish::outcome_view(r)),
        }
    }
}

impl View for Run {
    type V = RunView;

    closed spec fn view(&self) -> RunView {
        RunView {
            images: crate::manifest::image_views(self.images@),
            targets: target_views(self.targets@),
            sts_region: self.sts_region@,
            dry_run: self.dry_run,
            failures: crate::text::views(self.failures@),
            phase: match self.phase {
                Phase::Ready => PhaseView::Ready,
                Phase::Connecting => PhaseView::Connecting { target: self.target as nat },
                Phase::Identifying => PhaseView::Identifying { target: self.target as nat },
                Phase::Authenticating => PhaseView::Authenticating {
                    target: self.target as nat,
                    account_id: self.account_id@,
                    registry: self.registry@,
                },
                Phase::Publishing => PhaseView::Publishing {
                    target: self.target as nat,
                    image: self.image as nat,
                    registry: self.registry@,
                    env: env_views(self.env@),
                },
                Phase::Finished => PhaseView::Finished,
            },
        }
    }
}

/// The models of a list of environment variables.
pub open spec fn env_views(env: Seq<EnvVar>) -> Seq<EnvVarView> {
    env.map_values(|var: EnvVar| var@)
}

/// The models of a list of targets.
pub open spec fn target_views(targets: Seq<Target>) -> Seq<TargetView> {
    targets.map_values(|target: Target| target@)
}

/// The models of a list of outputs.
pub open spec fn output_views(outputs: Seq<Output>) -> Seq<OutputView> {
    outputs.map_values(|output: Output| output@)
}

/// Whether a run and its step are what a transition says.
pub open spec fn realizes(run: RunView, step: Step, transition: Transition) -> bool {
    &&& run == transition.run
    &&& output_views(step.outputs@) == transition.outputs
    &&& step.action@ == transition.action
}

/// The environment that hands `credentials` to the image tool.
pub fn credential_env(credentials: &Credentials) -> (env: Vec<EnvVar>)
    ensures
        env_views(env@) == crate::model::credential_env_of(credentials@),
{
    let mut env: Vec<EnvVar> = Vec::new();
    env.push(
        EnvVar {
            name: "AWS_ACCESS_KEY_ID".to_owned(),
            value: credentials.access_key_id.clone(),
        },
    );
    env.push(
        EnvVar {
            name: "AWS_SECRET_ACCESS_KEY".to_owned(),
            value: credentials.secret_access_key.clone(),
        },
    );
    if let Some(token) = &credentials.session_token {
        env.push(EnvVar { name: "AWS_SESSION_TOKEN".to_owned(), value: token.clone() });
    }
    env
}

/// The line by which a dry run reports an image that would go from `source` to
/// `destination`.
pub fn dry_run_line(source: &str, destination: &str) -> (line: String)
    ensures
        line@ == crate::model::dry_run_line_of(source@, destination@),
{
    let mut line = "[dry-run]   ".to_owned();
    line.append(source);
    line.append(" -> ");
    line.append(destination);
    line
}

/// An image's source in words.
pub fn show_source(source: &ResolvedSource) -> (shown: String)
    ensures
        shown@ == crate::model::source_text(source@),
{
    match source {
        ResolvedSource::Registry(uri) => uri.clone(),
        ResolvedSource::OciArchive(path) => show_path(path),
    }
}

/// A copy of an environment.
fn clone_env(env: &Vec<EnvVar>) -> (copy: Vec<EnvVar>)
    ensures
        env_views(copy@) == env_views(env@),
{
    let mut copy: Vec<EnvVar> = Vec::new();
    for i in 0..env.len()
        invariant
            env_views(copy@) == env_views(env@).take(i as int),
    {
        copy.push(EnvVar { name: env[i].name.clone(), value: env[i].value.clone() });
        assert(env_views(env@).take(i + 1) == env_views(env@).take(i as int).push(
            env@[i as int]@,
        ));
    }
    copy
}

impl Run {
    /// The run is at a target and an image that it has, and knows its size.
    pub closed spec fn wf(&self) -> bool {
        &&& self@.wf()
        &&& self.total == self@.total()
    }

    /// A run that is well-formed has a well-formed model.
    pub proof fn lemma_wf(&self)
        requires
            self.wf(),
        ensures
            self@.wf(),
    {
    }

    /// The run ends with an error at once.
    fn abort(&mut self, error: Error) -> (step: Step)
        requires
            old(self).wf(),
        ensures
            final(self).wf(),
            realizes(final(self)@, step, old(self)@.abort(error@)),
    {
        self.phase = Phase::Finished;
        let outputs: Vec<Output> = Vec::new();
        assert(output_views(outputs@) == Seq::<OutputView>::empty());
        Step { outputs, action: Action::Finish(Err(error)) }
    }

    /// The run turns to the given target, or ends where there is none, after
    /// `outputs` are reported.
    fn enter(&mut self, target: usize, outputs: Vec<Output>) -> (step: Step)
        requires
            old(self).wf(),
        ensures
            final(self).wf(),
            realizes(
                final(self)@,
                step,
                old(self)@.enter(target as nat).reporting(output_views(outputs@)),
            ),
    {
        let mut outputs = outputs;
        let ghost reported = output_views(outputs@);
        if target < self.targets.len() {
            self.phase = Phase::Connecting;
            self.target = target;
            let action = Action::Connect {
                region: self.targets[target].region.clone(),
                sts_region: self.sts_region.clone(),
            };
            Step { outputs, action }
        } else {
            self.phase = Phase::Finished;
            outputs.push(Output::FinishAndClear);
            if self.failures.len() == 0 {
                let mut line = "All ".to_owned();
                line.append(decimal_text(self.total).as_str());
                line.append(" targets succeeded");
                outputs.push(Output::Info(line));
                assert(output_views(outputs@) == reported + seq![
                    OutputView::FinishAndClear,
                    OutputView::Info(line@),
                ]);
                Step { outputs, action: Action::Finish(Ok(())) }
            } else {
                assert(output_views(outputs@) == reported + seq![OutputView::FinishAndClear]);
                let error = Error::PublishFailed {
                    count: self.failures.len(),
                    targets: join(&self.failures, ", "),
                };
                Step { outputs, action: Action::Finish(Err(error)) }
            }
        }
    }

    /// The account of the present target is known.
    fn with_account(&mut self, account_id: String) -> (step: Step)
        requires
            old(self).wf(),
            old(self).target < old(self).targets@.len(),
        ensures
            final(self).wf(),
            realizes(
                final(self)@,
                step,
                old(self)@.with_account(old(self).target as nat, account_id@),
            ),
    {
        let target: usize = self.target;
        let ghost region = self@.targets[target as int].region;
        let role_arn: Option<&str> = match &self.targets[target].role_arn {
            Some(arn) => Some(arn.as_str()),
            None => None,
        };
        let registry = ecr_registry(
            self.targets[target].region.as_str(),
            account_id.as_str(),
            role_arn,
        );
        let mut outputs: Vec<Output> = Vec::new();
        if self.dry_run {
            let mut line = "[dry-run] ".to_owned();
            line.append(self.targets[target].region.as_str());
            line.append(" (");
            line.append(account_id.as_str());
            line.append("):");
            outputs.push(Output::Info(line));
            let ghost report = crate::model::dry_run_report(
                region,
                account_id@,
                registry@,
                self@.images,
            );
            for i in 0..self.images.len()
                invariant
                    report == crate::model::dry_run_report(
                        region,
                        account_id@,
                        registry@,
                        self@.images,
                    ),
                    output_views(outputs@) == report.take(i + 1),
            {
                let image = &self.images[i];
                let line = dry_run_line(
                    show_source(&image.source).as_str(),
                    destination_uri(registry.as_str(), image).as_str(),
                );
                outputs.push(Output::Info(line));
                assert(report.take(i + 2) == report.take(i + 1).push(report[i + 1]));
            }
            assert(report.take(report.len() as int) == report);
            assert(target < self.targets.len());
            self.enter(target + 1, outputs)
        } else {
            assert(output_views(outputs@) == Seq::<OutputView>::empty());
            let action = Action::ProvideCredentials {
                region: self.targets[target].region.clone(),
            };
            self.phase = Phase::Authenticating;
            self.account_id = account_id;
            self.registry = registry;
            Step { outputs, action }
        }
    }

    /// The run turns to the given image of the present target, or to the next
    /// target where there is none, after `outputs` are reported.
    fn publish(&mut self, image: usize, outputs: Vec<Output>) -> (step: Step)
        requires
            old(self).wf(),
            old(self).target < old(self).targets@.len(),
        ensures
            final(self).wf(),
            realizes(
                final(self)@,
                step,
                old(self)@.publish(
                    old(self).target as nat,
                    image as nat,
                    old(self).registry@,
                    env_views(old(self).env@),
                ).reporting(output_views(outputs@)),
            ),
    {
        if image < self.images.len() {
            self.phase = Phase::Publishing;
            self.image = image;
            let action = Action::PublishImage {
                image: self.images[image].clone(),
                registry: self.registry.clone(),
                env: clone_env(&self.env),
            };
            Step { outputs, action }
        } else {
            let target: usize = self.target;
            assert(target < self.targets.len());
            self.enter(target + 1, outputs)
        }
    }

    /// The publication of the present image ended as `outcome`.
    fn published(&mut self, outcome: Result<(), Error>) -> (step: Step)
        requires
            old(self).wf(),
            old(self).phase == Phase::Publishing,
        ensures
            final(self).wf(),
            realizes(
                final(self)@,
                step,
                old(self)@.after(EventView::Published(crate::publish::outcome_view(outcome))),
            ),
    {
        let image: usize = self.image;
        let label = job_label(
            self.targets[self.target].region.as_str(),
            &self.images[image],
        );
        let mut outputs: Vec<Output> = Vec::new();
        match outcome {
            Ok(_) => {
                let mut line = "  Published ".to_owned();
                line.append(label.as_str());
                outputs.push(Output::Println(line));
            },
            Err(e) => {
                let mut line = "  FAILED ".to_owned();
                line.append(label.as_str());
                line.append(" - ");
                line.append(e.message().as_str());
                outputs.push(Output::Println(line));
                self.failures.push(label);
                assert(crate::text::views(self.failures@) == crate::text::views(
                    old(self).failures@,
                ).push(label@));
            },
        }
        outputs.push(Output::Advance);
        assert(output_views(outputs@) == old(self)@.published_report(
            self.target as nat,
            image as nat,
            crate::publish::outcome_view(outcome),
        ));
        assert(image < self.images.len());
        self.publish(image + 1, outputs)
    }

    /// Takes in what came of the action that was asked for last, and says what
    /// is to be reported and done next.
    pub fn step(&mut self, event: Event) -> (step: Step)
        requires
            old(self).wf(),
            old(self)@.expects(event@),
        ensures
            final(self).wf(),
            final(self)@.wf(),
            realizes(final(self)@, step, old(self)@.after(event@)),
    {
        match event {
            Event::Begin => {
                let mut outputs: Vec<Output> = Vec::new();
                if self.dry_run {
                    outputs.push(
                        Output::Info(
                            "Dry-run mode enabled, no images will be published.".to_owned(),
                        ),
                    );
                    assert(output_views(outputs@) == seq![
                        OutputView::Info("Dry-run mode enabled, no images will be published."@),
                    ]);
                }
                self.enter(0, outputs)
            },
            Event::Connected => {
                let target: usize = self.target;
                let role_arn: Option<&str> = match &self.targets[target].role_arn {
                    Some(arn) => Some(arn.as_str()),
                    None => None,
                };
                match role_account(role_arn) {
                    Some(account_id) => self.with_account(account_id),
                    None => {
                        self.phase = Phase::Identifying;
                        let action = Action::GetCallerIdentity {
                            region: self.targets[target].region.clone(),
                        };
                        let outputs: Vec<Output> = Vec::new();
                        assert(output_views(outputs@) == Seq::<OutputView>::empty());
                        Step { outputs, action }
                    },
                }
            },
            Event::CallerIdentity(reply) => match reply {
                Ok(Some(account_id)) => self.with_account(account_id),
                Ok(None) => {
                    let region = self.targets[self.target].region.clone();
                    self.abort(Error::MissingAccountId { region })
                },
                Err(source) => {
                    let region = self.targets[self.target].region.clone();
                    self.abort(Error::GetCallerIdentity { region, source })
                },
            },
            Event::Credentials(reply) => match reply {
                CredentialsReply::NoProvider => self.abort(
                    Error::MissingConfig { missing: "credentials provider".to_owned() },
                ),
                CredentialsReply::Failed(source) => {
                    let region = self.targets[self.target].region.clone();
                    self.abort(Error::Credentials { region, source })
                },
                CredentialsReply::Provided(credentials) => {
                    self.env = credential_env(&credentials);
                    let mut line = "Publishing to ".to_owned();
                    line.append(self.targets[self.target].region.as_str());
                    line.append(" (");
                    line.append(self.account_id.as_str());
                    line.append(")");
                    let mut outputs: Vec<Output> = Vec::new();
                    outputs.push(Output::Println(line));
                    assert(output_views(outputs@) == seq![OutputView::Println(line@)]);
                    self.publish(0, outputs)
                },
            },
            Event::Published(outcome) => self.published(outcome),
        }
    }

    /// Whether `event` answers what the run has asked for last.
    pub fn expects(&self, event: &Event) -> (r: bool)
        ensures
            r == self@.expects(event@),
    {
        match (self.phase, event) {
            (Phase::Ready, Event::Begin) => true,
            (Phase::Connecting, Event::Connected) => true,
            (Phase::Identifying, Event::CallerIdentity(_)) => true,
            (Phase::Authenticating, Event::Credentials(_)) => true,
            (Phase::Publishing, Event::Published(_)) => true,
            _ => false,
        }
    }

    /// How many publications the run consists of.
    pub fn total(&self) -> (r: usize)
        requires
            self.wf(),
        ensures
            r == self@.total(),
    {
        self.total
    }

    /// The run that publishes `images` in the regions of `config` that are asked
    /// for, or in all of them where none is. It cannot be had where the images
    /// could not be resolved, nor where no region is configured.
    pub fn new(
        config: &AwsConfig,
        images: Result<Vec<ResolvedImage>, manifest::Error>,
        requested: &Vec<String>,
        dry_run: bool,
    ) -> (r: Result<Run, Error>)
        requires
            images matches Ok(list) ==> crate::config::selected(
                config@.regions,
                crate::text::views(requested@),
            ).len() * list@.len() <= usize::MAX,
        ensures
            match images {
                Err(source) => r matches Err(e) && e@ == (ErrorView::Manifest { source: source@ }),
                Ok(list) => if config@.regions.len() == 0 {
                    r matches Err(e) && e@ == (ErrorView::MissingConfig {
                        missing: "aws.regions"@,
                    })
                } else {
                    r matches Ok(run) && run.wf() && run@ == crate::model::new_run(
                        config@,
                        crate::manifest::image_views(list@),
                        crate::text::views(requested@),
                        dry_run,
                    )
                },
            },
    {
        let images = match images {
            Ok(images) => images,
            Err(source) => {
                return Err(Error::Manifest { source });
            },
        };
        if config.regions.len() == 0 {
            return Err(Error::MissingConfig { missing: "aws.regions".to_owned() });
        }
        let regions = select_regions(&config.regions, requested);
        let ghost names = crate::text::views(regions@);
        let mut targets: Vec<Target> = Vec::new();
        let ghost all = names.map_values(
            |region: Seq<char>| TargetView { region, role_arn: config@.role_in(region) },
        );
        for i in 0..regions.len()
            invariant
                names == crate::text::views(regions@),
                all == names.map_values(
                    |region: Seq<char>| TargetView { region, role_arn: config@.role_in(region) },
                ),
                target_views(targets@) == all.take(i as int),
        {
            targets.push(
                Target {
                    region: regions[i].clone(),
                    role_arn: config.role_in(regions[i].as_str()),
                },
            );
            assert(all.take(i + 1) == all.take(i as int).push(all[i as int]));
        }
        assert(all.take(all.len() as int) == all);
        let total: usize = regions.len() * images.len();
        let run = Run {
            images,
            targets,
            sts_region: config.regions[0].clone(),
            dry_run,
            total,
            failures: Vec::new(),
            phase: Phase::Ready,
            target: 0,
            image: 0,
            account_id: String::new(),
            registry: String::new(),
            env: Vec::new(),
        };
        assert(run@.failures == Seq::<Seq<char>>::empty());
        Ok(run)
    }
}

/// The models of what a run is told hold what the run is told.
pub proof fn lemma_event_models(
    credentials: Credentials,
    account_id: String,
    reason: String,
    reply: CredentialsReply,
    error: Error,
)
    ensures
        credentials@.access_key_id == credentials.access_key_id@,
        credentials@.secret_access_key == credentials.secret_access_key@,
        credentials.session_token matches Some(token) ==> credentials@.session_token == Some(
            token@,
        ),
        credentials.session_token is None ==> credentials@.session_token is None,
        CredentialsReply::NoProvider@ == CredentialsReplyView::NoProvider,
        CredentialsReply::Failed(reason)@ == CredentialsReplyView::Failed(reason@),
        CredentialsReply::Provided(credentials)@ == CredentialsReplyView::Provided(credentials@),
        Event::Begin@ == EventView::Begin,
        Event::Connected@ == EventView::Connected,
        Event::CallerIdentity(Ok(Some(account_id)))@ == EventView::CallerIdentity(
            Ok(Some(account_id@)),
        ),
        Event::CallerIdentity(Ok(None))@ == EventView::CallerIdentity(Ok(None)),
        Event::CallerIdentity(Err(reason))@ == EventView::CallerIdentity(Err(reason@)),
        Event::Credentials(reply)@ == EventView::Credentials(reply@),
        Event::Published(Ok(()))@ == EventView::Published(Ok(())),
        Event::Published(Err(error))@ == EventView::Published(Err(error@)),
{
}

/// The models of what a run reports and asks for hold what it reports and asks
/// for.
pub proof fn lemma_step_models(
    line: String,
    region: String,
    image: ResolvedImage,
    env: Vec<EnvVar>,
    error: Error,
    outputs: Seq<Output>,
)
    ensures
        Output::Info(line)@ == OutputView::Info(line@),
        Output::Println(line)@ == OutputView::Println(line@),
        Output::Advance@ == OutputView::Advance,
        Output::FinishAndClear@ == OutputView::FinishAndClear,
        (Action::Connect { region, sts_region: line })@ == (ActionView::Connect {
            region: region@,
            sts_region: line@,
        }),
        (Action::GetCallerIdentity { region })@ == (ActionView::GetCallerIdentity {
            region: region@,
        }),
        (Action::ProvideCredentials { region })@ == (ActionView::ProvideCredentials {
            region: region@,
        }),
        (Action::PublishImage { image, registry: line, env })@ == (ActionView::PublishImage {
            image: image@,
            registry: line@,
            env: env_views(env@),
        }),
        Action::Finish(Ok(()))@ == ActionView::Finish(Ok(())),
        Action::Finish(Err(error))@ == ActionView::Finish(Err(error@)),
        env_views(env@).len() == env@.len(),
        forall|i: int|
            0 <= i < env@.len() ==> {
                &&& (#[trigger] env_views(env@)[i]).name == env@[i].name@
                &&& env_views(env@)[i].value == env@[i].value@
            },
        output_views(outputs).len() == outputs.len(),
        forall|i: int|
            0 <= i < outputs.len() ==> #[trigger] output_views(outputs)[i] == outputs[i]@,
{
}

/// A step is what a transition says exactly where the run is where the transition
/// leads, and the step has the reports, in order, and the action of the
/// transition.
pub proof fn lemma_realizes(run: RunView, step: Step, transition: Transition)
    ensures
        realizes(run, step, transition) <==> {
            &&& run == transition.run
            &&& step.action@ == transition.action
            &&& step.outputs@.len() == transition.outputs.len()
            &&& forall|i: int|
                0 <= i < step.outputs@.len() ==> (#[trigger] step.outputs@[i])@
                    == transition.outputs[i]
        },
{
    let views = output_views(step.outputs@);
    if views.len() == transition.outputs.len() && (forall|i: int|
        0 <= i < step.outputs@.len() ==> (#[trigger] step.outputs@[i])@ == transition.outputs[i]) {
        assert forall|i: int| 0 <= i < views.len() implies views[i] == transition.outputs[i] by {
            assert(views[i] == step.outputs@[i]@);
        }
        assert(views == transition.outputs);
    }
    if realizes(run, step, transition) {
        assert forall|i: int| 0 <= i < step.outputs@.len() implies (#[trigger] step.outputs@[i])@
            == transition.outputs[i] by {
            assert(views[i] == step.outputs@[i]@);
        }
    }
}

} // verus!
