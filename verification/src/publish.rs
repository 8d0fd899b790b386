//! The publication of one image in one registry.
//!
//! A [`Publication`] says what is to be done next and takes in what came of it.
//! An image of a remote registry is pulled into a temporary directory and
//! pushed from there, an archive is pushed as it is. The first step that fails
//! ends the publication. A push counts as failed once its retries are used up.

use crate::error::{Error, ErrorView};
use crate::manifest::{ImageView, ResolvedImage, ResolvedSource, SourceView};
use crate::paths::clone_path;
use crate::registry::destination_uri;
use std::path::PathBuf;
use vstd::prelude::*;

verus! {

/// The step that a publication is at.
#[derive(Debug, Clone, Copy, PartialEq, Eq, Structural)]
pub enum Stage {
    /// A temporary directory is being created.
    TempDir,
    /// The image is being pulled into the temporary directory.
    Pull,
    /// The image is being pushed.
    Push,
    /// Nothing is left to do.
    Finished,
}

/// What is to be done next for a publication.
#[derive(Debug)]
pub enum PublishAction {
    /// Create a temporary directory for the image at `uri`.
    CreateTempDir { uri: String },
    /// Pull the image at `uri` into the temporary directory.
    Pull { uri: String },
    /// Push the image that was pulled.
    PushLayout { destination_uri: String },
    /// Push the archive at `path`.
    PushArchive { path: PathBuf, destination_uri: String },
    /// Nothing more: this is how the publication ended.
    Finish(Result<(), Error>),
}

/// The publication of one image in one registry.
#[derive(Debug)]
pub struct Publication {
    image: ResolvedImage,
    registry: String,
    stage: Stage,
}

/// The model of [`PublishAction`].
pub enum PublishActionView {
    CreateTempDir { uri: Seq<char> },
    Pull { uri: Seq<char> },
    PushLayout { destination_uri: Seq<char> },
    PushArchive { path: PathBuf, destination_uri: Seq<char> },
    Finish(Result<(), ErrorView>),
}

/// The model of [`Publication`].
pub struct PublicationView {
    pub image: ImageView,
    pub registry: Seq<char>,
    pub stage: Stage,
}

/// The model of a result that is an error of the library.
pub open spec fn outcome_view(r: Result<(), Error>) -> Result<(), ErrorView> {
    match r {
        Ok(_) => Ok(()),
        Err(e) => Err(e@),
    }
}

/// The model of a result that is an error of an outside service, in words.
pub open spec fn reply_view(r: Result<(), String>) -> Result<(), Seq<char>> {
    match r {
        Ok(_) => Ok(()),
        Err(reason) => Err(reason@),
    }
}

impl View for PublishAction {
    type V = PublishActionView;

    open spec fn view(&self) -> PublishActionView {
        match *self {
            PublishAction::CreateTempDir { uri } => PublishActionView::CreateTempDir { uri: uri@ },
            PublishAction::Pull { uri } => PublishActionView::Pull { uri: uri@ },
            PublishAction::PushLayout { destination_uri } => PublishActionView::PushLayout {
                destination_uri: destination_uri@,
            },
            PublishAction::PushArchive { path, destination_uri } => PublishActionView::PushArchive {
                path,
                destination_uri: destination_uri@,
            },
            PublishAction::Finish(r) => PublishActionView::Finish(outcome_view(r)),
        }
    }
}

impl PublishActionView {
    /// Whether the image tool gets the credentials of the destination for the
    /// action: it does for a push, and for nothing else.
    pub open spec fn takes_credentials(self) -> bool {
        self is PushLayout || self is PushArchive
    }
}

impl PublishAction {
    /// Whether the image tool gets the credentials of the destination for the
    /// action: it does for a push, and for nothing else.
    pub fn takes_credentials(&self) -> (r: bool)
        ensures
            r == (self@ is PushLayout || self@ is PushArchive),
            r == self@.takes_credentials(),
    {
        match self {
            PublishAction::PushLayout { .. } => true,
            PublishAction::PushArchive { .. } => true,
            _ => false,
        }
    }
}

impl View for Publication {
    type V = PublicationView;

    closed spec fn view(&self) -> PublicationView {
        PublicationView { image: self.image@, registry: self.registry@, stage: self.stage }
    }
}

/// A publication that has not done anything yet.
pub open spec fn new_publication(image: ImageView, registry: Seq<char>) -> PublicationView {
    PublicationView {
        image,
        registry,
        stage: match image.source {
            SourceView::Registry(_) => Stage::TempDir,
            SourceView::OciArchive(_) => Stage::Push,
        },
    }
}

impl PublicationView {
    /// Only an image of a remote registry is pulled.
    pub open spec fn wf(self) -> bool {
        self.stage == Stage::TempDir || self.stage == Stage::Pull ==> self.image.source is Registry
    }

    /// Where the image goes.
    pub open spec fn destination(self) -> Seq<char> {
        crate::registry::image_name(self.registry, self.image)
    }

    /// What is to be done at the stage that the publication is at, unless it is
    /// finished.
    pub open spec fn action(self) -> PublishActionView {
        match self.image.source {
            SourceView::Registry(uri) => match self.stage {
                Stage::TempDir => PublishActionView::CreateTempDir { uri },
                Stage::Pull => PublishActionView::Pull { uri },
                _ => PublishActionView::PushLayout { destination_uri: self.destination() },
            },
            SourceView::OciArchive(path) => PublishActionView::PushArchive {
                path,
                destination_uri: self.destination(),
            },
        }
    }

    /// How the publication ends where its present step fails for `reason`.
    pub open spec fn failure(self, reason: Seq<char>) -> ErrorView {
        match (self.stage, self.image.source) {
            (Stage::TempDir, SourceView::Registry(uri)) => ErrorView::PullTempDir {
                uri,
                source: reason,
            },
            _ => ErrorView::ImageTool { region: self.registry, source: reason },
        }
    }

    /// The stage after the present one.
    pub open spec fn next_stage(self) -> Stage {
        match self.stage {
            Stage::TempDir => Stage::Pull,
            Stage::Pull => Stage::Push,
            _ => Stage::Finished,
        }
    }

    /// The publication after its present step came out as `reply`.
    pub open spec fn after(self, reply: Result<(), Seq<char>>) -> PublicationView {
        match reply {
            Ok(_) => PublicationView { stage: self.next_stage(), ..self },
            Err(_) => PublicationView { stage: Stage::Finished, ..self },
        }
    }

    /// What is to be done after the present step came out as `reply`.
    pub open spec fn action_after(self, reply: Result<(), Seq<char>>) -> PublishActionView {
        match reply {
            Ok(_) => if self.next_stage() == Stage::Finished {
                PublishActionView::Finish(Ok(()))
            } else {
                self.after(reply).action()
            },
            Err(reason) => PublishActionView::Finish(Err(self.failure(reason))),
        }
    }
}

impl Publication {
    /// The publication of `image` in `registry`, and what it begins with.
    pub fn start(image: ResolvedImage, registry: &str) -> (r: (Publication, PublishAction))
        ensures
            r.0@ == new_publication(image@, registry@),
            r.0@.wf(),
            r.1@ == new_publication(image@, registry@).action(),
    {
        let stage = match &image.source {
            ResolvedSource::Registry(_) => Stage::TempDir,
            ResolvedSource::OciArchive(_) => Stage::Push,
        };
        let publication = Publication { image, registry: registry.to_owned(), stage };
        let action = publication.action();
        (publication, action)
    }

    /// Whether nothing is left to do.
    pub fn is_finished(&self) -> (r: bool)
        ensures
            r == (self@.stage == Stage::Finished),
    {
        self.stage == Stage::Finished
    }

    fn action(&self) -> (action: PublishAction)
        ensures
            action@ == self@.action(),
    {
        match &self.image.source {
            ResolvedSource::Registry(uri) => match self.stage {
                Stage::TempDir => PublishAction::CreateTempDir { uri: uri.clone() },
                Stage::Pull => PublishAction::Pull { uri: uri.clone() },
                _ => PublishAction::PushLayout {
                    destination_uri: destination_uri(self.registry.as_str(), &self.image),
                },
            },
            ResolvedSource::OciArchive(path) => PublishAction::PushArchive {
                path: clone_path(path),
                destination_uri: destination_uri(self.registry.as_str(), &self.image),
            },
        }
    }

    /// Takes in what came of the action that was asked for last, and says what
    /// is to be done next.
    pub fn step(&mut self, reply: Result<(), String>) -> (action: PublishAction)
        requires
            old(self)@.wf(),
            old(self)@.stage != Stage::Finished,
        ensures
            final(self)@ == old(self)@.after(reply_view(reply)),
            final(self)@.wf(),
            action@ == old(self)@.action_after(reply_view(reply)),
    {
        match reply {
            Ok(_) => {
                self.stage = match self.stage {
                    Stage::TempDir => Stage::Pull,
                    Stage::Pull => Stage::Push,
                    _ => Stage::Finished,
                };
                if self.is_finished() {
                    PublishAction::Finish(Ok(()))
                } else {
                    self.action()
                }
            },
            Err(source) => {
                let error = match (self.stage, &self.image.source) {
                    (Stage::TempDir, ResolvedSource::Registry(uri)) => Error::PullTempDir {
                        uri: uri.clone(),
                        source,
                    },
                    _ => Error::ImageTool { region: self.registry.clone(), source },
                };
                self.stage = Stage::Finished;
                PublishAction::Finish(Err(error))
            },
        }
    }
}

/// What comes of each of the steps of a publication, where it is taken.
pub struct PublishReplies {
    pub temp_dir: Result<(), Seq<char>>,
    pub pull: Result<(), Seq<char>>,
    pub push: Result<(), Seq<char>>,
}

impl PublishReplies {
    /// What comes of the step at the given stage.
    pub open spec fn at(self, stage: Stage) -> Result<(), Seq<char>> {
        match stage {
            Stage::TempDir => self.temp_dir,
            Stage::Pull => self.pull,
            _ => self.push,
        }
    }
}

impl PublicationView {
    /// How many steps are left at most.
    pub open spec fn steps_left(self) -> nat {
        match self.stage {
            Stage::TempDir => 3,
            Stage::Pull => 2,
            Stage::Push => 1,
            Stage::Finished => 0,
        }
    }

    /// All that is done from the present stage on.
    pub open spec fn course(self, replies: PublishReplies) -> Seq<PublishActionView>
        decreases self.steps_left(),
    {
        if self.stage == Stage::Finished {
            Seq::empty()
        } else {
            let reply = replies.at(self.stage);
            let next = self.after(reply);
            if next.stage == Stage::Finished {
                seq![self.action(), self.action_after(reply)]
            } else {
                seq![self.action()] + next.course(replies)
            }
        }
    }
}

/// The course of a publication, whatever comes of its steps: an image of a
/// remote registry is pulled into a fresh temporary directory before anything
/// is pushed, an archive is pushed at once, the first step that fails is the
/// last one and gives the error, and the publication succeeds if and only if
/// the push is reached and succeeds. The push takes the credentials of the
/// destination, and no other action does, the pull not either.
pub proof fn lemma_publication_course(
    image: ImageView,
    registry: Seq<char>,
    replies: PublishReplies,
)
    ensures
        ({
            let course = new_publication(image, registry).course(replies);
            let destination_uri = crate::registry::image_name(registry, image);
            let pushed = match replies.push {
                Ok(_) => PublishActionView::Finish(Ok(())),
                Err(source) => PublishActionView::Finish(
                    Err(ErrorView::ImageTool { region: registry, source }),
                ),
            };
            match image.source {
                SourceView::Registry(uri) => match (replies.temp_dir, replies.pull) {
                    (Err(source), _) => course == seq![
                        PublishActionView::CreateTempDir { uri },
                        PublishActionView::Finish(Err(ErrorView::PullTempDir { uri, source })),
                    ],
                    (Ok(_), Err(source)) => course == seq![
                        PublishActionView::CreateTempDir { uri },
                        PublishActionView::Pull { uri },
                        PublishActionView::Finish(
                            Err(ErrorView::ImageTool { region: registry, source }),
                        ),
                    ],
                    (Ok(_), Ok(_)) => course == seq![
                        PublishActionView::CreateTempDir { uri },
                        PublishActionView::Pull { uri },
                        PublishActionView::PushLayout { destination_uri },
                        pushed,
                    ],
                },
                SourceView::OciArchive(path) => course == seq![
                    PublishActionView::PushArchive { path, destination_uri },
                    pushed,
                ],
            }
        }),
        forall|i: int|
            0 <= i < new_publication(image, registry).course(replies).len() ==> {
                let action = #[trigger] new_publication(image, registry).course(replies)[i];
                action.takes_credentials() <==> i + 2 == new_publication(image, registry).course(
                    replies,
                ).len() && (image.source is Registry ==> replies.temp_dir is Ok && replies.pull is Ok)
            },
{
    reveal_with_fuel(PublicationView::course, 4);
}

/// The model of an action is of the same kind and holds what the action holds,
/// and the models of results keep success and failure apart.
pub proof fn lemma_publish_action_model(s: String, path: PathBuf, e: Error)
    ensures
        (PublishAction::CreateTempDir { uri: s })@ == (PublishActionView::CreateTempDir {
            uri: s@,
        }),
        (PublishAction::Pull { uri: s })@ == (PublishActionView::Pull { uri: s@ }),
        (PublishAction::PushLayout { destination_uri: s })@ == (PublishActionView::PushLayout {
            destination_uri: s@,
        }),
        (PublishAction::PushArchive { path, destination_uri: s })@ == (
        PublishActionView::PushArchive { path, destination_uri: s@ }),
        PublishAction::Finish(Ok(()))@ == PublishActionView::Finish(Ok(())),
        PublishAction::Finish(Err(e))@ == PublishActionView::Finish(Err(e@)),
        outcome_view(Ok(())) == Ok::<(), ErrorView>(()),
        outcome_view(Err(e)) == Err::<(), ErrorView>(e@),
        reply_view(Ok(())) == Ok::<(), Seq<char>>(()),
        reply_view(Err(s)) == Err::<(), Seq<char>>(s@),
{
}

} // verus!
