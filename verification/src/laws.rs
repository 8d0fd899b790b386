//! What holds of a run as a whole, whatever the outside services answer.

use crate::error::ErrorView;
use crate::manifest::ImageView;
use crate::model::{
    ActionView, CredentialsReplyView, CredentialsView, EnvVarView, EventView, OutputView, PhaseView,
    RunView, Transition,
};
use vstd::prelude::*;

verus! {

/// What the outside services answer during a run, by target and image, where
/// they are asked.
pub struct Replies {
    pub identity: spec_fn(nat) -> Result<Option<Seq<char>>, Seq<char>>,
    pub credentials: spec_fn(nat) -> CredentialsReplyView,
    pub publication: spec_fn(nat, nat) -> Result<(), ErrorView>,
}

/// All that is reported and done in a run, and how it ends.
pub struct Course {
    pub outputs: Seq<OutputView>,
    pub actions: Seq<ActionView>,
    pub outcome: Result<(), ErrorView>,
}

/// The event that answers what the run has asked for.
pub open spec fn answer(run: RunView, replies: Replies) -> EventView {
    match run.phase {
        PhaseView::Ready => EventView::Begin,
        PhaseView::Connecting { .. } => EventView::Connected,
        PhaseView::Identifying { target } => EventView::CallerIdentity((replies.identity)(target)),
        PhaseView::Authenticating { target, .. } => EventView::Credentials(
            (replies.credentials)(target),
        ),
        PhaseView::Publishing { target, image, .. } => EventView::Published(
            (replies.publication)(target, image),
        ),
        PhaseView::Finished => arbitrary(),
    }
}

/// How many targets are left, the present one among them.
pub open spec fn targets_left(run: RunView) -> nat {
    let from = |target: nat|
        if target < run.targets.len() {
            (run.targets.len() - target + 1) as nat
        } else {
            1
        };
    match run.phase {
        PhaseView::Ready => run.targets.len() + 2,
        PhaseView::Connecting { target } => from(target),
        PhaseView::Identifying { target } => from(target),
        PhaseView::Authenticating { target, .. } => from(target),
        PhaseView::Publishing { target, .. } => from(target),
        PhaseView::Finished => 0,
    }
}

/// How many kinds of questions are left at the present target.
pub open spec fn questions_left(run: RunView) -> nat {
    match run.phase {
        PhaseView::Connecting { .. } => 3,
        PhaseView::Identifying { .. } => 2,
        PhaseView::Authenticating { .. } => 1,
        _ => 0,
    }
}

/// How many images are left at the present target.
pub open spec fn images_left(run: RunView) -> nat {
    match run.phase {
        PhaseView::Publishing { image, .. } => if image < run.images.len() {
            (run.images.len() - image) as nat
        } else {
            0
        },
        _ => 0,
    }
}

/// The course of a run from a transition on. It is finite: each answer leaves
/// fewer targets, or fewer questions or images at the present one.
pub open spec fn follow(transition: Transition, replies: Replies) -> Course
    decreases
            targets_left(transition.run),
            questions_left(transition.run),
            images_left(transition.run),
{
    if transition.run.phase is Finished {
        Course {
            outputs: transition.outputs,
            actions: seq![transition.action],
            outcome: match transition.action {
                ActionView::Finish(outcome) => outcome,
                _ => arbitrary(),
            },
        }
    } else {
        let rest = follow(transition.run.after(answer(transition.run, replies)), replies);
        Course {
            outputs: transition.outputs + rest.outputs,
            actions: seq![transition.action] + rest.actions,
            outcome: rest.outcome,
        }
    }
}

/// The course of a run from its beginning.
pub open spec fn course(run: RunView, replies: Replies) -> Course {
    follow(run.after(EventView::Begin), replies)
}

/// The publications among the actions of a course, in order.
pub open spec fn publications(course: Course) -> Seq<ActionView> {
    course.actions.filter(|action: ActionView| action is PublishImage)
}

/// How far the progress bar advances in a course.
pub open spec fn progress(course: Course) -> nat {
    course.outputs.filter(|output: OutputView| output is Advance).len()
}

/// Whether the publication of an image for a target succeeds.
pub open spec fn succeeds(replies: Replies, target: nat, image: nat) -> bool {
    (replies.publication)(target, image) is Ok
}

/// The account of a target, or why it cannot be had.
pub open spec fn account(run: RunView, replies: Replies, target: nat) -> Result<
    Seq<char>,
    ErrorView,
> {
    let region = run.targets[target as int].region;
    match crate::registry::account_of(run.targets[target as int].role_arn) {
        Some(account_id) => Ok(account_id),
        None => match (replies.identity)(target) {
            Ok(Some(account_id)) => Ok(account_id),
            Ok(None) => Err(ErrorView::MissingAccountId { region }),
            Err(source) => Err(ErrorView::GetCallerIdentity { region, source }),
        },
    }
}

/// What keeps a run from working on a target at all, if anything does: a
/// missing account or, unless it is a dry run, missing credentials.
pub open spec fn obstacle(run: RunView, replies: Replies, target: nat) -> Option<ErrorView> {
    match account(run, replies, target) {
        Err(e) => Some(e),
        Ok(_) => if run.dry_run {
            None
        } else {
            match (replies.credentials)(target) {
                CredentialsReplyView::NoProvider => Some(
                    ErrorView::MissingConfig { missing: "credentials provider"@ },
                ),
                CredentialsReplyView::Failed(source) => Some(
                    ErrorView::Credentials { region: run.targets[target as int].region, source },
                ),
                CredentialsReplyView::Provided(_) => None,
            }
        },
    }
}

/// The registry of a target whose account can be had.
pub open spec fn registry(run: RunView, replies: Replies, target: nat) -> Seq<char> {
    crate::registry::registry_of(
        run.targets[target as int].region,
        account(run, replies, target)->Ok_0,
        run.targets[target as int].role_arn,
    )
}

/// The environment of the image tool for a target whose credentials can be had.
pub open spec fn env(replies: Replies, target: nat) -> Seq<EnvVarView> {
    crate::model::credential_env_of((replies.credentials)(target)->Provided_0)
}

/// The publication of each of the images in one registry.
pub open spec fn publications_in(
    images: Seq<ImageView>,
    registry: Seq<char>,
    env: Seq<EnvVarView>,
) -> Seq<ActionView> {
    images.map_values(|image: ImageView| ActionView::PublishImage { image, registry, env })
}

/// The publication of every image for each of the targets from `from` to before
/// `to`, target by target.
pub open spec fn publications_between(
    run: RunView,
    replies: Replies,
    from: nat,
    to: nat,
) -> Seq<ActionView>
    decreases to - from,
{
    if from < to {
        publications_in(run.images, registry(run, replies, from), env(replies, from))
            + publications_between(run, replies, from + 1, to)
    } else {
        Seq::empty()
    }
}

/// The labels of the publications for one target that fail, from the given
/// image on, in order.
pub open spec fn failed_at(run: RunView, replies: Replies, target: nat, image: nat) -> Seq<
    Seq<char>,
>
    decreases run.images.len() - image,
{
    if image < run.images.len() {
        let rest = failed_at(run, replies, target, image + 1);
        if succeeds(replies, target, image) {
            rest
        } else {
            seq![run.label(target, image)] + rest
        }
    } else {
        Seq::empty()
    }
}

/// The labels of the publications that fail for the targets from `from` to
/// before `to`, target by target.
pub open spec fn failed_between(run: RunView, replies: Replies, from: nat, to: nat) -> Seq<
    Seq<char>,
>
    decreases to - from,
{
    if from < to {
        failed_at(run, replies, from, 0) + failed_between(run, replies, from + 1, to)
    } else {
        Seq::empty()
    }
}

/// A run with more failures noted.
pub open spec fn with_failures(run: RunView, labels: Seq<Seq<char>>) -> RunView {
    RunView { failures: run.failures + labels, ..run }
}

/// What is reported before a transition is reported first, and changes nothing
/// else of the course.
proof fn lemma_follow_reporting(t: Transition, outputs: Seq<OutputView>, replies: Replies)
    ensures
        follow(t.reporting(outputs), replies) == (Course {
            outputs: outputs + follow(t, replies).outputs,
            ..follow(t, replies)
        }),
{
    let with = t.reporting(outputs);
    if !(t.run.phase is Finished) {
        let rest = follow(t.run.after(answer(t.run, replies)), replies);
        assert(outputs + t.outputs + rest.outputs == outputs + (t.outputs + rest.outputs));
    }
}

/// A filter keeps the first element of a sequence where it passes, before what it
/// keeps of the rest.
proof fn lemma_filter_front<A>(first: A, rest: Seq<A>, pred: spec_fn(A) -> bool)
    ensures
        (seq![first] + rest).filter(pred) == if pred(first) {
            seq![first] + rest.filter(pred)
        } else {
            rest.filter(pred)
        },
{
    Seq::filter_distributes_over_add(seq![first], rest, pred);
    reveal_with_fuel(Seq::filter, 2);
    assert(seq![first].drop_last() == Seq::<A>::empty());
}

/// From an image of a target on: the rest of the images are published, the
/// failed ones are noted, and the run goes on to the next target.
proof fn lemma_images(
    run: RunView,
    replies: Replies,
    target: nat,
    image: nat,
    registry: Seq<char>,
    env: Seq<EnvVarView>,
)
    requires
        image <= run.images.len(),
    ensures
        ({
            let here = follow(run.publish(target, image, registry, env), replies);
            let then = follow(
                with_failures(run, failed_at(run, replies, target, image)).enter(target + 1),
                replies,
            );
            &&& here.outcome == then.outcome
            &&& publications(here) == publications_in(
                run.images.skip(image as int),
                registry,
                env,
            ) + publications(then)
            &&& progress(here) == run.images.len() - image + progress(then)
        }),
    decreases run.images.len() - image,
{
    let t = run.publish(target, image, registry, env);
    let here = follow(t, replies);
    let failed = failed_at(run, replies, target, image);
    let then = follow(with_failures(run, failed).enter(target + 1), replies);
    if image < run.images.len() {
        let outcome = (replies.publication)(target, image);
        let noted = run.note(target, image, outcome);
        let next = noted.publish(target, image + 1, registry, env);
        let report = run.published_report(target, image, outcome);
        assert(t.run.after(answer(t.run, replies)) == next.reporting(report));
        lemma_follow_reporting(next, report, replies);
        let rest = follow(next, replies);
        lemma_images(noted, replies, target, image + 1, registry, env);
        lemma_failed_at_of_plan(noted, run, replies, target, image + 1);
        let rest_failed = failed_at(run, replies, target, image + 1);
        assert(with_failures(noted, rest_failed).failures == with_failures(run, failed).failures);
        assert(with_failures(noted, rest_failed).enter(target + 1) == with_failures(
            run,
            failed,
        ).enter(target + 1)) by {
            assert(with_failures(noted, rest_failed) == with_failures(run, failed));
        }
        let is_publication = |action: ActionView| action is PublishImage;
        let is_advance = |output: OutputView| output is Advance;
        assert(here.actions == seq![t.action] + rest.actions);
        assert(here.outputs == report + rest.outputs) by {
            assert(t.outputs + (report + rest.outputs) == report + rest.outputs);
        }
        lemma_filter_front(t.action, rest.actions, is_publication);
        assert(report + rest.outputs == seq![report[0]] + (seq![OutputView::Advance]
            + rest.outputs));
        lemma_filter_front(report[0], seq![OutputView::Advance] + rest.outputs, is_advance);
        lemma_filter_front(OutputView::Advance, rest.outputs, is_advance);
        assert(progress(here) == 1 + progress(rest));
        assert(publications_in(run.images.skip(image as int), registry, env) == seq![t.action]
            + publications_in(run.images.skip(image as int + 1), registry, env));
        assert(publications(here) == publications_in(
            run.images.skip(image as int),
            registry,
            env,
        ) + publications(then));
    } else {
        assert(run.images.skip(image as int) == Seq::<ImageView>::empty());
        assert(publications_in(run.images.skip(image as int), registry, env) == Seq::<
            ActionView,
        >::empty());
        assert(run.failures + failed == run.failures);
        assert(with_failures(run, failed) == run);
        assert(publications(then) == Seq::<ActionView>::empty() + publications(then));
    }
}

/// Which publications for a target fail depends on the images and targets of
/// the run alone.
proof fn lemma_failed_at_of_plan(a: RunView, b: RunView, replies: Replies, target: nat, image: nat)
    requires
        a.images == b.images,
        a.targets == b.targets,
    ensures
        failed_at(a, replies, target, image) == failed_at(b, replies, target, image),
    decreases a.images.len() - image,
{
    if image < a.images.len() {
        lemma_failed_at_of_plan(a, b, replies, target, image + 1);
    }
}

/// What is published, and what fails of it, depends on the images and targets
/// of the run alone.
proof fn lemma_between_of_plan(a: RunView, b: RunView, replies: Replies, from: nat, to: nat)
    requires
        a.images == b.images,
        a.targets == b.targets,
    ensures
        failed_between(a, replies, from, to) == failed_between(b, replies, from, to),
        publications_between(a, replies, from, to) == publications_between(b, replies, from, to),
    decreases to - from,
{
    if from < to {
        lemma_failed_at_of_plan(a, b, replies, from, 0);
        lemma_between_of_plan(a, b, replies, from + 1, to);
    }
}

/// Nothing is left of a sequence by a filter that none of its elements passes.
proof fn lemma_filter_nothing<A>(s: Seq<A>, pred: spec_fn(A) -> bool)
    requires
        forall|i: int| 0 <= i < s.len() ==> !pred(#[trigger] s[i]),
    ensures
        s.filter(pred) == Seq::<A>::empty(),
    decreases s.len(),
{
    reveal(Seq::filter);
    if s.len() > 0 {
        lemma_filter_nothing(s.drop_last(), pred);
    }
}

/// A transition that neither publishes nor advances adds nothing to what is
/// published and to the progress.
proof fn lemma_quiet_transition(t: Transition, replies: Replies)
    requires
        !(t.run.phase is Finished),
        !(t.action is PublishImage),
        forall|i: int| 0 <= i < t.outputs.len() ==> !(#[trigger] t.outputs[i] is Advance),
    ensures
        ({
            let here = follow(t, replies);
            let then = follow(t.run.after(answer(t.run, replies)), replies);
            &&& here.outcome == then.outcome
            &&& publications(here) == publications(then)
            &&& progress(here) == progress(then)
        }),
{
    let is_publication = |action: ActionView| action is PublishImage;
    let is_advance = |output: OutputView| output is Advance;
    let rest = follow(t.run.after(answer(t.run, replies)), replies);
    Seq::filter_distributes_over_add(seq![t.action], rest.actions, is_publication);
    Seq::filter_distributes_over_add(t.outputs, rest.outputs, is_advance);
    lemma_filter_nothing(seq![t.action], is_publication);
    lemma_filter_nothing(t.outputs, is_advance);
    assert(publications(follow(t, replies)) == publications(rest));
    assert(Seq::<OutputView>::empty() + rest.outputs.filter(is_advance)
        == rest.outputs.filter(is_advance));
}

/// Reporting something that is no advance changes neither what is published nor
/// the progress nor the outcome.
proof fn lemma_quiet_report(t: Transition, outputs: Seq<OutputView>, replies: Replies)
    requires
        forall|i: int| 0 <= i < outputs.len() ==> !(#[trigger] outputs[i] is Advance),
    ensures
        ({
            let here = follow(t.reporting(outputs), replies);
            let then = follow(t, replies);
            &&& here.outcome == then.outcome
            &&& publications(here) == publications(then)
            &&& progress(here) == progress(then)
        }),
{
    let is_advance = |output: OutputView| output is Advance;
    lemma_follow_reporting(t, outputs, replies);
    let rest = follow(t, replies).outputs;
    Seq::filter_distributes_over_add(outputs, rest, is_advance);
    lemma_filter_nothing(outputs, is_advance);
    assert(Seq::<OutputView>::empty() + rest.filter(is_advance) == rest.filter(is_advance));
}

/// A run that ends at once publishes nothing more.
proof fn lemma_abort(run: RunView, error: ErrorView, replies: Replies)
    ensures
        ({
            let here = follow(run.abort(error), replies);
            &&& here.outcome == Err::<(), ErrorView>(error)
            &&& publications(here) == Seq::<ActionView>::empty()
            &&& progress(here) == 0
        }),
{
    let is_publication = |action: ActionView| action is PublishImage;
    let is_advance = |output: OutputView| output is Advance;
    let here = follow(run.abort(error), replies);
    lemma_filter_nothing(here.actions, is_publication);
    lemma_filter_nothing(here.outputs, is_advance);
}

/// The transition of a run whose questions about the account of a target are
/// answered.
spec fn account_known(run: RunView, replies: Replies, target: nat) -> Transition {
    match account(run, replies, target) {
        Ok(account_id) => run.with_account(target, account_id),
        Err(e) => run.abort(e),
    }
}

/// Finding out the account of a target publishes nothing.
proof fn lemma_account(run: RunView, replies: Replies, target: nat)
    requires
        target < run.targets.len(),
    ensures
        ({
            let here = follow(run.enter(target), replies);
            let then = follow(account_known(run, replies, target), replies);
            &&& here.outcome == then.outcome
            &&& publications(here) == publications(then)
            &&& progress(here) == progress(then)
        }),
{
    let t = run.enter(target);
    lemma_quiet_transition(t, replies);
    let next = t.run.after(answer(t.run, replies));
    if crate::registry::account_of(run.targets[target as int].role_arn) is None {
        lemma_quiet_transition(next, replies);
    }
}

/// A target with nothing in its way: all images are published for it, unless it
/// is a dry run, the failed ones are noted, and the run goes on to the next
/// target.
proof fn lemma_target(run: RunView, replies: Replies, target: nat)
    requires
        target < run.targets.len(),
        obstacle(run, replies, target) is None,
    ensures
        ({
            let here = follow(run.enter(target), replies);
            let labels = if run.dry_run {
                Seq::empty()
            } else {
                failed_at(run, replies, target, 0)
            };
            let then = follow(with_failures(run, labels).enter(target + 1), replies);
            &&& here.outcome == then.outcome
            &&& run.dry_run ==> publications(here) == publications(then)
            &&& !run.dry_run ==> publications(here) == publications_in(
                run.images,
                registry(run, replies, target),
                env(replies, target),
            ) + publications(then)
            &&& progress(here) == (if run.dry_run {
                0
            } else {
                run.images.len()
            }) + progress(then)
        }),
{
    lemma_account(run, replies, target);
    let account_id = account(run, replies, target)->Ok_0;
    let region = run.targets[target as int].region;
    let place = registry(run, replies, target);
    let t = run.with_account(target, account_id);
    if run.dry_run {
        assert(with_failures(run, Seq::empty()) == run) by {
            assert(run.failures + Seq::<Seq<char>>::empty() == run.failures);
        }
        lemma_quiet_report(
            run.enter(target + 1),
            crate::model::dry_run_report(region, account_id, place, run.images),
            replies,
        );
    } else {
        lemma_quiet_transition(t, replies);
        let vars = env(replies, target);
        let begin = run.publish(target, 0, place, vars);
        let line = OutputView::Println("Publishing to "@ + region + " ("@ + account_id + ")"@);
        assert(t.run.after(answer(t.run, replies)) == begin.reporting(seq![line]));
        lemma_quiet_report(begin, seq![line], replies);
        lemma_images(run, replies, target, 0, place, vars);
        assert(run.images.skip(0) == run.images);
    }
}

/// A target with something in its way: the run ends there and publishes nothing
/// more.
proof fn lemma_stopped(run: RunView, replies: Replies, target: nat)
    requires
        target < run.targets.len(),
        obstacle(run, replies, target) is Some,
    ensures
        ({
            let here = follow(run.enter(target), replies);
            &&& here.outcome == Err::<(), ErrorView>(obstacle(run, replies, target)->0)
            &&& publications(here) == Seq::<ActionView>::empty()
            &&& progress(here) == 0
        }),
{
    lemma_account(run, replies, target);
    lemma_abort(run, obstacle(run, replies, target)->0, replies);
    if account(run, replies, target) is Ok {
        let t = run.with_account(target, account(run, replies, target)->Ok_0);
        lemma_quiet_transition(t, replies);
        assert(t.run.after(answer(t.run, replies)) == run.abort(
            obstacle(run, replies, target)->0,
        ));
    }
}

/// Some targets with nothing in their way, one after the other.
proof fn lemma_targets(run: RunView, replies: Replies, from: nat, to: nat)
    requires
        from <= to <= run.targets.len(),
        forall|n: nat| from <= n < to ==> #[trigger] obstacle(run, replies, n) is None,
    ensures
        ({
            let here = follow(run.enter(from), replies);
            let labels = if run.dry_run {
                Seq::empty()
            } else {
                failed_between(run, replies, from, to)
            };
            let then = follow(with_failures(run, labels).enter(to), replies);
            &&& here.outcome == then.outcome
            &&& run.dry_run ==> publications(here) == publications(then)
            &&& !run.dry_run ==> publications(here) == publications_between(
                run,
                replies,
                from,
                to,
            ) + publications(then)
            &&& progress(here) == (if run.dry_run {
                0
            } else {
                (to - from) * run.images.len()
            }) + progress(then)
        }),
    decreases to - from,
{
    let labels = if run.dry_run {
        Seq::empty()
    } else {
        failed_between(run, replies, from, to)
    };
    let then = follow(with_failures(run, labels).enter(to), replies);
    if from < to {
        let first = if run.dry_run {
            Seq::empty()
        } else {
            failed_at(run, replies, from, 0)
        };
        let next = with_failures(run, first);
        lemma_target(run, replies, from);
        assert forall|n: nat| from + 1 <= n < to implies #[trigger] obstacle(
            next,
            replies,
            n,
        ) is None by {
            assert(obstacle(run, replies, n) is None);
        }
        lemma_targets(next, replies, from + 1, to);
        lemma_between_of_plan(next, run, replies, from + 1, to);
        let others = if run.dry_run {
            Seq::empty()
        } else {
            failed_between(run, replies, from + 1, to)
        };
        assert(with_failures(next, others).failures == with_failures(run, labels).failures);
        assert(with_failures(next, others) == with_failures(run, labels));
        let here = publications_in(
            run.images,
            registry(run, replies, from),
            env(replies, from),
        );
        let later = publications_between(run, replies, from + 1, to);
        assert(here + (later + publications(then)) == here + later + publications(then));
        assert((to - from) * run.images.len() == run.images.len() + (to - (from + 1))
            * run.images.len()) by (nonlinear_arith)
            requires
                from < to,
        ;
    } else {
        assert(run.failures + labels == run.failures);
        assert(with_failures(run, labels) == run);
        assert(Seq::<ActionView>::empty() + publications(then) == publications(then));
        assert((to - from) * run.images.len() == 0) by (nonlinear_arith)
            requires
                from == to,
        ;
    }
}

/// The beginning of a run publishes nothing.
proof fn lemma_begin(run: RunView, replies: Replies)
    requires
        run.phase is Ready,
    ensures
        ({
            let here = course(run, replies);
            let then = follow(run.enter(0), replies);
            &&& here.outcome == then.outcome
            &&& publications(here) == publications(then)
            &&& progress(here) == progress(then)
        }),
{
    let line = OutputView::Info("Dry-run mode enabled, no images will be published."@);
    let outputs = if run.dry_run {
        seq![line]
    } else {
        Seq::empty()
    };
    assert(run.after(EventView::Begin) == run.enter(0).reporting(outputs));
    lemma_quiet_report(run.enter(0), outputs, replies);
}

/// No publication for a target is among the failed ones if and only if each one
/// succeeds.
proof fn lemma_none_failed_at(run: RunView, replies: Replies, target: nat, image: nat)
    ensures
        failed_at(run, replies, target, image).len() == 0 <==> (forall|i: nat|
            image <= i < run.images.len() ==> #[trigger] succeeds(replies, target, i)),
        failed_at(run, replies, target, image).len() <= (if image < run.images.len() {
            run.images.len() - image
        } else {
            0
        }),
    decreases run.images.len() - image,
{
    if image < run.images.len() {
        lemma_none_failed_at(run, replies, target, image + 1);
        assert((forall|i: nat|
            image <= i < run.images.len() ==> #[trigger] succeeds(replies, target, i)) <==> succeeds(
            replies,
            target,
            image,
        ) && (forall|i: nat|
            image + 1 <= i < run.images.len() ==> #[trigger] succeeds(replies, target, i)));
    }
}

/// No publication is among the failed ones if and only if each one succeeds, and
/// no more can fail than there are.
pub proof fn lemma_none_failed(run: RunView, replies: Replies, from: nat, to: nat)
    requires
        from <= to,
    ensures
        failed_between(run, replies, from, to).len() == 0 <==> (forall|t: nat, i: nat|
            from <= t < to && i < run.images.len() ==> #[trigger] succeeds(replies, t, i)),
        failed_between(run, replies, from, to).len() <= (to - from) * run.images.len(),
    decreases to - from,
{
    if from < to {
        lemma_none_failed_at(run, replies, from, 0);
        lemma_none_failed(run, replies, from + 1, to);
        let here = failed_at(run, replies, from, 0);
        let later = failed_between(run, replies, from + 1, to);
        assert(failed_between(run, replies, from, to) == here + later);
        assert((to - from) * run.images.len() == run.images.len() + (to - (from + 1))
            * run.images.len()) by (nonlinear_arith)
            requires
                from < to,
        ;
        if here.len() == 0 && later.len() == 0 {
            assert forall|t: nat, i: nat| from <= t < to && i < run.images.len() implies #[trigger]
            succeeds(replies, t, i) by {
                if t == from {
                    assert(succeeds(replies, from, i));
                }
            }
        }
    } else {
        assert((to - from) * run.images.len() == 0) by (nonlinear_arith)
            requires
                from == to,
        ;
    }
}

/// A run in whose way nothing is goes through all of its targets, whatever
/// becomes of the single publications. Every image is published for every
/// target, target by target, each time under the target's registry and with its
/// credentials, and the progress bar reaches its end. The run succeeds if and
/// only if every publication does, and its error else counts those that failed
/// and names them in order. A dry run publishes nothing and succeeds.
pub proof fn lemma_complete_run(run: RunView, replies: Replies)
    requires
        run.phase is Ready,
        run.failures.len() == 0,
        forall|n: nat| n < run.targets.len() ==> #[trigger] obstacle(run, replies, n) is None,
    ensures
        ({
            let all = course(run, replies);
            let labels = failed_between(run, replies, 0, run.targets.len());
            if run.dry_run {
                &&& all.outcome is Ok
                &&& publications(all).len() == 0
                &&& progress(all) == 0
            } else {
                &&& all.outcome == (if labels.len() == 0 {
                    Ok::<(), ErrorView>(())
                } else {
                    Err(
                        ErrorView::PublishFailed {
                            count: labels.len(),
                            targets: crate::text::joined(labels, ", "@),
                        },
                    )
                })
                &&& all.outcome is Ok <==> (forall|t: nat, i: nat|
                    t < run.targets.len() && i < run.images.len() ==> #[trigger] succeeds(
                        replies,
                        t,
                        i,
                    ))
                &&& publications(all) == publications_between(
                    run,
                    replies,
                    0,
                    run.targets.len(),
                )
                &&& progress(all) == run.total()
            }
        }),
{
    let labels = if run.dry_run {
        Seq::empty()
    } else {
        failed_between(run, replies, 0, run.targets.len())
    };
    lemma_begin(run, replies);
    lemma_targets(run, replies, 0, run.targets.len());
    lemma_none_failed(run, replies, 0, run.targets.len());
    let last = with_failures(run, labels);
    assert(last.failures == labels);
    let end = follow(last.enter(run.targets.len()), replies);
    lemma_filter_nothing(end.actions, |action: ActionView| action is PublishImage);
    lemma_filter_nothing(end.outputs, |output: OutputView| output is Advance);
    assert(publications_between(run, replies, 0, run.targets.len()) + Seq::<ActionView>::empty()
        == publications_between(run, replies, 0, run.targets.len()));
}

/// A run ends at the first target in whose way something is, with that error,
/// whatever failed before. Up to there every image is published for every
/// target, unless it is a dry run, and nothing is published from there on.
pub proof fn lemma_stopped_run(run: RunView, replies: Replies, target: nat)
    requires
        run.phase is Ready,
        target < run.targets.len(),
        obstacle(run, replies, target) is Some,
        forall|n: nat| n < target ==> #[trigger] obstacle(run, replies, n) is None,
    ensures
        ({
            let all = course(run, replies);
            &&& all.outcome == Err::<(), ErrorView>(obstacle(run, replies, target)->0)
            &&& publications(all) == (if run.dry_run {
                Seq::empty()
            } else {
                publications_between(run, replies, 0, target)
            })
            &&& progress(all) == publications(all).len()
        }),
{
    let labels = if run.dry_run {
        Seq::empty()
    } else {
        failed_between(run, replies, 0, target)
    };
    lemma_begin(run, replies);
    lemma_targets(run, replies, 0, target);
    let last = with_failures(run, labels);
    assert(obstacle(last, replies, target) == obstacle(run, replies, target));
    lemma_stopped(last, replies, target);
    lemma_publications_count(run, replies, 0, target);
    assert(publications_between(run, replies, 0, target) + Seq::<ActionView>::empty()
        == publications_between(run, replies, 0, target));
}

/// Each target has as many publications as there are images.
pub proof fn lemma_publications_count(run: RunView, replies: Replies, from: nat, to: nat)
    requires
        from <= to,
    ensures
        publications_between(run, replies, from, to).len() == (to - from) * run.images.len(),
    decreases to - from,
{
    if from < to {
        lemma_publications_count(run, replies, from + 1, to);
        assert((to - from) * run.images.len() == run.images.len() + (to - (from + 1))
            * run.images.len()) by (nonlinear_arith)
            requires
                from < to,
        ;
    } else {
        assert((to - from) * run.images.len() == 0) by (nonlinear_arith)
            requires
                from == to,
        ;
    }
}

/// The publication of a given image for a given target stands at its place:
/// after those of all images for the targets before it, and after those of the
/// images before it for the same target.
pub proof fn lemma_publication_place(
    run: RunView,
    replies: Replies,
    from: nat,
    to: nat,
    target: nat,
    image: nat,
)
    requires
        from <= target < to,
        image < run.images.len(),
    ensures
        0 <= (target - from) * run.images.len() + image < publications_between(
            run,
            replies,
            from,
            to,
        ).len(),
        publications_between(run, replies, from, to)[(target - from) * run.images.len() + image]
            == (ActionView::PublishImage {
            image: run.images[image as int],
            registry: registry(run, replies, target),
            env: env(replies, target),
        }),
    decreases to - from,
{
    let images = run.images.len();
    lemma_publications_count(run, replies, from + 1, to);
    if from == target {
        assert((target - from) * images == 0) by (nonlinear_arith)
            requires
                from == target,
        ;
    } else {
        lemma_publication_place(run, replies, from + 1, to, target, image);
        assert((target - from) * images == images + (target - (from + 1)) * images)
            by (nonlinear_arith);
    }
}

/// Whether an action is one that a dry run has no need of.
pub open spec fn touches_registry(action: ActionView) -> bool {
    action is ProvideCredentials || action is PublishImage
}

/// From any target on, a dry run neither asks for credentials nor publishes.
proof fn lemma_dry_targets(run: RunView, replies: Replies, target: nat)
    requires
        run.dry_run,
        target <= run.targets.len(),
    ensures
        forall|i: int|
            0 <= i < follow(run.enter(target), replies).actions.len() ==> !touches_registry(
                #[trigger] follow(run.enter(target), replies).actions[i],
            ),
    decreases run.targets.len() - target,
{
    if target < run.targets.len() {
        let t = run.enter(target);
        let next = t.run.after(answer(t.run, replies));
        lemma_dry_targets(run, replies, target + 1);
        if account(run, replies, target) is Ok {
            let account_id = account(run, replies, target)->Ok_0;
            lemma_follow_reporting(
                run.enter(target + 1),
                crate::model::dry_run_report(
                    run.targets[target as int].region,
                    account_id,
                    registry(run, replies, target),
                    run.images,
                ),
                replies,
            );
            assert(follow(run.with_account(target, account_id), replies).actions == follow(
                run.enter(target + 1),
                replies,
            ).actions);
        }
        if crate::registry::account_of(run.targets[target as int].role_arn) is None {
            assert(next.run.after(answer(next.run, replies)) == account_known(
                run,
                replies,
                target,
            ));
            assert(follow(t, replies).actions == seq![t.action] + (seq![next.action] + follow(
                account_known(run, replies, target),
                replies,
            ).actions));
        } else {
            assert(next == account_known(run, replies, target));
            assert(follow(t, replies).actions == seq![t.action] + follow(next, replies).actions);
        }
    }
}

/// A dry run never asks for credentials and never publishes, whatever the
/// services answer, in a run that ends early too.
pub proof fn lemma_dry_run_touches_no_registry(run: RunView, replies: Replies)
    requires
        run.phase is Ready,
        run.dry_run,
    ensures
        forall|i: int|
            0 <= i < course(run, replies).actions.len() ==> !touches_registry(
                #[trigger] course(run, replies).actions[i],
            ),
{
    let line = OutputView::Info("Dry-run mode enabled, no images will be published."@);
    assert(run.after(EventView::Begin) == run.enter(0).reporting(seq![line]));
    lemma_follow_reporting(run.enter(0), seq![line], replies);
    lemma_dry_targets(run, replies, 0);
}

/// What is reported of the publications for one target, from the given image on:
/// how each of them ended, in order.
pub open spec fn image_reports(run: RunView, replies: Replies, target: nat, image: nat) -> Seq<
    OutputView,
>
    decreases run.images.len() - image,
{
    if image < run.images.len() {
        run.published_report(target, image, (replies.publication)(target, image))
            + image_reports(run, replies, target, image + 1)
    } else {
        Seq::empty()
    }
}

/// What is reported of one target in whose way nothing is: by a dry run what
/// would be published, and by any other run the target's account and how each
/// publication ended.
pub open spec fn target_report(run: RunView, replies: Replies, target: nat) -> Seq<OutputView> {
    let region = run.targets[target as int].region;
    let account_id = account(run, replies, target)->Ok_0;
    if run.dry_run {
        crate::model::dry_run_report(
            region,
            account_id,
            registry(run, replies, target),
            run.images,
        )
    } else {
        seq![OutputView::Println("Publishing to "@ + region + " ("@ + account_id + ")"@)]
            + image_reports(run, replies, target, 0)
    }
}

/// What is reported of the targets from `from` to before `to`, target by target.
pub open spec fn reports_between(run: RunView, replies: Replies, from: nat, to: nat) -> Seq<
    OutputView,
>
    decreases to - from,
{
    if from < to {
        target_report(run, replies, from) + reports_between(run, replies, from + 1, to)
    } else {
        Seq::empty()
    }
}

/// What a run reports before its first target.
pub open spec fn first_report(run: RunView) -> Seq<OutputView> {
    if run.dry_run {
        seq![OutputView::Info("Dry-run mode enabled, no images will be published."@)]
    } else {
        Seq::empty()
    }
}

/// The labels that a run has noted as failed after the targets from `from` to
/// before `to`.
pub open spec fn noted_between(run: RunView, replies: Replies, from: nat, to: nat) -> Seq<
    Seq<char>,
> {
    if run.dry_run {
        Seq::empty()
    } else {
        failed_between(run, replies, from, to)
    }
}

/// What is reported of publications depends on the images and targets of the
/// run alone.
proof fn lemma_image_reports_of_plan(
    a: RunView,
    b: RunView,
    replies: Replies,
    target: nat,
    image: nat,
)
    requires
        a.images == b.images,
        a.targets == b.targets,
    ensures
        image_reports(a, replies, target, image) == image_reports(b, replies, target, image),
    decreases a.images.len() - image,
{
    if image < a.images.len() {
        lemma_image_reports_of_plan(a, b, replies, target, image + 1);
    }
}

/// What is reported of targets depends on the images and targets of the run
/// and on whether it is a dry run alone.
proof fn lemma_reports_of_plan(a: RunView, b: RunView, replies: Replies, from: nat, to: nat)
    requires
        a.images == b.images,
        a.targets == b.targets,
        a.dry_run == b.dry_run,
    ensures
        reports_between(a, replies, from, to) == reports_between(b, replies, from, to),
    decreases to - from,
{
    if from < to {
        lemma_image_reports_of_plan(a, b, replies, from, 0);
        lemma_reports_of_plan(a, b, replies, from + 1, to);
    }
}

/// What is reported from an image of a target on.
proof fn lemma_image_reports(
    run: RunView,
    replies: Replies,
    target: nat,
    image: nat,
    registry: Seq<char>,
    env: Seq<EnvVarView>,
)
    requires
        image <= run.images.len(),
    ensures
        follow(run.publish(target, image, registry, env), replies).outputs == image_reports(
            run,
            replies,
            target,
            image,
        ) + follow(
            with_failures(run, failed_at(run, replies, target, image)).enter(target + 1),
            replies,
        ).outputs,
    decreases run.images.len() - image,
{
    let t = run.publish(target, image, registry, env);
    let failed = failed_at(run, replies, target, image);
    let then = follow(with_failures(run, failed).enter(target + 1), replies).outputs;
    if image < run.images.len() {
        let outcome = (replies.publication)(target, image);
        let noted = run.note(target, image, outcome);
        let next = noted.publish(target, image + 1, registry, env);
        let report = run.published_report(target, image, outcome);
        let rest_failed = failed_at(run, replies, target, image + 1);
        let rest_reports = image_reports(run, replies, target, image + 1);
        assert(t.run.after(answer(t.run, replies)) == next.reporting(report));
        lemma_follow_reporting(next, report, replies);
        lemma_image_reports(noted, replies, target, image + 1, registry, env);
        lemma_failed_at_of_plan(noted, run, replies, target, image + 1);
        lemma_image_reports_of_plan(noted, run, replies, target, image + 1);
        assert(with_failures(noted, rest_failed).failures == with_failures(run, failed).failures);
        assert(with_failures(noted, rest_failed) == with_failures(run, failed));
        assert(follow(next, replies).outputs == rest_reports + then);
        assert(follow(t, replies).outputs == Seq::<OutputView>::empty() + (report + (rest_reports
            + then)));
        assert(report + (rest_reports + then) == report + rest_reports + then);
    } else {
        assert(run.failures + failed == run.failures);
        assert(with_failures(run, failed) == run);
    }
}

/// Nothing is reported while the account of a target is found out.
proof fn lemma_account_report(run: RunView, replies: Replies, target: nat)
    requires
        target < run.targets.len(),
    ensures
        follow(run.enter(target), replies).outputs == follow(
            account_known(run, replies, target),
            replies,
        ).outputs,
{
    let t = run.enter(target);
    let next = t.run.after(answer(t.run, replies));
    let known = account_known(run, replies, target);
    if crate::registry::account_of(run.targets[target as int].role_arn) is None {
        assert(next.run.after(answer(next.run, replies)) == known);
        assert(follow(next, replies).outputs == Seq::<OutputView>::empty() + follow(
            known,
            replies,
        ).outputs);
    } else {
        assert(next == known);
    }
    assert(follow(t, replies).outputs == Seq::<OutputView>::empty() + follow(
        next,
        replies,
    ).outputs);
}

/// What is reported from a target on in whose way nothing is.
proof fn lemma_target_report(run: RunView, replies: Replies, target: nat)
    requires
        target < run.targets.len(),
        obstacle(run, replies, target) is None,
    ensures
        ({
            let labels = if run.dry_run {
                Seq::empty()
            } else {
                failed_at(run, replies, target, 0)
            };
            follow(run.enter(target), replies).outputs == target_report(run, replies, target)
                + follow(with_failures(run, labels).enter(target + 1), replies).outputs
        }),
{
    lemma_account_report(run, replies, target);
    let account_id = account(run, replies, target)->Ok_0;
    let region = run.targets[target as int].region;
    let place = registry(run, replies, target);
    let t = run.with_account(target, account_id);
    if run.dry_run {
        assert(run.failures + Seq::<Seq<char>>::empty() == run.failures);
        assert(with_failures(run, Seq::empty()) == run);
        lemma_follow_reporting(
            run.enter(target + 1),
            target_report(run, replies, target),
            replies,
        );
    } else {
        let vars = env(replies, target);
        let begin = run.publish(target, 0, place, vars);
        let line = OutputView::Println("Publishing to "@ + region + " ("@ + account_id + ")"@);
        assert(t.run.after(answer(t.run, replies)) == begin.reporting(seq![line]));
        lemma_follow_reporting(begin, seq![line], replies);
        lemma_image_reports(run, replies, target, 0, place, vars);
        let reports = image_reports(run, replies, target, 0);
        let then = follow(
            with_failures(run, failed_at(run, replies, target, 0)).enter(target + 1),
            replies,
        ).outputs;
        assert(follow(t, replies).outputs == Seq::<OutputView>::empty() + (seq![line] + (reports
            + then)));
        assert(seq![line] + (reports + then) == seq![line] + reports + then);
    }
}

/// What is reported from a target in whose way something is: nothing.
proof fn lemma_stopped_report(run: RunView, replies: Replies, target: nat)
    requires
        target < run.targets.len(),
        obstacle(run, replies, target) is Some,
    ensures
        follow(run.enter(target), replies).outputs == Seq::<OutputView>::empty(),
{
    lemma_account_report(run, replies, target);
    if account(run, replies, target) is Ok {
        let t = run.with_account(target, account(run, replies, target)->Ok_0);
        let end = run.abort(obstacle(run, replies, target)->0);
        assert(t.run.after(answer(t.run, replies)) == end);
        assert(follow(t, replies).outputs == Seq::<OutputView>::empty() + follow(
            end,
            replies,
        ).outputs);
    }
}

/// What is reported of some targets with nothing in their way.
proof fn lemma_reports_between(run: RunView, replies: Replies, from: nat, to: nat)
    requires
        from <= to <= run.targets.len(),
        forall|n: nat| from <= n < to ==> #[trigger] obstacle(run, replies, n) is None,
    ensures
        follow(run.enter(from), replies).outputs == reports_between(run, replies, from, to)
            + follow(
            with_failures(run, noted_between(run, replies, from, to)).enter(to),
            replies,
        ).outputs,
    decreases to - from,
{
    let labels = noted_between(run, replies, from, to);
    let then = follow(with_failures(run, labels).enter(to), replies).outputs;
    if from < to {
        let first = if run.dry_run {
            Seq::empty()
        } else {
            failed_at(run, replies, from, 0)
        };
        let next = with_failures(run, first);
        assert(obstacle(run, replies, from) is None);
        lemma_target_report(run, replies, from);
        assert forall|n: nat| from + 1 <= n < to implies #[trigger] obstacle(
            next,
            replies,
            n,
        ) is None by {
            assert(obstacle(run, replies, n) is None);
        }
        lemma_reports_between(next, replies, from + 1, to);
        lemma_between_of_plan(next, run, replies, from + 1, to);
        lemma_reports_of_plan(next, run, replies, from + 1, to);
        let others = noted_between(run, replies, from + 1, to);
        assert(with_failures(next, others).failures == with_failures(run, labels).failures);
        assert(with_failures(next, others) == with_failures(run, labels));
        let here = target_report(run, replies, from);
        let later = reports_between(run, replies, from + 1, to);
        assert(here + (later + then) == here + later + then);
    } else {
        assert(run.failures + labels == run.failures);
        assert(with_failures(run, labels) == run);
        assert(Seq::<OutputView>::empty() + then == then);
    }
}

/// All that a run reports in whose way nothing is: its first line where it is a
/// dry run, then target by target what would be published or how each
/// publication ended, and the lines with which a run ends that has noted the
/// failed ones.
pub proof fn lemma_complete_run_reports(run: RunView, replies: Replies)
    requires
        run.phase is Ready,
        forall|n: nat| n < run.targets.len() ==> #[trigger] obstacle(run, replies, n) is None,
    ensures
        course(run, replies).outputs == first_report(run) + reports_between(
            run,
            replies,
            0,
            run.targets.len(),
        ) + with_failures(
            run,
            noted_between(run, replies, 0, run.targets.len()),
        ).complete().outputs,
{
    assert(run.after(EventView::Begin) == run.enter(0).reporting(first_report(run)));
    lemma_follow_reporting(run.enter(0), first_report(run), replies);
    lemma_reports_between(run, replies, 0, run.targets.len());
}

/// All that a run reports that ends at the first target in whose way something
/// is: its first line where it is a dry run, and what it reports of the targets
/// before that one. The progress bar is left as it is.
pub proof fn lemma_stopped_run_reports(run: RunView, replies: Replies, target: nat)
    requires
        run.phase is Ready,
        target < run.targets.len(),
        obstacle(run, replies, target) is Some,
        forall|n: nat| n < target ==> #[trigger] obstacle(run, replies, n) is None,
    ensures
        course(run, replies).outputs == first_report(run) + reports_between(
            run,
            replies,
            0,
            target,
        ),
{
    assert(run.after(EventView::Begin) == run.enter(0).reporting(first_report(run)));
    lemma_follow_reporting(run.enter(0), first_report(run), replies);
    lemma_reports_between(run, replies, 0, target);
    let last = with_failures(run, noted_between(run, replies, 0, target));
    assert(obstacle(last, replies, target) == obstacle(run, replies, target));
    lemma_stopped_report(last, replies, target);
    let reports = reports_between(run, replies, 0, target);
    assert(reports + Seq::<OutputView>::empty() == reports);
}

/// Every action asks for just the event that the run then expects, and a run
/// that is not told to finish expects one. So whoever does what a run says and
/// tells it what came of that can go on until the run is finished.
pub proof fn lemma_action_tells_event(run: RunView, event: EventView)
    requires
        run.wf(),
        run.expects(event),
    ensures
        ({
            let next = run.after(event);
            &&& next.run.wf()
            &&& match next.action {
                ActionView::Connect { .. } => forall|e: EventView| #[trigger]
                    next.run.expects(e) <==> e is Connected,
                ActionView::GetCallerIdentity { .. } => forall|e: EventView| #[trigger]
                    next.run.expects(e) <==> e is CallerIdentity,
                ActionView::ProvideCredentials { .. } => forall|e: EventView| #[trigger]
                    next.run.expects(e) <==> e is Credentials,
                ActionView::PublishImage { .. } => forall|e: EventView| #[trigger]
                    next.run.expects(e) <==> e is Published,
                ActionView::Finish(_) => next.run.phase is Finished,
            }
        }),
{
}

/// Nothing but the failures and the place of a run ever changes: it keeps its
/// images, its targets and its way of running, and a failure once noted stays.
pub proof fn lemma_plan_is_kept(run: RunView, event: EventView)
    requires
        run.expects(event),
    ensures
        ({
            let next = run.after(event).run;
            &&& next.images == run.images
            &&& next.targets == run.targets
            &&& next.sts_region == run.sts_region
            &&& next.dry_run == run.dry_run
            &&& run.failures.is_prefix_of(next.failures)
        }),
{
}

/// What a dry run reports of an image is where a publication of that image in
/// that registry pushes it to.
pub proof fn lemma_dry_run_names_destination(
    region: Seq<char>,
    account_id: Seq<char>,
    registry: Seq<char>,
    images: Seq<ImageView>,
    image: int,
)
    requires
        0 <= image < images.len(),
    ensures
        crate::model::dry_run_report(region, account_id, registry, images)[image + 1]
            == OutputView::Info(
            crate::model::dry_run_line_of(
                crate::model::source_text(images[image].source),
                crate::publish::new_publication(images[image], registry).destination(),
            ),
        ),
{
}

/// No two variables of the environment that holds credentials have the same
/// name.
pub proof fn lemma_env_names_differ(credentials: CredentialsView, i: int, j: int)
    requires
        0 <= i < j < crate::model::credential_env_of(credentials).len(),
    ensures
        crate::model::credential_env_of(credentials)[i].name
            != crate::model::credential_env_of(credentials)[j].name,
{
    reveal_strlit("AWS_ACCESS_KEY_ID");
    reveal_strlit("AWS_SECRET_ACCESS_KEY");
    reveal_strlit("AWS_SESSION_TOKEN");
    assert("AWS_SESSION_TOKEN"@[4] == 'S');
    assert(crate::model::credential_env_of(credentials)[1].name == "AWS_SECRET_ACCESS_KEY"@);
}

} // verus!
