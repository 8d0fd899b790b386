//! What every call of the operations gives, in terms of what it was given.

use crate::config::{aws_config, select_regions, AwsConfig, AwsRegionConfig};
use crate::error::Error;
use crate::manifest;
use crate::manifest::{
    infer_tag, resolve_entry, resolve_images, ImageEntry, Manifest, ManifestLoad, ResolvedImage,
    ResolvedSource, SourceView,
};
use crate::model::PhaseView;
use crate::publish::{Publication, PublishAction, Stage};
use crate::registry::{destination_uri, ecr_registry, job_label, role_account};
use crate::retry::{backoff_delays, push_failed, retry_notice, retry_strategy};
use crate::run::{
    credential_env, dry_run_line, show_source, Action, Credentials, EnvVar, Event, Run, Step,
};
use std::path::PathBuf;
use vstd::prelude::*;
use vstd::string::*;

verus! {

/// The registry is named by the account, the region and the domain of the
/// partition, which is the second field of the role.
pub proof fn lemma_ecr_registry(
    region: &str,
    account_id: &str,
    role_arn: Option<&str>,
    registry: String,
)
    requires
        call_ensures(ecr_registry, (region, account_id, role_arn), registry),
    ensures
        ({
            let partition = match role_arn {
                Some(arn) => match crate::text::piece(arn@, ':', 1) {
                    Some(field) => field,
                    None => "aws"@,
                },
                None => "aws"@,
            };
            let start = account_id@ + ".dkr.ecr."@ + region@ + "."@;
            &&& partition == "aws-cn"@ ==> registry@ == start + "amazonaws.com.cn"@
            &&& partition == "aws-iso"@ ==> registry@ == start + "c2s.ic.gov"@
            &&& partition == "aws-iso-b"@ ==> registry@ == start + "sc2s.sgov.gov"@
            &&& partition != "aws-cn"@ && partition != "aws-iso"@ && partition != "aws-iso-b"@
                ==> registry@ == start + "amazonaws.com"@
        }),
{
    reveal_strlit("aws-cn");
    reveal_strlit("aws-iso");
    reveal_strlit("aws-iso-b");
    assert("aws-cn"@.len() == 6 && "aws-iso"@.len() == 7 && "aws-iso-b"@.len() == 9);
}

/// One account has different registries in different regions.
pub proof fn lemma_ecr_registries_differ(
    region: &str,
    other_region: &str,
    account_id: &str,
    role_arn: Option<&str>,
    registry: String,
    other: String,
)
    requires
        !region@.contains('.'),
        !other_region@.contains('.'),
        !account_id@.contains('.'),
        region@ != other_region@,
        call_ensures(ecr_registry, (region, account_id, role_arn), registry),
        call_ensures(ecr_registry, (other_region, account_id, role_arn), other),
    ensures
        registry@ != other@,
{
    let arn = crate::text::opt_str_view(role_arn);
    crate::registry::lemma_registries_differ(
        region@,
        other_region@,
        account_id@,
        account_id@,
        arn,
        arn,
    );
}

/// The account is the fifth field of the role, where there is a role with such a
/// field.
pub proof fn lemma_role_account(role_arn: Option<&str>, account_id: Option<String>)
    requires
        call_ensures(role_account, (role_arn,), account_id),
    ensures
        match role_arn {
            Some(arn) => match crate::text::piece(arn@, ':', 4) {
                Some(field) => account_id matches Some(id) && id@ == field,
                None => account_id is None,
            },
            None => account_id is None,
        },
{
}

/// An image is named in reports by its region, and where it goes by its
/// registry; its repository name and its tag follow in both.
pub proof fn lemma_image_names(host: &str, image: &ResolvedImage, label: String, uri: String)
    requires
        call_ensures(job_label, (host, image), label),
        call_ensures(destination_uri, (host, image), uri),
    ensures
        label@ == host@ + "/"@ + image.repository_name@ + ":"@ + image.tag@,
        uri@ == host@ + "/"@ + image.repository_name@ + ":"@ + image.tag@,
{
}

/// A region takes its own role where it is configured with one, and the general
/// role, or none, in every other case.
pub proof fn lemma_role_in(config: &AwsConfig, name: &str, role: Option<String>)
    requires
        call_ensures(AwsConfig::role_in, (config, name), role),
    ensures
        ({
            let own: Option<String> = if config.region@.contains_key(name@) {
                config.region@[name@].role
            } else {
                None
            };
            match own {
                Some(arn) => role matches Some(taken) && taken@ == arn@,
                None => match config.role {
                    Some(arn) => role matches Some(taken) && taken@ == arn@,
                    None => role is None,
                },
            }
        }),
{
}

/// The regions that are selected are configured, asked for where any is, and in
/// their configured order; and every such region is selected.
pub proof fn lemma_select_regions(
    configured: &Vec<String>,
    requested: &Vec<String>,
    regions: Vec<String>,
)
    requires
        call_ensures(select_regions, (configured, requested), regions),
    ensures
        requested@.len() == 0 ==> {
            &&& regions@.len() == configured@.len()
            &&& forall|i: int|
                0 <= i < configured@.len() ==> (#[trigger] regions@[i])@ == configured@[i]@
        },
        forall|i: int|
            0 <= i < regions@.len() ==> crate::text::views(configured@).contains(
                (#[trigger] regions@[i])@,
            ),
        forall|i: int|
            0 <= i < regions@.len() && requested@.len() > 0 ==> crate::text::views(
                requested@,
            ).contains((#[trigger] regions@[i])@),
        forall|i: int, k: int|
            0 <= i < configured@.len() && 0 <= k < requested@.len() && (
            #[trigger] configured@[i])@ == (#[trigger] requested@[k])@ ==> exists|j: int|
                0 <= j < regions@.len() && (#[trigger] regions@[j])@ == configured@[i]@,
{
    let all = crate::text::views(configured@);
    let asked = crate::text::views(requested@);
    let chosen = crate::text::views(regions@);
    if requested@.len() == 0 {
        assert(asked == Seq::<Seq<char>>::empty());
        crate::config::lemma_all_regions_by_default(all);
        assert forall|i: int| 0 <= i < configured@.len() implies (#[trigger] regions@[i])@
            == configured@[i]@ by {
            assert(chosen[i] == regions@[i]@);
            assert(all[i] == configured@[i]@);
        }
    }
    assert forall|i: int| 0 <= i < regions@.len() implies all.contains(
        (#[trigger] regions@[i])@,
    ) && (requested@.len() > 0 ==> asked.contains(regions@[i]@)) by {
        assert(chosen[i] == regions@[i]@);
        crate::config::lemma_selected_regions(all, asked, chosen[i]);
    }
    assert forall|i: int, k: int|
        0 <= i < configured@.len() && 0 <= k < requested@.len() && (#[trigger] configured@[i])@
            == (#[trigger] requested@[k])@ implies exists|j: int|
        0 <= j < regions@.len() && (#[trigger] regions@[j])@ == configured@[i]@ by {
        assert(all[i] == configured@[i]@);
        assert(asked[k] == all[i]);
        crate::config::lemma_selected_regions(all, asked, all[i]);
        let j = choose|j: int| 0 <= j < chosen.len() && chosen[j] == all[i];
        assert(regions@[j]@ == configured@[i]@);
    }
}

/// A configuration that was read is taken as it is, one without an AWS part
/// names no region and no role, and a failure to read it is the error.
pub proof fn lemma_aws_config(
    loaded: Result<Option<AwsConfig>, String>,
    r: Result<AwsConfig, Error>,
)
    requires
        call_ensures(aws_config, (loaded,), r),
    ensures
        match loaded {
            Ok(Some(config)) => r == Ok::<AwsConfig, Error>(config),
            Ok(None) => r matches Ok(config) && config.regions@.len() == 0 && config.role is None
                && forall|name: Seq<char>| !config.region@.contains_key(name),
            Err(reason) => r matches Err(Error::Config { source }) && source@ == reason@,
        },
{
    if let Ok(None) = loaded {
        let config = r->Ok_0;
        assert(config@.regions.len() == config.regions@.len());
        assert forall|name: Seq<char>| !config.region@.contains_key(name) by {
            assert(config@.region.contains_key(name) == config.region@.contains_key(name));
        }
    }
}

/// What an image has from the entry that it stands for. A tag that the entry does
/// not give is what stands behind the last colon of its URI, in the URI's last
/// segment.
pub open spec fn stands_for(entry: ImageEntry, image: ResolvedImage) -> bool {
    &&& image.repository_name@ == entry.repository_name@
    &&& entry.source_uri is Some != entry.source_archive is Some
    &&& entry.source_uri matches Some(uri) ==> (image.source matches ResolvedSource::Registry(taken)
        && taken@ == uri@)
    &&& entry.source_archive matches Some(path) ==> (
    image.source matches ResolvedSource::OciArchive(taken) && taken == path)
    &&& entry.tag matches Some(tag) ==> image.tag@ == tag@
    &&& entry.tag is None ==> {
        &&& entry.source_uri matches Some(uri)
        &&& image.tag@.len() > 0
        &&& !image.tag@.contains(':')
        &&& !image.tag@.contains('/')
        &&& image.tag@.len() < uri@.len()
        &&& uri@ == uri@.take(uri@.len() - image.tag@.len() - 1) + seq![':'] + image.tag@
        &&& !uri@.contains('@')
    }
}

proof fn lemma_stands_for(entry: ImageEntry, index: nat, image: ResolvedImage)
    requires
        crate::manifest::resolved(entry@, index) == Ok::<
            crate::manifest::ImageView,
            crate::manifest::ErrorView,
        >(image@),
    ensures
        stands_for(entry, image),
{
    crate::manifest::lemma_image_is_what_entry_names(entry@, index, image@);
    if entry.tag is None {
        if let Some(uri) = entry.source_uri {
            crate::manifest::lemma_untagged_image(entry@, index, uri@, image@);
        }
    }
}

/// An entry gives an image exactly where it names one source and its tag is given
/// or can be read off its URI. The image is then what the entry stands for, and
/// else the error says what is wrong and where.
pub proof fn lemma_resolve_entry(
    entry: &ImageEntry,
    index: usize,
    r: Result<ResolvedImage, manifest::Error>,
)
    requires
        call_ensures(resolve_entry, (entry, index), r),
    ensures
        r matches Ok(image) ==> stands_for(*entry, image),
        r matches Err(e) ==> match (entry.source_uri, entry.source_archive) {
            (Some(_), Some(_)) => e == (manifest::Error::AmbiguousSource { index }),
            (None, None) => e == (manifest::Error::MissingSource { index }),
            (None, Some(path)) => entry.tag is None && e == (
            manifest::Error::TagRequiredForOciArchive { path, index }),
            (Some(uri), None) => entry.tag is None && if uri@.contains('@') {
                e matches manifest::Error::CannotInferTagFromDigest { uri: named, index: at }
                    && named@ == uri@ && at == index
            } else {
                e matches manifest::Error::CannotInferTag { uri: named, index: at } && named@
                    == uri@ && at == index
            },
        },
        entry.source_uri matches Some(uri) ==> entry.source_archive is None && entry.tag is None
            && !uri@.contains('@') && (exists|colon: int|
            {
                &&& 0 <= colon < uri@.len() - 1
                &&& #[trigger] uri@[colon] == ':'
                &&& forall|j: int| colon < j < uri@.len() ==> uri@[j] != ':' && uri@[j] != '/'
            }) ==> r is Ok,
{
    if let Ok(image) = r {
        lemma_stands_for(*entry, index as nat, image);
    } else if entry.source_uri is Some && entry.source_archive is None && entry.tag is None {
        let uri = entry.source_uri->0@;
        if !uri.contains('@') && exists|colon: int|
            {
                &&& 0 <= colon < uri.len() - 1
                &&& #[trigger] uri[colon] == ':'
                &&& forall|j: int| colon < j < uri.len() ==> uri[j] != ':' && uri[j] != '/'
            } {
            let colon = choose|colon: int|
                {
                    &&& 0 <= colon < uri.len() - 1
                    &&& #[trigger] uri[colon] == ':'
                    &&& forall|j: int| colon < j < uri.len() ==> uri[j] != ':' && uri[j] != '/'
                };
            crate::manifest::lemma_tag_behind_last_colon(
                uri,
                colon,
                entry.repository_name@,
                index as nat,
            );
            assert(entry@ == (crate::manifest::EntryView {
                source_uri: Some(uri),
                source_archive: None,
                repository_name: entry.repository_name@,
                tag: None,
            }));
        }
    }
}

/// A tag is read off a URI as it is off the URI of an entry, and never off an
/// archive.
pub proof fn lemma_infer_tag(
    source: &ResolvedSource,
    index: usize,
    r: Result<String, manifest::Error>,
)
    requires
        call_ensures(infer_tag, (source, index), r),
    ensures
        match *source {
            ResolvedSource::Registry(uri) => match r {
                Ok(tag) => {
                    &&& tag@.len() > 0
                    &&& !tag@.contains(':')
                    &&& !tag@.contains('/')
                    &&& tag@.len() < uri@.len()
                    &&& uri@ == uri@.take(uri@.len() - tag@.len() - 1) + seq![':'] + tag@
                    &&& !uri@.contains('@')
                },
                Err(manifest::Error::CannotInferTagFromDigest { uri: named, index: at }) => {
                    uri@.contains('@') && named@ == uri@ && at == index
                },
                Err(manifest::Error::CannotInferTag { uri: named, index: at }) => {
                    &&& !uri@.contains('@') && named@ == uri@ && at == index
                    &&& forall|colon: int|
                        0 <= colon < uri@.len() - 1 && #[trigger] uri@[colon] == ':' ==> exists|
                            j: int,
                        |
                            colon < j < uri@.len() && (uri@[j] == ':' || uri@[j] == '/')
                },
                Err(_) => false,
            },
            ResolvedSource::OciArchive(path) => r == Err::<String, manifest::Error>(
                manifest::Error::TagRequiredForOciArchive { path, index },
            ),
        },
{
    if let ResolvedSource::Registry(uri) = *source {
        if let Ok(tag) = r {
            crate::manifest::lemma_inferred_tag_ends_uri(uri@, index as nat, tag@);
        } else if !uri@.contains('@') {
            assert forall|colon: int|
                0 <= colon < uri@.len() - 1 && #[trigger] uri@[colon] == ':' implies exists|j: int|
                colon < j < uri@.len() && (uri@[j] == ':' || uri@[j] == '/') by {
                if !(exists|j: int|
                    colon < j < uri@.len() && (uri@[j] == ':' || uri@[j] == '/')) {
                    crate::manifest::lemma_tag_behind_last_colon(
                        uri@,
                        colon,
                        Seq::empty(),
                        index as nat,
                    );
                }
            }
        }
    }
}

/// A manifest that loaded gives as many images as it has entries, each of them
/// what the entry at its place stands for, whatever the other arguments are. One
/// that failed to load gives the error of the load. Without a manifest, success
/// means one image, which the other arguments describe.
pub proof fn lemma_resolve_images(
    manifest: Option<Result<Manifest, manifest::Error>>,
    source_uri: Option<&str>,
    source_archive: Option<&PathBuf>,
    repository_name: Option<&str>,
    tag: Option<&str>,
    r: Result<Vec<ResolvedImage>, manifest::Error>,
)
    requires
        call_ensures(
            resolve_images,
            (manifest, source_uri, source_archive, repository_name, tag),
            r,
        ),
    ensures
        manifest matches Some(Ok(m)) ==> {
            &&& r is Ok <==> forall|i: int|
                0 <= i < m.images@.len() ==> crate::manifest::resolved(
                    (#[trigger] m.images@[i])@,
                    i as nat,
                ) is Ok
            &&& r matches Ok(images) ==> {
                &&& images@.len() == m.images@.len()
                &&& forall|i: int|
                    0 <= i < m.images@.len() ==> stands_for(m.images@[i], #[trigger] images@[i])
            }
        },
        manifest matches Some(Err(load)) ==> (r matches Err(e) && e@ == load@),
        manifest is None ==> (r matches Ok(images) ==> {
            &&& images@.len() == 1
            &&& match repository_name {
                Some(name) => images@[0].repository_name@ == name@,
                None => images@[0].repository_name@.len() == 0,
            }
            &&& source_uri is Some != source_archive is Some
            &&& source_uri matches Some(uri) ==> (
            images@[0].source matches ResolvedSource::Registry(taken) && taken@ == uri@)
            &&& source_archive matches Some(path) ==> (
            images@[0].source matches ResolvedSource::OciArchive(taken) && taken == *path)
            &&& tag matches Some(given) ==> images@[0].tag@ == given@
        }),
{
    let single = crate::manifest::single_entry(source_uri, source_archive, repository_name, tag);
    if let Some(Ok(m)) = manifest {
        crate::manifest::lemma_manifest_images(m@, single);
        assert forall|i: int| 0 <= i < m.images@.len() implies m@[i] == (
        #[trigger] m.images@[i])@ by {}
        if r is Ok {
            let images = r->Ok_0;
            assert(crate::manifest::image_views(images@).len() == images@.len());
            assert forall|i: int| 0 <= i < m.images@.len() implies stands_for(
                m.images@[i],
                #[trigger] images@[i],
            ) by {
                assert(crate::manifest::resolved(m@[i], i as nat) is Ok);
                assert(crate::manifest::image_views(images@)[i] == images@[i]@);
                lemma_stands_for(m.images@[i], i as nat, images@[i]);
            }
            assert forall|i: int| 0 <= i < m.images@.len() implies crate::manifest::resolved(
                (#[trigger] m.images@[i])@,
                i as nat,
            ) is Ok by {
                assert(crate::manifest::resolved(m@[i], i as nat) is Ok);
            }
        } else if forall|i: int|
            0 <= i < m.images@.len() ==> crate::manifest::resolved(
                (#[trigger] m.images@[i])@,
                i as nat,
            ) is Ok {
            assert forall|i: int| 0 <= i < m@.len() implies crate::manifest::resolved(
                #[trigger] m@[i],
                i as nat,
            ) is Ok by {
                assert(m@[i] == m.images@[i]@);
            }
        }
    }
    if manifest is None && r is Ok {
        let images = r->Ok_0;
        crate::manifest::lemma_one_image_without_manifest(
            single,
            crate::manifest::ErrorView::MissingSource { index: 0 },
        );
        assert(crate::manifest::image_views(images@)[0] == images@[0]@);
        crate::manifest::lemma_image_is_what_entry_names(single, 0, images@[0]@);
    }
}

/// A manifest file that was read and holds a manifest gives it as it is; any
/// other gives an error that names the path and the reason.
pub proof fn lemma_from_path(
    path: &PathBuf,
    load: ManifestLoad,
    r: Result<Manifest, manifest::Error>,
)
    requires
        call_ensures(Manifest::from_path, (path, load), r),
    ensures
        match load {
            ManifestLoad::Loaded(manifest) => r == Ok::<Manifest, manifest::Error>(manifest),
            ManifestLoad::Unreadable(reason) => {
                r matches Err(manifest::Error::ReadFile { path: named, source }) && named == *path
                    && source@ == reason@
            },
            ManifestLoad::Invalid(reason) => {
                r matches Err(manifest::Error::ParseToml { path: named, source }) && named == *path
                    && source@ == reason@
            },
        },
{
}

/// The image tool gets both keys, and the session token exactly where there is
/// one.
pub proof fn lemma_credential_env(credentials: &Credentials, env: Vec<EnvVar>)
    requires
        call_ensures(credential_env, (credentials,), env),
    ensures
        env@.len() == if credentials.session_token is Some {
            3int
        } else {
            2
        },
        env@[0].name@ == "AWS_ACCESS_KEY_ID"@,
        env@[0].value@ == credentials.access_key_id@,
        env@[1].name@ == "AWS_SECRET_ACCESS_KEY"@,
        env@[1].value@ == credentials.secret_access_key@,
        credentials.session_token matches Some(token) ==> {
            &&& env@[2].name@ == "AWS_SESSION_TOKEN"@
            &&& env@[2].value@ == token@
        },
{
    let views = crate::run::env_views(env@);
    assert(views.len() == env@.len());
    assert(views[0] == env@[0]@);
    assert(views[1] == env@[1]@);
    if credentials.session_token is Some {
        assert(views[2] == env@[2]@);
    }
}

/// A source is shown as its URI or its path, and a dry run shows both ends.
pub proof fn lemma_lines(
    source: &ResolvedSource,
    shown: String,
    from: &str,
    to: &str,
    line: String,
)
    requires
        call_ensures(show_source, (source,), shown),
        call_ensures(dry_run_line, (from, to), line),
    ensures
        match *source {
            ResolvedSource::Registry(uri) => shown@ == uri@,
            ResolvedSource::OciArchive(path) => shown@ == crate::paths::path_text(path),
        },
        line@ == "[dry-run]   "@ + from@ + " -> "@ + to@,
{
}

/// There are two retries. The first one waits for at most five seconds and the
/// second one for at most thirty; that long are the delays before jitter.
pub proof fn lemma_retries(delays: Vec<u64>, waits: Vec<u64>)
    requires
        call_ensures(backoff_delays, (), delays),
        call_ensures(retry_strategy, (), waits),
    ensures
        delays@ == seq![5_000_000_000u64, 30_000_000_000u64],
        waits@.len() == 2,
        waits@[0] <= 5_000_000_000,
        waits@[1] <= 30_000_000_000,
{
    assert(delays@[0] == crate::retry::longest_wait(0));
    assert(delays@[1] == crate::retry::longest_wait(1));
    assert(waits@[0] <= crate::retry::longest_wait(0));
    assert(waits@[1] <= crate::retry::longest_wait(1));
}

/// A run is made exactly where the images are there and a region is configured.
/// It is a dry run exactly where one is asked for, has exactly the images that
/// are given, and goes to the selected regions in order, each with its own role
/// or the general one.
pub proof fn lemma_run_new(
    config: &AwsConfig,
    images: Result<Vec<ResolvedImage>, manifest::Error>,
    requested: &Vec<String>,
    dry_run: bool,
    r: Result<Run, Error>,
)
    requires
        call_ensures(Run::new, (config, images, requested, dry_run), r),
    ensures
        r is Ok <==> images is Ok && config.regions@.len() > 0,
        images matches Err(source) ==> (r matches Err(Error::Manifest { source: e }) && e@
            == source@),
        images is Ok && config.regions@.len() == 0 ==> (
        r matches Err(Error::MissingConfig { missing }) && missing@ == "aws.regions"@),
        r matches Ok(run) ==> {
            let regions = crate::config::selected(
                crate::text::views(config.regions@),
                crate::text::views(requested@),
            );
            &&& run.wf()
            &&& run@.phase is Ready
            &&& run@.dry_run <==> dry_run
            &&& run@.failures.len() == 0
            &&& run@.sts_region == config.regions@[0]@
            &&& run@.images.len() == images->Ok_0@.len()
            &&& forall|i: int|
                0 <= i < run@.images.len() ==> {
                    let image = images->Ok_0@[i];
                    &&& (#[trigger] run@.images[i]).source == image.source@
                    &&& run@.images[i].repository_name == image.repository_name@
                    &&& run@.images[i].tag == image.tag@
                }
            &&& run@.targets.len() == regions.len()
            &&& forall|i: int|
                0 <= i < regions.len() ==> {
                    let target = #[trigger] run@.targets[i];
                    let own: Option<String> = if config.region@.contains_key(regions[i]) {
                        config.region@[regions[i]].role
                    } else {
                        None
                    };
                    &&& target.region == regions[i]
                    &&& match own {
                        Some(arn) => target.role_arn == Some(arn@),
                        None => match config.role {
                            Some(arn) => target.role_arn == Some(arn@),
                            None => target.role_arn is None,
                        },
                    }
                }
        },
{
    assert(config@.regions.len() == config.regions@.len());
    if let Ok(run) = r {
        let list = images->Ok_0@;
        crate::steps::lemma_new_run(
            config@,
            crate::manifest::image_views(list),
            crate::text::views(requested@),
            dry_run,
        );
        assert(config@.regions[0] == config.regions@[0]@);
        let regions = crate::config::selected(
            crate::text::views(config.regions@),
            crate::text::views(requested@),
        );
        assert forall|i: int| 0 <= i < run@.images.len() implies (#[trigger] run@.images[i])
            == list[i]@ by {
            assert(crate::manifest::image_views(list)[i] == list[i]@);
        }
        assert forall|i: int| 0 <= i < regions.len() implies {
            let target = #[trigger] run@.targets[i];
            target.region == regions[i] && target.role_arn == config@.role_in(regions[i])
        } by {}
    }
}

/// A run expects exactly the answers to what it asked for last, and counts one
/// publication for each image and target.
pub proof fn lemma_run_expects(run: &Run, event: &Event, expected: bool, total: usize)
    requires
        call_ensures(Run::expects, (run, event), expected),
        call_ensures(Run::total, (run,), total),
    ensures
        total == run@.targets.len() * run@.images.len(),
        expected <==> match *event {
            Event::Begin => run@.phase is Ready,
            Event::Connected => run@.phase is Connecting,
            Event::CallerIdentity(_) => run@.phase is Identifying,
            Event::Credentials(_) => run@.phase is Authenticating,
            Event::Published(_) => run@.phase is Publishing,
        },
{
}

/// A publication begins with a temporary directory for an image of a remote
/// registry, and with the push of an archive.
pub proof fn lemma_publication_start(
    image: ResolvedImage,
    registry: &str,
    r: (Publication, PublishAction),
)
    requires
        call_ensures(Publication::start, (image, registry), r),
    ensures
        r.0@.image == image@,
        r.0@.registry == registry@,
        match image.source {
            ResolvedSource::Registry(uri) => {
                &&& r.0@.stage == Stage::TempDir
                &&& r.1 matches PublishAction::CreateTempDir { uri: named } && named@ == uri@
            },
            ResolvedSource::OciArchive(path) => {
                &&& r.0@.stage == Stage::Push
                &&& r.1 matches PublishAction::PushArchive { path: taken, destination_uri: to }
                    && taken == path && to@ == registry@ + "/"@ + image.repository_name@ + ":"@
                    + image.tag@
            },
        },
{
}

/// Only a push takes credentials.
pub proof fn lemma_takes_credentials(action: &PublishAction, r: bool)
    requires
        call_ensures(PublishAction::takes_credentials, (action,), r),
    ensures
        r <==> match *action {
            PublishAction::PushLayout { .. } => true,
            PublishAction::PushArchive { .. } => true,
            PublishAction::CreateTempDir { .. } => false,
            PublishAction::Pull { .. } => false,
            PublishAction::Finish(_) => false,
        },
{
}

/// A configuration that is made of regions and a role has just these, and no
/// region of it is configured by itself.
pub proof fn lemma_config_new(regions: Vec<String>, role: Option<String>, config: AwsConfig)
    requires
        call_ensures(AwsConfig::new, (regions, role), config),
    ensures
        config.regions@.len() == regions@.len(),
        forall|i: int|
            0 <= i < regions@.len() ==> (#[trigger] config.regions@[i])@ == regions@[i]@,
        role matches Some(arn) ==> (config.role matches Some(taken) && taken@ == arn@),
        role is None ==> config.role is None,
        forall|name: Seq<char>| !config.region@.contains_key(name),
{
    assert(config@.regions.len() == config.regions@.len());
    assert forall|i: int| 0 <= i < regions@.len() implies (#[trigger] config.regions@[i])@
        == regions@[i]@ by {
        assert(config@.regions[i] == config.regions@[i]@);
        assert(crate::text::views(regions@)[i] == regions@[i]@);
    }
    assert forall|name: Seq<char>| !config.region@.contains_key(name) by {
        assert(config@.region.contains_key(name) == config.region@.contains_key(name));
    }
}

/// A step of a run changes nothing of what the run was made for. It adds to the
/// failures exactly where a publication failed, under the region, the repository
/// and the tag of the image. In a dry run it never asks for credentials and never
/// publishes an image. It asks for nothing more exactly where the run is over.
pub proof fn lemma_run_step(run: &mut Run, event: Event, step: Step)
    requires
        old(run)@.wf(),
        old(run)@.expects(event@),
        call_ensures(Run::step, (run, event), step),
    ensures
        final(run)@.images == old(run)@.images,
        final(run)@.targets == old(run)@.targets,
        final(run)@.sts_region == old(run)@.sts_region,
        final(run)@.dry_run == old(run)@.dry_run,
        match (event, old(run)@.phase) {
            (Event::Published(Err(_)), PhaseView::Publishing { target, image, .. }) => {
                final(run)@.failures == old(run)@.failures.push(
                    old(run)@.targets[target as int].region + "/"@
                        + old(run)@.images[image as int].repository_name + ":"@
                        + old(run)@.images[image as int].tag,
                )
            },
            _ => final(run)@.failures == old(run)@.failures,
        },
        old(run)@.dry_run && !(old(run)@.phase is Authenticating) && !(
        old(run)@.phase is Publishing) ==> {
            &&& !(final(run)@.phase is Authenticating)
            &&& !(final(run)@.phase is Publishing)
            &&& !(step.action is ProvideCredentials)
            &&& !(step.action is PublishImage)
        },
        step.action is Finish <==> final(run)@.phase is Finished,
{
}

/// A run that goes on to an image asks for just that image to be published, in
/// the registry and with the environment of its target.
pub proof fn lemma_run_publishes(run: &mut Run, event: Event, step: Step)
    requires
        old(run)@.wf(),
        old(run)@.expects(event@),
        call_ensures(Run::step, (run, event), step),
    ensures
        step.action matches Action::PublishImage { image, registry, env } ==> (match
        final(run)@.phase {
            PhaseView::Publishing { target: t, image: i, registry: r, env: e } => {
                &&& t < old(run)@.targets.len()
                &&& i < old(run)@.images.len()
                &&& image@ == old(run)@.images[i as int]
                &&& registry@ == r
                &&& env@.len() == e.len()
                &&& forall|k: int|
                    0 <= k < env@.len() ==> {
                        &&& (#[trigger] env@[k]).name@ == e[k].name
                        &&& env@[k].value@ == e[k].value
                    }
            },
            _ => false,
        }),
        event is Published ==> match (old(run)@.phase, final(run)@.phase) {
            (
                PhaseView::Publishing { target, image, registry, env },
                PhaseView::Publishing { target: t, image: i, registry: r, env: e },
            ) => t == target && i == image + 1 && r == registry && e == env,
            (PhaseView::Publishing { target, image, .. }, PhaseView::Connecting { target: t }) => {
                image + 1 == old(run)@.images.len() && t == target + 1
            },
            (PhaseView::Publishing { target, image, .. }, PhaseView::Finished) => {
                &&& image + 1 == old(run)@.images.len()
                &&& target + 1 == old(run)@.targets.len()
                &&& step.action matches Action::Finish(outcome) && (outcome is Ok
                    <==> final(run)@.failures.len() == 0)
            },
            _ => false,
        },
{
    if let Action::PublishImage { image, registry, env } = step.action {
        let views = crate::run::env_views(env@);
        assert forall|k: int| 0 <= k < env@.len() implies {
            &&& (#[trigger] env@[k]).name@ == views[k].name
            &&& env@[k].value@ == views[k].value
        } by {
            assert(views[k] == env@[k]@);
        }
    }
}

/// A step of a publication that fails ends it with an error that names what was
/// being done, and one that succeeds leads from the temporary directory to the
/// pull, from there to the push, and from there to success.
pub proof fn lemma_publication_step(
    publication: &mut Publication,
    reply: Result<(), String>,
    action: PublishAction,
)
    requires
        old(publication)@.wf(),
        old(publication)@.stage != Stage::Finished,
        call_ensures(Publication::step, (publication, reply), action),
    ensures
        final(publication)@.image == old(publication)@.image,
        final(publication)@.registry == old(publication)@.registry,
        match (old(publication)@.stage, reply) {
            (Stage::TempDir, Err(reason)) => {
                &&& final(publication)@.stage == Stage::Finished
                &&& action matches PublishAction::Finish(Err(Error::PullTempDir { uri, source }))
                    && old(publication)@.image.source == SourceView::Registry(uri@) && source@
                    == reason@
            },
            (_, Err(reason)) => {
                &&& final(publication)@.stage == Stage::Finished
                &&& action matches PublishAction::Finish(Err(Error::ImageTool { region, source }))
                    && region@ == old(publication)@.registry && source@ == reason@
            },
            (Stage::TempDir, Ok(_)) => {
                &&& final(publication)@.stage == Stage::Pull
                &&& action matches PublishAction::Pull { uri } && old(publication)@.image.source
                    == SourceView::Registry(uri@)
            },
            (Stage::Pull, Ok(_)) => {
                &&& final(publication)@.stage == Stage::Push
                &&& action matches PublishAction::PushLayout { destination_uri: to } && to@
                    == old(publication)@.registry + "/"@ + old(publication)@.image.repository_name
                    + ":"@ + old(publication)@.image.tag
            },
            (_, Ok(_)) => {
                &&& final(publication)@.stage == Stage::Finished
                &&& action matches PublishAction::Finish(Ok(_))
            },
        },
{
}

/// Configuring a region by itself gives it its role, and changes nothing else:
/// neither the regions, nor the general role, nor any other region.
pub proof fn lemma_set_region(
    config: &mut AwsConfig,
    name: String,
    region: AwsRegionConfig,
    other: Seq<char>,
)
    requires
        call_ensures(AwsConfig::set_region, (config, name, region), ()),
    ensures
        final(config)@.regions == old(config)@.regions,
        final(config)@.role == old(config)@.role,
        region.role matches Some(role) ==> final(config)@.role_in(name@) == Some(role@),
        region.role is None ==> final(config)@.role_in(name@) == old(config)@.role,
        other != name@ ==> final(config)@.role_in(other) == old(config)@.role_in(other),
{
}

/// What is announced before a retry is its number, counted from 1, and nothing is
/// before the first one. A push that failed is announced with its registry and
/// its reason, and always tried again.
pub proof fn lemma_retry_notices(
    attempt: usize,
    notice: Option<String>,
    registry: &str,
    reason: &str,
    failed: (String, bool),
)
    requires
        attempt < 2,
        call_ensures(retry_notice, (attempt,), notice),
        call_ensures(push_failed, (registry, reason), failed),
    ensures
        notice is Some <==> attempt > 0,
        notice matches Some(line) ==> line@ == "Retrying: attempt = "@ + crate::text::decimal(
            (attempt + 1) as nat,
        ),
        failed.0@ == "Failed to push to "@ + registry@ + ": "@ + reason@,
        failed.1,
{
}

} // verus!
