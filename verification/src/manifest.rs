//! From what a command line or a manifest says to the images to publish.

use crate::paths::{clone_path, show_path};
use crate::text::{contains_char, decimal_text, owned_opt, text_after_last};
use std::path::PathBuf;
use vstd::prelude::*;
use vstd::string::*;

verus! {

/// A manifest file listing multiple images to publish.
#[derive(Debug)]
pub struct Manifest {
    pub images: Vec<ImageEntry>,
}

/// A single image entry in the manifest.
#[derive(Debug)]
pub struct ImageEntry {
    pub source_uri: Option<String>,
    pub source_archive: Option<PathBuf>,
    pub repository_name: String,
    pub tag: Option<String>,
}

/// A validated, ready-to-use image specification.
#[derive(Debug)]
pub struct ResolvedImage {
    pub source: ResolvedSource,
    pub repository_name: String,
    pub tag: String,
}

/// Where an image comes from.
#[derive(Debug)]
pub enum ResolvedSource {
    /// A remote registry, by the image's URI.
    Registry(String),
    /// A local OCI archive tarball.
    OciArchive(PathBuf),
}

/// What came of reading and parsing a manifest file.
#[derive(Debug)]
pub enum ManifestLoad {
    /// The file could not be read, with the reason.
    Unreadable(String),
    /// The file holds no valid manifest, with the reason.
    Invalid(String),
    Loaded(Manifest),
}

/// Why no images could be resolved.
#[derive(Debug)]
pub enum Error {
    ReadFile { path: PathBuf, source: String },
    ParseToml { path: PathBuf, source: String },
    AmbiguousSource { index: usize },
    MissingSource { index: usize },
    CannotInferTagFromDigest { uri: String, index: usize },
    CannotInferTag { uri: String, index: usize },
    TagRequiredForOciArchive { path: PathBuf, index: usize },
}

/// The model of [`ImageEntry`].
pub struct EntryView {
    pub source_uri: Option<Seq<char>>,
    pub source_archive: Option<PathBuf>,
    pub repository_name: Seq<char>,
    pub tag: Option<Seq<char>>,
}

/// The model of [`ResolvedSource`].
pub enum SourceView {
    Registry(Seq<char>),
    OciArchive(PathBuf),
}

/// The model of [`ResolvedImage`].
pub struct ImageView {
    pub source: SourceView,
    pub repository_name: Seq<char>,
    pub tag: Seq<char>,
}

/// The model of [`Error`].
pub enum ErrorView {
    ReadFile { path: PathBuf, source: Seq<char> },
    ParseToml { path: PathBuf, source: Seq<char> },
    AmbiguousSource { index: nat },
    MissingSource { index: nat },
    CannotInferTagFromDigest { uri: Seq<char>, index: nat },
    CannotInferTag { uri: Seq<char>, index: nat },
    TagRequiredForOciArchive { path: PathBuf, index: nat },
}

impl View for ImageEntry {
    type V = EntryView;

    open spec fn view(&self) -> EntryView {
        EntryView {
            source_uri: crate::text::opt_view(self.source_uri),
            source_archive: self.source_archive,
            repository_name: self.repository_name@,
            tag: crate::text::opt_view(self.tag),
        }
    }
}

impl View for Manifest {
    type V = Seq<EntryView>;

    open spec fn view(&self) -> Seq<EntryView> {
        self.images@.map_values(|entry: ImageEntry| entry@)
    }
}

impl View for ResolvedSource {
    type V = SourceView;

    open spec fn view(&self) -> SourceView {
        match *self {
            ResolvedSource::Registry(uri) => SourceView::Registry(uri@),
            ResolvedSource::OciArchive(path) => SourceView::OciArchive(path),
        }
    }
}

impl View for ResolvedImage {
    type V = ImageView;

    open spec fn view(&self) -> ImageView {
        ImageView {
            source: self.source@,
            repository_name: self.repository_name@,
            tag: self.tag@,
        }
    }
}

impl View for Error {
    type V = ErrorView;

    open spec fn view(&self) -> ErrorView {
        match *self {
            Error::ReadFile { path, source } => ErrorView::ReadFile { path, source: source@ },
            Error::ParseToml { path, source } => ErrorView::ParseToml { path, source: source@ },
            Error::AmbiguousSource { index } => ErrorView::AmbiguousSource { index: index as nat },
            Error::MissingSource { index } => ErrorView::MissingSource { index: index as nat },
            Error::CannotInferTagFromDigest { uri, index } => ErrorView::CannotInferTagFromDigest {
                uri: uri@,
                index: index as nat,
            },
            Error::CannotInferTag { uri, index } => ErrorView::CannotInferTag {
                uri: uri@,
                index: index as nat,
            },
            Error::TagRequiredForOciArchive { path, index } => ErrorView::TagRequiredForOciArchive {
                path,
                index: index as nat,
            },
        }
    }
}

impl Clone for ResolvedSource {
    fn clone(&self) -> (copy: Self)
        ensures
            copy@ == self@,
    {
        match self {
            ResolvedSource::Registry(uri) => ResolvedSource::Registry(uri.clone()),
            ResolvedSource::OciArchive(path) => ResolvedSource::OciArchive(clone_path(path)),
        }
    }
}

impl Clone for ResolvedImage {
    fn clone(&self) -> (copy: Self)
        ensures
            copy@ == self@,
    {
        ResolvedImage {
            source: self.source.clone(),
            repository_name: self.repository_name.clone(),
            tag: self.tag.clone(),
        }
    }
}

/// The models of a list of images.
pub open spec fn image_views(images: Seq<ResolvedImage>) -> Seq<ImageView> {
    images.map_values(|image: ResolvedImage| image@)
}

/// The source that an entry names: it must name exactly one.
pub open spec fn source_of(entry: EntryView, index: nat) -> Result<SourceView, ErrorView> {
    match (entry.source_uri, entry.source_archive) {
        (Some(uri), None) => Ok(SourceView::Registry(uri)),
        (None, Some(path)) => Ok(SourceView::OciArchive(path)),
        (Some(_), Some(_)) => Err(ErrorView::AmbiguousSource { index }),
        (None, None) => Err(ErrorView::MissingSource { index }),
    }
}

/// The last segment of the path of a URI: what follows its last slash, or all
/// of it where there is none.
pub open spec fn last_segment(uri: Seq<char>) -> Seq<char> {
    match crate::text::after_last(uri, '/') {
        Some(segment) => segment,
        None => uri,
    }
}

/// The tag that a URI ends in: what follows the last colon of its last segment,
/// unless that is empty.
pub open spec fn tag_in_uri(uri: Seq<char>) -> Option<Seq<char>> {
    match crate::text::after_last(last_segment(uri), ':') {
        Some(tag) => if tag.len() > 0 {
            Some(tag)
        } else {
            None
        },
        None => None,
    }
}

/// The tag of an image that is given none: its URI must end in one and hold no
/// digest, and an archive has none.
pub open spec fn inferred_tag(source: SourceView, index: nat) -> Result<Seq<char>, ErrorView> {
    match source {
        SourceView::Registry(uri) => if uri.contains('@') {
            Err(ErrorView::CannotInferTagFromDigest { uri, index })
        } else {
            match tag_in_uri(uri) {
                Some(tag) => Ok(tag),
                None => Err(ErrorView::CannotInferTag { uri, index }),
            }
        },
        SourceView::OciArchive(path) => Err(ErrorView::TagRequiredForOciArchive { path, index }),
    }
}

/// The image that an entry stands for, at the given place of its list.
pub open spec fn resolved(entry: EntryView, index: nat) -> Result<ImageView, ErrorView> {
    match source_of(entry, index) {
        Err(e) => Err(e),
        Ok(source) => {
            let tag: Result<Seq<char>, ErrorView> = match entry.tag {
                Some(tag) => Ok(tag),
                None => inferred_tag(source, index),
            };
            match tag {
                Err(e) => Err(e),
                Ok(tag) => Ok(
                    ImageView { source, repository_name: entry.repository_name, tag },
                ),
            }
        },
    }
}

/// The images that a list of entries stands for, or the error of the first
/// entry that stands for none.
pub open spec fn resolved_all(entries: Seq<EntryView>) -> Result<Seq<ImageView>, ErrorView>
    decreases entries.len(),
{
    if entries.len() == 0 {
        Ok(Seq::empty())
    } else {
        match resolved_all(entries.drop_last()) {
            Err(e) => Err(e),
            Ok(images) => match resolved(entries.last(), (entries.len() - 1) as nat) {
                Err(e) => Err(e),
                Ok(image) => Ok(images.push(image)),
            },
        }
    }
}

/// The images of a manifest, or of the single entry that is given where there
/// is no manifest.
pub open spec fn resolved_images(
    manifest: Option<Result<Seq<EntryView>, ErrorView>>,
    single: EntryView,
) -> Result<Seq<ImageView>, ErrorView> {
    match manifest {
        Some(Ok(entries)) => resolved_all(entries),
        Some(Err(e)) => Err(e),
        None => match resolved(single, 0) {
            Ok(image) => Ok(seq![image]),
            Err(e) => Err(e),
        },
    }
}

impl ErrorView {
    /// The path that the error speaks of.
    pub open spec fn path(self) -> Option<PathBuf> {
        match self {
            ErrorView::ReadFile { path, .. } => Some(path),
            ErrorView::ParseToml { path, .. } => Some(path),
            ErrorView::TagRequiredForOciArchive { path, .. } => Some(path),
            _ => None,
        }
    }

    /// The error in words, where its path, if it has one, is shown as `shown`.
    pub open spec fn text_showing(self, shown: Seq<char>) -> Seq<char> {
        match self {
            ErrorView::ReadFile { source, .. } => "Failed to read '"@ + shown + "': "@ + source,
            ErrorView::ParseToml { source, .. } => "Invalid TOML in '"@ + shown + "': "@ + source,
            ErrorView::AmbiguousSource { index } => "Image entry "@ + crate::text::decimal(index)
                + ": both source_uri and source_archive specified"@,
            ErrorView::MissingSource { index } => "Image entry "@ + crate::text::decimal(index)
                + ": neither source_uri nor source_archive specified"@,
            ErrorView::CannotInferTagFromDigest { uri, index } => "Image entry "@
                + crate::text::decimal(index) + ": cannot infer tag from digest reference '"@ + uri
                + "'; specify tag explicitly"@,
            ErrorView::CannotInferTag { uri, index } => "Image entry "@ + crate::text::decimal(
                index,
            ) + ": cannot infer tag from URI '"@ + uri + "'; specify tag explicitly"@,
            ErrorView::TagRequiredForOciArchive { index, .. } => "Image entry "@
                + crate::text::decimal(index) + ": tag is required when source is an archive '"@
                + shown + "'; specify tag explicitly"@,
        }
    }

    /// The error in words.
    pub open spec fn text(self) -> Seq<char> {
        match self.path() {
            Some(path) => self.text_showing(crate::paths::path_text(path)),
            None => self.text_showing(Seq::empty()),
        }
    }
}

impl Error {
    /// The error in words, where its path, if it has one, is shown as `shown`.
    pub fn message_showing(&self, shown: &str) -> (message: String)
        ensures
            message@ == self@.text_showing(shown@),
    {
        let mut message = String::new();
        match self {
            Error::ReadFile { source, .. } => {
                message.append("Failed to read '");
                message.append(shown);
                message.append("': ");
                message.append(source.as_str());
            },
            Error::ParseToml { source, .. } => {
                message.append("Invalid TOML in '");
                message.append(shown);
                message.append("': ");
                message.append(source.as_str());
            },
            Error::AmbiguousSource { index } => {
                message.append("Image entry ");
                message.append(decimal_text(*index).as_str());
                message.append(": both source_uri and source_archive specified");
            },
            Error::MissingSource { index } => {
                message.append("Image entry ");
                message.append(decimal_text(*index).as_str());
                message.append(": neither source_uri nor source_archive specified");
            },
            Error::CannotInferTagFromDigest { uri, index } => {
                message.append("Image entry ");
                message.append(decimal_text(*index).as_str());
                message.append(": cannot infer tag from digest reference '");
                message.append(uri.as_str());
                message.append("'; specify tag explicitly");
            },
            Error::CannotInferTag { uri, index } => {
                message.append("Image entry ");
                message.append(decimal_text(*index).as_str());
                message.append(": cannot infer tag from URI '");
                message.append(uri.as_str());
                message.append("'; specify tag explicitly");
            },
            Error::TagRequiredForOciArchive { index, .. } => {
                message.append("Image entry ");
                message.append(decimal_text(*index).as_str());
                message.append(": tag is required when source is an archive '");
                message.append(shown);
                message.append("'; specify tag explicitly");
            },
        }
        message
    }

    /// The error in words.
    pub fn message(&self) -> (message: String)
        ensures
            message@ == self@.text(),
    {
        match self {
            Error::ReadFile { path, .. } => self.message_showing(show_path(path).as_str()),
            Error::ParseToml { path, .. } => self.message_showing(show_path(path).as_str()),
            Error::TagRequiredForOciArchive { path, .. } => self.message_showing(
                show_path(path).as_str(),
            ),
            _ => {
                let nothing = String::new();
                self.message_showing(nothing.as_str())
            },
        }
    }
}

impl Manifest {
    /// The manifest at `path`, given what came of reading and parsing it.
    pub fn from_path(path: &PathBuf, load: ManifestLoad) -> (r: Result<Manifest, Error>)
        ensures
            match load {
                ManifestLoad::Loaded(manifest) => r == Ok::<Manifest, Error>(manifest),
                ManifestLoad::Unreadable(reason) => r matches Err(e) && e@ == (
                ErrorView::ReadFile { path: *path, source: reason@ }),
                ManifestLoad::Invalid(reason) => r matches Err(e) && e@ == (
                ErrorView::ParseToml { path: *path, source: reason@ }),
            },
    {
        match load {
            ManifestLoad::Loaded(manifest) => Ok(manifest),
            ManifestLoad::Unreadable(source) => Err(
                Error::ReadFile { path: clone_path(path), source },
            ),
            ManifestLoad::Invalid(source) => Err(
                Error::ParseToml { path: clone_path(path), source },
            ),
        }
    }
}

/// The model of an optional manifest that may have failed to load.
pub open spec fn loaded_view(manifest: Option<Result<Manifest, Error>>) -> Option<
    Result<Seq<EntryView>, ErrorView>,
> {
    match manifest {
        Some(Ok(m)) => Some(Ok(m@)),
        Some(Err(e)) => Some(Err(e@)),
        None => None,
    }
}

/// The entry that a command line without a manifest stands for.
pub open spec fn single_entry(
    source_uri: Option<&str>,
    source_archive: Option<&PathBuf>,
    repository_name: Option<&str>,
    tag: Option<&str>,
) -> EntryView {
    EntryView {
        source_uri: crate::text::opt_str_view(source_uri),
        source_archive: match source_archive {
            Some(path) => Some(*path),
            None => None,
        },
        repository_name: match repository_name {
            Some(name) => name@,
            None => Seq::empty(),
        },
        tag: crate::text::opt_str_view(tag),
    }
}

/// The images to publish: those of the manifest where there is one, and else
/// the one that the other arguments describe.
pub fn resolve_images(
    manifest: Option<Result<Manifest, Error>>,
    source_uri: Option<&str>,
    source_archive: Option<&PathBuf>,
    repository_name: Option<&str>,
    tag: Option<&str>,
) -> (r: Result<Vec<ResolvedImage>, Error>)
    ensures
        match r {
            Ok(images) => resolved_images(
                loaded_view(manifest),
                single_entry(source_uri, source_archive, repository_name, tag),
            ) == Ok::<Seq<ImageView>, ErrorView>(image_views(images@)),
            Err(e) => resolved_images(
                loaded_view(manifest),
                single_entry(source_uri, source_archive, repository_name, tag),
            ) == Err::<Seq<ImageView>, ErrorView>(e@),
        },
{
    match manifest {
        Some(Ok(manifest)) => resolve_entries(&manifest.images),
        Some(Err(e)) => Err(e),
        None => {
            let entry = ImageEntry {
                source_uri: owned_opt(source_uri),
                source_archive: match source_archive {
                    Some(path) => Some(clone_path(path)),
                    None => None,
                },
                repository_name: match repository_name {
                    Some(name) => name.to_owned(),
                    None => String::new(),
                },
                tag: owned_opt(tag),
            };
            match resolve_entry(&entry, 0) {
                Ok(image) => {
                    let images = vec![image];
                    assert(image_views(images@) == seq![image@]);
                    Ok(images)
                },
                Err(e) => Err(e),
            }
        },
    }
}

/// The images that the entries stand for, or the error of the first entry that
/// stands for none.
fn resolve_entries(entries: &Vec<ImageEntry>) -> (r: Result<Vec<ResolvedImage>, Error>)
    ensures
        match r {
            Ok(images) => resolved_all(entries@.map_values(|entry: ImageEntry| entry@)) == Ok::<
                Seq<ImageView>,
                ErrorView,
            >(image_views(images@)),
            Err(e) => resolved_all(entries@.map_values(|entry: ImageEntry| entry@)) == Err::<
                Seq<ImageView>,
                ErrorView,
            >(e@),
        },
{
    let ghost all = entries@.map_values(|entry: ImageEntry| entry@);
    let mut images: Vec<ResolvedImage> = Vec::new();
    assert(image_views(images@) == Seq::<ImageView>::empty());
    for i in 0..entries.len()
        invariant
            all == entries@.map_values(|entry: ImageEntry| entry@),
            resolved_all(all.take(i as int)) == Ok::<Seq<ImageView>, ErrorView>(
                image_views(images@),
            ),
    {
        let ghost upto = all.take(i + 1);
        assert(upto.drop_last() == all.take(i as int));
        assert(upto.last() == entries@[i as int]@);
        match resolve_entry(&entries[i], i) {
            Ok(image) => {
                let ghost before = images@;
                images.push(image);
                assert(image_views(images@) == image_views(before).push(image@));
            },
            Err(e) => {
                proof {
                    lemma_first_error_stays(all, i + 1);
                }
                return Err(e);
            },
        }
    }
    assert(all.take(all.len() as int) == all);
    Ok(images)
}

/// An error among the first entries is the error of all of them.
proof fn lemma_first_error_stays(entries: Seq<EntryView>, n: int)
    requires
        0 <= n <= entries.len(),
        resolved_all(entries.take(n)) is Err,
    ensures
        resolved_all(entries) == resolved_all(entries.take(n)),
    decreases entries.len() - n,
{
    if n < entries.len() {
        assert(entries.take(n + 1).drop_last() == entries.take(n));
        lemma_first_error_stays(entries, n + 1);
    } else {
        assert(entries.take(n) == entries);
    }
}

/// The image that `entry` stands for, at place `index` of its list.
pub fn resolve_entry(entry: &ImageEntry, index: usize) -> (r: Result<ResolvedImage, Error>)
    ensures
        match r {
            Ok(image) => resolved(entry@, index as nat) == Ok::<ImageView, ErrorView>(image@),
            Err(e) => resolved(entry@, index as nat) == Err::<ImageView, ErrorView>(e@),
        },
{
    let source = match (&entry.source_uri, &entry.source_archive) {
        (Some(uri), None) => ResolvedSource::Registry(uri.clone()),
        (None, Some(path)) => ResolvedSource::OciArchive(clone_path(path)),
        (Some(_), Some(_)) => {
            return Err(Error::AmbiguousSource { index });
        },
        (None, None) => {
            return Err(Error::MissingSource { index });
        },
    };
    let tag = match &entry.tag {
        Some(tag) => tag.clone(),
        None => match infer_tag(&source, index) {
            Ok(tag) => tag,
            Err(e) => {
                return Err(e);
            },
        },
    };
    Ok(ResolvedImage { source, repository_name: entry.repository_name.clone(), tag })
}

/// The tag of the image at `source`, of the entry at place `index`, that is
/// given none.
pub fn infer_tag(source: &ResolvedSource, index: usize) -> (r: Result<String, Error>)
    ensures
        match r {
            Ok(tag) => inferred_tag(source@, index as nat) == Ok::<Seq<char>, ErrorView>(tag@),
            Err(e) => inferred_tag(source@, index as nat) == Err::<Seq<char>, ErrorView>(e@),
        },
{
    match source {
        ResolvedSource::Registry(uri) => {
            if contains_char(uri.as_str(), '@') {
                return Err(Error::CannotInferTagFromDigest { uri: uri.clone(), index });
            }
            let path_part: &str = match text_after_last(uri.as_str(), '/') {
                Some(segment) => segment,
                None => uri.as_str(),
            };
            match text_after_last(path_part, ':') {
                Some(tag) => {
                    if tag.is_empty() {
                        Err(Error::CannotInferTag { uri: uri.clone(), index })
                    } else {
                        Ok(tag.to_owned())
                    }
                },
                None => Err(Error::CannotInferTag { uri: uri.clone(), index }),
            }
        },
        ResolvedSource::OciArchive(path) => Err(
            Error::TagRequiredForOciArchive { path: clone_path(path), index },
        ),
    }
}

/// An entry that names one source and a tag stands for just that image: nothing
/// is inferred, whatever the source looks like.
pub proof fn lemma_given_tag_is_kept(entry: EntryView, index: nat, tag: Seq<char>)
    requires
        entry.tag == Some(tag),
        entry.source_uri is Some != entry.source_archive is Some,
    ensures
        resolved(entry, index) == Ok::<ImageView, ErrorView>(
            ImageView {
                source: match entry.source_uri {
                    Some(uri) => SourceView::Registry(uri),
                    None => SourceView::OciArchive(entry.source_archive->0),
                },
                repository_name: entry.repository_name,
                tag,
            },
        ),
{
}

/// An entry that names an archive must give a tag too.
pub proof fn lemma_archive_needs_tag(entry: EntryView, index: nat)
    requires
        entry.source_uri is None,
        entry.source_archive is Some,
    ensures
        resolved(entry, index) is Ok <==> entry.tag is Some,
        entry.tag is None ==> resolved(entry, index) == Err::<ImageView, ErrorView>(
            ErrorView::TagRequiredForOciArchive { path: entry.source_archive->0, index },
        ),
{
}

/// A tag that is inferred from a URI is what the URI ends in, behind a colon. It
/// is not empty and holds no colon and no slash, and the URI holds no digest.
pub proof fn lemma_inferred_tag_ends_uri(uri: Seq<char>, index: nat, tag: Seq<char>)
    requires
        inferred_tag(SourceView::Registry(uri), index) == Ok::<Seq<char>, ErrorView>(tag),
    ensures
        !uri.contains('@'),
        tag.len() > 0,
        !tag.contains(':'),
        !tag.contains('/'),
        uri.len() > tag.len(),
        uri == uri.take(uri.len() - tag.len() - 1) + seq![':'] + tag,
{
    uri.index_of_last_ensures('/');
    let segment = last_segment(uri);
    segment.index_of_last_ensures(':');
    let start = uri.len() - segment.len();
    assert(segment == uri.skip(start));
    assert forall|j: int| 0 <= j < tag.len() implies tag[j] != ':' && tag[j] != '/' by {
        let i = segment.len() - tag.len() + j;
        assert(tag[j] == segment[i]);
        assert(segment[i] == uri[start + i]);
    }
    let colon = uri.len() - tag.len() - 1;
    assert(uri[colon] == segment[segment.len() - tag.len() - 1]);
    assert(uri.skip(colon + 1) == tag);
}

/// The name that an image has in a registry, taken as a source, gives back the
/// image's tag.
pub proof fn lemma_tag_reads_back(host: Seq<char>, image: ImageView, index: nat)
    requires
        image.tag.len() > 0,
        !image.tag.contains(':'),
        !image.tag.contains('/'),
        !crate::registry::image_name(host, image).contains('@'),
    ensures
        inferred_tag(
            SourceView::Registry(crate::registry::image_name(host, image)),
            index,
        ) == Ok::<Seq<char>, ErrorView>(image.tag),
{
    let uri = crate::registry::image_name(host, image);
    reveal_strlit("/");
    reveal_strlit(":");
    let before = host + seq!['/'] + image.repository_name;
    assert(uri == before + seq![':'] + image.tag);
    before.index_of_last_ensures('/');
    assert(before[host.len() as int] == '/');
    let slash = before.index_of_last('/')->0;
    let rest = before.skip(slash + 1);
    assert(uri == before.take(slash) + seq!['/'] + (rest + seq![':'] + image.tag));
    assert(!(rest + seq![':'] + image.tag).contains('/'));
    crate::text::lemma_after_last_of_concatenation(
        before.take(slash),
        '/',
        rest + seq![':'] + image.tag,
    );
    crate::text::lemma_after_last_of_concatenation(rest, ':', image.tag);
}

/// A colon before the last slash is no mark of a tag: the port of a host is not
/// taken for one.
pub proof fn lemma_port_is_no_tag(host: Seq<char>, repository: Seq<char>, index: nat)
    requires
        !repository.contains('/'),
        !repository.contains(':'),
        !host.contains('@'),
        !repository.contains('@'),
    ensures
        inferred_tag(SourceView::Registry(host + seq!['/'] + repository), index) == Err::<
            Seq<char>,
            ErrorView,
        >(ErrorView::CannotInferTag { uri: host + seq!['/'] + repository, index }),
{
    let uri = host + seq!['/'] + repository;
    assert forall|i: int| 0 <= i < uri.len() implies uri[i] != '@' by {
        if i < host.len() {
            assert(uri[i] == host[i]);
        } else if i > host.len() {
            assert(uri[i] == repository[i - host.len() - 1]);
        }
    }
    crate::text::lemma_after_last_of_concatenation(host, '/', repository);
    repository.index_of_last_ensures(':');
}

/// A list whose entries all stand for images gives the image of each entry, in
/// order.
pub proof fn lemma_all_resolved(entries: Seq<EntryView>)
    requires
        forall|i: int| 0 <= i < entries.len() ==> resolved(#[trigger] entries[i], i as nat) is Ok,
    ensures
        resolved_all(entries) matches Ok(images) && images.len() == entries.len() && forall|i: int|
            0 <= i < entries.len() ==> resolved(#[trigger] entries[i], i as nat) == Ok::<
                ImageView,
                ErrorView,
            >(images[i]),
    decreases entries.len(),
{
    if entries.len() > 0 {
        let front = entries.drop_last();
        assert forall|i: int| 0 <= i < front.len() implies resolved(
            #[trigger] front[i],
            i as nat,
        ) is Ok by {
            assert(front[i] == entries[i]);
        }
        lemma_all_resolved(front);
        assert(resolved(entries[entries.len() - 1], (entries.len() - 1) as nat) is Ok);
        assert forall|i: int| 0 <= i < entries.len() implies resolved(
            #[trigger] entries[i],
            i as nat,
        ) == Ok::<ImageView, ErrorView>(resolved_all(entries)->Ok_0[i]) by {
            if i < front.len() {
                assert(front[i] == entries[i]);
            }
        }
    }
}

/// A list with an entry that stands for no image gives the error of the first
/// such entry, which names the entry's place.
pub proof fn lemma_first_error_counts(entries: Seq<EntryView>, first: int)
    requires
        0 <= first < entries.len(),
        resolved(entries[first], first as nat) is Err,
        forall|i: int| 0 <= i < first ==> resolved(#[trigger] entries[i], i as nat) is Ok,
    ensures
        resolved_all(entries) == Err::<Seq<ImageView>, ErrorView>(
            resolved(entries[first], first as nat)->Err_0,
        ),
{
    let front = entries.take(first);
    assert forall|i: int| 0 <= i < front.len() implies resolved(
        #[trigger] front[i],
        i as nat,
    ) is Ok by {
        assert(front[i] == entries[i]);
    }
    lemma_all_resolved(front);
    assert(entries.take(first + 1).drop_last() == front);
    assert(entries.take(first + 1).last() == entries[first]);
    lemma_first_error_stays(entries, first + 1);
}

/// Where there is a manifest, what else is given does not matter.
pub proof fn lemma_manifest_decides(
    manifest: Result<Seq<EntryView>, ErrorView>,
    one: EntryView,
    other: EntryView,
)
    ensures
        resolved_images(Some(manifest), one) == resolved_images(Some(manifest), other),
{
}

/// The model of an entry holds what the entry holds, and the model of a manifest
/// the models of its entries.
pub proof fn lemma_entry_model(entry: ImageEntry, manifest: Manifest)
    ensures
        entry.source_uri matches Some(uri) ==> entry@.source_uri == Some(uri@),
        entry.source_uri is None ==> entry@.source_uri is None,
        entry@.source_archive == entry.source_archive,
        entry@.repository_name == entry.repository_name@,
        entry.tag matches Some(tag) ==> entry@.tag == Some(tag@),
        entry.tag is None ==> entry@.tag is None,
        manifest@.len() == manifest.images@.len(),
        forall|i: int|
            0 <= i < manifest.images@.len() ==> #[trigger] manifest@[i] == manifest.images@[i]@,
{
}

/// The model of an image holds what the image holds, and the model of a list of
/// images the models of the images.
pub proof fn lemma_image_model(
    image: ResolvedImage,
    uri: String,
    path: PathBuf,
    images: Seq<ResolvedImage>,
)
    ensures
        image@.source == image.source@,
        image@.repository_name == image.repository_name@,
        image@.tag == image.tag@,
        ResolvedSource::Registry(uri)@ == SourceView::Registry(uri@),
        ResolvedSource::OciArchive(path)@ == SourceView::OciArchive(path),
        image_views(images).len() == images.len(),
        forall|i: int| 0 <= i < images.len() ==> #[trigger] image_views(images)[i] == images[i]@,
{
}

/// The model of an error is of the same kind and holds what the error holds.
pub proof fn lemma_error_model(path: PathBuf, s: String, n: usize)
    ensures
        (Error::ReadFile { path, source: s })@ == (ErrorView::ReadFile { path, source: s@ }),
        (Error::ParseToml { path, source: s })@ == (ErrorView::ParseToml { path, source: s@ }),
        (Error::AmbiguousSource { index: n })@ == (ErrorView::AmbiguousSource { index: n as nat }),
        (Error::MissingSource { index: n })@ == (ErrorView::MissingSource { index: n as nat }),
        (Error::CannotInferTagFromDigest { uri: s, index: n })@ == (
        ErrorView::CannotInferTagFromDigest { uri: s@, index: n as nat }),
        (Error::CannotInferTag { uri: s, index: n })@ == (ErrorView::CannotInferTag {
            uri: s@,
            index: n as nat,
        }),
        (Error::TagRequiredForOciArchive { path, index: n })@ == (
        ErrorView::TagRequiredForOciArchive { path, index: n as nat }),
{
}

/// An image that an entry stands for has the entry's repository name, the one
/// source that the entry names, and the entry's tag where it gives one.
pub proof fn lemma_image_is_what_entry_names(entry: EntryView, index: nat, image: ImageView)
    requires
        resolved(entry, index) == Ok::<ImageView, ErrorView>(image),
    ensures
        image.repository_name == entry.repository_name,
        entry.source_uri is Some != entry.source_archive is Some,
        entry.source_uri matches Some(uri) ==> image.source == SourceView::Registry(uri),
        entry.source_archive matches Some(path) ==> image.source == SourceView::OciArchive(path),
        entry.tag matches Some(tag) ==> image.tag == tag,
{
}

/// An entry that names both kinds of source, or none, stands for no image,
/// whatever else it says.
pub proof fn lemma_one_source_only(entry: EntryView, index: nat)
    ensures
        entry.source_uri is Some && entry.source_archive is Some ==> resolved(entry, index)
            == Err::<ImageView, ErrorView>(ErrorView::AmbiguousSource { index }),
        entry.source_uri is None && entry.source_archive is None ==> resolved(entry, index)
            == Err::<ImageView, ErrorView>(ErrorView::MissingSource { index }),
{
}

/// What stands behind a colon that is the last one of a URI, and behind which no
/// slash follows, is the tag that the URI gives, where it is not empty and the
/// URI holds no digest. An entry that names just the URI then has that tag.
pub proof fn lemma_tag_behind_last_colon(
    uri: Seq<char>,
    colon: int,
    repository_name: Seq<char>,
    index: nat,
)
    requires
        0 <= colon < uri.len() - 1,
        uri[colon] == ':',
        forall|j: int| colon < j < uri.len() ==> uri[j] != ':' && uri[j] != '/',
        forall|j: int| 0 <= j < uri.len() ==> uri[j] != '@',
    ensures
        inferred_tag(SourceView::Registry(uri), index) == Ok::<Seq<char>, ErrorView>(
            uri.skip(colon + 1),
        ),
        resolved(
            EntryView {
                source_uri: Some(uri),
                source_archive: None,
                repository_name,
                tag: None,
            },
            index,
        ) == Ok::<ImageView, ErrorView>(
            ImageView {
                source: SourceView::Registry(uri),
                repository_name,
                tag: uri.skip(colon + 1),
            },
        ),
{
    uri.index_of_last_ensures('/');
    let segment = last_segment(uri);
    let start = uri.len() - segment.len();
    assert(segment == uri.skip(start));
    assert(start <= colon);
    segment.index_of_last_ensures(':');
    assert(segment[colon - start] == ':');
    let last = segment.index_of_last(':')->0;
    if last > colon - start {
        assert(uri[start + last] == ':');
    }
    assert(segment.skip(last + 1) == uri.skip(colon + 1));
}

/// An entry that names just a URI and no tag, where it stands for an image, has
/// a tag that is not empty, holds no slash and no colon, and ends the URI behind
/// a colon. It keeps its repository name and its URI.
pub proof fn lemma_untagged_image(entry: EntryView, index: nat, uri: Seq<char>, image: ImageView)
    requires
        entry.source_uri == Some(uri),
        entry.tag is None,
        resolved(entry, index) == Ok::<ImageView, ErrorView>(image),
    ensures
        image.source == SourceView::Registry(uri),
        image.repository_name == entry.repository_name,
        image.tag.len() > 0,
        !image.tag.contains('/'),
        !image.tag.contains(':'),
        image.tag.len() < uri.len(),
        uri == uri.take(uri.len() - image.tag.len() - 1) + seq![':'] + image.tag,
        !uri.contains('@'),
{
    lemma_inferred_tag_ends_uri(uri, index, image.tag);
}

/// An entry that names just a URI and no tag stands for no image where the URI
/// holds a digest, nor where no tag stands behind the last colon of the last
/// segment, and the two errors name the URI and the entry's place. The same
/// holds of the tag that is inferred.
pub proof fn lemma_no_tag_in_uri(uri: Seq<char>, repository_name: Seq<char>, index: nat)
    ensures
        ({
            let tag = inferred_tag(SourceView::Registry(uri), index);
            let image = resolved(
                EntryView {
                    source_uri: Some(uri),
                    source_archive: None,
                    repository_name,
                    tag: None,
                },
                index,
            );
            &&& uri.contains('@') ==> {
                &&& tag == Err::<Seq<char>, ErrorView>(
                    ErrorView::CannotInferTagFromDigest { uri, index },
                )
                &&& image == Err::<ImageView, ErrorView>(
                    ErrorView::CannotInferTagFromDigest { uri, index },
                )
            }
            &&& !uri.contains('@') && !(exists|colon: int|
                {
                    &&& 0 <= colon < uri.len() - 1
                    &&& #[trigger] uri[colon] == ':'
                    &&& forall|j: int| colon < j < uri.len() ==> uri[j] != ':' && uri[j] != '/'
                }) ==> {
                &&& tag == Err::<Seq<char>, ErrorView>(ErrorView::CannotInferTag { uri, index })
                &&& image == Err::<ImageView, ErrorView>(ErrorView::CannotInferTag { uri, index })
            }
        }),
{
    if !uri.contains('@') && inferred_tag(SourceView::Registry(uri), index) is Ok {
        let tag = inferred_tag(SourceView::Registry(uri), index)->Ok_0;
        lemma_inferred_tag_ends_uri(uri, index, tag);
        let colon = uri.len() - tag.len() - 1;
        assert(uri[colon] == ':');
        assert forall|j: int| colon < j < uri.len() implies uri[j] != ':' && uri[j] != '/' by {
            assert(uri[j] == tag[j - colon - 1]);
        }
    }
}

/// An archive gives no tag.
pub proof fn lemma_no_tag_in_archive(path: PathBuf, index: nat)
    ensures
        inferred_tag(SourceView::OciArchive(path), index) == Err::<Seq<char>, ErrorView>(
            ErrorView::TagRequiredForOciArchive { path, index },
        ),
{
}

/// A list that gives images has an image for each of its entries.
proof fn lemma_resolved_all_ok(entries: Seq<EntryView>)
    requires
        resolved_all(entries) is Ok,
    ensures
        forall|i: int| 0 <= i < entries.len() ==> resolved(#[trigger] entries[i], i as nat) is Ok,
    decreases entries.len(),
{
    if entries.len() > 0 {
        let front = entries.drop_last();
        lemma_resolved_all_ok(front);
        assert forall|i: int| 0 <= i < entries.len() implies resolved(
            #[trigger] entries[i],
            i as nat,
        ) is Ok by {
            if i < front.len() {
                assert(front[i] == entries[i]);
            }
        }
    }
}

/// A manifest that loaded gives as many images as it has entries, and each image
/// is the one that the entry at its place stands for: it has the entry's
/// repository name and source, and the entry's tag where it gives one. This is
/// so if and only if every entry stands for an image.
pub proof fn lemma_manifest_images(entries: Seq<EntryView>, single: EntryView)
    ensures
        resolved_images(Some(Ok(entries)), single) is Ok <==> (forall|i: int|
            0 <= i < entries.len() ==> resolved(#[trigger] entries[i], i as nat) is Ok),
        resolved_images(Some(Ok(entries)), single) matches Ok(images) ==> {
            &&& images.len() == entries.len()
            &&& forall|i: int|
                0 <= i < entries.len() ==> {
                    &&& resolved(#[trigger] entries[i], i as nat) == Ok::<ImageView, ErrorView>(
                        images[i],
                    )
                    &&& images[i].repository_name == entries[i].repository_name
                    &&& entries[i].source_uri matches Some(uri) ==> images[i].source
                        == SourceView::Registry(uri)
                    &&& entries[i].source_archive matches Some(path) ==> images[i].source
                        == SourceView::OciArchive(path)
                    &&& entries[i].tag matches Some(tag) ==> images[i].tag == tag
                }
        },
{
    if forall|i: int| 0 <= i < entries.len() ==> resolved(#[trigger] entries[i], i as nat) is Ok {
        lemma_all_resolved(entries);
        let images = resolved_all(entries)->Ok_0;
        assert forall|i: int| 0 <= i < entries.len() implies {
            &&& resolved(#[trigger] entries[i], i as nat) == Ok::<ImageView, ErrorView>(images[i])
            &&& images[i].repository_name == entries[i].repository_name
        } by {
            lemma_image_is_what_entry_names(entries[i], i as nat, images[i]);
        }
    }
    if resolved_all(entries) is Ok {
        lemma_resolved_all_ok(entries);
    }
}

/// A manifest with an entry that stands for no image gives the error of the
/// first such entry, whatever the entries behind it and the single entry are.
pub proof fn lemma_manifest_error(entries: Seq<EntryView>, first: int, single: EntryView)
    requires
        0 <= first < entries.len(),
        resolved(entries[first], first as nat) is Err,
        forall|i: int| 0 <= i < first ==> resolved(#[trigger] entries[i], i as nat) is Ok,
    ensures
        resolved_images(Some(Ok(entries)), single) == Err::<Seq<ImageView>, ErrorView>(
            resolved(entries[first], first as nat)->Err_0,
        ),
{
    lemma_first_error_counts(entries, first);
}

/// A manifest that failed to load gives the error of the load, and without a
/// manifest there is one image, that of the single entry at place 0, or its
/// error.
pub proof fn lemma_one_image_without_manifest(single: EntryView, load: ErrorView)
    ensures
        resolved_images(Some(Err(load)), single) == Err::<Seq<ImageView>, ErrorView>(load),
        match resolved(single, 0) {
            Ok(image) => resolved_images(None, single) matches Ok(images) && images.len() == 1
                && images[0] == image,
            Err(e) => resolved_images(None, single) == Err::<Seq<ImageView>, ErrorView>(e),
        },
{
}

/// The entry of a command line holds what the command line gives, and an empty
/// repository name where it gives none.
pub proof fn lemma_single_entry(
    source_uri: Option<&str>,
    source_archive: Option<&PathBuf>,
    repository_name: Option<&str>,
    tag: Option<&str>,
)
    ensures
        ({
            let entry = single_entry(source_uri, source_archive, repository_name, tag);
            &&& match source_uri {
                Some(uri) => entry.source_uri == Some(uri@),
                None => entry.source_uri is None,
            }
            &&& match source_archive {
                Some(path) => entry.source_archive == Some(*path),
                None => entry.source_archive is None,
            }
            &&& match repository_name {
                Some(name) => entry.repository_name == name@,
                None => entry.repository_name.len() == 0,
            }
            &&& match tag {
                Some(tag) => entry.tag == Some(tag@),
                None => entry.tag is None,
            }
        }),
{
}

/// The model of a manifest that was loaded, or failed to load, is that of the
/// manifest or of the error.
pub proof fn lemma_loaded_model(manifest: Manifest, error: Error)
    ensures
        loaded_view(Some(Ok(manifest))) == Some(Ok::<Seq<EntryView>, ErrorView>(manifest@)),
        loaded_view(Some(Err(error))) == Some(Err::<Seq<EntryView>, ErrorView>(error@)),
        loaded_view(None) is None,
{
}

/// The words of each error, for every path, reason, URI and place that it names.
pub proof fn lemma_error_words(path: PathBuf, s: Seq<char>, index: nat)
    ensures
        ({
            let entry = "Image entry "@ + crate::text::decimal(index);
            let shown = crate::paths::path_text(path);
            &&& (ErrorView::ReadFile { path, source: s }).text() == "Failed to read '"@ + shown
                + "': "@ + s
            &&& (ErrorView::ParseToml { path, source: s }).text() == "Invalid TOML in '"@ + shown
                + "': "@ + s
            &&& (ErrorView::AmbiguousSource { index }).text() == entry
                + ": both source_uri and source_archive specified"@
            &&& (ErrorView::MissingSource { index }).text() == entry
                + ": neither source_uri nor source_archive specified"@
            &&& (ErrorView::CannotInferTagFromDigest { uri: s, index }).text() == entry
                + ": cannot infer tag from digest reference '"@ + s + "'; specify tag explicitly"@
            &&& (ErrorView::CannotInferTag { uri: s, index }).text() == entry
                + ": cannot infer tag from URI '"@ + s + "'; specify tag explicitly"@
            &&& (ErrorView::TagRequiredForOciArchive { path, index }).text() == entry
                + ": tag is required when source is an archive '"@ + shown
                + "'; specify tag explicitly"@
        }),
{
}

/// An error that names a path shows it as it is told to, and says the same as
/// always but for that; an error that names none says the same however a path
/// would be shown.
pub proof fn lemma_error_shows_path(error: ErrorView, shown: Seq<char>)
    ensures
        match error {
            ErrorView::ReadFile { path, source } => error.text_showing(shown)
                == "Failed to read '"@ + shown + "': "@ + source,
            ErrorView::ParseToml { path, source } => error.text_showing(shown)
                == "Invalid TOML in '"@ + shown + "': "@ + source,
            ErrorView::TagRequiredForOciArchive { path, index } => error.text_showing(shown)
                == "Image entry "@ + crate::text::decimal(index)
                + ": tag is required when source is an archive '"@ + shown
                + "'; specify tag explicitly"@,
            _ => error.text_showing(shown) == error.text(),
        },
{
}

} // verus!
