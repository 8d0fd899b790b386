//! Why a run, or the publication of one image, fails.

use crate::manifest;
use crate::text::decimal_text;
use vstd::prelude::*;
use vstd::string::*;

verus! {

/// Why a run, or the publication of one image, fails. Where an outside service
/// failed, `source` is what it said.
#[derive(Debug)]
#[allow(inconsistent_fields)]
pub enum Error {
    Config { source: String },
    Manifest { source: manifest::Error },
    Credentials { region: String, source: String },
    PullTempDir { uri: String, source: String },
    ImageTool { region: String, source: String },
    GetCallerIdentity { region: String, source: String },
    MissingAccountId { region: String },
    MissingConfig { missing: String },
    PublishFailed { count: usize, targets: String },
}

/// The model of [`Error`].
#[allow(inconsistent_fields)]
pub enum ErrorView {
    Config { source: Seq<char> },
    Manifest { source: manifest::ErrorView },
    Credentials { region: Seq<char>, source: Seq<char> },
    PullTempDir { uri: Seq<char>, source: Seq<char> },
    ImageTool { region: Seq<char>, source: Seq<char> },
    GetCallerIdentity { region: Seq<char>, source: Seq<char> },
    MissingAccountId { region: Seq<char> },
    MissingConfig { missing: Seq<char> },
    PublishFailed { count: nat, targets: Seq<char> },
}

impl View for Error {
    type V = ErrorView;

    open spec fn view(&self) -> ErrorView {
        match *self {
            Error::Config { source } => ErrorView::Config { source: source@ },
            Error::Manifest { source } => ErrorView::Manifest { source: source@ },
            Error::Credentials { region, source } => ErrorView::Credentials {
                region: region@,
                source: source@,
            },
            Error::PullTempDir { uri, source } => ErrorView::PullTempDir {
                uri: uri@,
                source: source@,
            },
            Error::ImageTool { region, source } => ErrorView::ImageTool {
                region: region@,
                source: source@,
            },
            Error::GetCallerIdentity { region, source } => ErrorView::GetCallerIdentity {
                region: region@,
                source: source@,
            },
            Error::MissingAccountId { region } => ErrorView::MissingAccountId { region: region@ },
            Error::MissingConfig { missing } => ErrorView::MissingConfig { missing: missing@ },
            Error::PublishFailed { count, targets } => ErrorView::PublishFailed {
                count: count as nat,
                targets: targets@,
            },
        }
    }
}

impl ErrorView {
    /// The error in words.
    pub open spec fn text(self) -> Seq<char> {
        match self {
            ErrorView::Config { source } => "Error reading config: "@ + source,
            ErrorView::Manifest { source } => "Failed to resolve image manifest: "@ + source.text(),
            ErrorView::Credentials { region, source } => "Failed to obtain credentials for "@
                + region + ": "@ + source,
            ErrorView::PullTempDir { uri, source } =>
                "Failed to create temp directory for pulling "@ + uri + ": "@ + source,
            ErrorView::ImageTool { region, source } => "Failed to run image tool for "@ + region
                + ": "@ + source,
            ErrorView::GetCallerIdentity { region, source } => "Error getting account ID in "@
                + region + ": "@ + source,
            ErrorView::MissingAccountId { region } => "No account ID returned for region "@
                + region,
            ErrorView::MissingConfig { missing } => "Missing config: "@ + missing,
            ErrorView::PublishFailed { count, targets } => "Publish failed for "@
                + crate::text::decimal(count) + " target(s): "@ + targets,
        }
    }
}

/// `start`, `subject`, a colon and `source`.
fn about(start: &str, subject: &str, source: &str) -> (message: String)
    ensures
        message@ == start@ + subject@ + ": "@ + source@,
{
    let mut message = start.to_owned();
    message.append(subject);
    message.append(": ");
    message.append(source);
    message
}

impl Error {
    /// The error in words.
    pub fn message(&self) -> (message: String)
        ensures
            message@ == self@.text(),
    {
        match self {
            Error::Config { source } => {
                let mut message = "Error reading config: ".to_owned();
                message.append(source.as_str());
                message
            },
            Error::Manifest { source } => {
                let mut message = "Failed to resolve image manifest: ".to_owned();
                message.append(source.message().as_str());
                message
            },
            Error::Credentials { region, source } => about(
                "Failed to obtain credentials for ",
                region.as_str(),
                source.as_str(),
            ),
            Error::PullTempDir { uri, source } => about(
                "Failed to create temp directory for pulling ",
                uri.as_str(),
                source.as_str(),
            ),
            Error::ImageTool { region, source } => about(
                "Failed to run image tool for ",
                region.as_str(),
                source.as_str(),
            ),
            Error::GetCallerIdentity { region, source } => about(
                "Error getting account ID in ",
                region.as_str(),
                source.as_str(),
            ),
            Error::MissingAccountId { region } => {
                let mut message = "No account ID returned for region ".to_owned();
                message.append(region.as_str());
                message
            },
            Error::MissingConfig { missing } => {
                let mut message = "Missing config: ".to_owned();
                message.append(missing.as_str());
                message
            },
            Error::PublishFailed { count, targets } => {
                let mut message = "Publish failed for ".to_owned();
                message.append(decimal_text(*count).as_str());
                message.append(" target(s): ");
                message.append(targets.as_str());
                message
            },
        }
    }
}

/// The model of an error is of the same kind and holds what the error holds.
pub proof fn lemma_error_model(a: String, b: String, n: usize, source: manifest::Error)
    ensures
        (Error::Config { source: a })@ == (ErrorView::Config { source: a@ }),
        (Error::Manifest { source })@ == (ErrorView::Manifest { source: source@ }),
        (Error::Credentials { region: a, source: b })@ == (ErrorView::Credentials {
            region: a@,
            source: b@,
        }),
        (Error::PullTempDir { uri: a, source: b })@ == (ErrorView::PullTempDir {
            uri: a@,
            source: b@,
        }),
        (Error::ImageTool { region: a, source: b })@ == (ErrorView::ImageTool {
            region: a@,
            source: b@,
        }),
        (Error::GetCallerIdentity { region: a, source: b })@ == (ErrorView::GetCallerIdentity {
            region: a@,
            source: b@,
        }),
        (Error::MissingAccountId { region: a })@ == (ErrorView::MissingAccountId { region: a@ }),
        (Error::MissingConfig { missing: a })@ == (ErrorView::MissingConfig { missing: a@ }),
        (Error::PublishFailed { count: n, targets: a })@ == (ErrorView::PublishFailed {
            count: n as nat,
            targets: a@,
        }),
{
}

/// The words of each error, for everything that it can name.
pub proof fn lemma_error_words(
    a: Seq<char>,
    b: Seq<char>,
    n: nat,
    source: manifest::ErrorView,
)
    ensures
        (ErrorView::Config { source: a }).text() == "Error reading config: "@ + a,
        (ErrorView::Manifest { source }).text() == "Failed to resolve image manifest: "@
            + source.text(),
        (ErrorView::Credentials { region: a, source: b }).text()
            == "Failed to obtain credentials for "@ + a + ": "@ + b,
        (ErrorView::PullTempDir { uri: a, source: b }).text()
            == "Failed to create temp directory for pulling "@ + a + ": "@ + b,
        (ErrorView::ImageTool { region: a, source: b }).text() == "Failed to run image tool for "@
            + a + ": "@ + b,
        (ErrorView::GetCallerIdentity { region: a, source: b }).text()
            == "Error getting account ID in "@ + a + ": "@ + b,
        (ErrorView::MissingAccountId { region: a }).text() == "No account ID returned for region "@
            + a,
        (ErrorView::MissingConfig { missing: a }).text() == "Missing config: "@ + a,
        (ErrorView::PublishFailed { count: n, targets: a }).text() == "Publish failed for "@
            + crate::text::decimal(n) + " target(s): "@ + a,
{
}

} // verus!
