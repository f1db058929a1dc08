//! Resolving the root argument into the location a listing starts from.

use vstd::prelude::*;
use url::Url;
use crate::error::FindError;

verus! {

/// `url::ParseError`, what `url::Url::parse` returns for a text it
/// rejects. Nothing inside it is visible to the proofs.
#[verifier::external_type_specification]
#[verifier::external_body]
pub struct ExUrlParseError(url::ParseError);

/// The serialisation of the absolute URL that `text` parses to, as
/// `url::Url::parse` gives it, or `None` when `text` is not an absolute URL.
pub uninterp spec fn absolute_url(text: Seq<char>) -> Option<Seq<char>>;

/// Calls `url::Url::parse` and hands back the URL's serialisation. The
/// outcome is a function of the text alone.
#[verifier::external_body]
pub(crate) fn parse_url(text: &str) -> (r: Result<String, url::ParseError>)
    ensures
        match r {
            Ok(url) => absolute_url(text@) == Some(url@),
            Err(_) => absolute_url(text@) is None,
        },
{
    Url::parse(text).map(String::from)
}

/// `url` is written in the `file` scheme: it begins with `file://`.
pub open spec fn is_file_url(url: Seq<char>) -> bool {
    "file://"@.is_prefix_of(url)
}

/// Calls `url::Url::from_file_path` and hands back the URL's serialisation.
/// Which paths count as absolute depends on the platform, so nothing is
/// claimed of when there is a URL. When there is one it is in the `file`
/// scheme: on every platform the function writes `file://` first and only
/// appends to it.
#[verifier::external_body]
fn file_url(path: &str) -> (r: Result<String, ()>)
    ensures
        r matches Ok(url) ==> is_file_url(url@),
{
    Url::from_file_path(path).map(String::from)
}

/// Where a run takes its listing from.
#[derive(Debug, Clone, PartialEq, Eq)]
pub enum RootSource {
    /// No root was given: header and records come from the input stream.
    Upstream,
    /// The root is this absolute URL.
    Url(String),
    /// The root is not a URL. It names a local path, which has to be made
    /// canonical and then turned into a URL with [`local_root`].
    LocalPath(String),
}

/// What a root argument resolves to, given what parsing it as a URL gave.
pub open spec fn spec_root_source(root: Option<Seq<char>>) -> RootSourceView {
    match root {
        None => RootSourceView::Upstream,
        Some(text) => match absolute_url(text) {
            Some(url) => RootSourceView::Url(url),
            None => RootSourceView::LocalPath(text),
        },
    }
}

/// The text held by a [`RootSource`].
pub enum RootSourceView {
    Upstream,
    Url(Seq<char>),
    LocalPath(Seq<char>),
}

impl View for RootSource {
    type V = RootSourceView;

    open spec fn view(&self) -> RootSourceView {
        match self {
            RootSource::Upstream => RootSourceView::Upstream,
            RootSource::Url(url) => RootSourceView::Url(url@),
            RootSource::LocalPath(path) => RootSourceView::LocalPath(path@),
        }
    }
}

/// The source for a root argument that was given, from what parsing it as
/// a URL gave: that URL, or else the argument itself as a local path.
pub fn root_from_url(text: &str, url: Option<String>) -> (source: RootSource)
    ensures
        source@ == match url {
            Some(parsed) => RootSourceView::Url(parsed@),
            None => RootSourceView::LocalPath(text@),
        },
{
    match url {
        Some(parsed) => RootSource::Url(parsed),
        None => RootSource::LocalPath(text.to_owned()),
    }
}

/// Classifies the root argument: absent, an absolute URL, or otherwise a
/// local path.
pub(crate) fn root_source(root: Option<&str>) -> (source: RootSource)
    ensures
        source@ == spec_root_source(
            match root {
                Some(text) => Some(text@),
                None => None,
            },
        ),
{
    match root {
        None => RootSource::Upstream,
        Some(text) => {
            let url = match parse_url(text) {
                Ok(url) => Some(url),
                Err(_) => None,
            };
            root_from_url(text, url)
        },
    }
}

/// The root for the outcome of turning a canonical local path into a URL:
/// the URL when there is one, `InvalidRoot` when the path has none.
pub fn root_from_file_url(outcome: Result<String, ()>) -> (r: Result<String, FindError>)
    ensures
        match outcome {
            Ok(url) => r == Ok::<String, FindError>(url),
            Err(_) => r == Err::<String, FindError>(FindError::InvalidRoot),
        },
{
    match outcome {
        Ok(url) => Ok(url),
        Err(_) => Err(FindError::InvalidRoot),
    }
}

/// The `file` URL of a canonical local path. A path that is not absolute
/// has no such URL and gives `InvalidRoot`; that is the only error. Which
/// paths are absolute is the platform's to say.
pub fn local_root(canonical_path: &str) -> (r: Result<String, FindError>)
    ensures
        r matches Ok(url) ==> is_file_url(url@),
        r matches Err(e) ==> e == FindError::InvalidRoot,
{
    root_from_file_url(file_url(canonical_path))
}

} // verus!
