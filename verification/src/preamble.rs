//! The one-line header that precedes every record stream.

use vstd::prelude::*;
use vstd::string::StringExecFns;
use crate::error::FindError;
use crate::root::{absolute_url, parse_url, RootSource, RootSourceView};

verus! {

/// The tag of protocol version 0.
pub open spec fn version_tag() -> Seq<char> {
    "Obvious3_0"@
}

/// A header line for each object listing, which names the object store the
/// objects are from.
#[allow(non_camel_case_types)]
#[derive(Debug, Clone, PartialEq, Eq)]
pub enum Preamble {
    /// Protocol version 0
    Obvious3_0 {
        /// The object store that the objects are from, as an absolute URL
        root: String,
    },
}

/// What a header says.
#[allow(non_camel_case_types)]
pub enum PreambleView {
    Obvious3_0 { root: Seq<char> },
}

impl View for Preamble {
    type V = PreambleView;

    open spec fn view(&self) -> PreambleView {
        match self {
            Preamble::Obvious3_0 { root } => PreambleView::Obvious3_0 { root: root@ },
        }
    }
}

/// The fields of a header line as they stand on the wire: the version tag
/// and what that version carries.
#[derive(Debug, Clone, PartialEq, Eq)]
pub struct HeaderFields {
    /// The version tag.
    pub file_type: String,
    /// The root location, as an absolute URL.
    pub root: String,
}

/// The text of the fields of a header line.
pub struct HeaderFieldsView {
    /// The version tag.
    pub file_type: Seq<char>,
    /// The root location.
    pub root: Seq<char>,
}

impl View for HeaderFields {
    type V = HeaderFieldsView;

    open spec fn view(&self) -> HeaderFieldsView {
        HeaderFieldsView { file_type: self.file_type@, root: self.root@ }
    }
}

/// The text of the fields of an optional header line.
pub open spec fn fields_view(fields: Option<HeaderFields>) -> Option<HeaderFieldsView> {
    match fields {
        Some(f) => Some(f@),
        None => None,
    }
}

impl HeaderFieldsView {
    /// These fields make a header: the tag is that of a known version and
    /// the root is an absolute URL.
    pub open spec fn is_header(self) -> bool {
        self.file_type == version_tag() && absolute_url(self.root) is Some
    }
}

impl PreambleView {
    /// The root location.
    pub open spec fn root(self) -> Seq<char> {
        match self {
            PreambleView::Obvious3_0 { root } => root,
        }
    }

    /// The header is well-formed: its root is an absolute URL. A header
    /// read from a stream always is.
    pub open spec fn wf(self) -> bool {
        absolute_url(self.root()) is Some
    }

    /// The wire fields of a header.
    pub open spec fn encode(self) -> HeaderFieldsView {
        match self {
            PreambleView::Obvious3_0 { root } => HeaderFieldsView { file_type: version_tag(), root },
        }
    }

    /// The header that the first line of a stream stands for. A stream with
    /// no first line has none, nor has one whose first line carries an
    /// unknown tag or a root that is not an absolute URL.
    pub open spec fn decode(fields: Option<HeaderFieldsView>) -> Result<PreambleView, FindError> {
        match fields {
            Some(f) => if f.is_header() {
                Ok(PreambleView::Obvious3_0 { root: f.root })
            } else {
                Err(FindError::MissingOrMalformedHeader)
            },
            None => Err(FindError::MissingOrMalformedHeader),
        }
    }
}

impl Preamble {
    /// A fresh header for a listing rooted at `root`, which is to be an
    /// absolute URL: the header is well-formed exactly when it is.
    pub fn new(root: String) -> (preamble: Preamble)
        ensures
            preamble == (Preamble::Obvious3_0 { root }),
    {
        Preamble::Obvious3_0 { root }
    }

    /// The header of a run that takes its listing from `source`.
    ///
    /// A URL root gives a fresh header for that URL. A local path gives a
    /// fresh header for `file_url`, the `file` URL of its canonical form;
    /// `None` there stands for a path that could not be resolved or has no
    /// such URL, and is an `InvalidRoot`. Without a root the header is read
    /// from `first_line`, the fields of the first line of input.
    pub fn resolve(
        source: RootSource,
        file_url: Option<String>,
        first_line: Option<HeaderFields>,
    ) -> (r: Result<Preamble, FindError>)
        ensures
            match source@ {
                RootSourceView::Url(url) => r matches Ok(preamble) && preamble@ == (
                PreambleView::Obvious3_0 { root: url }),
                RootSourceView::LocalPath(_) => match file_url {
                    Some(url) => r matches Ok(preamble) && preamble@ == (
                    PreambleView::Obvious3_0 { root: url@ }),
                    None => r == Err::<Preamble, FindError>(FindError::InvalidRoot),
                },
                RootSourceView::Upstream => match r {
                    Ok(preamble) => PreambleView::decode(fields_view(first_line)) == Ok::<
                        PreambleView,
                        FindError,
                    >(preamble@),
                    Err(e) => PreambleView::decode(fields_view(first_line)) == Err::<
                        PreambleView,
                        FindError,
                    >(e),
                },
            },
    {
        match source {
            RootSource::Url(url) => Ok(Preamble::new(url)),
            RootSource::LocalPath(_) => match file_url {
                Some(url) => Ok(Preamble::new(url)),
                None => Err(FindError::InvalidRoot),
            },
            RootSource::Upstream => Preamble::decode(first_line),
        }
    }

    /// The root location the listing was taken from.
    pub fn root(&self) -> (root: &str)
        ensures
            self@ == (PreambleView::Obvious3_0 { root: root@ }),
    {
        match self {
            Preamble::Obvious3_0 { root } => root.as_str(),
        }
    }

    /// The wire fields of this header.
    pub fn encode(&self) -> (fields: HeaderFields)
        ensures
            fields@ == self@.encode(),
    {
        match self {
            Preamble::Obvious3_0 { root } => HeaderFields {
                file_type: String::from_str("Obvious3_0"),
                root: root.clone(),
            },
        }
    }

    /// The header for the fields of a first line, given what parsing their
    /// root as a URL gave: the header with that root when the tag is that
    /// of a known version and the root did parse, and else a
    /// `MissingOrMalformedHeader`.
    pub fn from_fields(fields: HeaderFields, root_url: Option<String>) -> (r: Result<
        Preamble,
        FindError,
    >)
        ensures
            r is Ok <==> fields.file_type@ == version_tag() && root_url is Some,
            r matches Ok(preamble) ==> preamble == (Preamble::Obvious3_0 { root: fields.root }),
            r matches Err(e) ==> e == FindError::MissingOrMalformedHeader,
    {
        if fields.file_type == String::from_str("Obvious3_0") && root_url.is_some() {
            Ok(Preamble::Obvious3_0 { root: fields.root })
        } else {
            Err(FindError::MissingOrMalformedHeader)
        }
    }

    /// Reads a header from the fields of the first input line, `None`
    /// standing for a line that is absent or not a header object at all.
    /// The line is a header when its tag is that of a known version and its
    /// root is an absolute URL; the header then carries the root as it
    /// stands. Anything else is rejected with `MissingOrMalformedHeader`.
    pub fn decode(fields: Option<HeaderFields>) -> (r: Result<Preamble, FindError>)
        ensures
            match r {
                Ok(preamble) => PreambleView::decode(fields_view(fields)) == Ok::<
                    PreambleView,
                    FindError,
                >(preamble@),
                Err(e) => PreambleView::decode(fields_view(fields)) == Err::<
                    PreambleView,
                    FindError,
                >(e),
            },
            r matches Ok(preamble) ==> preamble@.wf(),
    {
        match fields {
            Some(f) => {
                let root_url = match parse_url(f.root.as_str()) {
                    Ok(url) => Some(url),
                    Err(_) => None,
                };
                Preamble::from_fields(f, root_url)
            },
            None => Err(FindError::MissingOrMalformedHeader),
        }
    }
}

/// Encoding a well-formed header and decoding the result yields the header
/// again.
pub proof fn lemma_header_round_trip(preamble: PreambleView)
    requires
        preamble.wf(),
    ensures
        PreambleView::decode(Some(preamble.encode())) == Ok::<PreambleView, FindError>(preamble),
{
}

/// A stream that begins with anything but a header is rejected: decoding
/// succeeds only on the encoding of the header it yields, that header is
/// well-formed, and the only error is `MissingOrMalformedHeader`.
pub proof fn lemma_only_headers_decode(fields: Option<HeaderFieldsView>)
    ensures
        match PreambleView::decode(fields) {
            Ok(preamble) => fields == Some(preamble.encode()) && preamble.wf(),
            Err(e) => e == FindError::MissingOrMalformedHeader,
        },
{
}

/// A header decodes exactly when its first line is there, carries the tag
/// of a known version and has an absolute URL for its root.
pub proof fn lemma_decode_accepts_headers_only(fields: Option<HeaderFieldsView>)
    ensures
        PreambleView::decode(fields) is Ok <==> (fields matches Some(f) && f.file_type
            == version_tag() && absolute_url(f.root) is Some),
{
}

} // verus!
