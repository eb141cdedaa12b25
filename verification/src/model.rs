//! Data model of the retrieval core: requests, references, metadata,
//! outcomes and the closed error taxonomy.

use vstd::prelude::*;
use crate::normalize;

verus! {

/// Request body of the metadata and embedded-download endpoints.
#[derive(Debug)]
pub struct Info {
    pub data: String,
}

/// Query parameters of the external-tool download endpoint.
#[derive(Debug)]
pub struct Query {
    pub data: String,
}

/// The operation a client asked for.
#[derive(Clone, Copy, PartialEq, Eq, Structural, Debug)]
pub enum OperationKind {
    MetadataOnly,
    DownloadEmbedded,
    DownloadExternalTool,
}

/// The two retrieval backends.
#[derive(Clone, Copy, PartialEq, Eq, Structural, Debug)]
pub enum ProviderKind {
    Embedded,
    ExternalTool,
}

/// Which media stream variant a download should pick.
#[derive(Clone, Copy, PartialEq, Eq, Structural, Debug)]
pub enum QualityPolicy {
    BestAvailable,
    WorstAudio,
}

/// The closed set of failure kinds the orchestrator surfaces.
#[derive(Clone, Copy, PartialEq, Eq, Structural, Debug)]
pub enum ErrorKind {
    InvalidReference,
    MetadataFetchFailed,
    StreamUnavailable,
    DownloadFailed,
    ProviderTimeout,
    FileNotFound,
    Unknown,
}

/// A failure kind together with an optional human-readable detail.
#[derive(Debug)]
pub struct RetrievalError {
    pub kind: ErrorKind,
    pub detail: Option<String>,
}

impl RetrievalError {
    /// A failure of the given kind with no further detail.
    pub fn bare(kind: ErrorKind) -> (r: RetrievalError)
        ensures
            r.kind == kind,
            r.detail is None,
    {
        RetrievalError { kind, detail: None }
    }
}

/// A canonical video identifier. The field is private: every value is built
/// by the normalizer and satisfies the platform's identifier grammar.
#[derive(Debug)]
pub struct VideoReference {
    id: String,
}

impl View for VideoReference {
    type V = Seq<char>;

    closed spec fn view(&self) -> Seq<char> {
        self.id@
    }
}

impl VideoReference {
    /// A well-formed reference is exactly a valid video identifier.
    pub open spec fn wf(&self) -> bool {
        normalize::is_video_id(self@)
    }

    /// Wraps an identifier string; only the normalizer builds references.
    pub(crate) fn from_id(id: String) -> (r: VideoReference)
        ensures
            r@ == id@,
    {
        VideoReference { id }
    }

    /// The canonical string form of the reference.
    pub fn as_str(&self) -> (r: &str)
        ensures
            r@ == self@,
    {
        self.id.as_str()
    }
}

/// One available media stream variant of a video.
#[derive(Clone, Copy, PartialEq, Eq, Structural, Debug)]
pub struct StreamDescriptor {
    pub tag: u64,
    pub quality_rank: u64,
    pub audio_only: bool,
}

/// Structured details about a video, as the provider reported them.
#[derive(Debug)]
pub struct VideoMetadata {
    pub title: String,
    pub author: String,
    pub duration_seconds: u64,
}

/// Mathematical image of a `VideoMetadata`.
pub ghost struct MetadataView {
    pub title: Seq<char>,
    pub author: Seq<char>,
    pub duration_seconds: u64,
}

impl View for VideoMetadata {
    type V = MetadataView;

    open spec fn view(&self) -> MetadataView {
        MetadataView {
            title: self.title@,
            author: self.author@,
            duration_seconds: self.duration_seconds,
        }
    }
}

/// The body shape of a successful metadata reply.
#[derive(Debug)]
pub struct VideoResponse {
    pub id: String,
    pub details: VideoMetadata,
}

/// Mathematical image of a `VideoResponse`.
pub ghost struct ResponseView {
    pub id: Seq<char>,
    pub details: MetadataView,
}

impl View for VideoResponse {
    type V = ResponseView;

    open spec fn view(&self) -> ResponseView {
        ResponseView { id: self.id@, details: self.details@ }
    }
}

/// A finished download: where the file sits and how to present it.
#[derive(Debug)]
pub struct RetrievedFile {
    pub path: String,
    pub display_name: String,
    pub media_type: String,
}

/// Mathematical image of a `RetrievedFile`.
pub ghost struct FileView {
    pub path: Seq<char>,
    pub display_name: Seq<char>,
    pub media_type: Seq<char>,
}

impl View for RetrievedFile {
    type V = FileView;

    open spec fn view(&self) -> FileView {
        FileView {
            path: self.path@,
            display_name: self.display_name@,
            media_type: self.media_type@,
        }
    }
}

/// The single normalized result shape the orchestrator produces.
#[derive(Debug)]
pub enum RetrievalOutcome {
    Metadata(VideoMetadata),
    File(RetrievedFile),
    Failure(RetrievalError),
}

/// What a provider reported when it failed, as the surrounding program
/// hands it back: loosely structured, with the provider's own wording.
#[derive(Debug)]
pub enum ProviderFailure {
    ParseFailure(String),
    NetworkFailure(String),
    IoFailure(String),
    SubprocessFailure(String),
    TimedOut(String),
    FileMissing(String),
    Other(String),
}

/// What the external extraction tool reported: a single video with an
/// optional title, something that is not a single video, or a failure.
#[derive(Debug)]
pub enum ToolReport {
    Single(Option<String>),
    NoVideo,
    Failed(ProviderFailure),
}

/// View of an optional owned string.
pub open spec fn opt_view(o: Option<String>) -> Option<Seq<char>> {
    match o {
        Some(s) => Some(s@),
        None => None,
    }
}

/// Startup configuration of the orchestrator, validated once.
#[derive(Debug)]
pub struct OrchestratorConfig {
    pub tool_path: String,
    pub output_dir: String,
    pub output_template: String,
    pub timeout_secs: u64,
    pub quality: QualityPolicy,
    pub body_limit: usize,
}

impl OrchestratorConfig {
    /// A usable configuration names the external tool and an output
    /// directory; nothing else is constrained.
    pub open spec fn wf(&self) -> bool {
        self.tool_path@.len() > 0 && self.output_dir@.len() > 0
    }

    /// Builds a configuration, rejecting empty tool or output paths.
    pub fn new(
        tool_path: String,
        output_dir: String,
        output_template: String,
        timeout_secs: u64,
        quality: QualityPolicy,
        body_limit: usize,
    ) -> (r: Option<OrchestratorConfig>)
        ensures
            r is Some <==> (tool_path@.len() > 0 && output_dir@.len() > 0),
            r matches Some(c) ==> c == (OrchestratorConfig {
                tool_path,
                output_dir,
                output_template,
                timeout_secs,
                quality,
                body_limit,
            }),
    {
        if tool_path.as_str().is_empty() || output_dir.as_str().is_empty() {
            None
        } else {
            Some(OrchestratorConfig {
                tool_path,
                output_dir,
                output_template,
                timeout_secs,
                quality,
                body_limit,
            })
        }
    }
}

} // verus!
