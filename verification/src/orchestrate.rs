//! The retrieval orchestrator: plans which provider serves a request,
//! selects a media stream under the configured quality policy, and maps
//! every provider result or failure into the closed outcome shape. Each
//! invocation is independent; nothing is retried.

use vstd::prelude::*;
use crate::model::{
    ErrorKind, OperationKind, OrchestratorConfig, ProviderFailure, ProviderKind, QualityPolicy,
    RetrievalError, RetrievalOutcome, RetrievedFile, StreamDescriptor, ToolReport, VideoMetadata,
    VideoReference, opt_view,
};
use crate::normalize::{is_video_id, normalize, normalize_spec};

verus! {

/// The fixed mapping from requested operation to provider.
pub open spec fn provider_for(op: OperationKind) -> ProviderKind {
    match op {
        OperationKind::MetadataOnly => ProviderKind::Embedded,
        OperationKind::DownloadEmbedded => ProviderKind::Embedded,
        OperationKind::DownloadExternalTool => ProviderKind::ExternalTool,
    }
}

/// A planned provider invocation, carrying everything the provider needs.
#[derive(Debug)]
pub enum ProviderCall {
    EmbeddedMetadata {
        reference: VideoReference,
        timeout_secs: u64,
    },
    EmbeddedDownload {
        reference: VideoReference,
        quality: QualityPolicy,
        timeout_secs: u64,
    },
    ExternalDownload {
        reference: VideoReference,
        tool_path: String,
        output_dir: String,
        output_template: String,
        timeout_secs: u64,
    },
}

impl ProviderCall {
    /// The normalized reference the call carries.
    pub open spec fn reference(&self) -> Seq<char> {
        match self {
            ProviderCall::EmbeddedMetadata { reference, .. } => reference@,
            ProviderCall::EmbeddedDownload { reference, .. } => reference@,
            ProviderCall::ExternalDownload { reference, .. } => reference@,
        }
    }

    /// Which provider the call goes to.
    pub open spec fn provider(&self) -> ProviderKind {
        match self {
            ProviderCall::EmbeddedMetadata { .. } => ProviderKind::Embedded,
            ProviderCall::EmbeddedDownload { .. } => ProviderKind::Embedded,
            ProviderCall::ExternalDownload { .. } => ProviderKind::ExternalTool,
        }
    }

    pub open spec fn wf(&self) -> bool {
        is_video_id(self.reference())
    }
}

/// Normalizes the raw reference and plans the provider invocation for the
/// requested operation. A metadata request is planned for the embedded
/// provider's metadata path and nothing else; the configured quality
/// policy and timeout reach every call unchanged.
pub fn plan_request(raw: &str, op: OperationKind, cfg: &OrchestratorConfig) -> (r: Result<
    ProviderCall,
    RetrievalError,
>)
    ensures
        r is Ok <==> normalize_spec(raw@) is Some,
        r matches Ok(call) ==> Some(call.reference()) == normalize_spec(raw@) && call.wf()
            && call.provider() == provider_for(op),
        r matches Ok(call) ==> (match op {
            OperationKind::MetadataOnly => call matches ProviderCall::EmbeddedMetadata {
                timeout_secs,
                ..
            } && timeout_secs == cfg.timeout_secs,
            OperationKind::DownloadEmbedded => call matches ProviderCall::EmbeddedDownload {
                quality,
                timeout_secs,
                ..
            } && quality == cfg.quality && timeout_secs == cfg.timeout_secs,
            OperationKind::DownloadExternalTool => call matches ProviderCall::ExternalDownload {
                tool_path,
                output_dir,
                output_template,
                timeout_secs,
                ..
            } && tool_path@ == cfg.tool_path@ && output_dir@ == cfg.output_dir@
                && output_template@ == cfg.output_template@ && timeout_secs == cfg.timeout_secs,
        }),
        r matches Err(e) ==> e.kind == ErrorKind::InvalidReference && e.detail is None,
{
    let reference = match normalize(raw) {
        Ok(v) => v,
        Err(e) => { return Err(e); },
    };
    match op {
        OperationKind::MetadataOnly => Ok(ProviderCall::EmbeddedMetadata {
            reference,
            timeout_secs: cfg.timeout_secs,
        }),
        OperationKind::DownloadEmbedded => Ok(ProviderCall::EmbeddedDownload {
            reference,
            quality: cfg.quality,
            timeout_secs: cfg.timeout_secs,
        }),
        OperationKind::DownloadExternalTool => Ok(ProviderCall::ExternalDownload {
            reference,
            tool_path: cfg.tool_path.clone(),
            output_dir: cfg.output_dir.clone(),
            output_template: cfg.output_template.clone(),
            timeout_secs: cfg.timeout_secs,
        }),
    }
}

/// Which taxonomy kind a provider failure maps to; `during_download`
/// tells a retrieval failure apart from a metadata-fetch failure.
pub open spec fn failure_kind(during_download: bool, f: ProviderFailure) -> ErrorKind {
    match f {
        ProviderFailure::ParseFailure(_) => if during_download {
            ErrorKind::DownloadFailed
        } else {
            ErrorKind::MetadataFetchFailed
        },
        ProviderFailure::NetworkFailure(_) => if during_download {
            ErrorKind::DownloadFailed
        } else {
            ErrorKind::MetadataFetchFailed
        },
        ProviderFailure::IoFailure(_) => if during_download {
            ErrorKind::DownloadFailed
        } else {
            ErrorKind::MetadataFetchFailed
        },
        ProviderFailure::SubprocessFailure(_) => if during_download {
            ErrorKind::DownloadFailed
        } else {
            ErrorKind::MetadataFetchFailed
        },
        ProviderFailure::TimedOut(_) => ErrorKind::ProviderTimeout,
        ProviderFailure::FileMissing(_) => ErrorKind::FileNotFound,
        ProviderFailure::Other(_) => ErrorKind::Unknown,
    }
}

/// The provider's own wording, preserved through the mapping.
pub open spec fn failure_detail(f: ProviderFailure) -> Seq<char> {
    match f {
        ProviderFailure::ParseFailure(d) => d@,
        ProviderFailure::NetworkFailure(d) => d@,
        ProviderFailure::IoFailure(d) => d@,
        ProviderFailure::SubprocessFailure(d) => d@,
        ProviderFailure::TimedOut(d) => d@,
        ProviderFailure::FileMissing(d) => d@,
        ProviderFailure::Other(d) => d@,
    }
}

/// Maps one provider failure into the closed taxonomy, keeping its detail.
pub fn map_provider_failure(during_download: bool, f: ProviderFailure) -> (r: RetrievalError)
    ensures
        r.kind == failure_kind(during_download, f),
        r.detail matches Some(d) && d@ == failure_detail(f),
{
    let kind = match &f {
        ProviderFailure::ParseFailure(_) => if during_download {
            ErrorKind::DownloadFailed
        } else {
            ErrorKind::MetadataFetchFailed
        },
        ProviderFailure::NetworkFailure(_) => if during_download {
            ErrorKind::DownloadFailed
        } else {
            ErrorKind::MetadataFetchFailed
        },
        ProviderFailure::IoFailure(_) => if during_download {
            ErrorKind::DownloadFailed
        } else {
            ErrorKind::MetadataFetchFailed
        },
        ProviderFailure::SubprocessFailure(_) => if during_download {
            ErrorKind::DownloadFailed
        } else {
            ErrorKind::MetadataFetchFailed
        },
        ProviderFailure::TimedOut(_) => ErrorKind::ProviderTimeout,
        ProviderFailure::FileMissing(_) => ErrorKind::FileNotFound,
        ProviderFailure::Other(_) => ErrorKind::Unknown,
    };
    let detail = match f {
        ProviderFailure::ParseFailure(d) => d,
        ProviderFailure::NetworkFailure(d) => d,
        ProviderFailure::IoFailure(d) => d,
        ProviderFailure::SubprocessFailure(d) => d,
        ProviderFailure::TimedOut(d) => d,
        ProviderFailure::FileMissing(d) => d,
        ProviderFailure::Other(d) => d,
    };
    RetrievalError { kind, detail: Some(detail) }
}

/// Maps a metadata fetch result into the one outcome shape. A successful
/// answer is passed through verbatim.
pub fn metadata_outcome(result: Result<VideoMetadata, ProviderFailure>) -> (r: RetrievalOutcome)
    ensures
        result matches Ok(m) ==> r == RetrievalOutcome::Metadata(m),
        result matches Err(f) ==> r matches RetrievalOutcome::Failure(e)
            && e.kind == failure_kind(false, f)
            && (e.detail matches Some(d) && d@ == failure_detail(f)),
{
    match result {
        Ok(m) => RetrievalOutcome::Metadata(m),
        Err(f) => RetrievalOutcome::Failure(map_provider_failure(false, f)),
    }
}

/// Maps a download result into the one outcome shape. A retrieved file is
/// passed through verbatim.
pub fn download_outcome(result: Result<RetrievedFile, ProviderFailure>) -> (r: RetrievalOutcome)
    ensures
        result matches Ok(file) ==> r == RetrievalOutcome::File(file),
        result matches Err(f) ==> r matches RetrievalOutcome::Failure(e)
            && e.kind == failure_kind(true, f)
            && (e.detail matches Some(d) && d@ == failure_detail(f)),
{
    match result {
        Ok(file) => RetrievalOutcome::File(file),
        Err(f) => RetrievalOutcome::Failure(map_provider_failure(true, f)),
    }
}

/// Whether a stream may be picked under the policy.
pub open spec fn eligible(policy: QualityPolicy, d: StreamDescriptor) -> bool {
    match policy {
        QualityPolicy::BestAvailable => true,
        QualityPolicy::WorstAudio => d.audio_only,
    }
}

/// Whether the policy strictly prefers `a` over `b`.
pub open spec fn prefer(policy: QualityPolicy, a: StreamDescriptor, b: StreamDescriptor) -> bool {
    match policy {
        QualityPolicy::BestAvailable => a.quality_rank > b.quality_rank,
        QualityPolicy::WorstAudio => a.quality_rank < b.quality_rank,
    }
}

/// Picks the stream the policy asks for: the first one that no other
/// eligible stream is strictly preferred to. Yields nothing exactly when
/// no stream is eligible.
pub fn select_stream(streams: &Vec<StreamDescriptor>, policy: QualityPolicy) -> (r: Option<usize>)
    ensures
        r is Some <==> exists|i: int|
            0 <= i < streams@.len() && #[trigger] eligible(policy, streams@[i]),
        r matches Some(i) ==> i < streams@.len() && eligible(policy, streams@[i as int])
            && (forall|j: int| 0 <= j < streams@.len() && #[trigger] eligible(policy, streams@[j])
                ==> !prefer(policy, streams@[j], streams@[i as int]))
            && (forall|j: int| 0 <= j < i && #[trigger] eligible(policy, streams@[j])
                ==> prefer(policy, streams@[i as int], streams@[j])),
{
    let mut best: Option<usize> = None;
    let mut k: usize = 0;
    while k < streams.len()
        invariant
            k <= streams.len(),
            best matches Some(b) ==> b < k && eligible(policy, streams@[b as int])
                && (forall|j: int| 0 <= j < k && #[trigger] eligible(policy, streams@[j])
                    ==> !prefer(policy, streams@[j], streams@[b as int]))
                && (forall|j: int| 0 <= j < b && #[trigger] eligible(policy, streams@[j])
                    ==> prefer(policy, streams@[b as int], streams@[j])),
            best is None ==> forall|j: int|
                0 <= j < k ==> !(#[trigger] eligible(policy, streams@[j])),
        decreases streams.len() - k,
    {
        let cur = streams[k];
        let is_eligible = match policy {
            QualityPolicy::BestAvailable => true,
            QualityPolicy::WorstAudio => cur.audio_only,
        };
        if is_eligible {
            match best {
                None => {
                    best = Some(k);
                },
                Some(b) => {
                    let cur_better = match policy {
                        QualityPolicy::BestAvailable => cur.quality_rank
                            > streams[b].quality_rank,
                        QualityPolicy::WorstAudio => cur.quality_rank < streams[b].quality_rank,
                    };
                    if cur_better {
                        best = Some(k);
                    }
                },
            }
        }
        k += 1;
    }
    best
}

/// Picks a stream or reports that the requested variant does not exist.
pub fn choose_stream(streams: &Vec<StreamDescriptor>, policy: QualityPolicy) -> (r: Result<
    StreamDescriptor,
    RetrievalError,
>)
    ensures
        r is Ok <==> exists|i: int|
            0 <= i < streams@.len() && #[trigger] eligible(policy, streams@[i]),
        r matches Ok(d) ==> exists|i: int|
            0 <= i < streams@.len() && d == streams@[i] && #[trigger] eligible(policy, streams@[i])
                && (forall|j: int| 0 <= j < streams@.len()
                    && #[trigger] eligible(policy, streams@[j])
                    ==> !prefer(policy, streams@[j], streams@[i])),
        r matches Err(e) ==> e.kind == ErrorKind::StreamUnavailable && e.detail is None,
{
    match select_stream(streams, policy) {
        Some(i) => Ok(streams[i]),
        None => Err(RetrievalError::bare(ErrorKind::StreamUnavailable)),
    }
}

/// The file name the external tool's output resolves to: the reported
/// title, or `Unknown` in its absence, with the media suffix.
pub open spec fn resolved_name(title: Option<Seq<char>>) -> Seq<char> {
    (match title {
        Some(t) => t,
        None => "Unknown"@,
    }) + ".mp4"@
}

/// Resolves the file the external tool produced from its reported title
/// and the configured output directory.
pub fn resolve_output_file(title: Option<String>, out_dir: &str) -> (r: RetrievedFile)
    ensures
        r.display_name@ == resolved_name(opt_view(title)),
        r.path@ == out_dir@ + "/"@ + resolved_name(opt_view(title)),
        r.media_type@ == "video/mp4"@,
{
    let mut name = match title {
        Some(t) => t,
        None => String::from_str("Unknown"),
    };
    name.append(".mp4");
    let mut path = out_dir.to_owned();
    path.append("/");
    path.append(name.as_str());
    RetrievedFile { path, display_name: name, media_type: String::from_str("video/mp4") }
}

/// Maps what the external tool reported into the one outcome shape: a
/// single video resolves to its output file, anything else is a failure.
pub fn external_report_outcome(report: ToolReport, out_dir: &str) -> (r: RetrievalOutcome)
    ensures
        report matches ToolReport::Single(t) ==> r matches RetrievalOutcome::File(file)
            && file.display_name@ == resolved_name(opt_view(t))
            && file.path@ == out_dir@ + "/"@ + resolved_name(opt_view(t))
            && file.media_type@ == "video/mp4"@,
        report is NoVideo ==> (r matches RetrievalOutcome::Failure(e)
            && e.kind == ErrorKind::MetadataFetchFailed && e.detail is None),
        report matches ToolReport::Failed(f) ==> r matches RetrievalOutcome::Failure(e)
            && e.kind == failure_kind(true, f)
            && (e.detail matches Some(d) && d@ == failure_detail(f)),
{
    match report {
        ToolReport::Single(t) => RetrievalOutcome::File(resolve_output_file(t, out_dir)),
        ToolReport::NoVideo => RetrievalOutcome::Failure(RetrievalError::bare(
            ErrorKind::MetadataFetchFailed,
        )),
        ToolReport::Failed(f) => RetrievalOutcome::Failure(map_provider_failure(true, f)),
    }
}

} // verus!
