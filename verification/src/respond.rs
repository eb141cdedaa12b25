//! The response adapter: turns an outcome into an HTTP reply — a JSON
//! payload, a plain-text explanation, or a file attachment — with the
//! status the failure taxonomy dictates. Also the admission check that
//! bounds a JSON request body before anything else looks at it.

use vstd::prelude::*;
use crate::codec::{encode_video_response, json_of_response};
use crate::model::{
    ErrorKind, MetadataView, OperationKind, OrchestratorConfig, ResponseView, RetrievalError,
    RetrievalOutcome, RetrievedFile, VideoMetadata, VideoReference, VideoResponse, opt_view,
};
use crate::normalize::normalize_spec;
use crate::orchestrate::{ProviderCall, plan_request, provider_for};

verus! {

/// What a reply carries back to the client.
#[derive(Debug)]
pub enum ReplyPayload {
    Json(String),
    PlainText(String),
    Attachment(RetrievedFile),
}

/// A transport-ready reply: a status code and a payload. An attachment is
/// served with a `Content-Disposition: attachment` header.
#[derive(Debug)]
pub struct HttpReply {
    pub status: u16,
    pub payload: ReplyPayload,
}

/// The status every failure kind maps to: a malformed reference is the
/// client's fault, everything else is reported as a server-side failure.
pub open spec fn status_of_kind(k: ErrorKind) -> u16 {
    match k {
        ErrorKind::InvalidReference => 400,
        _ => 500,
    }
}

pub open spec fn detail_text(detail: Option<Seq<char>>) -> Seq<char> {
    match detail {
        Some(d) => d,
        None => Seq::empty(),
    }
}

/// The plain-text body reported for a failure. A metadata-fetch failure
/// without any provider wording is the case in which the provider answered
/// but yielded no usable video information, and keeps its fixed text.
pub open spec fn error_message(k: ErrorKind, detail: Option<Seq<char>>) -> Seq<char> {
    match k {
        ErrorKind::InvalidReference => "Invalid YouTube URL"@,
        ErrorKind::MetadataFetchFailed => match detail {
            Some(d) => "Failed to fetch video: "@ + d,
            None => "Failed to get video info."@,
        },
        ErrorKind::StreamUnavailable => "Stream unavailable: "@ + detail_text(detail),
        ErrorKind::DownloadFailed => "Download failed: "@ + detail_text(detail),
        ErrorKind::ProviderTimeout => "Provider timed out: "@ + detail_text(detail),
        ErrorKind::FileNotFound => "File not found"@,
        ErrorKind::Unknown => "Error: "@ + detail_text(detail),
    }
}

fn append_detail(body: &mut String, detail: &Option<String>)
    ensures
        final(body)@ == old(body)@ + detail_text(opt_view(*detail)),
{
    match detail {
        Some(d) => {
            body.append(d.as_str());
        },
        None => {
            proof {
                assert(body@ + Seq::<char>::empty() =~= body@);
            }
        },
    }
}

/// Renders one failure as a plain-text reply.
pub fn error_reply(e: RetrievalError) -> (r: HttpReply)
    ensures
        r.status == status_of_kind(e.kind),
        r.payload matches ReplyPayload::PlainText(b) && b@ == error_message(
            e.kind,
            opt_view(e.detail),
        ),
{
    let status: u16 = match e.kind {
        ErrorKind::InvalidReference => 400,
        _ => 500,
    };
    let body: String = match e.kind {
        ErrorKind::InvalidReference => String::from_str("Invalid YouTube URL"),
        ErrorKind::MetadataFetchFailed => match &e.detail {
            Some(d) => {
                let mut b = String::from_str("Failed to fetch video: ");
                b.append(d.as_str());
                b
            },
            None => String::from_str("Failed to get video info."),
        },
        ErrorKind::StreamUnavailable => {
            let mut b = String::from_str("Stream unavailable: ");
            append_detail(&mut b, &e.detail);
            b
        },
        ErrorKind::DownloadFailed => {
            let mut b = String::from_str("Download failed: ");
            append_detail(&mut b, &e.detail);
            b
        },
        ErrorKind::ProviderTimeout => {
            let mut b = String::from_str("Provider timed out: ");
            append_detail(&mut b, &e.detail);
            b
        },
        ErrorKind::FileNotFound => String::from_str("File not found"),
        ErrorKind::Unknown => {
            let mut b = String::from_str("Error: ");
            append_detail(&mut b, &e.detail);
            b
        },
    };
    HttpReply { status, payload: ReplyPayload::PlainText(body) }
}

/// Rejects a JSON request whose body is larger than the configured limit,
/// before the body is read at all; the check depends on nothing but the
/// length.
pub fn screen_body(body_len: usize, cfg: &OrchestratorConfig) -> (r: Option<HttpReply>)
    ensures
        r is Some <==> body_len > cfg.body_limit,
        r matches Some(rep) ==> rep.status == 409
            && (rep.payload matches ReplyPayload::PlainText(b) && b@ == Seq::<char>::empty()),
{
    if body_len > cfg.body_limit {
        Some(HttpReply { status: 409, payload: ReplyPayload::PlainText(String::new()) })
    } else {
        None
    }
}

/// Admits a JSON request: the size bound is checked first — an oversized
/// body is turned away with `409` whatever the reference says — then the
/// reference is normalized and the provider call planned. An invalid
/// reference yields the `400` reply and no provider call.
pub fn begin_json_request(
    body_len: usize,
    raw: &str,
    op: OperationKind,
    cfg: &OrchestratorConfig,
) -> (r: Result<ProviderCall, HttpReply>)
    ensures
        body_len > cfg.body_limit ==> (r matches Err(rep) && rep.status == 409
            && (rep.payload matches ReplyPayload::PlainText(b) && b@ == Seq::<char>::empty())),
        body_len <= cfg.body_limit ==> {
            &&& (r is Ok <==> normalize_spec(raw@) is Some)
            &&& (r matches Ok(call) ==> Some(call.reference()) == normalize_spec(raw@)
                && call.wf() && call.provider() == provider_for(op)
                && (op == OperationKind::MetadataOnly ==> call is EmbeddedMetadata))
            &&& (r matches Err(rep) ==> rep.status == 400
                && (rep.payload matches ReplyPayload::PlainText(b)
                    && b@ == "Invalid YouTube URL"@))
        },
{
    if let Some(rep) = screen_body(body_len, cfg) {
        return Err(rep);
    }
    match plan_request(raw, op, cfg) {
        Ok(call) => Ok(call),
        Err(e) => Err(error_reply(e)),
    }
}

/// Renders the metadata outcome for the video-information endpoint: on
/// success a `200` JSON frame whose identifier is exactly the normalized
/// reference and whose details are the provider's answer, verbatim.
pub fn video_info_reply(reference: &VideoReference, outcome: RetrievalOutcome) -> (r: HttpReply)
    ensures
        outcome matches RetrievalOutcome::Metadata(m) ==> r.status == 200
            && (r.payload matches ReplyPayload::Json(b)
                && b@ == json_of_response(ResponseView { id: reference@, details: m@ })),
        outcome matches RetrievalOutcome::Failure(e) ==> r.status == status_of_kind(e.kind)
            && (r.payload matches ReplyPayload::PlainText(b)
                && b@ == error_message(e.kind, opt_view(e.detail))),
        outcome is File ==> r.status == 500,
{
    match outcome {
        RetrievalOutcome::Metadata(m) => {
            let resp = VideoResponse {
                id: String::from_str(reference.as_str()),
                details: m,
            };
            HttpReply { status: 200, payload: ReplyPayload::Json(encode_video_response(&resp)) }
        },
        RetrievalOutcome::Failure(e) => error_reply(e),
        RetrievalOutcome::File(_) => error_reply(RetrievalError {
            kind: ErrorKind::Unknown,
            detail: Some(String::from_str("unexpected file outcome")),
        }),
    }
}

/// Renders the outcome of an embedded download: on success a `200` body
/// naming the saved path; on failure the taxonomy's status and text, and
/// no file is surfaced.
pub fn embedded_download_reply(outcome: RetrievalOutcome) -> (r: HttpReply)
    ensures
        outcome matches RetrievalOutcome::File(f) ==> r.status == 200
            && (r.payload matches ReplyPayload::Json(b)
                && b@ == "Downloaded video: \""@ + f.path@ + "\""@),
        outcome matches RetrievalOutcome::Failure(e) ==> r.status == status_of_kind(e.kind)
            && (r.payload matches ReplyPayload::PlainText(b)
                && b@ == error_message(e.kind, opt_view(e.detail))),
        outcome is Metadata ==> r.status == 500,
{
    match outcome {
        RetrievalOutcome::File(f) => {
            let mut body = String::from_str("Downloaded video: \"");
            body.append(f.path.as_str());
            body.append("\"");
            HttpReply { status: 200, payload: ReplyPayload::Json(body) }
        },
        RetrievalOutcome::Failure(e) => error_reply(e),
        RetrievalOutcome::Metadata(_) => error_reply(RetrievalError {
            kind: ErrorKind::Unknown,
            detail: Some(String::from_str("unexpected metadata outcome")),
        }),
    }
}

/// Renders the outcome of an external-tool download: on success the file
/// itself, as an attachment; on failure the taxonomy's status and text —
/// in particular `500` with `File not found` when the reported file is
/// absent at serve time.
pub fn external_download_reply(outcome: RetrievalOutcome) -> (r: HttpReply)
    ensures
        outcome matches RetrievalOutcome::File(f) ==> r.status == 200
            && (r.payload matches ReplyPayload::Attachment(g) && g == f),
        outcome matches RetrievalOutcome::Failure(e) ==> r.status == status_of_kind(e.kind)
            && (r.payload matches ReplyPayload::PlainText(b)
                && b@ == error_message(e.kind, opt_view(e.detail))),
        outcome is Metadata ==> r.status == 500,
{
    match outcome {
        RetrievalOutcome::File(f) => HttpReply {
            status: 200,
            payload: ReplyPayload::Attachment(f),
        },
        RetrievalOutcome::Failure(e) => error_reply(e),
        RetrievalOutcome::Metadata(_) => error_reply(RetrievalError {
            kind: ErrorKind::Unknown,
            detail: Some(String::from_str("unexpected metadata outcome")),
        }),
    }
}

/// The greeting of the service root.
pub fn welcome_reply() -> (r: HttpReply)
    ensures
        r.status == 200,
        r.payload matches ReplyPayload::PlainText(b)
            && b@ == "Welcome to the YouTube Downloader API!"@,
{
    HttpReply {
        status: 200,
        payload: ReplyPayload::PlainText(String::from_str(
            "Welcome to the YouTube Downloader API!",
        )),
    }
}

/// Repeating a metadata request with the same normalized reference and a
/// structurally identical provider answer yields the same reply frame,
/// character for character: the reply is a function of those two alone.
pub proof fn lemma_metadata_reply_deterministic(
    id: Seq<char>,
    d1: MetadataView,
    d2: MetadataView,
)
    requires
        d1 == d2,
    ensures
        json_of_response(ResponseView { id, details: d1 })
            == json_of_response(ResponseView { id, details: d2 }),
{
}

} // verus!
