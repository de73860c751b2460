//! The blob transfer protocols as state machines.  A driver performs one
//! HTTP request per step and feeds the outcome back; every decision about
//! what to send next, and with which URL and headers, is made and proved
//! here.
//!
//! Upload follows the Distribution Spec's two forms: a HEAD existence
//! check, then POST to open a session, then one monolithic PUT; a registry
//! that redirects the PUT instead demands the resumable form, PATCH with
//! the data and a zero-length finalizing PUT.
//!
//! Download is one GET, following a redirect exactly once and without
//! credentials: redirect targets are foreign storage hosts, and a leaked
//! `Authorization` header is a credential disclosure.

use vstd::prelude::*;

use crate::registry::{
    absolute_upload_location, blob_url, put_digest_url, spec_put_digest_url, upload_location_url,
    upload_start_url,
};

verus! {

#[derive(Debug, Clone, Copy, PartialEq, Eq, Structural)]
pub enum HttpMethod {
    Head,
    Get,
    Post,
    Patch,
    Put,
}

/// One request the upload machine asks its driver to perform.
#[derive(Debug, Clone)]
pub struct UploadAction {
    pub method: HttpMethod,
    pub url: String,
    /// Whether the request body carries the blob bytes.
    pub carries_blob: bool,
}

/// Where a blob upload stands.
#[derive(Debug, Clone)]
pub enum UploadState {
    /// Ask the registry whether it already has the blob.
    CheckExisting,
    /// Open an upload session.
    StartUpload,
    /// Try the one-shot PUT against the session location.
    Monolithic { location: String },
    /// The registry redirected the PUT: send the data with PATCH instead.
    Resumable { location: String },
    /// Close the resumable session with an empty PUT naming the digest.
    Finalize { location: String },
    /// The blob is on the registry; `already_present` says whether the
    /// HEAD check found it there and nothing was sent.
    Done { already_present: bool },
    /// The protocol failed; the upload is abandoned.
    Failed,
}

/// The driver's report on one request.
#[derive(Debug, Clone)]
pub enum UploadEvent {
    /// A 2xx status, with the `Location` header when one came.
    Success { location: Option<String> },
    /// A 3xx status, with the `Location` header when one came.
    Redirect { location: Option<String> },
    /// Any other status, or no response.
    Error,
}

/// The transition table of the upload protocol.
pub open spec fn spec_upload_transition(state: UploadState, event: UploadEvent) -> UploadState {
    match state {
        UploadState::CheckExisting => match event {
            UploadEvent::Success { .. } => UploadState::Done { already_present: true },
            _ => UploadState::StartUpload,
        },
        UploadState::StartUpload => match event {
            UploadEvent::Success { location: Some(l) } => UploadState::Monolithic { location: l },
            _ => UploadState::Failed,
        },
        UploadState::Monolithic { location } => match event {
            UploadEvent::Success { .. } => UploadState::Done { already_present: false },
            UploadEvent::Redirect { .. } => UploadState::Resumable { location },
            UploadEvent::Error => UploadState::Failed,
        },
        UploadState::Resumable { location } => match event {
            UploadEvent::Success { location: Some(l) } => UploadState::Finalize { location: l },
            UploadEvent::Success { location: None } => UploadState::Finalize { location },
            UploadEvent::Redirect { location: Some(l) } => UploadState::Finalize { location: l },
            UploadEvent::Redirect { location: None } => UploadState::Finalize { location },
            UploadEvent::Error => UploadState::Failed,
        },
        UploadState::Finalize { .. } => match event {
            UploadEvent::Success { .. } => UploadState::Done { already_present: false },
            _ => UploadState::Failed,
        },
        UploadState::Done { already_present } => UploadState::Done { already_present },
        UploadState::Failed => UploadState::Failed,
    }
}

/// Step the upload machine on the driver's report.
pub fn upload_transition(state: UploadState, event: UploadEvent) -> (next: UploadState)
    ensures
        next == spec_upload_transition(state, event),
{
    match state {
        UploadState::CheckExisting => match event {
            UploadEvent::Success { .. } => UploadState::Done { already_present: true },
            _ => UploadState::StartUpload,
        },
        UploadState::StartUpload => match event {
            UploadEvent::Success { location: Some(l) } => UploadState::Monolithic { location: l },
            _ => UploadState::Failed,
        },
        UploadState::Monolithic { location } => match event {
            UploadEvent::Success { .. } => UploadState::Done { already_present: false },
            UploadEvent::Redirect { .. } => UploadState::Resumable { location },
            UploadEvent::Error => UploadState::Failed,
        },
        UploadState::Resumable { location } => match event {
            UploadEvent::Success { location: Some(l) } => UploadState::Finalize { location: l },
            UploadEvent::Success { location: None } => UploadState::Finalize { location },
            UploadEvent::Redirect { location: Some(l) } => UploadState::Finalize { location: l },
            UploadEvent::Redirect { location: None } => UploadState::Finalize { location },
            UploadEvent::Error => UploadState::Failed,
        },
        UploadState::Finalize { .. } => match event {
            UploadEvent::Success { .. } => UploadState::Done { already_present: false },
            _ => UploadState::Failed,
        },
        UploadState::Done { already_present } => UploadState::Done { already_present },
        UploadState::Failed => UploadState::Failed,
    }
}

/// Whether the request a state issues carries the blob bytes.
pub open spec fn state_sends_blob(state: UploadState) -> bool {
    state matches UploadState::Monolithic { .. } || state matches UploadState::Resumable { .. }
}

/// The request each state asks for; `None` once the machine has finished.
pub fn upload_action(registry: &str, repository: &str, digest: &str, state: &UploadState) -> (a:
    Option<UploadAction>)
    ensures
        match *state {
            UploadState::CheckExisting => a is Some && a->0.method == HttpMethod::Head && a->0.url@
                == "https://"@ + registry@ + "/v2/"@ + repository@ + "/blobs/"@ + digest@
                && !a->0.carries_blob,
            UploadState::StartUpload => a is Some && a->0.method == HttpMethod::Post && a->0.url@
                == "https://"@ + registry@ + "/v2/"@ + repository@ + "/blobs/uploads/"@
                && !a->0.carries_blob,
            UploadState::Monolithic { ref location } => a is Some && a->0.method == HttpMethod::Put
                && a->0.url@ == spec_put_digest_url(location@, registry@, repository@, digest@)
                && a->0.carries_blob,
            UploadState::Resumable { ref location } => a is Some && a->0.method == HttpMethod::Patch
                && a->0.url@ == absolute_upload_location(location@, registry@, repository@)
                && a->0.carries_blob,
            UploadState::Finalize { ref location } => a is Some && a->0.method == HttpMethod::Put
                && a->0.url@ == spec_put_digest_url(location@, registry@, repository@, digest@)
                && !a->0.carries_blob,
            UploadState::Done { .. } => a is None,
            UploadState::Failed => a is None,
        },
        a is Some ==> (a->0.carries_blob == state_sends_blob(*state)),
{
    match state {
        UploadState::CheckExisting => Some(
            UploadAction {
                method: HttpMethod::Head,
                url: blob_url(registry, repository, digest),
                carries_blob: false,
            },
        ),
        UploadState::StartUpload => Some(
            UploadAction {
                method: HttpMethod::Post,
                url: upload_start_url(registry, repository),
                carries_blob: false,
            },
        ),
        UploadState::Monolithic { location } => Some(
            UploadAction {
                method: HttpMethod::Put,
                url: put_digest_url(location.as_str(), registry, repository, digest),
                carries_blob: true,
            },
        ),
        UploadState::Resumable { location } => Some(
            UploadAction {
                method: HttpMethod::Patch,
                url: upload_location_url(location.as_str(), registry, repository),
                carries_blob: true,
            },
        ),
        UploadState::Finalize { location } => Some(
            UploadAction {
                method: HttpMethod::Put,
                url: put_digest_url(location.as_str(), registry, repository, digest),
                carries_blob: false,
            },
        ),
        UploadState::Done { .. } => None,
        UploadState::Failed => None,
    }
}

/// The state after a sequence of driver reports, starting from the HEAD
/// existence check.
pub open spec fn upload_run(events: Seq<UploadEvent>) -> UploadState
    decreases events.len(),
{
    if events.len() == 0 {
        UploadState::CheckExisting
    } else {
        spec_upload_transition(upload_run(events.drop_last()), events.last())
    }
}

/// A blob the HEAD check finds present is never uploaded: after a 2xx on
/// the very first request, every later state is `Done` with
/// `already_present`, so no further request exists at all — in
/// particular none that carries the blob bytes.
pub proof fn lemma_present_blob_is_never_uploaded(events: Seq<UploadEvent>, i: int)
    requires
        events.len() >= 1,
        events[0] matches UploadEvent::Success { .. },
        1 <= i <= events.len(),
    ensures
        upload_run(events.take(i)) == (UploadState::Done { already_present: true }),
        !state_sends_blob(upload_run(events.take(i))),
    decreases i,
{
    if i == 1 {
        assert(events.take(1).drop_last() =~= Seq::<UploadEvent>::empty());
        assert(upload_run(events.take(1).drop_last()) == UploadState::CheckExisting);
        assert(events.take(1).last() == events[0]);
        assert(events.take(1).len() == 1);
        assert(upload_run(events.take(1)) == spec_upload_transition(
            UploadState::CheckExisting,
            events[0],
        ));
    } else {
        lemma_present_blob_is_never_uploaded(events, i - 1);
        assert(events.take(i).drop_last() =~= events.take(i - 1));
        assert(events.take(i).len() == i);
        assert(upload_run(events.take(i)) == spec_upload_transition(
            upload_run(events.take(i - 1)),
            events.take(i).last(),
        ));
    }
}

/// The machine only ever reaches the POST that opens an upload session
/// after the HEAD check came back without the blob: a session is opened
/// exactly when the first report was not a 2xx.
pub proof fn lemma_post_only_after_head_miss(events: Seq<UploadEvent>)
    requires
        upload_run(events) == UploadState::StartUpload,
    ensures
        events.len() == 1,
        !(events[0] matches UploadEvent::Success { .. }),
    decreases events.len(),
{
    if events.len() == 0 {
        assert(false);
    } else {
        let prev = upload_run(events.drop_last());
        if events.len() > 1 {
            assert(prev != UploadState::CheckExisting) by {
                lemma_check_existing_is_initial(events.drop_last());
            }
            assert(false);
        }
    }
}

/// The HEAD-check state exists only before the first report.
proof fn lemma_check_existing_is_initial(events: Seq<UploadEvent>)
    requires
        upload_run(events) == UploadState::CheckExisting,
    ensures
        events.len() == 0,
    decreases events.len(),
{
}

/// One request the blob download machine asks its driver to perform.
#[derive(Debug, Clone)]
pub struct FetchAction {
    pub url: String,
    /// Whether the request carries the `Authorization` header.
    pub with_auth: bool,
}

/// Where a blob download stands.
#[derive(Debug, Clone)]
pub enum FetchState {
    /// GET the blob from the registry, authenticated.
    Fetch,
    /// The registry redirected: GET the target once, without credentials.
    FollowRedirect { location: String },
    Done,
    Failed,
}

/// The driver's report on one download request.
#[derive(Debug, Clone)]
pub enum FetchEvent {
    /// A 2xx status: the body is the blob.
    Success,
    /// A 3xx status, with the `Location` header when one came.
    Redirect { location: Option<String> },
    /// Any other status, or no response.
    Error,
}

/// The transition table of the download protocol: a redirect is followed
/// exactly once, and only from the first request.
pub open spec fn spec_fetch_transition(state: FetchState, event: FetchEvent) -> FetchState {
    match state {
        FetchState::Fetch => match event {
            FetchEvent::Success => FetchState::Done,
            FetchEvent::Redirect { location: Some(l) } => FetchState::FollowRedirect { location: l },
            FetchEvent::Redirect { location: None } => FetchState::Failed,
            FetchEvent::Error => FetchState::Failed,
        },
        FetchState::FollowRedirect { .. } => match event {
            FetchEvent::Success => FetchState::Done,
            _ => FetchState::Failed,
        },
        FetchState::Done => FetchState::Done,
        FetchState::Failed => FetchState::Failed,
    }
}

/// Step the download machine on the driver's report.
pub fn fetch_transition(state: FetchState, event: FetchEvent) -> (next: FetchState)
    ensures
        next == spec_fetch_transition(state, event),
{
    match state {
        FetchState::Fetch => match event {
            FetchEvent::Success => FetchState::Done,
            FetchEvent::Redirect { location: Some(l) } => FetchState::FollowRedirect { location: l },
            FetchEvent::Redirect { location: None } => FetchState::Failed,
            FetchEvent::Error => FetchState::Failed,
        },
        FetchState::FollowRedirect { .. } => match event {
            FetchEvent::Success => FetchState::Done,
            _ => FetchState::Failed,
        },
        FetchState::Done => FetchState::Done,
        FetchState::Failed => FetchState::Failed,
    }
}

/// Whether the request a download state issues carries credentials: only
/// the first, registry-addressed GET does.
pub open spec fn state_sends_auth(state: FetchState) -> bool {
    state matches FetchState::Fetch
}

/// The request each download state asks for: the first GET carries the
/// `Authorization` header, the redirect follow-up never does.
pub fn fetch_action(registry: &str, repository: &str, digest: &str, state: &FetchState) -> (a:
    Option<FetchAction>)
    ensures
        match *state {
            FetchState::Fetch => a is Some && a->0.url@ == "https://"@ + registry@ + "/v2/"@
                + repository@ + "/blobs/"@ + digest@ && a->0.with_auth,
            FetchState::FollowRedirect { ref location } => a is Some && a->0.url@ == location@
                && !a->0.with_auth,
            FetchState::Done => a is None,
            FetchState::Failed => a is None,
        },
        a is Some ==> a->0.with_auth == state_sends_auth(*state),
{
    match state {
        FetchState::Fetch => Some(
            FetchAction { url: blob_url(registry, repository, digest), with_auth: true },
        ),
        FetchState::FollowRedirect { location } => Some(
            FetchAction { url: location.clone(), with_auth: false },
        ),
        FetchState::Done => None,
        FetchState::Failed => None,
    }
}

/// The state after a sequence of download reports, starting from the
/// authenticated GET.
pub open spec fn fetch_run(events: Seq<FetchEvent>) -> FetchState
    decreases events.len(),
{
    if events.len() == 0 {
        FetchState::Fetch
    } else {
        spec_fetch_transition(fetch_run(events.drop_last()), events.last())
    }
}

/// Once a blob GET has answered 3xx, no later request of that download
/// carries the `Authorization` header: the follow-up to the redirect
/// target, and anything after it, is unauthenticated.
pub proof fn lemma_no_auth_after_redirect(events: Seq<FetchEvent>, i: int)
    requires
        events.len() >= 1,
        events[0] matches FetchEvent::Redirect { .. },
        1 <= i <= events.len(),
    ensures
        !state_sends_auth(fetch_run(events.take(i))),
    decreases i,
{
    if i == 1 {
        assert(events.take(1).drop_last() =~= Seq::<FetchEvent>::empty());
        assert(events.take(1).last() == events[0]);
    } else {
        lemma_no_auth_after_redirect(events, i - 1);
        assert(events.take(i).drop_last() =~= events.take(i - 1));
    }
}

} // verus!
