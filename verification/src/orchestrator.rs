//! The end-to-end composition: everything that can be decided before any
//! byte moves — destination resolution, request construction, the fresh
//! download state — and the registration that makes the download
//! cancellable. The surrounding application then performs the I/O the
//! prepared values describe and feeds the observations into the state
//! machine; on every terminal outcome it deregisters the identifier.

use vstd::prelude::*;

use crate::engine::Download;
use crate::engine::Phase;
use crate::errors::DownloadError;
use crate::path::spec_is_absolute;
use crate::path::ResolvedDestination;
use crate::path::resolve;
use crate::path::spec_dir_to_create;
use crate::path::spec_joined;
use crate::registry::CancellationRegistry;
use crate::request::BuiltRequest;
use crate::request::build_request;
use crate::request::spec_effective_token;
use crate::request::spec_header_value_ok;
use crate::request::url_well_formed;

verus! {

/// Everything a download needs before its first request goes out.
#[derive(Debug)]
pub struct Prepared {
    /// The URL and the auth header to send with HEAD and GET.
    pub request: BuiltRequest,
    /// Where the bytes go, and the directory to create first, if any.
    pub destination: ResolvedDestination,
    /// The download's state machine, in its probing phase.
    pub download: Download,
}

/// The error preparation ends in, if any: a relative destination with no
/// downloads directory to resolve against, then a malformed URL, then an
/// unusable authentication token.
pub open spec fn spec_prepare_error(
    url: Seq<char>,
    destination: Seq<char>,
    auth_token: Option<Seq<char>>,
    downloads_dir: Option<Seq<char>>,
) -> Option<DownloadError> {
    if !spec_is_absolute(destination) && downloads_dir is None {
        Some(DownloadError::Environment)
    } else if !url_well_formed(url) {
        Some(DownloadError::InvalidUrl)
    } else {
        match spec_effective_token(auth_token, url) {
            Some(t) => if !spec_header_value_ok(t) {
                Some(DownloadError::InvalidToken)
            } else {
                None
            },
            None => None,
        }
    }
}

/// Resolve the destination and build the request for one download.
///
/// Fails exactly as [`spec_prepare_error`] says; on success the request
/// carries the URL unchanged and the effective token, the destination is
/// resolved as [`resolve`] says, and the download stands at the start of
/// its probing phase.
pub fn prepare_download(
    url: &str,
    destination: &str,
    auth_token: Option<String>,
    downloads_dir: Option<&str>,
) -> (r: Result<Prepared, DownloadError>)
    ensures
        match spec_prepare_error(
            url@,
            destination@,
            auth_token.deep_view(),
            downloads_dir.deep_view(),
        ) {
            Some(e) => r == Err::<Prepared, DownloadError>(e),
            None => match r {
                Ok(p) => {
                    &&& p.request.url@ == url@
                    &&& p.request.auth_header.deep_view() == spec_effective_token(
                        auth_token.deep_view(),
                        url@,
                    )
                    &&& (spec_is_absolute(destination@) ==> p.destination.path@ == destination@
                        && p.destination.dir_to_create is None)
                    &&& (!spec_is_absolute(destination@) ==> match downloads_dir {
                        Some(dir) => p.destination.path@ == spec_joined(dir@, destination@)
                            && p.destination.dir_to_create.deep_view() == Some(
                            spec_dir_to_create(dir@, destination@),
                        ),
                        None => false,
                    })
                    &&& p.download.phase == Phase::Probing
                    &&& p.download.wf()
                    &&& p.download.downloaded == 0
                    &&& p.download.head_size == 0
                },
                Err(_) => false,
            },
        },
{
    let dest = match resolve(destination, downloads_dir) {
        Ok(d) => d,
        Err(e) => {
            return Err(e);
        },
    };
    let request = match build_request(url, auth_token) {
        Ok(b) => b,
        Err(e) => {
            return Err(e);
        },
    };
    Ok(Prepared { request, destination: dest, download: Download::start() })
}

/// Prepare a download and register its identifier for cancellation.
///
/// On success the identifier is registered (and every other identifier's
/// registration is untouched); on failure the registry is exactly as it
/// was, so a preparation error never leaves a stale entry behind.
pub fn begin_download(
    registry: &mut CancellationRegistry,
    download_id: &str,
    url: &str,
    destination: &str,
    auth_token: Option<String>,
    downloads_dir: Option<&str>,
) -> (r: Result<Prepared, DownloadError>)
    requires
        old(registry).wf(),
    ensures
        final(registry).wf(),
        match spec_prepare_error(
            url@,
            destination@,
            auth_token.deep_view(),
            downloads_dir.deep_view(),
        ) {
            Some(e) => r == Err::<Prepared, DownloadError>(e) && *final(registry) == *old(
                registry,
            ),
            None => {
                &&& r is Ok
                &&& final(registry).spec_contains(download_id@)
                &&& forall|other: Seq<char>|
                    other != download_id@ ==> final(registry).spec_contains(other) == old(
                        registry,
                    ).spec_contains(other)
            },
        },
        match r {
            Ok(p) => {
                &&& p.request.url@ == url@
                &&& p.request.auth_header.deep_view() == spec_effective_token(
                    auth_token.deep_view(),
                    url@,
                )
                &&& p.download.phase == Phase::Probing
                &&& p.download.wf()
            },
            Err(e) => spec_prepare_error(
                url@,
                destination@,
                auth_token.deep_view(),
                downloads_dir.deep_view(),
            ) == Some(e),
        },
{
    let prepared = match prepare_download(url, destination, auth_token, downloads_dir) {
        Ok(p) => p,
        Err(e) => {
            return Err(e);
        },
    };
    registry.add_download(download_id.to_owned());
    Ok(prepared)
}

} // verus!
