//! The rules of the upload service: how large a file may be, and what
//! verdict a submitted URL gets from the facts an HTTP probe of it
//! reports. The probing itself — DNS, the HEAD request — happens outside
//! the library; the verdict is decided here.

use vstd::prelude::*;

verus! {

/// Largest upload for a free user, in bytes.
pub const MAX_FREE_FILE_SIZE: u64 = 104_857_600;

/// Largest upload for a premium user, in bytes.
pub const MAX_PREMIUM_FILE_SIZE: u64 = 1_048_576_000;

/// Does a file of this size fit the user's limit?
pub fn check_file_size(file_size: u64, is_premium: bool) -> (r: bool)
    ensures
        r == if is_premium {
            file_size <= MAX_PREMIUM_FILE_SIZE
        } else {
            file_size <= MAX_FREE_FILE_SIZE
        },
{
    if is_premium {
        file_size <= MAX_PREMIUM_FILE_SIZE
    } else {
        file_size <= MAX_FREE_FILE_SIZE
    }
}

/// Booleans that read as an optional unit, for chaining checks.
pub trait BooleanOption: Sized {
    /// `Some(())` for true, `None` for false.
    fn option(self) -> (r: Option<()>);
}

impl BooleanOption for bool {
    fn option(self) -> (r: Option<()>)
        ensures
            r is Some <==> self,
    {
        if self {
            Some(())
        } else {
            None
        }
    }
}

/// Why a submitted URL was refused.
#[derive(Clone, Copy, Debug, PartialEq, Eq, Structural)]
pub enum CheckUploadUrlError {
    /// Not a URL, or not an `http`/`https` one.
    BadUrl,
    /// No response arrived.
    Unreachable,
    /// The response was an HTTP failure.
    RequestError,
    /// The response does not announce a video.
    NotVideo,
    /// The response announces no content length.
    NoContentLength,
    /// The announced video exceeds the user's limit.
    TooBig,
}

impl CheckUploadUrlError {
    /// The HTTP status code this refusal answers with.
    pub fn status_code(&self) -> (r: u16)
        ensures
            r == match *self {
                CheckUploadUrlError::BadUrl => 400u16,
                CheckUploadUrlError::Unreachable => 504u16,
                CheckUploadUrlError::RequestError => 424u16,
                CheckUploadUrlError::NotVideo => 415u16,
                CheckUploadUrlError::NoContentLength => 422u16,
                CheckUploadUrlError::TooBig => 413u16,
            },
    {
        match self {
            CheckUploadUrlError::BadUrl => 400,
            CheckUploadUrlError::Unreachable => 504,
            CheckUploadUrlError::RequestError => 424,
            CheckUploadUrlError::NotVideo => 415,
            CheckUploadUrlError::NoContentLength => 422,
            CheckUploadUrlError::TooBig => 413,
        }
    }

    /// The human-readable reason of this refusal.
    pub fn message(&self) -> (r: &'static str)
        ensures
            r@ == match *self {
                CheckUploadUrlError::BadUrl => "url is not valid"@,
                CheckUploadUrlError::Unreachable => "url is not reachable"@,
                CheckUploadUrlError::RequestError => "url returned an error"@,
                CheckUploadUrlError::NotVideo => "url does not point to a video"@,
                CheckUploadUrlError::NoContentLength => "HEAD does not return a content length"@,
                CheckUploadUrlError::TooBig => "video is too big"@,
            },
    {
        match self {
            CheckUploadUrlError::BadUrl => "url is not valid",
            CheckUploadUrlError::Unreachable => "url is not reachable",
            CheckUploadUrlError::RequestError => "url returned an error",
            CheckUploadUrlError::NotVideo => "url does not point to a video",
            CheckUploadUrlError::NoContentLength => "HEAD does not return a content length",
            CheckUploadUrlError::TooBig => "video is too big",
        }
    }
}

/// What an HTTP probe of a submitted URL reported: whether it parsed with
/// an `http` or `https` scheme, whether a response arrived and succeeded,
/// what content type it announced as a video, and what length it
/// announced.
pub struct UploadUrlProbe {
    /// The URL parsed and its scheme is `http` or `https`.
    pub scheme_ok: bool,
    /// A response arrived at all.
    pub responded: bool,
    /// The response status was a success.
    pub status_success: bool,
    /// The response's content type begins with `video/`.
    pub content_is_video: bool,
    /// The announced content length, if any.
    pub content_length: Option<u64>,
}

/// The verdict on a submitted URL, checked in order: the scheme, then
/// that a successful response arrived, then that it announces a video
/// with a content length inside the user's limit.
pub open spec fn spec_upload_url_verdict(probe: UploadUrlProbe, is_premium: bool) -> Result<
    (),
    CheckUploadUrlError,
> {
    if !probe.scheme_ok {
        Err(CheckUploadUrlError::BadUrl)
    } else if !probe.responded {
        Err(CheckUploadUrlError::Unreachable)
    } else if !probe.status_success {
        Err(CheckUploadUrlError::RequestError)
    } else if !probe.content_is_video {
        Err(CheckUploadUrlError::NotVideo)
    } else {
        match probe.content_length {
            None => Err(CheckUploadUrlError::NoContentLength),
            Some(l) => {
                if l <= (if is_premium {
                    MAX_PREMIUM_FILE_SIZE
                } else {
                    MAX_FREE_FILE_SIZE
                }) {
                    Ok(())
                } else {
                    Err(CheckUploadUrlError::TooBig)
                }
            },
        }
    }
}

/// Decide whether a submitted URL may be uploaded from, given what the
/// probe of it reported.
pub fn check_upload_url_verdict(probe: &UploadUrlProbe, is_premium: bool) -> (r: Result<
    (),
    CheckUploadUrlError,
>)
    ensures
        r == spec_upload_url_verdict(*probe, is_premium),
{
    if !probe.scheme_ok {
        return Err(CheckUploadUrlError::BadUrl);
    }
    if !probe.responded {
        return Err(CheckUploadUrlError::Unreachable);
    }
    if !probe.status_success {
        return Err(CheckUploadUrlError::RequestError);
    }
    if !probe.content_is_video {
        return Err(CheckUploadUrlError::NotVideo);
    }
    match probe.content_length {
        None => Err(CheckUploadUrlError::NoContentLength),
        Some(l) => {
            if check_file_size(l, is_premium) {
                Ok(())
            } else {
                Err(CheckUploadUrlError::TooBig)
            }
        },
    }
}

} // verus!
