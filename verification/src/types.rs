//! Plain request, response and account shapes shared with the presentation
//! layer.  The copies there carry the serialization derives; these carry the
//! data the core computes on.

use vstd::prelude::*;

verus! {

/// A payload shared between front end and back end.
pub struct SharedData {
    pub message: String,
}

/// A request for a video's metadata.
pub struct VideoInfoRequest {
    pub url: String,
}

/// A request to convert one video.
pub struct ConversionRequest {
    pub url: String,
    pub format: String,
    pub quality: String,
    pub output_path: Option<String>,
}

/// A request to convert a playlist.
pub struct PlaylistRequest {
    pub url: String,
    pub format: String,
    pub quality: String,
    pub output_path: Option<String>,
}

/// An error payload handed back to a caller.
pub struct ErrorResponse {
    pub error: String,
}

/// One selectable format option for a video.
pub struct FormatOption {
    pub format_id: String,
    pub format: String,
    pub quality: String,
    pub filesize: Option<u64>,
}

/// A video's metadata as the browser-automation fallback reports it.
pub struct SeleniumVideoInfo {
    pub id: String,
    pub title: String,
    pub channel: Option<String>,
    pub duration: Option<String>,
    pub view_count: Option<u64>,
    pub thumbnail: Option<String>,
    pub url: String,
}

/// The outcome of a browser-automation download.
pub struct SeleniumDownloadResult {
    pub success: bool,
    pub video_info: Option<SeleniumVideoInfo>,
    pub output_path: Option<String>,
    pub error: Option<String>,
}

/// A throwaway mailbox account.
pub struct TempMailAccount {
    pub email: String,
    pub password: String,
    pub token: Option<String>,
}

} // verus!
