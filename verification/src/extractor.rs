//! Metadata shapes the extraction layer yields for videos and playlists.

use vstd::prelude::*;

verus! {

/// One thumbnail of a video.
pub struct Thumbnail {
    pub url: String,
    pub width: Option<u32>,
    pub height: Option<u32>,
}

/// One video of a playlist.
pub struct PlaylistVideo {
    pub id: String,
    pub title: String,
    pub url: String,
    pub duration: Option<u64>,
    pub uploader: String,
}

/// The mathematical value of a playlist entry.
pub ghost struct PlaylistVideoView {
    pub id: Seq<char>,
    pub title: Seq<char>,
    pub url: Seq<char>,
    pub duration: Option<u64>,
    pub uploader: Seq<char>,
}

impl View for PlaylistVideo {
    type V = PlaylistVideoView;

    open spec fn view(&self) -> PlaylistVideoView {
        PlaylistVideoView {
            id: self.id@,
            title: self.title@,
            url: self.url@,
            duration: self.duration,
            uploader: self.uploader@,
        }
    }
}

impl PlaylistVideo {
    /// An independent copy of this entry.
    pub fn duplicate(&self) -> (r: PlaylistVideo)
        ensures
            r@ == self@,
    {
        PlaylistVideo {
            id: self.id.clone(),
            title: self.title.clone(),
            url: self.url.clone(),
            duration: self.duration,
            uploader: self.uploader.clone(),
        }
    }
}

} // verus!
