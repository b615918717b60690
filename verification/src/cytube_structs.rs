//! The manifest that describes the converted files to the platform.

use vstd::prelude::*;

verus! {

/// The vertical resolutions that the platform accepts as a source's quality.
pub const CYTUBE_ACCEPTABLE_QUALITY_VALUES: [u16; 8] = [240, 360, 480, 540, 720, 1080, 1440, 2160];

/// One playable video file.
#[derive(Clone, Debug, PartialEq, Eq)]
pub struct Source {
    pub url: String,
    pub content_type: &'static str,
    pub quality: u16,
    pub bitrate: u64,
}

/// A `Source` as plain values.
pub struct SourceView {
    pub url: Seq<char>,
    pub content_type: Seq<char>,
    pub quality: u16,
    pub bitrate: u64,
}

impl DeepView for Source {
    type V = SourceView;

    open spec fn deep_view(&self) -> SourceView {
        SourceView {
            url: self.url@,
            content_type: self.content_type@,
            quality: self.quality,
            bitrate: self.bitrate,
        }
    }
}

impl View for Source {
    type V = SourceView;

    open spec fn view(&self) -> SourceView {
        self.deep_view()
    }
}

/// One subtitle file.
#[derive(Clone, Debug, PartialEq, Eq)]
pub struct TextTrack {
    pub url: String,
    pub name: String,
    pub content_type: &'static str,
}

/// A `TextTrack` as plain values.
pub struct TextTrackView {
    pub url: Seq<char>,
    pub name: Seq<char>,
    pub content_type: Seq<char>,
}

impl DeepView for TextTrack {
    type V = TextTrackView;

    open spec fn deep_view(&self) -> TextTrackView {
        TextTrackView { url: self.url@, name: self.name@, content_type: self.content_type@ }
    }
}

impl View for TextTrack {
    type V = TextTrackView;

    open spec fn view(&self) -> TextTrackView {
        self.deep_view()
    }
}

/// One alternate audio file.
#[derive(Clone, Debug, PartialEq, Eq)]
pub struct AudioTrack {
    pub url: String,
    pub label: String,
    pub language: String,
    pub content_type: &'static str,
}

/// An `AudioTrack` as plain values.
pub struct AudioTrackView {
    pub url: Seq<char>,
    pub label: Seq<char>,
    pub language: Seq<char>,
    pub content_type: Seq<char>,
}

impl DeepView for AudioTrack {
    type V = AudioTrackView;

    open spec fn deep_view(&self) -> AudioTrackView {
        AudioTrackView {
            url: self.url@,
            label: self.label@,
            language: self.language@,
            content_type: self.content_type@,
        }
    }
}

impl View for AudioTrack {
    type V = AudioTrackView;

    open spec fn view(&self) -> AudioTrackView {
        self.deep_view()
    }
}

/// The manifest of one media file.  `duration` is the number of seconds as
/// the inspection tool printed it, and `None` where it printed none.
#[derive(Clone, Debug, PartialEq, Eq)]
pub struct CytubeVideo {
    pub title: String,
    pub duration: Option<String>,
    pub sources: Vec<Source>,
    pub audio_tracks: Vec<AudioTrack>,
    pub text_tracks: Vec<TextTrack>,
}

/// A `CytubeVideo` as plain values.
pub struct CytubeVideoView {
    pub title: Seq<char>,
    pub duration: Option<Seq<char>>,
    pub sources: Seq<SourceView>,
    pub audio_tracks: Seq<AudioTrackView>,
    pub text_tracks: Seq<TextTrackView>,
}

impl DeepView for CytubeVideo {
    type V = CytubeVideoView;

    open spec fn deep_view(&self) -> CytubeVideoView {
        CytubeVideoView {
            title: self.title@,
            duration: self.duration.deep_view(),
            sources: self.sources.deep_view(),
            audio_tracks: self.audio_tracks.deep_view(),
            text_tracks: self.text_tracks.deep_view(),
        }
    }
}

impl View for CytubeVideo {
    type V = CytubeVideoView;

    open spec fn view(&self) -> CytubeVideoView {
        self.deep_view()
    }
}

} // verus!
