//! The plan: which streams go into which output file, copied or encoded
//! anew, and the manifest that describes those files.

use crate::cytube_structs::{
    AudioTrack, AudioTrackView, CytubeVideo, CytubeVideoView, Source, SourceView, TextTrack,
    TextTrackView,
};
use crate::ffmpeg_languages::{resolved, LangCode, LanguageTable};
use crate::ffprobe::{FFprobeResult, FFprobeResultView, Track, TrackType, TrackView};
use crate::selection::{best_audio, choose_audio};
use crate::text::{decimal_text, push_decimal};
use vstd::prelude::*;
use vstd::utf8::{decode_utf8, valid_utf8};

verus! {

/// The container of a video file that the platform accepts.
#[derive(Clone, Copy, Debug, PartialEq, Eq, Structural)]
pub enum VideoContainer {
    MP4,
    WEBM,
    OGG,
}

/// The container that takes a video codec as it is, if any does.
pub open spec fn video_container_of(codec: Seq<char>) -> Option<VideoContainer> {
    if codec == "av1"@ || codec == "vp8"@ || codec == "vp9"@ {
        Some(VideoContainer::WEBM)
    } else if codec == "h264"@ || codec == "hevc"@ || codec == "mpeg4"@ || codec
        == "mpeg2video"@ {
        Some(VideoContainer::MP4)
    } else if codec == "theora"@ {
        Some(VideoContainer::OGG)
    } else {
        None
    }
}

/// The container that takes `video_codec` as it is; `None` for a codec that
/// no container takes.
pub fn find_video_container(video_codec: &str) -> (r: Option<VideoContainer>)
    ensures
        r == video_container_of(video_codec@),
{
    if video_codec.eq("av1") || video_codec.eq("vp8") || video_codec.eq("vp9") {
        Some(VideoContainer::WEBM)
    } else if video_codec.eq("h264") || video_codec.eq("hevc") || video_codec.eq("mpeg4")
        || video_codec.eq("mpeg2video") {
        Some(VideoContainer::MP4)
    } else if video_codec.eq("theora") {
        Some(VideoContainer::OGG)
    } else {
        None
    }
}

/// The table of video codecs: AV1, VP8 and VP9 go into WEBM; H.264, HEVC,
/// MPEG-4 and MPEG-2 video go into MP4; Theora goes into OGG; and no
/// container takes any other codec.
pub proof fn lemma_video_container_table(codec: Seq<char>)
    ensures
        codec == "av1"@ || codec == "vp8"@ || codec == "vp9"@ ==> video_container_of(codec)
            == Some(VideoContainer::WEBM),
        codec == "h264"@ || codec == "hevc"@ || codec == "mpeg4"@ || codec == "mpeg2video"@
            ==> video_container_of(codec) == Some(VideoContainer::MP4),
        codec == "theora"@ ==> video_container_of(codec) == Some(VideoContainer::OGG),
        !(codec == "av1"@ || codec == "vp8"@ || codec == "vp9"@ || codec == "h264"@ || codec
            == "hevc"@ || codec == "mpeg4"@ || codec == "mpeg2video"@ || codec == "theora"@)
            ==> video_container_of(codec) is None,
{
    reveal_strlit("av1");
    reveal_strlit("vp8");
    reveal_strlit("vp9");
    reveal_strlit("h264");
    reveal_strlit("hevc");
    reveal_strlit("mpeg4");
    reveal_strlit("mpeg2video");
    reveal_strlit("theora");
    if codec == "h264"@ || codec == "hevc"@ || codec == "mpeg4"@ || codec == "mpeg2video"@
        || codec == "theora"@ {
        assert("av1"@.len() == 3 && "vp8"@.len() == 3 && "vp9"@.len() == 3);
    }
    if codec == "theora"@ {
        assert("h264"@[0] == 'h' && "hevc"@[0] == 'h' && "mpeg4"@[0] == 'm' && "mpeg2video"@[0]
            == 'm');
    }
}

/// The texts of a list of string slices, in order.
pub open spec fn str_views(v: Seq<&'static str>) -> Seq<Seq<char>> {
    Seq::new(v.len(), |i: int| v[i]@)
}

impl VideoContainer {
    /// The audio codecs that the container takes as they are.
    pub open spec fn accepted_audio_codecs(self) -> Seq<Seq<char>> {
        match self {
            VideoContainer::MP4 => seq!["aac"@, "alac"@, "flac"@, "opus"@, "mp3"@],
            VideoContainer::WEBM => seq!["opus"@, "vorbis"@],
            VideoContainer::OGG => seq!["opus"@, "vorbis"@, "flac"@],
        }
    }

    /// True when the container takes the audio codec as it is.
    pub open spec fn accepts_audio(self, codec: Seq<char>) -> bool {
        self.accepted_audio_codecs().contains(codec)
    }

    /// The encoder for audio that the container does not take as it is.
    pub open spec fn preferred_audio_encoder_text(self) -> Seq<char> {
        match self {
            VideoContainer::MP4 => "aac"@,
            VideoContainer::WEBM => "libopus"@,
            VideoContainer::OGG => "libopus"@,
        }
    }

    /// The extension of the container's files.
    pub open spec fn extension_text(self) -> Seq<char> {
        match self {
            VideoContainer::MP4 => "mp4"@,
            VideoContainer::WEBM => "webm"@,
            VideoContainer::OGG => "ogv"@,
        }
    }

    /// The MIME type of the container's files.
    pub open spec fn mimetype_text(self) -> Seq<char> {
        match self {
            VideoContainer::MP4 => "video/mp4"@,
            VideoContainer::WEBM => "video/webm"@,
            VideoContainer::OGG => "video/ogg"@,
        }
    }

    /// The audio codecs that the container takes as they are.
    pub fn get_acceptable_audio_codecs(&self) -> (r: &'static [&'static str])
        ensures
            str_views(r@) == self.accepted_audio_codecs(),
    {
        match self {
            VideoContainer::MP4 => &["aac", "alac", "flac", "opus", "mp3"],
            VideoContainer::WEBM => &["opus", "vorbis"],
            VideoContainer::OGG => &["opus", "vorbis", "flac"],
        }
    }

    /// True when the container takes `codec` as it is.
    pub fn accepts(&self, codec: &str) -> (r: bool)
        ensures
            r == self.accepts_audio(codec@),
    {
        let accepted = self.get_acceptable_audio_codecs();
        let mut i: usize = 0;
        while i < accepted.len()
            invariant
                i <= accepted@.len(),
                str_views(accepted@) == self.accepted_audio_codecs(),
                forall|j: int| 0 <= j < i ==> self.accepted_audio_codecs()[j] != codec@,
            decreases accepted@.len() - i,
        {
            assert(str_views(accepted@)[i as int] == accepted@[i as int]@);
            if accepted[i].eq(codec) {
                return true;
            }
            i += 1;
        }
        false
    }

    /// The encoder for audio that the container does not take as it is.
    pub fn preferred_audio_encoder(&self) -> (r: &'static str)
        ensures
            r@ == self.preferred_audio_encoder_text(),
    {
        match self {
            VideoContainer::MP4 => "aac",
            VideoContainer::WEBM | VideoContainer::OGG => "libopus",
        }
    }

    /// The extension of the container's files.
    pub fn extension(&self) -> (r: &'static str)
        ensures
            r@ == self.extension_text(),
    {
        match self {
            VideoContainer::MP4 => "mp4",
            VideoContainer::WEBM => "webm",
            VideoContainer::OGG => "ogv",
        }
    }

    /// The MIME type of the container's files.
    pub fn mimetype(&self) -> (r: &'static str)
        ensures
            r@ == self.mimetype_text(),
    {
        match self {
            VideoContainer::MP4 => "video/mp4",
            VideoContainer::WEBM => "video/webm",
            VideoContainer::OGG => "video/ogg",
        }
    }
}

/// The container of an audio file that the platform accepts.  `PseudoM4A` is
/// an MP4 file with audio only under the name of an M4A file: it takes codecs
/// that a true M4A file does not.
#[derive(Clone, Copy, Debug, PartialEq, Eq, Structural)]
pub enum AudioContainer {
    M4A,
    OGG,
    PseudoM4A,
}

/// The container that an audio codec goes into on its own, if any.
pub open spec fn audio_container_of(codec: Seq<char>) -> Option<AudioContainer> {
    if codec == "aac"@ || codec == "alac"@ || codec == "aac_latm"@ {
        Some(AudioContainer::M4A)
    } else if codec == "opus"@ || codec == "vorbis"@ || codec == "flac"@ {
        Some(AudioContainer::OGG)
    } else if codec == "mp3"@ {
        Some(AudioContainer::PseudoM4A)
    } else {
        None
    }
}

/// The container that `audio_codec` goes into on its own; `None` for a codec
/// that none takes.
pub fn find_audio_container(audio_codec: &str) -> (r: Option<AudioContainer>)
    ensures
        r == audio_container_of(audio_codec@),
{
    if audio_codec.eq("aac") || audio_codec.eq("alac") || audio_codec.eq("aac_latm") {
        Some(AudioContainer::M4A)
    } else if audio_codec.eq("opus") || audio_codec.eq("vorbis") || audio_codec.eq("flac") {
        Some(AudioContainer::OGG)
    } else if audio_codec.eq("mp3") {
        Some(AudioContainer::PseudoM4A)
    } else {
        None
    }
}

impl AudioContainer {
    /// The extension of the container's files.
    pub open spec fn extension_text(self) -> Seq<char> {
        match self {
            AudioContainer::OGG => "ogg"@,
            AudioContainer::M4A => "m4a"@,
            AudioContainer::PseudoM4A => "m4a"@,
        }
    }

    /// The MIME type of the container's files.
    pub open spec fn mimetype_text(self) -> Seq<char> {
        match self {
            AudioContainer::OGG => "audio/ogg"@,
            AudioContainer::M4A => "audio/mp4"@,
            AudioContainer::PseudoM4A => "audio/mp4"@,
        }
    }

    /// The extension of the container's files.
    pub fn extension(&self) -> (r: &'static str)
        ensures
            r@ == self.extension_text(),
    {
        match self {
            AudioContainer::OGG => "ogg",
            AudioContainer::M4A | AudioContainer::PseudoM4A => "m4a",
        }
    }

    /// The MIME type of the container's files.
    pub fn mimetype(&self) -> (r: &'static str)
        ensures
            r@ == self.mimetype_text(),
    {
        match self {
            AudioContainer::OGG => "audio/ogg",
            AudioContainer::M4A | AudioContainer::PseudoM4A => "audio/mp4",
        }
    }
}

/// The subtitle codecs that hold pictures, not text.
pub const BITMAP_SUBTITLE_CODECS: [&'static str; 4] = [
    "dvb_subtitle",
    "dvd_subtitle",
    "hdmv_pgs_subtitle",
    "xsub",
];

/// True for the codecs of `BITMAP_SUBTITLE_CODECS`.
pub open spec fn is_bitmap_subtitle_codec(codec: Seq<char>) -> bool {
    str_views(BITMAP_SUBTITLE_CODECS@).contains(codec)
}

/// True for the subtitle codecs that hold pictures, which cannot become
/// text tracks.
pub fn is_bitmap_subtitle(codec: &str) -> (r: bool)
    ensures
        r == is_bitmap_subtitle_codec(codec@),
{
    let mut i: usize = 0;
    while i < BITMAP_SUBTITLE_CODECS.len()
        invariant
            i <= BITMAP_SUBTITLE_CODECS@.len(),
            forall|j: int| 0 <= j < i ==> str_views(BITMAP_SUBTITLE_CODECS@)[j] != codec@,
        decreases BITMAP_SUBTITLE_CODECS@.len() - i,
    {
        if BITMAP_SUBTITLE_CODECS[i].eq(codec) {
            assert(str_views(BITMAP_SUBTITLE_CODECS@)[i as int] == codec@);
            return true;
        }
        i += 1;
    }
    false
}

/// The texts of `parts` one after the other.
pub open spec fn concat_all(parts: Seq<&str>) -> Seq<char>
    decreases parts.len(),
{
    if parts.len() == 0 {
        Seq::empty()
    } else {
        concat_all(parts.drop_last()) + parts.last()@
    }
}

/// `first` followed by every text of `rest`, in order.
pub fn strcat(first: &str, rest: &[&str]) -> (r: String)
    ensures
        r@ == first@ + concat_all(rest@),
{
    let mut s = first.to_owned();
    let mut i: usize = 0;
    while i < rest.len()
        invariant
            i <= rest@.len(),
            s@ == first@ + concat_all(rest@.take(i as int)),
        decreases rest@.len() - i,
    {
        s.append(rest[i]);
        proof {
            let upto = rest@.take(i + 1);
            assert(upto.drop_last() =~= rest@.take(i as int));
        }
        i += 1;
    }
    assert(rest@.take(rest@.len() as int) =~= rest@);
    s
}

/// A list of one text holds that text.
pub proof fn lemma_concat_one(part: &str)
    ensures
        concat_all(seq![part]) == part@,
{
    reveal_with_fuel(concat_all, 2);
}

/// `first` followed by `second`, with nothing between them and nothing
/// changed: so an address is made of a prefix and a file's name.
pub fn joined(first: &str, second: &str) -> (r: String)
    ensures
        r@ == first@ + second@,
{
    let rest: &[&str] = &[second];
    proof {
        assert(rest@ =~= seq![second]);
        lemma_concat_one(second);
    }
    strcat(first, rest)
}

/// The label of a language: its name in `names`, or the code itself where
/// `names` has none, followed by the title in round brackets where there is
/// one.
pub open spec fn language_label(
    names: Map<Seq<char>, Seq<char>>,
    language: Seq<char>,
    title: Option<Seq<char>>,
) -> Seq<char> {
    match title {
        Some(t) => resolved(names, language) + " ("@ + t + seq![')'],
        None => resolved(names, language),
    }
}

/// The label of a language: `language_label`.
pub fn build_language_string(
    names: &LanguageTable,
    language: &str,
    title: Option<&str>,
) -> (r: String)
    ensures
        r@ == language_label(names@, language@, title.deep_view()),
{
    let mut s = names.resolve(language).to_owned();
    if let Some(title) = title {
        s.append(" (");
        s.append(title);
        s.push(')');
    }
    s
}

/// A code that `names` does not know is its own label; a code that it
/// knows is labelled by its name, alone where the track has no title, and
/// followed by the title in round brackets where it has one.
pub proof fn lemma_language_label(
    names: Map<Seq<char>, Seq<char>>,
    language: Seq<char>,
    title: Seq<char>,
)
    ensures
        !names.contains_key(language) ==> language_label(names, language, None) == language,
        !names.contains_key(language) ==> language_label(names, language, Some(title))
            == language + " ("@ + title + ")"@,
        names.contains_key(language) ==> language_label(names, language, None)
            == names[language],
        names.contains_key(language) ==> language_label(names, language, Some(title))
            == names[language] + " ("@ + title + ")"@,
{
    reveal_strlit(")");
    assert(")"@ =~= seq![')']);
}

/// The two tables that the plan consults for a language code.
#[derive(Debug)]
pub struct Languages {
    /// From a code to the name of the language.
    pub names: LanguageTable,
    /// From a code to the tag by which the platform knows the language.
    pub platform_tags: LanguageTable,
}

/// What the transcoding tool does with one stream.
#[derive(Clone, Copy, Debug, PartialEq, Eq)]
pub enum StreamAction {
    /// The stream goes into the output as it is.
    Copy,
    /// The stream is encoded anew with `codec`, and mixed down to `channels`
    /// channels where a number is given.
    Encode { codec: &'static str, channels: Option<u8> },
}

/// A `StreamAction` as plain values.
pub enum StreamActionView {
    Copy,
    Encode { codec: Seq<char>, channels: Option<u8> },
}

impl DeepView for StreamAction {
    type V = StreamActionView;

    open spec fn deep_view(&self) -> StreamActionView {
        match self {
            StreamAction::Copy => StreamActionView::Copy,
            StreamAction::Encode { codec, channels } => StreamActionView::Encode {
                codec: codec@,
                channels: *channels,
            },
        }
    }
}

impl View for StreamAction {
    type V = StreamActionView;

    open spec fn view(&self) -> StreamActionView {
        self.deep_view()
    }
}

/// One entry of the plan: the stream `index` of the input, of kind `kind`,
/// goes into the file `filename` by `action`.  `mapping` selects the stream
/// for the transcoding tool.  `experimental` asks the tool to permit a
/// combination of codec and container that it holds to be experimental.
/// Operations with the same file name, one after the other, share that file.
#[derive(Clone, Debug, PartialEq, Eq)]
pub struct StreamOperation {
    pub index: u16,
    pub kind: TrackType,
    pub action: StreamAction,
    pub experimental: bool,
    pub mapping: String,
    pub filename: String,
}

/// A `StreamOperation` as plain values.
pub struct StreamOperationView {
    pub index: u16,
    pub kind: TrackType,
    pub action: StreamActionView,
    pub experimental: bool,
    pub mapping: Seq<char>,
    pub filename: Seq<char>,
}

impl DeepView for StreamOperation {
    type V = StreamOperationView;

    open spec fn deep_view(&self) -> StreamOperationView {
        StreamOperationView {
            index: self.index,
            kind: self.kind,
            action: self.action@,
            experimental: self.experimental,
            mapping: self.mapping@,
            filename: self.filename@,
        }
    }
}

impl View for StreamOperation {
    type V = StreamOperationView;

    open spec fn view(&self) -> StreamOperationView {
        self.deep_view()
    }
}

/// Why no plan can be made.
#[derive(Clone, Copy, Debug, PartialEq, Eq, Structural)]
pub enum RemuxError {
    /// The video stream `index` would be the source's video, and its height
    /// is not known: the source's quality cannot be stated.
    MissingScanlineCount { index: u16 },
    /// The stream `index` gets a file of its own, and the bytes of its
    /// language code are no text: neither the file nor its label can be
    /// named.
    LanguageNotText { index: u16 },
}

/// The text that selects the stream `index` of the first input.
pub open spec fn mapping_text(index: u16) -> Seq<char> {
    "0:"@ + decimal_text(index as nat)
}

/// True unless the stream has a language code whose bytes are no text.
pub open spec fn language_is_text(language: Option<Seq<u8>>) -> bool {
    match language {
        Some(code) => valid_utf8(code),
        None => true,
    }
}

/// The language of a stream for a file name: the text of its code, or
/// `unknown` where it has none.
pub open spec fn language_or_unknown(language: Option<Seq<u8>>) -> Seq<char> {
    match language {
        Some(code) => decode_utf8(code),
        None => "unknown"@,
    }
}

/// The first track of `tracks` of which `fails` holds, if there is one.
pub open spec fn first_failing(
    tracks: Seq<TrackView>,
    fails: spec_fn(TrackView) -> bool,
) -> Option<TrackView>
    decreases tracks.len(),
{
    if tracks.len() == 0 {
        None
    } else {
        match first_failing(tracks.drop_last(), fails) {
            Some(track) => Some(track),
            None => if fails(tracks.last()) {
                Some(tracks.last())
            } else {
                None
            },
        }
    }
}

/// The first failing track among the first `n` tracks, where there is one,
/// is the first failing track of all.
pub proof fn lemma_first_failing_stays(
    tracks: Seq<TrackView>,
    fails: spec_fn(TrackView) -> bool,
    n: int,
)
    requires
        0 <= n <= tracks.len(),
        first_failing(tracks.take(n), fails) is Some,
    ensures
        first_failing(tracks, fails) == first_failing(tracks.take(n), fails),
    decreases tracks.len(),
{
    if n == tracks.len() {
        assert(tracks.take(n) =~= tracks);
    } else {
        assert(tracks.drop_last().take(n) =~= tracks.take(n));
        lemma_first_failing_stays(tracks.drop_last(), fails, n);
    }
}

/// The name of the file that holds the video: `main.<extension>`.
pub open spec fn main_filename(extension: Seq<char>) -> Seq<char> {
    "main."@ + extension
}

/// The name of an audio file: `audio_<index>_<language>.<extension>`.
pub open spec fn audio_filename(index: u16, language: Seq<char>, extension: Seq<char>) -> Seq<
    char,
> {
    "audio_"@ + decimal_text(index as nat) + "_"@ + language + "."@ + extension
}

/// The name of a subtitle file: `sub_<index>_<language>.vtt`.
pub open spec fn subtitle_filename(index: u16, language: Seq<char>) -> Seq<char> {
    "sub_"@ + decimal_text(index as nat) + "_"@ + language + ".vtt"@
}

/// The text that selects the stream `index`: `mapping_text`.
pub fn stream_mapping(index: u16) -> (r: String)
    ensures
        r@ == mapping_text(index),
{
    let mut s = "0:".to_owned();
    push_decimal(&mut s, index as u64);
    s
}

/// The tracks of one kind, in the order in which they stand in `tracks`.
pub open spec fn tracks_of_kind(tracks: Seq<TrackView>, kind: TrackType) -> Seq<TrackView> {
    tracks.filter(|t: TrackView| t.kind == kind)
}

/// The three kinds part the tracks: each track is of one kind, so the
/// tracks of the three kinds are as many as all tracks.
pub proof fn lemma_kinds_part_the_tracks(tracks: Seq<TrackView>)
    ensures
        tracks_of_kind(tracks, TrackType::Video).len() + tracks_of_kind(
            tracks,
            TrackType::Audio,
        ).len() + tracks_of_kind(tracks, TrackType::Subtitle).len() == tracks.len(),
    decreases tracks.len(),
{
    reveal(Seq::filter);
    if tracks.len() > 0 {
        lemma_kinds_part_the_tracks(tracks.drop_last());
    }
}

/// The tracks of `tracks` by kind: video, audio, subtitle.  Within each kind
/// the tracks keep their order.
pub fn classify_tracks(tracks: &Vec<Track>) -> (r: (Vec<&Track>, Vec<&Track>, Vec<&Track>))
    ensures
        r.0.deep_view() == tracks_of_kind(tracks.deep_view(), TrackType::Video),
        r.1.deep_view() == tracks_of_kind(tracks.deep_view(), TrackType::Audio),
        r.2.deep_view() == tracks_of_kind(tracks.deep_view(), TrackType::Subtitle),
{
    let mut video: Vec<&Track> = Vec::new();
    let mut audio: Vec<&Track> = Vec::new();
    let mut subtitle: Vec<&Track> = Vec::new();
    let ghost all = tracks.deep_view();
    let mut i: usize = 0;
    while i < tracks.len()
        invariant
            i <= tracks@.len(),
            all == tracks.deep_view(),
            video.deep_view() == tracks_of_kind(all.take(i as int), TrackType::Video),
            audio.deep_view() == tracks_of_kind(all.take(i as int), TrackType::Audio),
            subtitle.deep_view() == tracks_of_kind(all.take(i as int), TrackType::Subtitle),
        decreases tracks@.len() - i,
    {
        let track = &tracks[i];
        match track.kind {
            TrackType::Video => video.push(track),
            TrackType::Audio => audio.push(track),
            TrackType::Subtitle => subtitle.push(track),
        }
        proof {
            reveal(Seq::filter);
            let upto = all.take(i + 1);
            assert(upto.drop_last() =~= all.take(i as int));
        }
        i += 1;
    }
    assert(all.take(tracks@.len() as int) =~= all);
    (video, audio, subtitle)
}

/// The container of the file that holds the video: the one that takes the
/// video codec as it is, or WEBM where none does and the video is encoded
/// anew.
pub open spec fn output_container(video_codec: Seq<char>) -> VideoContainer {
    match video_container_of(video_codec) {
        Some(c) => c,
        None => VideoContainer::WEBM,
    }
}

/// What happens to the audio that goes into a video file of `container`: it
/// is copied where the container takes its codec, else encoded with the
/// container's encoder and mixed down to two channels.
pub open spec fn primary_audio_action(
    container: VideoContainer,
    codec: Seq<char>,
) -> StreamActionView {
    if container.accepts_audio(codec) {
        StreamActionView::Copy
    } else {
        StreamActionView::Encode {
            codec: container.preferred_audio_encoder_text(),
            channels: Some(2u8),
        }
    }
}

/// The two operations that make the video file from `video` and `audio`.
/// Where a container takes the video codec, the video is copied and the
/// audio follows `primary_audio_action`; FLAC in MP4 is marked experimental.
/// Where none does, both are encoded anew for WEBM.
pub open spec fn primary_operations(video: TrackView, audio: TrackView) -> Seq<
    StreamOperationView,
> {
    let filename = main_filename(output_container(video.codec).extension_text());
    match video_container_of(video.codec) {
        Some(c) => seq![
            StreamOperationView {
                index: video.index,
                kind: TrackType::Video,
                action: StreamActionView::Copy,
                experimental: false,
                mapping: mapping_text(video.index),
                filename: filename,
            },
            StreamOperationView {
                index: audio.index,
                kind: TrackType::Audio,
                action: primary_audio_action(c, audio.codec),
                experimental: c == VideoContainer::MP4 && audio.codec == "flac"@,
                mapping: mapping_text(audio.index),
                filename: filename,
            },
        ],
        None => seq![
            StreamOperationView {
                index: video.index,
                kind: TrackType::Video,
                action: StreamActionView::Encode { codec: "libstvav1"@, channels: None },
                experimental: false,
                mapping: mapping_text(video.index),
                filename: filename,
            },
            StreamOperationView {
                index: audio.index,
                kind: TrackType::Audio,
                action: StreamActionView::Encode { codec: "libopus"@, channels: Some(2u8) },
                experimental: false,
                mapping: mapping_text(audio.index),
                filename: filename,
            },
        ],
    }
}

/// The manifest's entry for the video file of `video`, whose height is
/// `quality`.  The rate is that of the whole input.
pub open spec fn primary_source(
    video: TrackView,
    quality: u16,
    bitrate: u64,
    url_prefix: Seq<char>,
) -> SourceView {
    let container = output_container(video.codec);
    SourceView {
        url: url_prefix + main_filename(container.extension_text()),
        content_type: container.mimetype_text(),
        quality: quality,
        bitrate: bitrate,
    }
}

/// The operations and the manifest entry of the video file.  Fails where the
/// height of the video is not known.
pub fn plan_primary(video: &Track, audio: &Track, bitrate: u64, url_prefix: &str) -> (r: Result<
    (StreamOperation, StreamOperation, Source),
    RemuxError,
>)
    ensures
        match r {
            Ok((first, second, source)) => {
                &&& video@.scanline_count is Some
                &&& seq![first@, second@] == primary_operations(video@, audio@)
                &&& source@ == primary_source(
                    video@,
                    video@.scanline_count.unwrap(),
                    bitrate,
                    url_prefix@,
                )
            },
            Err(e) => video@.scanline_count is None && e == (RemuxError::MissingScanlineCount {
                index: video.index,
            }),
        },
{
    let quality = match video.scanline_count {
        Some(height) => height,
        None => {
            return Err(RemuxError::MissingScanlineCount { index: video.index });
        },
    };
    let found = find_video_container(video.codec.as_str());
    let container = match found {
        Some(c) => c,
        None => VideoContainer::WEBM,
    };
    let filename = joined("main.", container.extension());
    let (video_action, audio_action, experimental) = match found {
        Some(c) => {
            if c.accepts(audio.codec.as_str()) {
                (
                    StreamAction::Copy,
                    StreamAction::Copy,
                    matches!(c, VideoContainer::MP4) && audio.codec.as_str().eq("flac"),
                )
            } else {
                (
                    StreamAction::Copy,
                    StreamAction::Encode { codec: c.preferred_audio_encoder(), channels: Some(2) },
                    false,
                )
            }
        },
        None => (
            StreamAction::Encode { codec: "libstvav1", channels: None },
            StreamAction::Encode { codec: "libopus", channels: Some(2) },
            false,
        ),
    };
    let first = StreamOperation {
        index: video.index,
        kind: TrackType::Video,
        action: video_action,
        experimental: false,
        mapping: stream_mapping(video.index),
        filename: filename.clone(),
    };
    let second = StreamOperation {
        index: audio.index,
        kind: TrackType::Audio,
        action: audio_action,
        experimental,
        mapping: stream_mapping(audio.index),
        filename: filename.clone(),
    };
    let url = joined(url_prefix, filename.as_str());
    let source = Source { url, content_type: container.mimetype(), quality, bitrate };
    Ok((first, second, source))
}

/// True when `track` gets an audio file of its own: it is not the track
/// with the index `excluded`, which went into the video file, and an audio
/// container takes its codec.
pub open spec fn gets_audio_file(excluded: Option<u16>, track: TrackView) -> bool {
    excluded != Some(track.index) && audio_container_of(track.codec) is Some
}

/// The operation and the manifest entry of an audio track that gets a file
/// of its own; `None` for a track that gets none.
pub open spec fn secondary_audio(
    excluded: Option<u16>,
    url_prefix: Seq<char>,
    names: Map<Seq<char>, Seq<char>>,
    platform_tags: Map<Seq<char>, Seq<char>>,
    track: TrackView,
) -> Option<(StreamOperationView, AudioTrackView)> {
    if gets_audio_file(excluded, track) {
        let container = audio_container_of(track.codec).unwrap();
        let language = language_or_unknown(track.language);
        let filename = audio_filename(track.index, language, container.extension_text());
        Some(
            (
                StreamOperationView {
                    index: track.index,
                    kind: TrackType::Audio,
                    action: StreamActionView::Copy,
                    experimental: false,
                    mapping: mapping_text(track.index),
                    filename: filename,
                },
                AudioTrackView {
                    url: url_prefix + filename,
                    label: language_label(names, language, track.title),
                    language: resolved(platform_tags, language),
                    content_type: container.mimetype_text(),
                },
            ),
        )
    } else {
        None
    }
}

/// `secondary_audio` as a function of the track alone.
pub open spec fn secondary_audio_of(
    excluded: Option<u16>,
    url_prefix: Seq<char>,
    names: Map<Seq<char>, Seq<char>>,
    platform_tags: Map<Seq<char>, Seq<char>>,
) -> spec_fn(TrackView) -> Option<(StreamOperationView, AudioTrackView)> {
    |track: TrackView| secondary_audio(excluded, url_prefix, names, platform_tags, track)
}

/// True of an audio track that gets a file of its own and whose language
/// code is no text.
pub open spec fn audio_language_fails(excluded: Option<u16>) -> spec_fn(TrackView) -> bool {
    |track: TrackView| gets_audio_file(excluded, track) && !language_is_text(track.language)
}

/// The name of a subtitle track in the manifest: the label of its language
/// where it has one, else its title, else `Unknown`.
pub open spec fn subtitle_name(names: Map<Seq<char>, Seq<char>>, track: TrackView) -> Seq<char> {
    match track.language {
        Some(code) => language_label(names, decode_utf8(code), track.title),
        None => match track.title {
            Some(title) => title,
            None => "Unknown"@,
        },
    }
}

/// The operation and the manifest entry of a subtitle track, which becomes a
/// WebVTT file.  `None` for a track of pictures, which cannot become text.
pub open spec fn subtitle_output(
    url_prefix: Seq<char>,
    names: Map<Seq<char>, Seq<char>>,
    track: TrackView,
) -> Option<(StreamOperationView, TextTrackView)> {
    if is_bitmap_subtitle_codec(track.codec) {
        None
    } else {
        let filename = subtitle_filename(track.index, language_or_unknown(track.language));
        Some(
            (
                StreamOperationView {
                    index: track.index,
                    kind: TrackType::Subtitle,
                    action: StreamActionView::Encode { codec: "webvtt"@, channels: None },
                    experimental: false,
                    mapping: mapping_text(track.index),
                    filename: filename,
                },
                TextTrackView {
                    url: url_prefix + filename,
                    name: subtitle_name(names, track),
                    content_type: "text/vtt"@,
                },
            ),
        )
    }
}

/// `subtitle_output` as a function of the track alone.
pub open spec fn subtitle_output_of(
    url_prefix: Seq<char>,
    names: Map<Seq<char>, Seq<char>>,
) -> spec_fn(TrackView) -> Option<(StreamOperationView, TextTrackView)> {
    |track: TrackView| subtitle_output(url_prefix, names, track)
}

/// True of a subtitle track that gets a file and whose language code is no
/// text.
pub open spec fn subtitle_language_fails() -> spec_fn(TrackView) -> bool {
    |track: TrackView| !is_bitmap_subtitle_codec(track.codec) && !language_is_text(track.language)
}

/// The operations of a list of outputs, in order.
pub open spec fn operations_of<T>(outputs: Seq<(StreamOperationView, T)>) -> Seq<
    StreamOperationView,
> {
    Seq::new(outputs.len(), |i: int| outputs[i].0)
}

/// The manifest entries of a list of outputs, in order.
pub open spec fn entries_of<T>(outputs: Seq<(StreamOperationView, T)>) -> Seq<T> {
    Seq::new(outputs.len(), |i: int| outputs[i].1)
}

/// The language of a track for a file name: the text of its code, or
/// `unknown`.  `None` where the bytes of the code are no text.
pub fn track_language(track: &Track) -> (r: Option<&str>)
    ensures
        match r {
            Some(text) => language_is_text(track@.language) && text@ == language_or_unknown(
                track@.language,
            ),
            None => !language_is_text(track@.language),
        },
{
    match &track.language {
        Some(code) => code.as_str(),
        None => Some("unknown"),
    }
}

/// The title of a track, if it has one.
pub fn track_title(track: &Track) -> (r: Option<&str>)
    ensures
        r.deep_view() == track@.title,
{
    match &track.title {
        Some(title) => Some(title.as_str()),
        None => None,
    }
}

/// The operation and the manifest entry of an audio track that gets a file
/// of its own: `secondary_audio`.  Fails where the track gets a file and its
/// language code is no text.
pub fn plan_secondary_audio(
    track: &Track,
    excluded: Option<u16>,
    url_prefix: &str,
    languages: &Languages,
) -> (r: Result<Option<(StreamOperation, AudioTrack)>, RemuxError>)
    ensures
        match r {
            Ok(Some((operation, entry))) => {
                &&& !audio_language_fails(excluded)(track@)
                &&& secondary_audio(
                    excluded,
                    url_prefix@,
                    languages.names@,
                    languages.platform_tags@,
                    track@,
                ) == Some((operation@, entry@))
            },
            Ok(None) => {
                &&& !audio_language_fails(excluded)(track@)
                &&& secondary_audio(
                    excluded,
                    url_prefix@,
                    languages.names@,
                    languages.platform_tags@,
                    track@,
                ) is None
            },
            Err(e) => {
                &&& audio_language_fails(excluded)(track@)
                &&& e == (RemuxError::LanguageNotText { index: track.index })
            },
        },
{
    if let Some(index) = excluded {
        if track.index == index {
            return Ok(None);
        }
    }
    match find_audio_container(track.codec.as_str()) {
        Some(container) => {
            let language = match track_language(track) {
                Some(language) => language,
                None => {
                    return Err(RemuxError::LanguageNotText { index: track.index });
                },
            };
            let mut filename = "audio_".to_owned();
            push_decimal(&mut filename, track.index as u64);
            filename.append("_");
            filename.append(language);
            filename.append(".");
            filename.append(container.extension());
            let entry = AudioTrack {
                url: joined(url_prefix, filename.as_str()),
                label: build_language_string(&languages.names, language, track_title(track)),
                language: languages.platform_tags.resolve(language).to_owned(),
                content_type: container.mimetype(),
            };
            let operation = StreamOperation {
                index: track.index,
                kind: TrackType::Audio,
                action: StreamAction::Copy,
                experimental: false,
                mapping: stream_mapping(track.index),
                filename,
            };
            Ok(Some((operation, entry)))
        },
        None => Ok(None),
    }
}

/// The operation and the manifest entry of a subtitle track:
/// `subtitle_output`.  Fails where the track gets a file and its language
/// code is no text.
pub fn plan_subtitle(track: &Track, url_prefix: &str, languages: &Languages) -> (r: Result<
    Option<(StreamOperation, TextTrack)>,
    RemuxError,
>)
    ensures
        match r {
            Ok(Some((operation, entry))) => {
                &&& !subtitle_language_fails()(track@)
                &&& subtitle_output(url_prefix@, languages.names@, track@) == Some(
                    (operation@, entry@),
                )
            },
            Ok(None) => {
                &&& !subtitle_language_fails()(track@)
                &&& subtitle_output(url_prefix@, languages.names@, track@) is None
            },
            Err(e) => {
                &&& subtitle_language_fails()(track@)
                &&& e == (RemuxError::LanguageNotText { index: track.index })
            },
        },
{
    if is_bitmap_subtitle(track.codec.as_str()) {
        return Ok(None);
    }
    let language = match track_language(track) {
        Some(language) => language,
        None => {
            return Err(RemuxError::LanguageNotText { index: track.index });
        },
    };
    let mut filename = "sub_".to_owned();
    push_decimal(&mut filename, track.index as u64);
    filename.append("_");
    filename.append(language);
    filename.append(".vtt");
    let name = match &track.language {
        Some(_) => build_language_string(&languages.names, language, track_title(track)),
        None => match &track.title {
            Some(title) => title.clone(),
            None => "Unknown".to_owned(),
        },
    };
    let entry = TextTrack {
        url: joined(url_prefix, filename.as_str()),
        name,
        content_type: "text/vtt",
    };
    let operation = StreamOperation {
        index: track.index,
        kind: TrackType::Subtitle,
        action: StreamAction::Encode { codec: "webvtt", channels: None },
        experimental: false,
        mapping: stream_mapping(track.index),
        filename,
    };
    Ok(Some((operation, entry)))
}

/// Appends to `operations` the operations of the audio tracks that get a
/// file of their own, in order, and returns their manifest entries.  Fails
/// with the first such track whose language code is no text.
pub fn plan_audio_files(
    audio_tracks: &Vec<&Track>,
    excluded: Option<u16>,
    url_prefix: &str,
    languages: &Languages,
    operations: &mut Vec<StreamOperation>,
) -> (r: Result<Vec<AudioTrack>, RemuxError>)
    ensures
        match r {
            Ok(entries) => {
                let outputs = audio_tracks.deep_view().filter_map(
                    secondary_audio_of(
                        excluded,
                        url_prefix@,
                        languages.names@,
                        languages.platform_tags@,
                    ),
                );
                &&& first_failing(audio_tracks.deep_view(), audio_language_fails(excluded))
                    is None
                &&& final(operations).deep_view() == old(operations).deep_view() + operations_of(
                    outputs,
                )
                &&& entries.deep_view() == entries_of(outputs)
            },
            Err(e) => first_failing(audio_tracks.deep_view(), audio_language_fails(excluded))
                matches Some(track) && e == (RemuxError::LanguageNotText { index: track.index }),
        },
{
    let ghost audio = audio_tracks.deep_view();
    let ghost before = operations.deep_view();
    let ghost outputs_of = secondary_audio_of(
        excluded,
        url_prefix@,
        languages.names@,
        languages.platform_tags@,
    );
    let ghost fails = audio_language_fails(excluded);
    let mut entries: Vec<AudioTrack> = Vec::new();
    let mut i: usize = 0;
    while i < audio_tracks.len()
        invariant
            i <= audio_tracks@.len(),
            audio == audio_tracks.deep_view(),
            outputs_of == secondary_audio_of(
                excluded,
                url_prefix@,
                languages.names@,
                languages.platform_tags@,
            ),
            fails == audio_language_fails(excluded),
            first_failing(audio.take(i as int), fails) is None,
            operations.deep_view() == before + operations_of(
                audio.take(i as int).filter_map(outputs_of),
            ),
            entries.deep_view() == entries_of(audio.take(i as int).filter_map(outputs_of)),
        decreases audio_tracks@.len() - i,
    {
        let track = audio_tracks[i];
        let ghost operations_before = operations.deep_view();
        let ghost entries_before = entries.deep_view();
        proof {
            audio.lemma_filter_map_take_succ(outputs_of, i as int);
            assert(audio.take(i + 1).drop_last() =~= audio.take(i as int));
        }
        match plan_secondary_audio(track, excluded, url_prefix, languages) {
            Ok(Some((operation, entry))) => {
                operations.push(operation);
                entries.push(entry);
                assert(operations.deep_view() =~= operations_before.push(operation@));
                assert(entries.deep_view() =~= entries_before.push(entry@));
            },
            Ok(None) => {},
            Err(e) => {
                proof {
                    lemma_first_failing_stays(audio, fails, i + 1);
                }
                return Err(e);
            },
        }
        i += 1;
    }
    assert(audio.take(audio_tracks@.len() as int) =~= audio);
    Ok(entries)
}

/// Appends to `operations` the operations of the subtitle tracks that hold
/// text, in order, and returns their manifest entries.  Fails with the first
/// such track whose language code is no text.
pub fn plan_subtitle_files(
    subtitle_tracks: &Vec<&Track>,
    url_prefix: &str,
    languages: &Languages,
    operations: &mut Vec<StreamOperation>,
) -> (r: Result<Vec<TextTrack>, RemuxError>)
    ensures
        match r {
            Ok(entries) => {
                let outputs = subtitle_tracks.deep_view().filter_map(
                    subtitle_output_of(url_prefix@, languages.names@),
                );
                &&& first_failing(subtitle_tracks.deep_view(), subtitle_language_fails()) is None
                &&& final(operations).deep_view() == old(operations).deep_view() + operations_of(
                    outputs,
                )
                &&& entries.deep_view() == entries_of(outputs)
            },
            Err(e) => first_failing(subtitle_tracks.deep_view(), subtitle_language_fails())
                matches Some(track) && e == (RemuxError::LanguageNotText { index: track.index }),
        },
{
    let ghost subtitle = subtitle_tracks.deep_view();
    let ghost before = operations.deep_view();
    let ghost outputs_of = subtitle_output_of(url_prefix@, languages.names@);
    let ghost fails = subtitle_language_fails();
    let mut entries: Vec<TextTrack> = Vec::new();
    let mut i: usize = 0;
    while i < subtitle_tracks.len()
        invariant
            i <= subtitle_tracks@.len(),
            subtitle == subtitle_tracks.deep_view(),
            outputs_of == subtitle_output_of(url_prefix@, languages.names@),
            fails == subtitle_language_fails(),
            first_failing(subtitle.take(i as int), fails) is None,
            operations.deep_view() == before + operations_of(
                subtitle.take(i as int).filter_map(outputs_of),
            ),
            entries.deep_view() == entries_of(subtitle.take(i as int).filter_map(outputs_of)),
        decreases subtitle_tracks@.len() - i,
    {
        let track = subtitle_tracks[i];
        let ghost operations_before = operations.deep_view();
        let ghost entries_before = entries.deep_view();
        proof {
            subtitle.lemma_filter_map_take_succ(outputs_of, i as int);
            assert(subtitle.take(i + 1).drop_last() =~= subtitle.take(i as int));
        }
        match plan_subtitle(track, url_prefix, languages) {
            Ok(Some((operation, entry))) => {
                operations.push(operation);
                entries.push(entry);
                assert(operations.deep_view() =~= operations_before.push(operation@));
                assert(entries.deep_view() =~= entries_before.push(entry@));
            },
            Ok(None) => {},
            Err(e) => {
                proof {
                    lemma_first_failing_stays(subtitle, fails, i + 1);
                }
                return Err(e);
            },
        }
        i += 1;
    }
    assert(subtitle.take(subtitle_tracks@.len() as int) =~= subtitle);
    Ok(entries)
}

/// The index of the audio track that goes into the video file: that of the
/// track that `best_audio` chooses for the first video track, where the file
/// has a video track and an audio track.  `None` where it has not: then
/// there is no video file.
pub open spec fn muxed_audio_index(
    video: Seq<TrackView>,
    audio: Seq<TrackView>,
    preferred_language: Option<Seq<u8>>,
) -> Option<u16> {
    if video.len() > 0 && audio.len() > 0 {
        Some(
            audio[best_audio(
                audio,
                video_container_of(video[0].codec),
                preferred_language,
            )].index,
        )
    } else {
        None
    }
}

/// The plan and the manifest for one media file.
///
/// Where the file has a video track and an audio track, its first video
/// track and the audio track that `best_audio` chooses make the video file,
/// the one entry of `sources`; otherwise there is no video file.  Every
/// audio track that did not go into the video file, and whose codec an audio
/// container takes, gets a file of its own: all such tracks where there is
/// no video file.  The subtitle tracks that hold text become WebVTT files.
/// The operations stand in that order: video file, audio files, subtitle
/// files.
///
/// The title is that of the probe, or `fallback_title` where the probe has
/// none.
///
/// No plan is made where the video track for the video file has no known
/// height; nor where a track that gets an audio or a subtitle file has a
/// language code that is no text, and then the error names the first such
/// track, audio before subtitles.
pub open spec fn remux_plan(
    fallback_title: Seq<char>,
    probe: FFprobeResultView,
    url_prefix: Seq<char>,
    preferred_language: Option<Seq<u8>>,
    names: Map<Seq<char>, Seq<char>>,
    platform_tags: Map<Seq<char>, Seq<char>>,
) -> Result<(Seq<StreamOperationView>, CytubeVideoView), RemuxError> {
    let video = tracks_of_kind(probe.tracks, TrackType::Video);
    let audio = tracks_of_kind(probe.tracks, TrackType::Audio);
    let subtitle = tracks_of_kind(probe.tracks, TrackType::Subtitle);
    let paired = video.len() > 0 && audio.len() > 0;
    let muxed = muxed_audio_index(video, audio, preferred_language);
    if paired && video[0].scanline_count is None {
        Err(RemuxError::MissingScanlineCount { index: video[0].index })
    } else if first_failing(audio, audio_language_fails(muxed)) is Some {
        Err(
            RemuxError::LanguageNotText {
                index: first_failing(audio, audio_language_fails(muxed)).unwrap().index,
            },
        )
    } else if first_failing(subtitle, subtitle_language_fails()) is Some {
        Err(
            RemuxError::LanguageNotText {
                index: first_failing(subtitle, subtitle_language_fails()).unwrap().index,
            },
        )
    } else {
        let others = audio.filter_map(
            secondary_audio_of(muxed, url_prefix, names, platform_tags),
        );
        let subtitles = subtitle.filter_map(subtitle_output_of(url_prefix, names));
        Ok(
            (
                (if paired {
                    primary_operations(
                        video[0],
                        audio[best_audio(
                            audio,
                            video_container_of(video[0].codec),
                            preferred_language,
                        )],
                    )
                } else {
                    Seq::empty()
                }) + operations_of(others) + operations_of(subtitles),
                CytubeVideoView {
                    title: match probe.title {
                        Some(title) => title,
                        None => fallback_title,
                    },
                    duration: probe.duration,
                    sources: if paired {
                        seq![
                            primary_source(
                                video[0],
                                video[0].scanline_count.unwrap(),
                                probe.bitrate,
                                url_prefix,
                            ),
                        ]
                    } else {
                        Seq::empty()
                    },
                    audio_tracks: entries_of(others),
                    text_tracks: entries_of(subtitles),
                },
            ),
        )
    }
}

/// The plan and the manifest for the media file that `ffprobe` describes:
/// `remux_plan`.  `url_prefix` stands before each file name in the manifest;
/// `preferred_language` is the language wanted of the audio in the video
/// file, if any is.
pub fn remux(
    fallback_title: &str,
    ffprobe: &FFprobeResult,
    url_prefix: &str,
    preferred_language: Option<LangCode>,
    languages: &Languages,
) -> (r: Result<(Vec<StreamOperation>, CytubeVideo), RemuxError>)
    ensures
        match r {
            Ok((operations, video)) => remux_plan(
                fallback_title@,
                ffprobe@,
                url_prefix@,
                preferred_language.deep_view(),
                languages.names@,
                languages.platform_tags@,
            ) == Ok::<_, RemuxError>((operations.deep_view(), video@)),
            Err(e) => remux_plan(
                fallback_title@,
                ffprobe@,
                url_prefix@,
                preferred_language.deep_view(),
                languages.names@,
                languages.platform_tags@,
            ) == Err::<(Seq<StreamOperationView>, CytubeVideoView), _>(e),
        },
{
    let (video_tracks, audio_tracks, subtitle_tracks) = classify_tracks(&ffprobe.tracks);
    let mut operations: Vec<StreamOperation> = Vec::new();
    let mut sources: Vec<Source> = Vec::new();
    let mut muxed: Option<u16> = None;

    if video_tracks.len() > 0 {
        let video = video_tracks[0];
        let container = find_video_container(video.codec.as_str());
        let preferred = preferred_language.as_ref();
        if let Some(chosen_at) = choose_audio(&audio_tracks, container, preferred) {
            let chosen = audio_tracks[chosen_at];
            let (first, second, source) = match plan_primary(
                video,
                chosen,
                ffprobe.bitrate,
                url_prefix,
            ) {
                Ok(planned) => planned,
                Err(e) => {
                    return Err(e);
                },
            };
            operations.push(first);
            operations.push(second);
            sources.push(source);
            muxed = Some(chosen.index);
            assert(operations.deep_view() =~= seq![first@, second@]);
            assert(sources.deep_view() =~= seq![source@]);
        }
    }
    proof {
        if sources@.len() == 0 {
            assert(sources.deep_view() =~= Seq::<SourceView>::empty());
        }
    }
    let audio_entries = match plan_audio_files(
        &audio_tracks,
        muxed,
        url_prefix,
        languages,
        &mut operations,
    ) {
        Ok(entries) => entries,
        Err(e) => {
            return Err(e);
        },
    };
    let text_entries = match plan_subtitle_files(
        &subtitle_tracks,
        url_prefix,
        languages,
        &mut operations,
    ) {
        Ok(entries) => entries,
        Err(e) => {
            return Err(e);
        },
    };
    let title = match &ffprobe.title {
        Some(title) => title.clone(),
        None => fallback_title.to_owned(),
    };
    let duration = match &ffprobe.duration {
        Some(duration) => Some(duration.clone()),
        None => None,
    };
    let video = CytubeVideo {
        title,
        duration,
        sources,
        audio_tracks: audio_entries,
        text_tracks: text_entries,
    };
    Ok((operations, video))
}

} // verus!
