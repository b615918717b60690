//! What holds of every plan and its manifest.

use crate::ffprobe::{FFprobeResultView, TrackType, TrackView};
use crate::selection::best_audio;
use crate::transcode::{
    audio_container_of, audio_language_fails, first_failing, is_bitmap_subtitle_codec,
    muxed_audio_index, remux_plan, secondary_audio_of, str_views, subtitle_language_fails,
    subtitle_output, subtitle_output_of, tracks_of_kind, video_container_of, RemuxError,
    StreamActionView, VideoContainer, BITMAP_SUBTITLE_CODECS,
};
use vstd::prelude::*;

verus! {

/// No plan is made in two cases, and in no other.  The file has a video
/// track and an audio track, and the height of its first video track is not
/// known: the error names that track.  Or a track that gets an audio or a
/// subtitle file has a language code that is no text: the error names such a
/// track.  The manifest of a plan has one source where the file has a video
/// track and an audio track, and none otherwise.
pub proof fn lemma_plan_is_made(
    fallback_title: Seq<char>,
    probe: FFprobeResultView,
    url_prefix: Seq<char>,
    preferred_language: Option<Seq<u8>>,
    names: Map<Seq<char>, Seq<char>>,
    platform_tags: Map<Seq<char>, Seq<char>>,
)
    ensures
        ({
            let plan = remux_plan(
                fallback_title,
                probe,
                url_prefix,
                preferred_language,
                names,
                platform_tags,
            );
            let video = tracks_of_kind(probe.tracks, TrackType::Video);
            let audio = tracks_of_kind(probe.tracks, TrackType::Audio);
            let subtitle = tracks_of_kind(probe.tracks, TrackType::Subtitle);
            let paired = video.len() > 0 && audio.len() > 0;
            let muxed = muxed_audio_index(video, audio, preferred_language);
            let no_height = paired && video[0].scanline_count is None;
            let no_text = first_failing(audio, audio_language_fails(muxed)) is Some
                || first_failing(subtitle, subtitle_language_fails()) is Some;
            &&& plan is Err <==> no_height || no_text
            &&& plan matches Err(e) ==> if no_height {
                e == (RemuxError::MissingScanlineCount { index: video[0].index })
            } else {
                e is LanguageNotText
            }
            &&& plan matches Ok((_, manifest)) ==> manifest.sources.len() == (if paired {
                1nat
            } else {
                0nat
            })
        }),
{
}

/// Where the file has no video track, every audio track whose codec an
/// audio container takes gets a file of its own: none is left out for having
/// gone into a video file.
pub proof fn lemma_audio_files_without_video(
    fallback_title: Seq<char>,
    probe: FFprobeResultView,
    url_prefix: Seq<char>,
    preferred_language: Option<Seq<u8>>,
    names: Map<Seq<char>, Seq<char>>,
    platform_tags: Map<Seq<char>, Seq<char>>,
)
    requires
        tracks_of_kind(probe.tracks, TrackType::Video).len() == 0,
        remux_plan(fallback_title, probe, url_prefix, preferred_language, names, platform_tags)
            is Ok,
    ensures
        ({
            let (operations, manifest) = remux_plan(
                fallback_title,
                probe,
                url_prefix,
                preferred_language,
                names,
                platform_tags,
            ).unwrap();
            let audio = tracks_of_kind(probe.tracks, TrackType::Audio);
            let taken = audio.filter(|t: TrackView| audio_container_of(t.codec) is Some);
            &&& manifest.sources.len() == 0
            &&& manifest.audio_tracks.len() == taken.len()
            &&& forall|i: int|
                0 <= i < taken.len() ==> (#[trigger] operations[i]).index == taken[i].index
                    && operations[i].kind == TrackType::Audio && operations[i].action
                    == StreamActionView::Copy
        }),
{
    let audio = tracks_of_kind(probe.tracks, TrackType::Audio);
    lemma_outputs_follow_the_taken(audio, url_prefix, names, platform_tags);
}

/// With no track left out, the audio tracks that get a file are those whose
/// codec an audio container takes, one output each and in their order.
pub proof fn lemma_outputs_follow_the_taken(
    audio: Seq<TrackView>,
    url_prefix: Seq<char>,
    names: Map<Seq<char>, Seq<char>>,
    platform_tags: Map<Seq<char>, Seq<char>>,
)
    ensures
        ({
            let outputs = audio.filter_map(
                secondary_audio_of(None, url_prefix, names, platform_tags),
            );
            let taken = audio.filter(|t: TrackView| audio_container_of(t.codec) is Some);
            &&& outputs.len() == taken.len()
            &&& forall|i: int|
                0 <= i < taken.len() ==> (#[trigger] outputs[i]).0.index == taken[i].index
                    && outputs[i].0.kind == TrackType::Audio && outputs[i].0.action
                    == StreamActionView::Copy
        }),
    decreases audio.len(),
{
    reveal(Seq::filter);
    if audio.len() > 0 {
        lemma_outputs_follow_the_taken(audio.drop_last(), url_prefix, names, platform_tags);
    }
}

/// Where a container takes the video codec, the audio in the video file is
/// copied if the container takes its codec too, and is else encoded with the
/// container's encoder and mixed down to two channels.  The audio is the
/// second operation of the plan.
pub proof fn lemma_plan_audio_action(
    fallback_title: Seq<char>,
    probe: FFprobeResultView,
    url_prefix: Seq<char>,
    preferred_language: Option<Seq<u8>>,
    names: Map<Seq<char>, Seq<char>>,
    platform_tags: Map<Seq<char>, Seq<char>>,
    container: VideoContainer,
)
    requires
        tracks_of_kind(probe.tracks, TrackType::Video).len() > 0,
        tracks_of_kind(probe.tracks, TrackType::Audio).len() > 0,
        remux_plan(fallback_title, probe, url_prefix, preferred_language, names, platform_tags)
            is Ok,
        video_container_of(tracks_of_kind(probe.tracks, TrackType::Video)[0].codec) == Some(
            container,
        ),
    ensures
        remux_plan(
            fallback_title,
            probe,
            url_prefix,
            preferred_language,
            names,
            platform_tags,
        ) matches Ok((operations, _)) && {
            let audio = tracks_of_kind(probe.tracks, TrackType::Audio);
            let chosen = audio[best_audio(audio, Some(container), preferred_language)];
            &&& operations.len() >= 2
            &&& operations[1].kind == TrackType::Audio
            &&& operations[1].index == chosen.index
            &&& container.accepts_audio(chosen.codec) ==> operations[1].action
                == StreamActionView::Copy
            &&& !container.accepts_audio(chosen.codec) ==> operations[1].action
                == (StreamActionView::Encode {
                codec: container.preferred_audio_encoder_text(),
                channels: Some(2u8),
            })
        },
{
}

/// Each output of an audio track has the address that is the prefix
/// followed by the name of the operation's file.
pub proof fn lemma_audio_outputs_share_names(
    audio: Seq<TrackView>,
    excluded: Option<u16>,
    url_prefix: Seq<char>,
    names: Map<Seq<char>, Seq<char>>,
    platform_tags: Map<Seq<char>, Seq<char>>,
    i: int,
)
    requires
        0 <= i < audio.filter_map(
            secondary_audio_of(excluded, url_prefix, names, platform_tags),
        ).len(),
    ensures
        ({
            let output = audio.filter_map(
                secondary_audio_of(excluded, url_prefix, names, platform_tags),
            )[i];
            &&& output.1.url == url_prefix + output.0.filename
            &&& output.0.kind == TrackType::Audio
            &&& output.0.action == StreamActionView::Copy
        }),
{
    let outputs_of = secondary_audio_of(excluded, url_prefix, names, platform_tags);
    let outputs = audio.filter_map(outputs_of);
    audio.lemma_filter_map_contains(outputs_of, outputs[i]);
}

/// Each output of a subtitle track has the address that is the prefix
/// followed by the name of the operation's file, and belongs to a track of
/// `subtitle` whose codec holds text.
pub proof fn lemma_subtitle_outputs_share_names(
    subtitle: Seq<TrackView>,
    url_prefix: Seq<char>,
    names: Map<Seq<char>, Seq<char>>,
    i: int,
)
    requires
        0 <= i < subtitle.filter_map(subtitle_output_of(url_prefix, names)).len(),
    ensures
        ({
            let output = subtitle.filter_map(subtitle_output_of(url_prefix, names))[i];
            &&& output.1.url == url_prefix + output.0.filename
            &&& output.0.kind == TrackType::Subtitle
            &&& exists|track: TrackView|
                #![auto]
                subtitle.contains(track) && !is_bitmap_subtitle_codec(track.codec)
                    && subtitle_output(url_prefix, names, track) == Some(output)
        }),
{
    let outputs_of = subtitle_output_of(url_prefix, names);
    let outputs = subtitle.filter_map(outputs_of);
    subtitle.lemma_filter_map_contains(outputs_of, outputs[i]);
}

/// In every plan the manifest and the operations name the same files: each
/// address in the manifest is the prefix followed, unchanged, by the file
/// name of the operation that makes the file.  The one source, where there
/// is one, belongs to the first two operations, which share a file; the
/// audio tracks belong to the operations after them, one each and in order;
/// the text tracks to the operations after those.
pub proof fn lemma_manifest_urls(
    fallback_title: Seq<char>,
    probe: FFprobeResultView,
    url_prefix: Seq<char>,
    preferred_language: Option<Seq<u8>>,
    names: Map<Seq<char>, Seq<char>>,
    platform_tags: Map<Seq<char>, Seq<char>>,
)
    requires
        remux_plan(fallback_title, probe, url_prefix, preferred_language, names, platform_tags)
            is Ok,
    ensures
        ({
            let (operations, video) = remux_plan(
                fallback_title,
                probe,
                url_prefix,
                preferred_language,
                names,
                platform_tags,
            ).unwrap();
            let first_audio = 2 * video.sources.len();
            let first_text = first_audio + video.audio_tracks.len();
            &&& video.sources.len() <= 1
            &&& operations.len() == first_text + video.text_tracks.len()
            &&& video.sources.len() == 1 ==> {
                &&& video.sources[0].url == url_prefix + operations[0].filename
                &&& operations[1].filename == operations[0].filename
            }
            &&& forall|i: int|
                0 <= i < video.audio_tracks.len() ==> (#[trigger] video.audio_tracks[i]).url
                    == url_prefix + operations[first_audio + i].filename
            &&& forall|i: int|
                0 <= i < video.text_tracks.len() ==> (#[trigger] video.text_tracks[i]).url
                    == url_prefix + operations[first_text + i].filename
        }),
{
    let (operations, video) = remux_plan(
        fallback_title,
        probe,
        url_prefix,
        preferred_language,
        names,
        platform_tags,
    ).unwrap();
    let videos = tracks_of_kind(probe.tracks, TrackType::Video);
    let audio = tracks_of_kind(probe.tracks, TrackType::Audio);
    let subtitle = tracks_of_kind(probe.tracks, TrackType::Subtitle);
    let subtitles = subtitle.filter_map(subtitle_output_of(url_prefix, names));
    let first_audio = 2 * video.sources.len();
    let first_text = first_audio + video.audio_tracks.len();
    let muxed = muxed_audio_index(videos, audio, preferred_language);
    assert forall|i: int| 0 <= i < video.audio_tracks.len() implies (
    #[trigger] video.audio_tracks[i]).url == url_prefix + operations[first_audio
        + i].filename by {
        lemma_audio_outputs_share_names(audio, muxed, url_prefix, names, platform_tags, i);
    }
    assert forall|i: int| 0 <= i < video.text_tracks.len() implies (
    #[trigger] video.text_tracks[i]).url == url_prefix + operations[first_text + i].filename by {
        lemma_subtitle_outputs_share_names(subtitle, url_prefix, names, i);
    }
}

/// The four codecs of picture subtitles are the ones that get no output,
/// whatever the track's index, language and title.
pub proof fn lemma_bitmap_subtitles_get_no_output(
    url_prefix: Seq<char>,
    names: Map<Seq<char>, Seq<char>>,
    track: TrackView,
)
    ensures
        subtitle_output(url_prefix, names, track) is None <==> (track.codec == "dvb_subtitle"@
            || track.codec == "dvd_subtitle"@ || track.codec == "hdmv_pgs_subtitle"@
            || track.codec == "xsub"@),
{
    let codecs = str_views(BITMAP_SUBTITLE_CODECS@);
    assert(codecs[0] == "dvb_subtitle"@ && codecs[1] == "dvd_subtitle"@ && codecs[2]
        == "hdmv_pgs_subtitle"@ && codecs[3] == "xsub"@);
}

/// `tracks` without the subtitle tracks that hold pictures.
pub open spec fn without_bitmap_subtitles(tracks: Seq<TrackView>) -> Seq<TrackView> {
    tracks.filter(
        |t: TrackView| !(t.kind == TrackType::Subtitle && is_bitmap_subtitle_codec(t.codec)),
    )
}

/// Taking the picture subtitles away changes neither the tracks of another
/// kind nor the outputs of the subtitle tracks.
pub proof fn lemma_kinds_without_bitmap_subtitles(
    tracks: Seq<TrackView>,
    kind: TrackType,
    url_prefix: Seq<char>,
    names: Map<Seq<char>, Seq<char>>,
)
    ensures
        kind != TrackType::Subtitle ==> tracks_of_kind(without_bitmap_subtitles(tracks), kind)
            == tracks_of_kind(tracks, kind),
        tracks_of_kind(without_bitmap_subtitles(tracks), TrackType::Subtitle).filter_map(
            subtitle_output_of(url_prefix, names),
        ) == tracks_of_kind(tracks, TrackType::Subtitle).filter_map(
            subtitle_output_of(url_prefix, names),
        ),
        first_failing(
            tracks_of_kind(without_bitmap_subtitles(tracks), TrackType::Subtitle),
            subtitle_language_fails(),
        ) == first_failing(tracks_of_kind(tracks, TrackType::Subtitle), subtitle_language_fails()),
    decreases tracks.len(),
{
    reveal(Seq::filter);
    if tracks.len() > 0 {
        let rest = tracks.drop_last();
        let last = tracks.last();
        let outputs_of = subtitle_output_of(url_prefix, names);
        lemma_kinds_without_bitmap_subtitles(rest, kind, url_prefix, names);
        let kept = without_bitmap_subtitles(rest);
        let all_subtitles = tracks_of_kind(rest, TrackType::Subtitle);
        let kept_subtitles = tracks_of_kind(kept, TrackType::Subtitle);
        if last.kind == TrackType::Subtitle && is_bitmap_subtitle_codec(last.codec) {
            assert(without_bitmap_subtitles(tracks) == kept);
            assert(tracks_of_kind(tracks, TrackType::Subtitle) == all_subtitles.push(last));
            assert(all_subtitles.push(last).drop_last() =~= all_subtitles);
            assert(outputs_of(last) is None);
            assert(!subtitle_language_fails()(last));
        } else {
            assert(without_bitmap_subtitles(tracks) == kept.push(last));
            assert(kept.push(last).drop_last() =~= kept);
            if last.kind == TrackType::Subtitle {
                assert(tracks_of_kind(tracks, TrackType::Subtitle) == all_subtitles.push(last));
                assert(tracks_of_kind(kept.push(last), TrackType::Subtitle)
                    == kept_subtitles.push(last));
                assert(all_subtitles.push(last).drop_last() =~= all_subtitles);
                assert(kept_subtitles.push(last).drop_last() =~= kept_subtitles);
            }
        }
    }
}

/// Subtitle tracks that hold pictures leave no trace: the plan and the
/// manifest are those of the same file without these tracks.
pub proof fn lemma_bitmap_subtitles_leave_no_trace(
    fallback_title: Seq<char>,
    probe: FFprobeResultView,
    url_prefix: Seq<char>,
    preferred_language: Option<Seq<u8>>,
    names: Map<Seq<char>, Seq<char>>,
    platform_tags: Map<Seq<char>, Seq<char>>,
)
    ensures
        remux_plan(fallback_title, probe, url_prefix, preferred_language, names, platform_tags)
            == remux_plan(
            fallback_title,
            FFprobeResultView { tracks: without_bitmap_subtitles(probe.tracks), ..probe },
            url_prefix,
            preferred_language,
            names,
            platform_tags,
        ),
{
    lemma_kinds_without_bitmap_subtitles(probe.tracks, TrackType::Video, url_prefix, names);
    lemma_kinds_without_bitmap_subtitles(probe.tracks, TrackType::Audio, url_prefix, names);
}

/// Every text track of the manifest, and the operation that makes its file,
/// belong to a subtitle track of the file whose codec holds text.
pub proof fn lemma_text_tracks_hold_text(
    fallback_title: Seq<char>,
    probe: FFprobeResultView,
    url_prefix: Seq<char>,
    preferred_language: Option<Seq<u8>>,
    names: Map<Seq<char>, Seq<char>>,
    platform_tags: Map<Seq<char>, Seq<char>>,
    i: int,
)
    requires
        remux_plan(fallback_title, probe, url_prefix, preferred_language, names, platform_tags)
            is Ok,
        0 <= i < remux_plan(
            fallback_title,
            probe,
            url_prefix,
            preferred_language,
            names,
            platform_tags,
        ).unwrap().1.text_tracks.len(),
    ensures
        ({
            let (operations, video) = remux_plan(
                fallback_title,
                probe,
                url_prefix,
                preferred_language,
                names,
                platform_tags,
            ).unwrap();
            let at = operations.len() - video.text_tracks.len() + i;
            exists|track: TrackView|
                #![auto]
                probe.tracks.contains(track) && track.kind == TrackType::Subtitle
                    && !is_bitmap_subtitle_codec(track.codec) && subtitle_output(
                    url_prefix,
                    names,
                    track,
                ) == Some((operations[at], video.text_tracks[i]))
        }),
{
    let subtitle = tracks_of_kind(probe.tracks, TrackType::Subtitle);
    lemma_manifest_urls(
        fallback_title,
        probe,
        url_prefix,
        preferred_language,
        names,
        platform_tags,
    );
    lemma_subtitle_outputs_share_names(subtitle, url_prefix, names, i);
    let output = subtitle.filter_map(subtitle_output_of(url_prefix, names))[i];
    let track = choose|track: TrackView|
        #![auto]
        subtitle.contains(track) && !is_bitmap_subtitle_codec(track.codec) && subtitle_output(
            url_prefix,
            names,
            track,
        ) == Some(output);
    let is_subtitle = |t: TrackView| t.kind == TrackType::Subtitle;
    probe.tracks.lemma_filter_contains_rev(is_subtitle, track);
    let at = subtitle.index_of(track);
    probe.tracks.lemma_filter_pred(is_subtitle, at);
}

} // verus!
