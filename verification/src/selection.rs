//! The choice of the audio track that goes into the video file.

use crate::ffmpeg_languages::LangCode;
use crate::ffprobe::{Track, TrackView};
use crate::transcode::VideoContainer;
use vstd::prelude::*;

verus! {

/// The points of an audio track as partner of the video: one where the
/// video's container takes the track's codec as it is, or the video has no
/// container; one more where the track has the preferred language, or none
/// is preferred.
pub open spec fn audio_score(
    container: Option<VideoContainer>,
    preferred: Option<Seq<u8>>,
    track: TrackView,
) -> nat {
    let codec_point: nat = match container {
        Some(c) => if c.accepts_audio(track.codec) {
            1
        } else {
            0
        },
        None => 1,
    };
    let language_point: nat = match preferred {
        Some(code) => if track.language == Some(code) {
            1
        } else {
            0
        },
        None => 1,
    };
    codec_point + language_point
}

/// True when `audio[i]` is the track to choose: no track has more points,
/// and every track before it has fewer.
pub open spec fn is_best_audio(
    audio: Seq<TrackView>,
    container: Option<VideoContainer>,
    preferred: Option<Seq<u8>>,
    i: int,
) -> bool {
    &&& 0 <= i < audio.len()
    &&& forall|j: int|
        0 <= j < audio.len() ==> audio_score(container, preferred, #[trigger] audio[j])
            <= audio_score(container, preferred, audio[i])
    &&& forall|j: int|
        0 <= j < i ==> audio_score(container, preferred, #[trigger] audio[j]) < audio_score(
            container,
            preferred,
            audio[i],
        )
}

/// The position of the track to choose among `audio`: the first of those
/// with the most points.
pub open spec fn best_audio(
    audio: Seq<TrackView>,
    container: Option<VideoContainer>,
    preferred: Option<Seq<u8>>,
) -> int
    decreases audio.len(),
{
    if audio.len() <= 1 {
        0
    } else {
        let before = best_audio(audio.drop_last(), container, preferred);
        if audio_score(container, preferred, audio.last()) > audio_score(
            container,
            preferred,
            audio[before],
        ) {
            audio.len() - 1
        } else {
            before
        }
    }
}

/// Among one or more tracks, `best_audio` is the one position of which
/// `is_best_audio` holds.
pub proof fn lemma_best_audio(
    audio: Seq<TrackView>,
    container: Option<VideoContainer>,
    preferred: Option<Seq<u8>>,
)
    requires
        audio.len() > 0,
    ensures
        is_best_audio(audio, container, preferred, best_audio(audio, container, preferred)),
        forall|i: int|
            is_best_audio(audio, container, preferred, i) ==> i == best_audio(
                audio,
                container,
                preferred,
            ),
    decreases audio.len(),
{
    let best = best_audio(audio, container, preferred);
    if audio.len() > 1 {
        let rest = audio.drop_last();
        lemma_best_audio(rest, container, preferred);
        assert forall|j: int| 0 <= j < audio.len() implies audio_score(
            container,
            preferred,
            #[trigger] audio[j],
        ) <= audio_score(container, preferred, audio[best]) by {
            if j < rest.len() {
                assert(rest[j] == audio[j]);
            }
        }
        assert forall|j: int| 0 <= j < best implies audio_score(
            container,
            preferred,
            #[trigger] audio[j],
        ) < audio_score(container, preferred, audio[best]) by {
            assert(rest[j] == audio[j]);
        }
    }
}

/// A track with more points than every other track is chosen, wherever it
/// stands.
pub proof fn lemma_highest_score_wins(
    audio: Seq<TrackView>,
    container: Option<VideoContainer>,
    preferred: Option<Seq<u8>>,
    k: int,
)
    requires
        0 <= k < audio.len(),
        forall|j: int|
            0 <= j < audio.len() && j != k ==> audio_score(
                container,
                preferred,
                #[trigger] audio[j],
            ) < audio_score(container, preferred, audio[k]),
    ensures
        best_audio(audio, container, preferred) == k,
{
    lemma_best_audio(audio, container, preferred);
}

/// Of tracks with equal points, the one that stands first is chosen: the
/// choice is the first track unless a later one has more points than it.
pub proof fn lemma_tie_keeps_earlier(
    audio: Seq<TrackView>,
    container: Option<VideoContainer>,
    preferred: Option<Seq<u8>>,
    first: int,
)
    requires
        0 <= first < audio.len(),
        forall|j: int|
            0 <= j < first ==> audio_score(container, preferred, #[trigger] audio[j])
                < audio_score(container, preferred, audio[first]),
        forall|j: int|
            first < j < audio.len() ==> audio_score(container, preferred, #[trigger] audio[j])
                <= audio_score(container, preferred, audio[first]),
    ensures
        best_audio(audio, container, preferred) == first,
{
    lemma_best_audio(audio, container, preferred);
}

/// The points of `track`: `audio_score`.
pub fn score_audio(
    container: Option<VideoContainer>,
    preferred: Option<&LangCode>,
    track: &Track,
) -> (r: u8)
    ensures
        r == audio_score(container, preferred.deep_view(), track@),
{
    let mut score: u8 = 0;
    let codec_fits = match container {
        Some(c) => c.accepts(track.codec.as_str()),
        None => true,
    };
    if codec_fits {
        score += 1;
    }
    let language_fits = match preferred {
        Some(code) => match &track.language {
            Some(language) => language.same(code),
            None => false,
        },
        None => true,
    };
    if language_fits {
        score += 1;
    }
    score
}

/// The position of the audio track that goes with the video: the first of
/// those with the most points.  `None` when there is no audio track.
pub fn choose_audio(
    audio: &Vec<&Track>,
    container: Option<VideoContainer>,
    preferred: Option<&LangCode>,
) -> (r: Option<usize>)
    ensures
        r is None <==> audio@.len() == 0,
        r matches Some(i) ==> i == best_audio(
            audio.deep_view(),
            container,
            preferred.deep_view(),
        ) && is_best_audio(audio.deep_view(), container, preferred.deep_view(), i as int),
{
    if audio.len() == 0 {
        return None;
    }
    let ghost tracks = audio.deep_view();
    let ghost wanted = preferred.deep_view();
    let mut chosen: usize = 0;
    let mut highest: u8 = 0;
    let mut i: usize = 0;
    while i < audio.len()
        invariant
            i <= audio@.len(),
            audio@.len() > 0,
            tracks == audio.deep_view(),
            wanted == preferred.deep_view(),
            i == 0 ==> chosen == 0 && highest == 0,
            i > 0 ==> {
                &&& chosen < i
                &&& highest == audio_score(container, wanted, tracks[chosen as int])
                &&& is_best_audio(tracks.take(i as int), container, wanted, chosen as int)
            },
        decreases audio@.len() - i,
    {
        let score = score_audio(container, preferred, audio[i]);
        if i == 0 || score > highest {
            chosen = i;
            highest = score;
        }
        i += 1;
    }
    proof {
        assert(tracks.take(audio@.len() as int) =~= tracks);
        lemma_best_audio(tracks, container, wanted);
    }
    Some(chosen)
}

} // verus!
