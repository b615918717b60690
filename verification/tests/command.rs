use cytube_generator::command::{command_arguments, group_end, push_stream_codec, Argument};
use cytube_generator::ffmpeg_languages::{LangCode, LanguageTable};
use cytube_generator::ffprobe::{FFprobeResult, Track, TrackType};
use cytube_generator::transcode::{remux, Languages, StreamAction, StreamOperation};

fn t(s: &str) -> Argument {
    Argument::Text(s.to_string())
}

fn out(s: &str) -> Argument {
    Argument::Output(s.to_string())
}

fn head() -> Vec<Argument> {
    vec![t("-hide_banner"), t("-strict"), t("-2"), t("-i"), Argument::Input]
}

fn with_head(rest: Vec<Argument>) -> Vec<Argument> {
    let mut all = head();
    all.extend(rest);
    all
}

fn track(index: u16, kind: TrackType, codec: &str, language: Option<&str>) -> Track {
    Track {
        index,
        kind,
        codec: codec.to_string(),
        scanline_count: Some(1080),
        language: language.map(LangCode::new),
        title: None,
    }
}

fn plan(tracks: Vec<Track>) -> Vec<StreamOperation> {
    let probe = FFprobeResult { tracks, title: None, duration: None, bitrate: 1 };
    let languages =
        Languages { names: LanguageTable::new(), platform_tags: LanguageTable::new() };
    remux("x", &probe, "", None, &languages).unwrap().0
}

fn operation(index: u16, kind: TrackType, action: StreamAction, filename: &str) -> StreamOperation {
    StreamOperation {
        index,
        kind,
        action,
        experimental: false,
        mapping: format!("0:{}", index),
        filename: filename.to_string(),
    }
}

#[test]
fn arguments_of_an_empty_plan() {
    assert_eq!(command_arguments(&vec![]), head());
}

#[test]
fn arguments_of_a_copied_pair() {
    let operations = plan(vec![
        track(0, TrackType::Video, "h264", None),
        track(1, TrackType::Audio, "aac", None),
    ]);
    assert_eq!(
        command_arguments(&operations),
        with_head(vec![
            t("-map"),
            t("0:0"),
            t("-map"),
            t("0:1"),
            t("-c:v"),
            t("copy"),
            t("-c:a"),
            t("copy"),
            out("main.mp4"),
        ])
    );
}

#[test]
fn arguments_of_flac_in_mp4() {
    let operations = plan(vec![
        track(0, TrackType::Video, "h264", None),
        track(1, TrackType::Audio, "flac", None),
    ]);
    assert_eq!(
        command_arguments(&operations),
        with_head(vec![
            t("-map"),
            t("0:0"),
            t("-map"),
            t("0:1"),
            t("-c:v"),
            t("copy"),
            t("-c:a"),
            t("copy"),
            t("-strict"),
            t("experimental"),
            out("main.mp4"),
        ])
    );
}

#[test]
fn arguments_of_encoded_audio() {
    let operations = plan(vec![
        track(2, TrackType::Video, "vp9", None),
        track(5, TrackType::Audio, "aac", None),
    ]);
    assert_eq!(
        command_arguments(&operations),
        with_head(vec![
            t("-map"),
            t("0:2"),
            t("-map"),
            t("0:5"),
            t("-c:v"),
            t("copy"),
            t("-c:a"),
            t("libopus"),
            t("-ac"),
            t("2"),
            out("main.webm"),
        ])
    );
}

#[test]
fn arguments_of_the_fallback() {
    let operations = plan(vec![
        track(0, TrackType::Video, "wmv3", None),
        track(1, TrackType::Audio, "wmav2", None),
    ]);
    assert_eq!(
        command_arguments(&operations),
        with_head(vec![
            t("-map"),
            t("0:0"),
            t("-map"),
            t("0:1"),
            t("-c:v"),
            t("libstvav1"),
            t("-c:a"),
            t("libopus"),
            t("-ac"),
            t("2"),
            out("main.webm"),
        ])
    );
}

#[test]
fn arguments_of_a_whole_plan() {
    let operations = plan(vec![
        track(0, TrackType::Video, "h264", None),
        track(1, TrackType::Audio, "aac", Some("eng")),
        track(2, TrackType::Audio, "mp3", Some("fre")),
        track(3, TrackType::Audio, "ac3", Some("ger")),
        track(4, TrackType::Audio, "vorbis", None),
        track(5, TrackType::Subtitle, "subrip", Some("eng")),
        track(6, TrackType::Subtitle, "xsub", Some("eng")),
        track(7, TrackType::Subtitle, "ass", None),
    ]);
    assert_eq!(
        command_arguments(&operations),
        with_head(vec![
            t("-map"),
            t("0:0"),
            t("-map"),
            t("0:1"),
            t("-c:v"),
            t("copy"),
            t("-c:a"),
            t("copy"),
            out("main.mp4"),
            t("-map"),
            t("0:2"),
            t("-c"),
            t("copy"),
            out("audio_2_fre.m4a"),
            t("-map"),
            t("0:4"),
            t("-c"),
            t("copy"),
            out("audio_4_unknown.ogg"),
            t("-map"),
            t("0:5"),
            out("sub_5_eng.vtt"),
            t("-map"),
            t("0:7"),
            out("sub_7_unknown.vtt"),
        ])
    );
}

#[test]
fn operations_with_one_file_name_share_the_file() {
    let operations = vec![
        operation(0, TrackType::Audio, StreamAction::Copy, "a"),
        operation(1, TrackType::Audio, StreamAction::Copy, "b"),
        operation(2, TrackType::Video, StreamAction::Copy, "b"),
        operation(3, TrackType::Audio, StreamAction::Copy, "b"),
        operation(4, TrackType::Audio, StreamAction::Copy, "a"),
    ];
    assert_eq!(group_end(&operations, 0), 1);
    assert_eq!(group_end(&operations, 1), 4);
    assert_eq!(group_end(&operations, 2), 4);
    assert_eq!(group_end(&operations, 4), 5);
    assert_eq!(
        command_arguments(&operations),
        with_head(vec![
            t("-map"),
            t("0:0"),
            t("-c"),
            t("copy"),
            out("a"),
            t("-map"),
            t("0:1"),
            t("-map"),
            t("0:2"),
            t("-map"),
            t("0:3"),
            t("-c:a"),
            t("copy"),
            t("-c:v"),
            t("copy"),
            t("-c:a"),
            t("copy"),
            out("b"),
            t("-map"),
            t("0:4"),
            t("-c"),
            t("copy"),
            out("a"),
        ])
    );
}

#[test]
fn codec_arguments_of_one_stream() {
    let codec = |operation: StreamOperation, alone: bool| {
        let mut arguments = vec![t("x")];
        push_stream_codec(&mut arguments, &operation, alone);
        arguments
    };
    let encode = StreamAction::Encode { codec: "libopus", channels: Some(6) };
    assert_eq!(
        codec(operation(0, TrackType::Audio, encode, "f"), true),
        vec![t("x"), t("-c"), t("libopus"), t("-ac"), t("6")]
    );
    let encode = StreamAction::Encode { codec: "libx264", channels: None };
    assert_eq!(
        codec(operation(0, TrackType::Video, encode, "f"), false),
        vec![t("x"), t("-c:v"), t("libx264")]
    );
    let encode = StreamAction::Encode { codec: "webvtt", channels: None };
    assert_eq!(codec(operation(0, TrackType::Subtitle, encode, "f"), true), vec![t("x")]);
    assert_eq!(
        codec(operation(0, TrackType::Subtitle, StreamAction::Copy, "f"), false),
        vec![t("x")]
    );
    let mut experimental = operation(0, TrackType::Audio, StreamAction::Copy, "f");
    experimental.experimental = true;
    assert_eq!(
        codec(experimental, false),
        vec![t("x"), t("-c:a"), t("copy"), t("-strict"), t("experimental")]
    );
}
