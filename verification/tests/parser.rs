use cytube_generator::ffmpeg_languages::LangCode;
use cytube_generator::ffprobe::{
    ffprobe, ignored_keys, known_key, parse_ffmpeg_line, parse_format_tokens, parse_stream_tokens, parse_track_type,
    FFprobeResult, ProbeError, Token, Track, TrackType,
};

fn token(key: &str, value: Option<&str>) -> Token {
    Token { key: key.to_string(), value: value.map(|v| v.to_string()) }
}

fn parse_error(field: &str, line: &str) -> ProbeError {
    ProbeError::ParseError { field: field.to_string(), line: line.to_string() }
}

#[test]
fn line_is_cut_into_tag_and_tokens() {
    let (kind, tokens) = parse_ffmpeg_line("stream|index=0|codec_name=h264|tag:title=a=b|x=");
    assert_eq!(kind, "stream");
    assert_eq!(
        tokens,
        vec![
            token("index", Some("0")),
            token("codec_name", Some("h264")),
            token("tag:title", Some("a=b")),
            token("x", Some("")),
        ]
    );
}

#[test]
fn line_without_tokens() {
    assert_eq!(parse_ffmpeg_line(""), (String::new(), vec![]));
    assert_eq!(parse_ffmpeg_line("format"), ("format".to_string(), vec![]));
}

#[test]
fn token_without_equals_sign_has_no_value() {
    let (kind, tokens) = parse_ffmpeg_line("format|duration|=1|");
    assert_eq!(kind, "format");
    assert_eq!(tokens, vec![token("duration", None), token("", Some("1")), token("", None)]);
}

#[test]
fn track_kinds_in_any_case() {
    assert_eq!(parse_track_type("video"), Some(TrackType::Video));
    assert_eq!(parse_track_type("audio"), Some(TrackType::Audio));
    assert_eq!(parse_track_type("subtitle"), Some(TrackType::Subtitle));
    assert_eq!(parse_track_type("Video"), Some(TrackType::Video));
    assert_eq!(parse_track_type("AUDIO"), Some(TrackType::Audio));
    assert_eq!(parse_track_type("SubTitle"), Some(TrackType::Subtitle));
}

#[test]
fn other_track_kinds_are_none() {
    for value in ["data", "attachment", "", "videos", " video", "sub_title", "vidéo"] {
        assert_eq!(parse_track_type(value), None);
    }
}

#[test]
fn full_report() {
    let output = "stream|index=0|codec_name=h264|codec_type=video|coded_height=1088|tag:language=und|tag:title=Main\n\
stream|index=1|codec_name=aac|codec_type=audio|coded_height=0|tag:language=eng\n\
stream|index=2|codec_name=subrip|codec_type=subtitle|tag:language=fre|tag:title=Forced\n\
format|duration=5312.245000|bit_rate=2500000|tag:title=A film\n";
    let probe = ffprobe(true, output).unwrap();
    assert_eq!(
        probe,
        FFprobeResult {
            tracks: vec![
                Track {
                    index: 0,
                    kind: TrackType::Video,
                    codec: "h264".to_string(),
                    scanline_count: Some(1088),
                    language: Some(LangCode::new("und")),
                    title: Some("Main".to_string()),
                },
                Track {
                    index: 1,
                    kind: TrackType::Audio,
                    codec: "aac".to_string(),
                    scanline_count: Some(0),
                    language: Some(LangCode::new("eng")),
                    title: None,
                },
                Track {
                    index: 2,
                    kind: TrackType::Subtitle,
                    codec: "subrip".to_string(),
                    scanline_count: None,
                    language: Some(LangCode::new("fre")),
                    title: Some("Forced".to_string()),
                },
            ],
            title: Some("A film".to_string()),
            duration: Some("5312.245000".to_string()),
            bitrate: 2500000,
        }
    );
}

#[test]
fn empty_report_has_no_tracks() {
    let probe = ffprobe(true, "").unwrap();
    assert_eq!(
        probe,
        FFprobeResult { tracks: vec![], title: None, duration: None, bitrate: 0 }
    );
}

#[test]
fn failed_tool_is_reported_before_any_parsing() {
    assert_eq!(ffprobe(false, ""), Err(ProbeError::ProbeFailed));
    assert_eq!(
        ffprobe(false, "stream|index=0|codec_name=h264|codec_type=video"),
        Err(ProbeError::ProbeFailed)
    );
    assert_eq!(ffprobe(false, "stream|codec_type=video"), Err(ProbeError::ProbeFailed));
}

#[test]
fn stream_of_another_kind_is_skipped() {
    let output = "stream|index=0|codec_name=bin_data|codec_type=data\n\
stream|index=1|codec_name=ttf|codec_type=attachment\n\
stream|index=2|codec_name=opus|codec_type=audio";
    let probe = ffprobe(true, output).unwrap();
    assert_eq!(probe.tracks.len(), 1);
    assert_eq!(probe.tracks[0].index, 2);
    assert_eq!(probe.tracks[0].codec, "opus");
}

#[test]
fn skipped_stream_is_not_read_further() {
    let probe = ffprobe(true, "stream|codec_type=data|index=x|broken|coded_height=-1").unwrap();
    assert_eq!(probe.tracks.len(), 0);
}

#[test]
fn error_before_the_kind_is_known_is_an_error() {
    let line = "stream|index=x|codec_type=data";
    assert_eq!(ffprobe(true, line), Err(parse_error("index", line)));
}

#[test]
fn missing_index_is_a_parse_error() {
    let line = "stream|codec_name=h264|codec_type=video";
    assert_eq!(ffprobe(true, line), Err(parse_error("index", line)));
}

#[test]
fn missing_codec_type_is_a_parse_error() {
    let line = "stream|index=0|codec_name=h264";
    assert_eq!(ffprobe(true, line), Err(parse_error("codec_type", line)));
}

#[test]
fn missing_codec_name_is_a_parse_error() {
    let line = "stream|index=0|codec_type=video";
    assert_eq!(ffprobe(true, line), Err(parse_error("codec_name", line)));
}

#[test]
fn missing_fields_are_named_in_order() {
    assert_eq!(ffprobe(true, "stream"), Err(parse_error("index", "stream")));
    let line = "stream|index=3";
    assert_eq!(ffprobe(true, line), Err(parse_error("codec_type", line)));
}

#[test]
fn malformed_numbers_are_parse_errors() {
    let line = "stream|index=70000|codec_name=h264|codec_type=video";
    assert_eq!(ffprobe(true, line), Err(parse_error("index", line)));
    let line = "stream|index=0|codec_name=h264|codec_type=video|coded_height=N/A";
    assert_eq!(ffprobe(true, line), Err(parse_error("coded_height", line)));
    let line = "format|duration=1.0|bit_rate=N/A";
    assert_eq!(ffprobe(true, line), Err(parse_error("bit_rate", line)));
}

#[test]
fn token_without_equals_sign_is_a_parse_error() {
    let line = "stream|index=0|codec_name=h264|codec_type=video|";
    assert_eq!(ffprobe(true, line), Err(parse_error("", line)));
    let line = "format|duration";
    assert_eq!(ffprobe(true, line), Err(parse_error("duration", line)));
}

#[test]
fn first_bad_record_decides() {
    let output = "stream|index=0|codec_name=h264|codec_type=video\nstream|index=1\nformat|bit_rate=x";
    assert_eq!(ffprobe(true, output), Err(parse_error("codec_type", "stream|index=1")));
}

#[test]
fn unknown_keys_and_tags_are_ignored() {
    let output = "program|index=x|whatever\n\
stream|index=4|codec_name=vp9|codec_type=video|bitrate=100|disposition:default=1\n\
format|size=100|duration=2|nb_streams=1\n\
\n\
side_data|";
    let probe = ffprobe(true, output).unwrap();
    assert_eq!(probe.tracks.len(), 1);
    assert_eq!(probe.tracks[0].index, 4);
    assert_eq!(probe.tracks[0].scanline_count, None);
    assert_eq!(probe.duration, Some("2".to_string()));
    assert_eq!(probe.bitrate, 0);
}

#[test]
fn later_values_replace_earlier_ones() {
    let output = "format|bit_rate=1|tag:title=a\n\
stream|index=1|index=2|codec_name=x|codec_name=aac|codec_type=video|codec_type=Audio\n\
format|bit_rate=2|duration=9";
    let probe = ffprobe(true, output).unwrap();
    assert_eq!(probe.bitrate, 2);
    assert_eq!(probe.title, Some("a".to_string()));
    assert_eq!(probe.duration, Some("9".to_string()));
    assert_eq!(probe.tracks.len(), 1);
    assert_eq!(probe.tracks[0].index, 2);
    assert_eq!(probe.tracks[0].codec, "aac");
    assert_eq!(probe.tracks[0].kind, TrackType::Audio);
}

#[test]
fn language_is_cut_to_three_bytes() {
    let probe =
        ffprobe(true, "stream|index=0|codec_name=aac|codec_type=audio|tag:language=english")
            .unwrap();
    assert_eq!(probe.tracks[0].language.as_ref().unwrap().as_str(), Some("eng"));
}

#[test]
fn language_cut_inside_a_character_is_kept() {
    for kind in ["video", "audio", "subtitle"] {
        let line =
            format!("stream|index=0|codec_name=aac|codec_type={}|tag:language=aaé|tag:title=t", kind);
        let probe = ffprobe(true, &line).unwrap();
        assert_eq!(probe.tracks.len(), 1);
        assert_eq!(probe.tracks[0].index, 0);
        assert_eq!(probe.tracks[0].codec, "aac");
        assert_eq!(probe.tracks[0].title, Some("t".to_string()));
        let language = probe.tracks[0].language.as_ref().unwrap();
        assert_eq!(language.as_bytes(), &"aaé".as_bytes()[..3]);
        assert_eq!(language.as_str(), None);
    }
}

#[test]
fn one_track_for_each_stream_record_of_interest() {
    let output = "stream|index=3|codec_name=a|codec_type=audio|tag:language=\u{1d11e}\n\
stream|index=1|codec_name=b|codec_type=data\n\
stream|index=2|codec_name=c|codec_type=video|tag:language=日本語\n\
stream|index=0|codec_name=d|codec_type=subtitle|tag:language=";
    let probe = ffprobe(true, output).unwrap();
    let read: Vec<(u16, TrackType, &str)> =
        probe.tracks.iter().map(|t| (t.index, t.kind, t.codec.as_str())).collect();
    assert_eq!(
        read,
        vec![(3, TrackType::Audio, "a"), (2, TrackType::Video, "c"), (0, TrackType::Subtitle, "d")]
    );
    assert_eq!(probe.tracks[0].language.as_ref().unwrap().as_str(), None);
    assert_eq!(probe.tracks[1].language.as_ref().unwrap().as_str(), Some("日"));
    assert_eq!(probe.tracks[2].language.as_ref().unwrap().as_str(), Some(""));
}

#[test]
fn carriage_returns_are_kept() {
    let probe = ffprobe(true, "format|tag:title=x\r\n").unwrap();
    assert_eq!(probe.title, Some("x\r".to_string()));
}

#[test]
fn stream_tokens_give_a_track() {
    let tokens = vec![
        token("codec_type", Some("subtitle")),
        token("codec_name", Some("ass")),
        token("index", Some("+7")),
    ];
    assert_eq!(
        parse_stream_tokens(&tokens),
        Ok(Some(Track {
            index: 7,
            kind: TrackType::Subtitle,
            codec: "ass".to_string(),
            scanline_count: None,
            language: None,
            title: None,
        }))
    );
    assert_eq!(parse_stream_tokens(&vec![token("codec_type", Some("data"))]), Ok(None));
    assert_eq!(parse_stream_tokens(&vec![]), Err("index".to_string()));
}

#[test]
fn format_tokens_change_the_result() {
    let probe = FFprobeResult { tracks: vec![], title: None, duration: None, bitrate: 7 };
    let tokens = vec![
        token("tag:title", Some("T")),
        token("duration", Some("1.5")),
        token("bit_rate", Some("64")),
        token("other", Some("x")),
    ];
    let probe = parse_format_tokens(probe, &tokens).unwrap();
    assert_eq!(
        probe,
        FFprobeResult {
            tracks: vec![],
            title: Some("T".to_string()),
            duration: Some("1.5".to_string()),
            bitrate: 64,
        }
    );
    assert_eq!(
        parse_format_tokens(probe, &vec![token("bit_rate", Some("-1"))]),
        Err("bit_rate".to_string())
    );
}

#[test]
fn keys_that_are_passed_over() {
    let keys = |line: &str| ignored_keys(line);
    assert_eq!(
        keys("stream|index=0|bitrate=5|codec_name=x|disposition:default=1|bitrate=6|novalue|tag:title=t"),
        vec!["bitrate", "disposition:default", "bitrate"]
    );
    assert_eq!(keys("format|duration=1|size=2|bit_rate=3|index=4|=5"), vec!["size", "index", ""]);
    assert_eq!(keys("stream|tag:language=eng|coded_height=1|codec_type=data"), Vec::<String>::new());
    assert_eq!(keys("program|anything=1|index=2"), Vec::<String>::new());
    assert_eq!(keys(""), Vec::<String>::new());
    assert_eq!(keys("format"), Vec::<String>::new());
}

#[test]
fn known_keys_by_tag() {
    for key in ["duration", "bit_rate", "tag:title"] {
        assert!(known_key("format", key));
    }
    for key in ["codec_type", "index", "codec_name", "coded_height", "tag:language", "tag:title"] {
        assert!(known_key("stream", key));
    }
    assert!(!known_key("format", "index"));
    assert!(!known_key("stream", "duration"));
    assert!(!known_key("stream", "Index"));
    assert!(known_key("program", "whatever"));
}
