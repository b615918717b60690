use cytube_generator::ffmpeg_languages::{LangCode, LanguageTable};
use cytube_generator::transcode::{
    build_language_string, find_audio_container, find_video_container, is_bitmap_subtitle, joined,
    strcat, AudioContainer, VideoContainer,
};

#[test]
fn webm_takes_av1_vp8_vp9() {
    for codec in ["av1", "vp8", "vp9"] {
        assert_eq!(find_video_container(codec), Some(VideoContainer::WEBM));
    }
}

#[test]
fn mp4_takes_h264_hevc_mpeg4_mpeg2video() {
    for codec in ["h264", "hevc", "mpeg4", "mpeg2video"] {
        assert_eq!(find_video_container(codec), Some(VideoContainer::MP4));
    }
}

#[test]
fn ogg_takes_theora() {
    assert_eq!(find_video_container("theora"), Some(VideoContainer::OGG));
}

#[test]
fn no_container_takes_another_video_codec() {
    for codec in ["", "wmv3", "H264", "h264 ", "vp10", "prores", "av", "theoraa"] {
        assert_eq!(find_video_container(codec), None);
    }
}

#[test]
fn accepted_audio_codecs_by_container() {
    assert_eq!(
        VideoContainer::MP4.get_acceptable_audio_codecs(),
        &["aac", "alac", "flac", "opus", "mp3"]
    );
    assert_eq!(VideoContainer::WEBM.get_acceptable_audio_codecs(), &["opus", "vorbis"]);
    assert_eq!(VideoContainer::OGG.get_acceptable_audio_codecs(), &["opus", "vorbis", "flac"]);
}

#[test]
fn accepts_follows_the_accepted_list() {
    assert!(VideoContainer::MP4.accepts("flac"));
    assert!(VideoContainer::MP4.accepts("mp3"));
    assert!(!VideoContainer::MP4.accepts("vorbis"));
    assert!(VideoContainer::WEBM.accepts("vorbis"));
    assert!(!VideoContainer::WEBM.accepts("flac"));
    assert!(!VideoContainer::WEBM.accepts("aac"));
    assert!(VideoContainer::OGG.accepts("flac"));
    assert!(!VideoContainer::OGG.accepts("mp3"));
    assert!(!VideoContainer::OGG.accepts(""));
}

#[test]
fn preferred_audio_encoders() {
    assert_eq!(VideoContainer::MP4.preferred_audio_encoder(), "aac");
    assert_eq!(VideoContainer::WEBM.preferred_audio_encoder(), "libopus");
    assert_eq!(VideoContainer::OGG.preferred_audio_encoder(), "libopus");
}

#[test]
fn video_extensions_and_mime_types() {
    assert_eq!(VideoContainer::MP4.extension(), "mp4");
    assert_eq!(VideoContainer::WEBM.extension(), "webm");
    assert_eq!(VideoContainer::OGG.extension(), "ogv");
    assert_eq!(VideoContainer::MP4.mimetype(), "video/mp4");
    assert_eq!(VideoContainer::WEBM.mimetype(), "video/webm");
    assert_eq!(VideoContainer::OGG.mimetype(), "video/ogg");
}

#[test]
fn audio_containers_by_codec() {
    for codec in ["aac", "alac", "aac_latm"] {
        assert_eq!(find_audio_container(codec), Some(AudioContainer::M4A));
    }
    for codec in ["opus", "vorbis", "flac"] {
        assert_eq!(find_audio_container(codec), Some(AudioContainer::OGG));
    }
    assert_eq!(find_audio_container("mp3"), Some(AudioContainer::PseudoM4A));
    for codec in ["", "ac3", "dts", "pcm_s16le", "MP3"] {
        assert_eq!(find_audio_container(codec), None);
    }
}

#[test]
fn audio_extensions_and_mime_types() {
    assert_eq!(AudioContainer::OGG.extension(), "ogg");
    assert_eq!(AudioContainer::M4A.extension(), "m4a");
    assert_eq!(AudioContainer::PseudoM4A.extension(), "m4a");
    assert_eq!(AudioContainer::OGG.mimetype(), "audio/ogg");
    assert_eq!(AudioContainer::M4A.mimetype(), "audio/mp4");
    assert_eq!(AudioContainer::PseudoM4A.mimetype(), "audio/mp4");
}

#[test]
fn the_four_bitmap_subtitle_codecs() {
    for codec in ["dvb_subtitle", "dvd_subtitle", "hdmv_pgs_subtitle", "xsub"] {
        assert!(is_bitmap_subtitle(codec));
    }
    for codec in ["subrip", "ass", "webvtt", "mov_text", "", "dvb_subtitles"] {
        assert!(!is_bitmap_subtitle(codec));
    }
}

#[test]
fn strcat_joins_in_order() {
    assert_eq!(strcat("a", &[]), "a");
    assert_eq!(strcat("", &[]), "");
    assert_eq!(strcat("https://x/", &["main.mp4"]), "https://x/main.mp4");
    assert_eq!(strcat("a", &["b", "", "cd", "e"]), "abcde");
}

#[test]
fn joined_adds_no_separator() {
    assert_eq!(joined("https://x", "main.mp4"), "https://xmain.mp4");
    assert_eq!(joined("https://x//", "/main.mp4"), "https://x///main.mp4");
    assert_eq!(joined("", ""), "");
}

fn names() -> LanguageTable {
    let mut table = LanguageTable::new();
    table.insert("eng", "English");
    table.insert("fre", "French");
    table
}

#[test]
fn unknown_language_code_is_its_own_label() {
    let table = names();
    assert_eq!(build_language_string(&table, "zzz", None), "zzz");
    assert_eq!(build_language_string(&table, "zzz", Some("Commentary")), "zzz (Commentary)");
    assert_eq!(build_language_string(&table, "", None), "");
}

#[test]
fn known_language_code_with_title() {
    let table = names();
    assert_eq!(
        build_language_string(&table, "eng", Some("Director's cut")),
        "English (Director's cut)"
    );
    assert_eq!(build_language_string(&table, "fre", Some("")), "French ()");
}

#[test]
fn known_language_code_without_title() {
    let table = names();
    assert_eq!(build_language_string(&table, "eng", None), "English");
    assert_eq!(build_language_string(&table, "fre", None), "French");
}

#[test]
fn language_table_lookup() {
    let mut table = LanguageTable::new();
    assert_eq!(table.get("eng"), None);
    assert_eq!(table.resolve("eng"), "eng");
    table.insert("eng", "English");
    table.insert("ger", "German");
    assert_eq!(table.get("eng"), Some("English"));
    assert_eq!(table.get("ger"), Some("German"));
    assert_eq!(table.get("en"), None);
    assert_eq!(table.resolve("ger"), "German");
    assert_eq!(table.resolve("unknown"), "unknown");
}

#[test]
fn language_table_insert_replaces() {
    let mut table = LanguageTable::new();
    table.insert("eng", "Anglais");
    table.insert("fre", "French");
    table.insert("eng", "English");
    assert_eq!(table.get("eng"), Some("English"));
    assert_eq!(table.get("fre"), Some("French"));
}

#[test]
fn lang_code_keeps_short_text() {
    for text in ["", "e", "en", "eng", "日", "éa", "aé"] {
        let code = LangCode::new(text);
        assert_eq!(code.as_str(), Some(text));
        assert_eq!(code.as_bytes(), text.as_bytes());
    }
}

#[test]
fn lang_code_cuts_after_three_bytes() {
    assert_eq!(LangCode::new("english").as_str(), Some("eng"));
    assert_eq!(LangCode::new("engl").as_str(), Some("eng"));
    assert_eq!(LangCode::new("日本").as_str(), Some("日"));
    assert_eq!(LangCode::new("aéb").as_str(), Some("aé"));
    assert_eq!(LangCode::new("english").as_bytes(), b"eng");
}

#[test]
fn lang_code_keeps_bytes_that_are_no_text() {
    for text in ["aaé", "a日本", "𝄞"] {
        let code = LangCode::new(text);
        assert_eq!(code.as_str(), None);
        assert_eq!(code.as_bytes(), &text.as_bytes()[..3]);
    }
}

#[test]
fn lang_code_equality_is_that_of_the_bytes() {
    let a = LangCode::new("eng");
    let b = LangCode::new("english");
    let c = LangCode::new("fre");
    assert!(a.same(&b));
    assert!(!a.same(&c));
    assert!(!a.same(&LangCode::new("en")));
    assert!(!LangCode::new("").same(&a));
    assert_eq!(a, b);
    assert_eq!(a.clone(), a);
    assert_ne!(a, c);
    // "aaé" and "aaè" share their first three bytes
    assert!(LangCode::new("aaé").same(&LangCode::new("aaè")));
    assert!(!LangCode::new("aaé").same(&LangCode::new("aa")));
}
