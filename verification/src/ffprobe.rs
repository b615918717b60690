//! The streams of a media file, read from the text that the inspection tool
//! printed in its compact form: one record per line, `format|key=value|...`
//! or `stream|key=value|...`.

use crate::ffmpeg_languages::{str4_kept, LangCode};
use crate::text::{
    ascii_lowercase, char_views, chars_of, lemma_split_is_not_empty, lowercase_string, parse_u16,
    parse_u16_chars, parse_u64, parse_u64_chars, split, split_chars, split_once,
    split_once_chars, string_of,
};
use vstd::prelude::*;
use vstd::utf8::encode_utf8;

verus! {

/// What a stream carries.
#[derive(Clone, Copy, Debug, PartialEq, Eq, Structural)]
pub enum TrackType {
    Video,
    Audio,
    Subtitle,
}

/// One stream of the media file.
#[derive(Clone, Debug, PartialEq, Eq)]
pub struct Track {
    pub index: u16,
    pub kind: TrackType,
    pub codec: String,
    pub scanline_count: Option<u16>,
    pub language: Option<LangCode>,
    pub title: Option<String>,
}

/// A `Track` as plain values.
pub struct TrackView {
    pub index: u16,
    pub kind: TrackType,
    pub codec: Seq<char>,
    pub scanline_count: Option<u16>,
    pub language: Option<Seq<u8>>,
    pub title: Option<Seq<char>>,
}

impl DeepView for Track {
    type V = TrackView;

    open spec fn deep_view(&self) -> TrackView {
        TrackView {
            index: self.index,
            kind: self.kind,
            codec: self.codec@,
            scanline_count: self.scanline_count,
            language: self.language.deep_view(),
            title: self.title.deep_view(),
        }
    }
}

impl View for Track {
    type V = TrackView;

    open spec fn view(&self) -> TrackView {
        self.deep_view()
    }
}

/// What the inspection tool reported of one media file.  `duration` is the
/// number of seconds as the tool printed it; `bitrate` is the overall rate.
#[derive(Clone, Debug, PartialEq, Eq)]
pub struct FFprobeResult {
    pub tracks: Vec<Track>,
    pub title: Option<String>,
    pub duration: Option<String>,
    pub bitrate: u64,
}

/// An `FFprobeResult` as plain values.
pub struct FFprobeResultView {
    pub tracks: Seq<TrackView>,
    pub title: Option<Seq<char>>,
    pub duration: Option<Seq<char>>,
    pub bitrate: u64,
}

impl DeepView for FFprobeResult {
    type V = FFprobeResultView;

    open spec fn deep_view(&self) -> FFprobeResultView {
        FFprobeResultView {
            tracks: self.tracks.deep_view(),
            title: self.title.deep_view(),
            duration: self.duration.deep_view(),
            bitrate: self.bitrate,
        }
    }
}

impl View for FFprobeResult {
    type V = FFprobeResultView;

    open spec fn view(&self) -> FFprobeResultView {
        self.deep_view()
    }
}

/// Why the tool's report gives no result.
#[derive(Clone, Debug, PartialEq, Eq)]
pub enum ProbeError {
    /// The tool ended with an error of its own.
    ProbeFailed,
    /// The record `line` cannot be read: a field that every stream needs is
    /// missing, or the token `field` is malformed.
    ParseError { field: String, line: String },
}

/// A `ProbeError` as plain values.
pub enum ProbeErrorView {
    ProbeFailed,
    ParseError { field: Seq<char>, line: Seq<char> },
}

impl DeepView for ProbeError {
    type V = ProbeErrorView;

    open spec fn deep_view(&self) -> ProbeErrorView {
        match self {
            ProbeError::ProbeFailed => ProbeErrorView::ProbeFailed,
            ProbeError::ParseError { field, line } => ProbeErrorView::ParseError {
                field: field@,
                line: line@,
            },
        }
    }
}

impl View for ProbeError {
    type V = ProbeErrorView;

    open spec fn view(&self) -> ProbeErrorView {
        self.deep_view()
    }
}

/// One `key=value` token of a record.  `value` is `None` for a token
/// without `=`, whose whole text is then the key.
#[derive(Clone, Debug, PartialEq, Eq)]
pub struct Token {
    pub key: String,
    pub value: Option<String>,
}

/// A `Token` as plain values.
pub struct TokenView {
    pub key: Seq<char>,
    pub value: Option<Seq<char>>,
}

impl DeepView for Token {
    type V = TokenView;

    open spec fn deep_view(&self) -> TokenView {
        TokenView { key: self.key@, value: self.value.deep_view() }
    }
}

impl View for Token {
    type V = TokenView;

    open spec fn view(&self) -> TokenView {
        self.deep_view()
    }
}

/// The token that a piece of a record is: cut at its first `=`.
pub open spec fn token_of(piece: Seq<char>) -> TokenView {
    match split_once(piece, '=') {
        Some((key, value)) => TokenView { key: key, value: Some(value) },
        None => TokenView { key: piece, value: None },
    }
}

/// The tag of a record: the text before its first `|`.
pub open spec fn line_kind(line: Seq<char>) -> Seq<char> {
    split(line, '|')[0]
}

/// The tokens of a record: the pieces that `|` cuts it into, but the first.
pub open spec fn line_tokens(line: Seq<char>) -> Seq<TokenView> {
    let pieces = split(line, '|');
    Seq::new((pieces.len() - 1) as nat, |i: int| token_of(pieces[i + 1]))
}

/// The tag and the tokens of one record: `line_kind` and `line_tokens`.
pub fn parse_ffmpeg_line(line: &str) -> (r: (String, Vec<Token>))
    ensures
        r.0@ == line_kind(line@),
        r.1.deep_view() == line_tokens(line@),
{
    let chars = chars_of(line);
    let pieces = split_chars(chars.as_slice(), '|');
    proof {
        lemma_split_is_not_empty(line@, '|');
    }
    let ghost texts = split(line@, '|');
    let kind = string_of(pieces[0].as_slice());
    let mut tokens: Vec<Token> = Vec::new();
    let mut i: usize = 1;
    while i < pieces.len()
        invariant
            1 <= i <= pieces@.len(),
            texts == split(line@, '|'),
            char_views(pieces@) == texts,
            tokens@.len() == i - 1,
            forall|j: int| 0 <= j < i - 1 ==> (#[trigger] tokens@[j])@ == token_of(texts[j + 1]),
        decreases pieces@.len() - i,
    {
        let token = match split_once_chars(pieces[i].as_slice(), '=') {
            Some((key, value)) => Token {
                key: string_of(key.as_slice()),
                value: Some(string_of(value.as_slice())),
            },
            None => Token { key: string_of(pieces[i].as_slice()), value: None },
        };
        tokens.push(token);
        i += 1;
    }
    (kind, tokens)
}

/// The kind that a `codec_type` names: `video`, `audio` or `subtitle`, in
/// capitals or small letters.  `None` for every other text.
pub open spec fn track_type_of(value: Seq<char>) -> Option<TrackType> {
    let name = ascii_lowercase(value);
    if name == "video"@ {
        Some(TrackType::Video)
    } else if name == "audio"@ {
        Some(TrackType::Audio)
    } else if name == "subtitle"@ {
        Some(TrackType::Subtitle)
    } else {
        None
    }
}

/// The kind that a `codec_type` names: `track_type_of`.
pub fn parse_track_type(value: &str) -> (r: Option<TrackType>)
    ensures
        r == track_type_of(value@),
{
    let chars = chars_of(value);
    let name = lowercase_string(chars.as_slice());
    if name.as_str().eq("video") {
        Some(TrackType::Video)
    } else if name.as_str().eq("audio") {
        Some(TrackType::Audio)
    } else if name.as_str().eq("subtitle") {
        Some(TrackType::Subtitle)
    } else {
        None
    }
}

/// What reading a token, or a record, comes to.
pub enum Step<T> {
    /// Read; the value so far.
    Next(T),
    /// The record is of no interest and leaves no trace.
    Skip,
    /// The record cannot be read, because of the named field.
    Fail(Seq<char>),
}

/// What is known of a stream while its record is read.
pub struct StreamFields {
    pub index: Option<u16>,
    pub kind: Option<TrackType>,
    pub codec: Option<Seq<char>>,
    pub scanline_count: Option<u16>,
    pub language: Option<Seq<u8>>,
    pub title: Option<Seq<char>>,
}

/// Nothing known yet.
pub open spec fn no_stream_fields() -> StreamFields {
    StreamFields {
        index: None,
        kind: None,
        codec: None,
        scanline_count: None,
        language: None,
        title: None,
    }
}

/// What one token adds to the fields of a stream.  A `codec_type` that
/// names no kind of interest ends the record as skipped.  A token without
/// `=`, and an `index` or a `coded_height` that is no number of 16 bits,
/// fail the record.  Of a `tag:language` the first three bytes are kept,
/// whatever they are.  A key that is not known changes nothing.
pub open spec fn stream_token(fields: StreamFields, token: TokenView) -> Step<StreamFields> {
    match token.value {
        None => Step::Fail(token.key),
        Some(value) => {
            if token.key == "codec_type"@ {
                match track_type_of(value) {
                    Some(kind) => Step::Next(StreamFields { kind: Some(kind), ..fields }),
                    None => Step::Skip,
                }
            } else if token.key == "index"@ {
                match parse_u16(value) {
                    Some(index) => Step::Next(StreamFields { index: Some(index), ..fields }),
                    None => Step::Fail(token.key),
                }
            } else if token.key == "codec_name"@ {
                Step::Next(StreamFields { codec: Some(value), ..fields })
            } else if token.key == "coded_height"@ {
                match parse_u16(value) {
                    Some(height) => Step::Next(
                        StreamFields { scanline_count: Some(height), ..fields },
                    ),
                    None => Step::Fail(token.key),
                }
            } else if token.key == "tag:language"@ {
                Step::Next(
                    StreamFields { language: Some(str4_kept(encode_utf8(value))), ..fields },
                )
            } else if token.key == "tag:title"@ {
                Step::Next(StreamFields { title: Some(value), ..fields })
            } else {
                Step::Next(fields)
            }
        },
    }
}

/// A `tag:language` never fails a record, whatever its value: the first
/// three bytes of the value become the language code.
pub proof fn lemma_language_is_always_read(fields: StreamFields, value: Seq<char>)
    ensures
        stream_token(fields, TokenView { key: "tag:language"@, value: Some(value) })
            == Step::Next(
            StreamFields { language: Some(str4_kept(encode_utf8(value))), ..fields },
        ),
{
    reveal_strlit("tag:language");
    reveal_strlit("codec_type");
    reveal_strlit("index");
    reveal_strlit("codec_name");
    reveal_strlit("coded_height");
    assert("coded_height"@[0] == 'c' && "tag:language"@[0] == 't');
}

/// The fields of a stream after its tokens were read from left to right,
/// starting from `fields`.  The first token that skips or fails the record
/// decides, and the tokens after it are not looked at.
pub open spec fn stream_tokens(fields: StreamFields, tokens: Seq<TokenView>) -> Step<StreamFields>
    decreases tokens.len(),
{
    if tokens.len() == 0 {
        Step::Next(fields)
    } else {
        match stream_token(fields, tokens[0]) {
            Step::Next(next) => stream_tokens(next, tokens.drop_first()),
            Step::Skip => Step::Skip,
            Step::Fail(field) => Step::Fail(field),
        }
    }
}

/// The track that the tokens of a `stream` record describe.  A record that
/// gives no `index`, no `codec_type` or no `codec_name` fails, and names the
/// first of these that is missing.
pub open spec fn stream_track(tokens: Seq<TokenView>) -> Step<TrackView> {
    match stream_tokens(no_stream_fields(), tokens) {
        Step::Next(fields) => {
            if fields.index is None {
                Step::Fail("index"@)
            } else if fields.kind is None {
                Step::Fail("codec_type"@)
            } else if fields.codec is None {
                Step::Fail("codec_name"@)
            } else {
                Step::Next(
                    TrackView {
                        index: fields.index.unwrap(),
                        kind: fields.kind.unwrap(),
                        codec: fields.codec.unwrap(),
                        scanline_count: fields.scanline_count,
                        language: fields.language,
                        title: fields.title,
                    },
                )
            }
        },
        Step::Skip => Step::Skip,
        Step::Fail(field) => Step::Fail(field),
    }
}

/// What one token of a `format` record changes in the result.  A token
/// without `=` and a `bit_rate` that is no number of 64 bits fail the record.
/// A key that is not known changes nothing.
pub open spec fn format_token(probe: FFprobeResultView, token: TokenView) -> Step<
    FFprobeResultView,
> {
    match token.value {
        None => Step::Fail(token.key),
        Some(value) => {
            if token.key == "duration"@ {
                Step::Next(FFprobeResultView { duration: Some(value), ..probe })
            } else if token.key == "bit_rate"@ {
                match parse_u64(value) {
                    Some(bitrate) => Step::Next(FFprobeResultView { bitrate: bitrate, ..probe }),
                    None => Step::Fail(token.key),
                }
            } else if token.key == "tag:title"@ {
                Step::Next(FFprobeResultView { title: Some(value), ..probe })
            } else {
                Step::Next(probe)
            }
        },
    }
}

/// The result after the tokens of a `format` record were read from left to
/// right, starting from `probe`.
pub open spec fn format_tokens(probe: FFprobeResultView, tokens: Seq<TokenView>) -> Step<
    FFprobeResultView,
>
    decreases tokens.len(),
{
    if tokens.len() == 0 {
        Step::Next(probe)
    } else {
        match format_token(probe, tokens[0]) {
            Step::Next(next) => format_tokens(next, tokens.drop_first()),
            Step::Skip => Step::Skip,
            Step::Fail(field) => Step::Fail(field),
        }
    }
}

/// The result after one more record.  A `format` record sets facts of the
/// file, a `stream` record adds a track, and a record with another tag
/// changes nothing.
pub open spec fn probe_line(probe: FFprobeResultView, line: Seq<char>) -> Result<
    FFprobeResultView,
    ProbeErrorView,
> {
    let kind = line_kind(line);
    let tokens = line_tokens(line);
    if kind == "format"@ {
        match format_tokens(probe, tokens) {
            Step::Next(next) => Ok(next),
            Step::Skip => Ok(probe),
            Step::Fail(field) => Err(ProbeErrorView::ParseError { field: field, line: line }),
        }
    } else if kind == "stream"@ {
        match stream_track(tokens) {
            Step::Next(track) => Ok(
                FFprobeResultView { tracks: probe.tracks.push(track), ..probe },
            ),
            Step::Skip => Ok(probe),
            Step::Fail(field) => Err(ProbeErrorView::ParseError { field: field, line: line }),
        }
    } else {
        Ok(probe)
    }
}

/// The result after the records `lines`, read in order from `probe` on.  The
/// first record that cannot be read ends the reading with its error.
pub open spec fn probe_lines(probe: FFprobeResultView, lines: Seq<Seq<char>>) -> Result<
    FFprobeResultView,
    ProbeErrorView,
>
    decreases lines.len(),
{
    if lines.len() == 0 {
        Ok(probe)
    } else {
        match probe_line(probe, lines[0]) {
            Ok(next) => probe_lines(next, lines.drop_first()),
            Err(e) => Err(e),
        }
    }
}

/// The result before any record: no track, no title, no duration, rate 0.
pub open spec fn empty_probe() -> FFprobeResultView {
    FFprobeResultView { tracks: Seq::empty(), title: None, duration: None, bitrate: 0 }
}

/// What the tool's report says: its lines are the records, read in order.
pub open spec fn parse_probe(output: Seq<char>) -> Result<FFprobeResultView, ProbeErrorView> {
    probe_lines(empty_probe(), split(output, '\n'))
}

/// What a run of the tool comes to: `ProbeFailed` where the tool ended with
/// an error, else what its report says.
pub open spec fn probe_outcome(exit_success: bool, output: Seq<char>) -> Result<
    FFprobeResultView,
    ProbeErrorView,
> {
    if exit_success {
        parse_probe(output)
    } else {
        Err(ProbeErrorView::ProbeFailed)
    }
}

/// The track that the tokens of a `stream` record describe: `stream_track`.
/// `Ok(None)` for a record that is skipped; the error is the field that
/// fails the record.
pub fn parse_stream_tokens(tokens: &Vec<Token>) -> (r: Result<Option<Track>, String>)
    ensures
        match r {
            Ok(Some(track)) => stream_track(tokens.deep_view()) == Step::Next(track@),
            Ok(None) => stream_track(tokens.deep_view()) == Step::<TrackView>::Skip,
            Err(field) => stream_track(tokens.deep_view()) == Step::<TrackView>::Fail(field@),
        },
{
    let mut index: Option<u16> = None;
    let mut kind: Option<TrackType> = None;
    let mut codec: Option<String> = None;
    let mut scanline_count: Option<u16> = None;
    let mut language: Option<LangCode> = None;
    let mut title: Option<String> = None;
    let ghost all = tokens.deep_view();
    let ghost mut fields = no_stream_fields();
    let mut i: usize = 0;
    assert(all.skip(0) =~= all);
    while i < tokens.len()
        invariant
            i <= tokens@.len(),
            all == tokens.deep_view(),
            fields == (StreamFields {
                index: index,
                kind: kind,
                codec: codec.deep_view(),
                scanline_count: scanline_count,
                language: language.deep_view(),
                title: title.deep_view(),
            }),
            stream_tokens(no_stream_fields(), all) == stream_tokens(fields, all.skip(i as int)),
        decreases tokens@.len() - i,
    {
        let token = &tokens[i];
        proof {
            assert(all.skip(i as int).drop_first() =~= all.skip(i + 1));
        }
        let value = match &token.value {
            Some(value) => value,
            None => {
                return Err(token.key.clone());
            },
        };
        let key = token.key.as_str();
        if key.eq("codec_type") {
            match parse_track_type(value.as_str()) {
                Some(found) => {
                    kind = Some(found);
                },
                None => {
                    return Ok(None);
                },
            }
        } else if key.eq("index") {
            let chars = chars_of(value.as_str());
            match parse_u16_chars(chars.as_slice()) {
                Some(found) => {
                    index = Some(found);
                },
                None => {
                    return Err(token.key.clone());
                },
            }
        } else if key.eq("codec_name") {
            codec = Some(value.clone());
        } else if key.eq("coded_height") {
            let chars = chars_of(value.as_str());
            match parse_u16_chars(chars.as_slice()) {
                Some(found) => {
                    scanline_count = Some(found);
                },
                None => {
                    return Err(token.key.clone());
                },
            }
        } else if key.eq("tag:language") {
            language = Some(LangCode::new(value.as_str()));
        } else if key.eq("tag:title") {
            title = Some(value.clone());
        }
        proof {
            fields = StreamFields {
                index: index,
                kind: kind,
                codec: codec.deep_view(),
                scanline_count: scanline_count,
                language: language.deep_view(),
                title: title.deep_view(),
            };
        }
        i += 1;
    }
    let index = match index {
        Some(index) => index,
        None => {
            return Err("index".to_owned());
        },
    };
    let kind = match kind {
        Some(kind) => kind,
        None => {
            return Err("codec_type".to_owned());
        },
    };
    let codec = match codec {
        Some(codec) => codec,
        None => {
            return Err("codec_name".to_owned());
        },
    };
    Ok(Some(Track { index, kind, codec, scanline_count, language, title }))
}

/// The result after the tokens of a `format` record were read into `probe`:
/// `format_tokens`.  The error is the field that fails the record.
pub fn parse_format_tokens(probe: FFprobeResult, tokens: &Vec<Token>) -> (r: Result<
    FFprobeResult,
    String,
>)
    ensures
        match r {
            Ok(next) => format_tokens(probe@, tokens.deep_view()) == Step::Next(next@),
            Err(field) => format_tokens(probe@, tokens.deep_view()) == Step::<
                FFprobeResultView,
            >::Fail(field@),
        },
{
    let ghost all = tokens.deep_view();
    let ghost start = probe@;
    let mut current = probe;
    let mut i: usize = 0;
    assert(all.skip(0) =~= all);
    while i < tokens.len()
        invariant
            i <= tokens@.len(),
            all == tokens.deep_view(),
            start == probe@,
            format_tokens(start, all) == format_tokens(current@, all.skip(i as int)),
        decreases tokens@.len() - i,
    {
        let token = &tokens[i];
        proof {
            assert(all.skip(i as int).drop_first() =~= all.skip(i + 1));
        }
        let value = match &token.value {
            Some(value) => value,
            None => {
                return Err(token.key.clone());
            },
        };
        let key = token.key.as_str();
        if key.eq("duration") {
            current.duration = Some(value.clone());
        } else if key.eq("bit_rate") {
            let chars = chars_of(value.as_str());
            match parse_u64_chars(chars.as_slice()) {
                Some(found) => {
                    current.bitrate = found;
                },
                None => {
                    return Err(token.key.clone());
                },
            }
        } else if key.eq("tag:title") {
            current.title = Some(value.clone());
        }
        i += 1;
    }
    Ok(current)
}

/// What a run of the inspection tool comes to.  `exit_success` says whether
/// the tool ended without an error of its own, and `output` is what it
/// printed.  The result is `probe_outcome`: `ProbeFailed` where the tool
/// failed, whatever it printed; else the tracks and facts of the records, or
/// the `ParseError` of the first record that cannot be read.
pub fn ffprobe(exit_success: bool, output: &str) -> (r: Result<FFprobeResult, ProbeError>)
    ensures
        match r {
            Ok(probe) => probe_outcome(exit_success, output@) == Ok::<_, ProbeErrorView>(probe@),
            Err(e) => probe_outcome(exit_success, output@) == Err::<FFprobeResultView, _>(e@),
        },
{
    if !exit_success {
        return Err(ProbeError::ProbeFailed);
    }
    let chars = chars_of(output);
    let lines = split_chars(chars.as_slice(), '\n');
    let ghost texts = split(output@, '\n');
    let mut probe = FFprobeResult { tracks: Vec::new(), title: None, duration: None, bitrate: 0 };
    assert(probe@.tracks =~= Seq::<TrackView>::empty());
    let mut i: usize = 0;
    assert(texts.skip(0) =~= texts);
    while i < lines.len()
        invariant
            i <= lines@.len(),
            exit_success,
            texts == split(output@, '\n'),
            char_views(lines@) == texts,
            probe_lines(empty_probe(), texts) == probe_lines(probe@, texts.skip(i as int)),
        decreases lines@.len() - i,
    {
        proof {
            assert(texts.skip(i as int).drop_first() =~= texts.skip(i + 1));
        }
        let line = string_of(lines[i].as_slice());
        let (kind, tokens) = parse_ffmpeg_line(line.as_str());
        if kind.as_str().eq("format") {
            match parse_format_tokens(probe, &tokens) {
                Ok(next) => {
                    probe = next;
                },
                Err(field) => {
                    return Err(ProbeError::ParseError { field, line });
                },
            }
        } else if kind.as_str().eq("stream") {
            match parse_stream_tokens(&tokens) {
                Ok(Some(track)) => {
                    let ghost tracks_before = probe.tracks.deep_view();
                    probe.tracks.push(track);
                    assert(probe.tracks.deep_view() =~= tracks_before.push(track@));
                },
                Ok(None) => {},
                Err(field) => {
                    return Err(ProbeError::ParseError { field, line });
                },
            }
        }
        i += 1;
    }
    Ok(probe)
}

/// True for the keys that a record with the tag `kind` is read for.  A
/// record with another tag than `format` and `stream` is not read, so none
/// of its keys is passed over.
pub open spec fn is_known_key(kind: Seq<char>, key: Seq<char>) -> bool {
    if kind == "format"@ {
        key == "duration"@ || key == "bit_rate"@ || key == "tag:title"@
    } else if kind == "stream"@ {
        key == "codec_type"@ || key == "index"@ || key == "codec_name"@ || key
            == "coded_height"@ || key == "tag:language"@ || key == "tag:title"@
    } else {
        true
    }
}

/// True for the keys that a record with the tag `kind` is read for:
/// `is_known_key`.
pub fn known_key(kind: &str, key: &str) -> (r: bool)
    ensures
        r == is_known_key(kind@, key@),
{
    if kind.eq("format") {
        key.eq("duration") || key.eq("bit_rate") || key.eq("tag:title")
    } else if kind.eq("stream") {
        key.eq("codec_type") || key.eq("index") || key.eq("codec_name") || key.eq("coded_height")
            || key.eq("tag:language") || key.eq("tag:title")
    } else {
        true
    }
}

/// The key of a token that the reading of a record passes over: the token
/// has a value, and its key is not known for the record's tag.
pub open spec fn ignored_key_of(kind: Seq<char>) -> spec_fn(TokenView) -> Option<Seq<char>> {
    |token: TokenView|
        if token.value is Some && !is_known_key(kind, token.key) {
            Some(token.key)
        } else {
            None
        }
}

/// The keys of a record that its reading passes over, in order.
pub open spec fn ignored_keys_of(line: Seq<char>) -> Seq<Seq<char>> {
    line_tokens(line).filter_map(ignored_key_of(line_kind(line)))
}

/// A token with a key that is passed over changes nothing, in a `stream`
/// record and in a `format` record.
pub proof fn lemma_ignored_key_changes_nothing(
    fields: StreamFields,
    probe: FFprobeResultView,
    token: TokenView,
)
    ensures
        ignored_key_of("stream"@)(token) is Some ==> stream_token(fields, token) == Step::Next(
            fields,
        ),
        ignored_key_of("format"@)(token) is Some ==> format_token(probe, token) == Step::Next(
            probe,
        ),
{
    reveal_strlit("stream");
    reveal_strlit("format");
    assert("stream"@[0] == 's' && "format"@[0] == 'f');
}

/// The keys of the record `line` that its reading passes over, for a caller
/// that wants to report them: `ignored_keys_of`.
pub fn ignored_keys(line: &str) -> (r: Vec<String>)
    ensures
        r.deep_view() == ignored_keys_of(line@),
{
    let (kind, tokens) = parse_ffmpeg_line(line);
    let ghost all = tokens.deep_view();
    let ghost ignored = ignored_key_of(kind@);
    let mut keys: Vec<String> = Vec::new();
    let mut i: usize = 0;
    while i < tokens.len()
        invariant
            i <= tokens@.len(),
            all == tokens.deep_view(),
            ignored == ignored_key_of(kind@),
            keys.deep_view() == all.take(i as int).filter_map(ignored),
        decreases tokens@.len() - i,
    {
        let token = &tokens[i];
        proof {
            all.lemma_filter_map_take_succ(ignored, i as int);
        }
        if token.value.is_some() && !known_key(kind.as_str(), token.key.as_str()) {
            keys.push(token.key.clone());
        }
        i += 1;
    }
    assert(all.take(tokens@.len() as int) =~= all);
    keys
}

} // verus!
