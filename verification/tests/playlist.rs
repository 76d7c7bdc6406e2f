use hlsrs::classify::{classify_playlist, is_media_manifest, PlaylistKind};
use hlsrs::media::{segment_step, Pending, Persistent};
use hlsrs::parser::{
    is_multivariant_manifest, media_from_tags, multivariant_from_tags, parse, parse_tag,
    parse_with, ByteRange, Decimal, Diagnostic, ExtTag, InitMap, Key, KeyMethod, MediaPlaylist,
    MediaPlaylistType, MediaSegment, ParseError, ParseOptions, Parsed, PartialSegment, Playlist,
    Reason, Rendition, RenditionType, StreamInf, Tag, Variable, VariantStream,
};
use hlsrs::vars::Binding;

const SIMPLE: &str = "#EXTM3U
#EXT-X-TARGETDURATION:10
#EXT-X-VERSION:3
#EXTINF:9.009,
http://media.example.com/first.ts
#EXTINF:9.009,
http://media.example.com/second.ts
#EXTINF:3.003,
http://media.example.com/third.ts
#EXT-X-ENDLIST
";

fn seconds(d: &Decimal) -> f64 {
    let value = d.mantissa as f64 / 10f64.powi(d.scale as i32);
    if d.negative {
        -value
    } else {
        value
    }
}

fn decimal(mantissa: u64, scale: u32) -> Decimal {
    Decimal { negative: false, mantissa, scale }
}

fn segment(uri: &str, duration: Decimal) -> MediaSegment {
    MediaSegment {
        uri: uri.to_string(),
        title: None,
        mime_type: None,
        duration,
        byte_range: None,
        discontinuity: false,
        key: None,
        map: None,
        program_date_time: None,
        gap: false,
        bitrate: None,
        parts: vec![],
        extra_tags: vec![],
    }
}

fn stream(bandwidth: u64) -> StreamInf {
    StreamInf {
        bandwidth,
        average_bandwidth: None,
        codecs: None,
        resolution: None,
        frame_rate: None,
        audio: None,
        video: None,
        subtitles: None,
        closed_captions: None,
    }
}

fn key(uri: &str) -> Key {
    Key {
        method: KeyMethod::Aes128,
        uri: Some(uri.to_string()),
        iv: None,
        key_format: None,
        key_format_versions: None,
    }
}

fn media(input: &str) -> MediaPlaylist {
    match parse(input.as_bytes()) {
        Ok(Playlist::Media(pl)) => pl,
        other => panic!("not a media playlist: {:?}", other),
    }
}

fn lenient(input: &str) -> Parsed {
    parse_with(input.as_bytes(), &ParseOptions::lenient()).unwrap()
}

#[test]
fn test_parse_tags() {
    let expected = vec![
        Tag::EXTM3U,
        Tag::TargetDuration(10),
        Tag::Version(3),
        Tag::INF(decimal(9009, 3), None),
        Tag::Uri("http://media.example.com/first.ts".to_string()),
        Tag::INF(decimal(9009, 3), None),
        Tag::Uri("http://media.example.com/second.ts".to_string()),
        Tag::INF(decimal(3003, 3), None),
        Tag::Uri("http://media.example.com/third.ts".to_string()),
        Tag::EndList,
    ];

    let input = SIMPLE;
    let tags: Vec<Tag> = input.lines().filter_map(|l| parse_tag(l).ok()).collect();
    assert_eq!(expected, tags)
}

#[test]
fn parse_simple() {
    let expected = MediaPlaylist {
        version: Some(3),
        independent_segments: false,
        start: None,
        variables: vec![],
        target_duration: 10,
        media_sequence: 0,
        discontinuity_sequence: 0,
        end_list: true,
        playlist_type: None,
        i_frames_only: false,
        part_target: None,
        server_control: None,
        skip: None,
        dateranges: None,
        preload_hints: None,
        rendition_reports: None,
        segments: vec![
            segment("http://media.example.com/first.ts", decimal(9009, 3)),
            segment("http://media.example.com/second.ts", decimal(9009, 3)),
            segment("http://media.example.com/third.ts", decimal(3003, 3)),
        ],
    };

    let input = SIMPLE;
    match parse(input.as_bytes()) {
        Ok(Playlist::Multivariant(_)) => (),
        Ok(Playlist::Media(pl)) => {
            assert_eq!(expected, pl)
        }
        Err(e) => {
            assert_eq!(e.message(), "unimplement")
        }
    }
}

#[test]
fn simple_playlist_is_media() {
    let pl = media(SIMPLE);
    assert_eq!(pl.segments.len(), 3);
    assert_eq!(pl.version, Some(3));
    assert_eq!(pl.target_duration, 10);
    assert!(pl.end_list);
}

#[test]
fn media_playlist_with_three_segments() {
    let input = "#EXTM3U
#EXT-X-VERSION:3
#EXT-X-TARGETDURATION:10
#EXTINF:9.009,
http://media.example.com/first.ts
#EXTINF:9.009,
http://media.example.com/second.ts
#EXTINF:3.003,
http://media.example.com/third.ts
#EXT-X-ENDLIST
";
    let pl = media(input);
    assert_eq!(pl.version, Some(3));
    assert_eq!(pl.target_duration, 10);
    assert!(pl.end_list);
    let durations: Vec<f64> = pl.segments.iter().map(|s| seconds(&s.duration)).collect();
    assert_eq!(durations, vec![9.009, 9.009, 3.003]);
    let uris: Vec<&str> = pl.segments.iter().map(|s| s.uri.as_str()).collect();
    assert_eq!(
        uris,
        vec![
            "http://media.example.com/first.ts",
            "http://media.example.com/second.ts",
            "http://media.example.com/third.ts",
        ]
    );
    assert_eq!(lenient(input).diagnostics, vec![]);
}

#[test]
fn one_variant_stream() {
    let input = "#EXTM3U\n#EXT-X-STREAM-INF:BANDWIDTH=1280000\nhttp://example.com/low.m3u8\n";
    match parse(input.as_bytes()) {
        Ok(Playlist::Multivariant(pl)) => {
            assert_eq!(
                pl.variants,
                vec![VariantStream {
                    uri: "http://example.com/low.m3u8".to_string(),
                    stream: stream(1280000),
                }]
            );
            assert_eq!(pl.i_frame_variants, vec![]);
            assert_eq!(pl.renditions, vec![]);
        }
        other => panic!("not a multivariant playlist: {:?}", other),
    }
}

#[test]
fn variant_stream_without_uri_fails() {
    let input = "#EXTM3U\n#EXT-X-STREAM-INF:BANDWIDTH=1280000\n";
    assert_eq!(parse(input.as_bytes()), Err(ParseError::UnassociatedVariantAttributes));
    let strict = parse_with(input.as_bytes(), &ParseOptions::strict());
    assert_eq!(strict, Err(ParseError::UnassociatedVariantAttributes));
}

#[test]
fn two_stream_infs_in_a_row_fail() {
    let input = "#EXTM3U\n#EXT-X-STREAM-INF:BANDWIDTH=1\n#EXT-X-STREAM-INF:BANDWIDTH=2\nlow.m3u8\n";
    assert_eq!(parse(input.as_bytes()), Err(ParseError::UnassociatedVariantAttributes));
}

#[test]
fn multivariant_playlist_in_full() {
    let input = "#EXTM3U
#EXT-X-VERSION:6
#EXT-X-INDEPENDENT-SEGMENTS
#EXT-X-MEDIA:TYPE=AUDIO,GROUP-ID=\"aac\",NAME=\"English\",DEFAULT=YES,URI=\"en.m3u8\"
#EXT-X-MEDIA:TYPE=SUBTITLES,GROUP-ID=\"subs\",NAME=\"English\",URI=\"subs-en.m3u8\"
#EXT-X-MEDIA:TYPE=AUDIO,GROUP-ID=\"aac\",NAME=\"Deutsch\",URI=\"de.m3u8\"
#EXT-X-MEDIA:TYPE=SUBTITLES,GROUP-ID=\"aac\",NAME=\"Odd\"
#EXT-X-STREAM-INF:BANDWIDTH=1280000,AUDIO=\"aac\"

low.m3u8
#EXT-X-STREAM-INF:BANDWIDTH=2560000,AUDIO=\"aac\"
mid.m3u8
#EXT-X-I-FRAME-STREAM-INF:BANDWIDTH=86000,URI=\"iframe.m3u8\"
stray.m3u8
";
    let pl = match parse(input.as_bytes()) {
        Ok(Playlist::Multivariant(pl)) => pl,
        other => panic!("not a multivariant playlist: {:?}", other),
    };
    assert_eq!(pl.version, Some(6));
    assert!(pl.independent_segments);
    let uris: Vec<&str> = pl.variants.iter().map(|v| v.uri.as_str()).collect();
    assert_eq!(uris, vec!["low.m3u8", "mid.m3u8"]);
    assert_eq!(pl.variants[1].stream.bandwidth, 2560000);
    assert_eq!(pl.variants[0].stream.audio, Some("aac".to_string()));
    assert_eq!(pl.i_frame_variants.len(), 1);
    assert_eq!(pl.i_frame_variants[0].uri, "iframe.m3u8");
    assert_eq!(pl.renditions.len(), 3);
    assert_eq!(pl.renditions[0].media_type, RenditionType::Audio);
    assert_eq!(pl.renditions[0].group_id, "aac");
    let names: Vec<&str> = pl.renditions[0].renditions.iter().map(|r| r.name.as_str()).collect();
    assert_eq!(names, vec!["English", "Deutsch"]);
    assert_eq!(pl.renditions[1].media_type, RenditionType::Subtitles);
    assert_eq!(pl.renditions[1].group_id, "subs");
    assert_eq!(pl.renditions[1].renditions.len(), 1);
    assert_eq!(pl.renditions[2].media_type, RenditionType::Subtitles);
    assert_eq!(pl.renditions[2].group_id, "aac");
    assert_eq!(
        pl.renditions[2].renditions,
        vec![Rendition {
            media_type: RenditionType::Subtitles,
            group_id: "aac".to_string(),
            name: "Odd".to_string(),
            uri: None,
            language: None,
            is_default: false,
            autoselect: false,
        }]
    );
}

#[test]
fn both_kinds_of_tags_are_ambiguous() {
    let input = "#EXTM3U\n#EXT-X-TARGETDURATION:10\n#EXT-X-STREAM-INF:BANDWIDTH=1280000\nlow.m3u8\n";
    assert_eq!(parse(input.as_bytes()), Err(ParseError::AmbiguousPlaylistType));
    let input = "#EXTM3U\n#EXT-X-STREAM-INF:BANDWIDTH=1280000\nlow.m3u8\n#EXTINF:4,\na.ts\n";
    assert_eq!(parse(input.as_bytes()), Err(ParseError::AmbiguousPlaylistType));
}

#[test]
fn classification_of_tag_streams() {
    let none = vec![Tag::EXTM3U, Tag::Uri("a.ts".to_string())];
    assert_eq!(classify_playlist(&none), Ok(PlaylistKind::Media));
    assert!(!is_multivariant_manifest(&none));
    assert!(!is_media_manifest(&none));

    let media = vec![Tag::EXTM3U, Tag::TargetDuration(4)];
    assert_eq!(classify_playlist(&media), Ok(PlaylistKind::Media));
    assert!(is_media_manifest(&media));

    let multi = vec![Tag::StreamInf(stream(1)), Tag::Uri("a.m3u8".to_string())];
    assert_eq!(classify_playlist(&multi), Ok(PlaylistKind::Multivariant));
    assert!(is_multivariant_manifest(&multi));
    assert!(!is_media_manifest(&multi));

    let both = vec![Tag::StreamInf(stream(1)), Tag::Uri("a.m3u8".to_string()), Tag::EndList];
    assert_eq!(classify_playlist(&both), Err(ParseError::AmbiguousPlaylistType));
    assert!(is_multivariant_manifest(&both));
    assert!(is_media_manifest(&both));
}

#[test]
fn key_counts_for_media_outside_a_variant() {
    let inside = vec![Tag::StreamInf(stream(1)), Tag::Key(key("k")), Tag::Uri("a".to_string())];
    assert_eq!(classify_playlist(&inside), Ok(PlaylistKind::Multivariant));
    let outside = vec![Tag::StreamInf(stream(1)), Tag::Uri("a".to_string()), Tag::Key(key("k"))];
    assert_eq!(classify_playlist(&outside), Err(ParseError::AmbiguousPlaylistType));
    let map = InitMap { uri: "i.mp4".to_string(), byte_range: None };
    let alone = vec![Tag::InitMap(map), Tag::Uri("a".to_string())];
    assert_eq!(classify_playlist(&alone), Ok(PlaylistKind::Media));
    assert!(is_media_manifest(&alone));
}

#[test]
fn only_marker_and_uri_is_a_media_playlist() {
    let pl = media("#EXTM3U\nonly.ts\n");
    assert_eq!(pl.segments, vec![segment("only.ts", decimal(0, 0))]);
    assert_eq!(pl.target_duration, 0);
    assert!(!pl.end_list);
}

#[test]
fn empty_input_is_an_empty_media_playlist() {
    let parsed = lenient("");
    match parsed.playlist {
        Playlist::Media(pl) => assert_eq!(pl.segments, vec![]),
        other => panic!("not a media playlist: {:?}", other),
    }
    assert_eq!(
        parsed.diagnostics,
        vec![Diagnostic::MissingHeader, Diagnostic::NoTargetDuration]
    );
}

#[test]
fn segments_are_as_many_as_uri_lines() {
    let input = "#EXTM3U\n\na.ts\n# a comment\n#EXTINF:1,\nb.ts\n   \nc.ts\n#EXT-X-ENDLIST";
    let pl = media(input);
    let uris: Vec<&str> = pl.segments.iter().map(|s| s.uri.as_str()).collect();
    assert_eq!(uris, vec!["a.ts", "b.ts", "   ", "c.ts"]);
    assert_eq!(seconds(&pl.segments[1].duration), 1.0);
    assert_eq!(seconds(&pl.segments[2].duration), 0.0);
    let counted = input.lines().filter(|l| !l.is_empty() && !l.starts_with('#')).count();
    assert_eq!(pl.segments.len(), counted);
}

#[test]
fn one_space_is_one_segment() {
    let pl = media(" ");
    assert_eq!(pl.segments, vec![segment(" ", decimal(0, 0))]);
}

#[test]
fn carriage_returns_end_lines_too() {
    let input = "#EXTM3U\r\n#EXT-X-TARGETDURATION:10\r\n#EXTINF:2.5,Title\r\na.ts\r\n#EXT-X-ENDLIST\r\n";
    let pl = media(input);
    assert_eq!(pl.target_duration, 10);
    assert_eq!(pl.segments.len(), 1);
    assert_eq!(pl.segments[0].uri, "a.ts");
    assert_eq!(pl.segments[0].title, Some("Title".to_string()));
    assert_eq!(pl.segments[0].duration, decimal(25, 1));
    assert!(pl.end_list);
}

#[test]
fn lone_carriage_return_at_the_end_stays() {
    let pl = media("#EXTM3U\na.ts\r");
    assert_eq!(pl.segments[0].uri, "a.ts\r");
}

#[test]
fn key_and_map_carry_over() {
    let input = "#EXTM3U
#EXT-X-TARGETDURATION:6
#EXTINF:6,
clear.ts
#EXT-X-KEY:METHOD=AES-128,URI=\"k1\"
#EXT-X-MAP:URI=\"init1.mp4\"
#EXTINF:6,
a.ts
#EXTINF:6,
b.ts
#EXT-X-KEY:METHOD=AES-128,URI=\"k2\"
#EXTINF:6,
c.ts
#EXT-X-MAP:URI=\"init2.mp4\",BYTERANGE=\"10@5\"
#EXT-X-KEY:METHOD=NONE
#EXTINF:6,
d.ts
";
    let pl = media(input);
    let map1 = InitMap { uri: "init1.mp4".to_string(), byte_range: None };
    let map2 = InitMap {
        uri: "init2.mp4".to_string(),
        byte_range: Some(ByteRange { length: 10, offset: Some(5) }),
    };
    let none = Key {
        method: KeyMethod::NoEncryption,
        uri: None,
        iv: None,
        key_format: None,
        key_format_versions: None,
    };
    assert_eq!(pl.segments.len(), 5);
    assert_eq!(pl.segments[0].key, None);
    assert_eq!(pl.segments[0].map, None);
    assert_eq!(pl.segments[1].key, Some(key("k1")));
    assert_eq!(pl.segments[1].map, Some(map1.clone()));
    assert_eq!(pl.segments[2].key, Some(key("k1")));
    assert_eq!(pl.segments[2].map, Some(map1.clone()));
    assert_eq!(pl.segments[3].key, Some(key("k2")));
    assert_eq!(pl.segments[3].map, Some(map1));
    assert_eq!(pl.segments[4].key, Some(none));
    assert_eq!(pl.segments[4].map, Some(map2));
}

#[test]
fn what_is_said_of_a_segment_is_used_up() {
    let input = "#EXTM3U
#EXT-X-TARGETDURATION:6
#EXT-X-DISCONTINUITY
#EXT-X-PROGRAM-DATE-TIME:2020-01-01T00:00:00Z
#EXT-X-BYTERANGE:100@0
#EXT-X-GAP
#EXT-X-BITRATE:800
#EXT-X-CUE-OUT:30
#EXT-X-PART:DURATION=1,URI=\"a.1.ts\",BYTERANGE=\"50@0\"
#EXT-X-PART:DURATION=1,URI=\"a.2.ts\",BYTERANGE=\"50\",GAP=YES
#EXT-X-CUE-IN
#EXTINF:2,First
a.ts
#EXTINF:4,
b.ts
";
    let pl = media(input);
    let first = MediaSegment {
        uri: "a.ts".to_string(),
        title: Some("First".to_string()),
        mime_type: None,
        duration: decimal(2, 0),
        byte_range: Some(ByteRange { length: 100, offset: Some(0) }),
        discontinuity: true,
        key: None,
        map: None,
        program_date_time: Some("2020-01-01T00:00:00Z".to_string()),
        gap: true,
        bitrate: Some(800),
        parts: vec![
            PartialSegment {
                uri: "a.1.ts".to_string(),
                duration: decimal(1, 0),
                indepdentent: false,
                byte_range: ByteRange { length: 50, offset: Some(0) },
                gap: false,
            },
            PartialSegment {
                uri: "a.2.ts".to_string(),
                duration: decimal(1, 0),
                indepdentent: false,
                byte_range: ByteRange { length: 50, offset: None },
                gap: true,
            },
        ],
        extra_tags: vec![
            ExtTag { tag_name: "EXT-X-CUE-OUT".to_string(), tag_payload: Some("30".to_string()) },
            ExtTag { tag_name: "EXT-X-CUE-IN".to_string(), tag_payload: None },
        ],
    };
    assert_eq!(pl.segments, vec![first, segment("b.ts", decimal(4, 0))]);
}

#[test]
fn playlist_wide_tags() {
    let input = "#EXTM3U
#EXT-X-VERSION:9
#EXT-X-INDEPENDENT-SEGMENTS
#EXT-X-START:TIME-OFFSET=3.5
#EXT-X-TARGETDURATION:4
#EXT-X-MEDIA-SEQUENCE:266
#EXT-X-DISCONTINUITY-SEQUENCE:2
#EXT-X-PLAYLIST-TYPE:EVENT
#EXT-X-I-FRAMES-ONLY
#EXT-X-PART-INF:PART-TARGET=0.5
#EXT-X-SERVER-CONTROL:CAN-BLOCK-RELOAD=YES
#EXT-X-SKIP:SKIPPED-SEGMENTS=3
#EXT-X-DATERANGE:ID=\"one\"
#EXT-X-DATERANGE:ID=\"two\"
#EXT-X-PRELOAD-HINT:TYPE=PART,URI=\"next.ts\"
#EXT-X-RENDITION-REPORT:URI=\"other.m3u8\"
#EXT-X-DISCONTINUITY-SEQUENCE:5
";
    let pl = media(input);
    assert_eq!(pl.version, Some(9));
    assert!(pl.independent_segments);
    assert_eq!(pl.start.map(|s| seconds(&s.time_offset)), Some(3.5));
    assert_eq!(pl.target_duration, 4);
    assert_eq!(pl.media_sequence, 266);
    assert_eq!(pl.discontinuity_sequence, 5);
    assert_eq!(pl.playlist_type, Some(MediaPlaylistType::Event));
    assert!(pl.i_frames_only);
    assert_eq!(pl.part_target, Some(decimal(5, 1)));
    assert_eq!(pl.server_control.map(|c| c.can_block_reload), Some(true));
    assert_eq!(pl.skip.map(|s| s.skipped_segments), Some(3));
    assert_eq!(
        pl.dateranges,
        Some(vec!["ID=\"one\"".to_string(), "ID=\"two\"".to_string()])
    );
    assert_eq!(pl.preload_hints, Some(vec!["TYPE=PART,URI=\"next.ts\"".to_string()]));
    assert_eq!(pl.rendition_reports, Some(vec!["URI=\"other.m3u8\"".to_string()]));
    assert!(!pl.end_list);
    assert_eq!(pl.segments, vec![]);
}

#[test]
fn variables_are_replaced_after_their_definition() {
    let input = "#EXTM3U
#EXT-X-DEFINE:NAME=\"base\",VALUE=\"https://cdn.example/{$x}\"
#EXT-X-DEFINE:NAME=\"x\",VALUE=\"late\"
#EXT-X-MAP:URI=\"{$base}/init-{$x}.mp4\"
#EXTINF:4,
{$base}/a.ts
";
    let err = parse(input.as_bytes());
    assert_eq!(err, Err(ParseError::UnresolvedVariable { name: "x".to_string() }));

    let input = "#EXTM3U
#EXT-X-DEFINE:NAME=\"x\",VALUE=\"{$base}\"
#EXT-X-DEFINE:NAME=\"base\",VALUE=\"https://cdn.example\"
#EXT-X-MAP:URI=\"{$base}/init-{$x}.mp4\"
#EXTINF:4,
{$base}/a.ts
";
    let err = parse(input.as_bytes());
    assert_eq!(err, Err(ParseError::UnresolvedVariable { name: "base".to_string() }));

    let input = "#EXTM3U
#EXT-X-DEFINE:NAME=\"base\",VALUE=\"https://cdn.example\"
#EXT-X-DEFINE:NAME=\"x\",VALUE=\"{$base}/{$\"
#EXT-X-MAP:URI=\"{$x}base}/init.mp4\"
#EXTINF:4,
{$base}/a.ts
";
    let pl = media(input);
    assert_eq!(
        pl.variables,
        vec![
            Variable::Name(("base".to_string(), "https://cdn.example".to_string())),
            Variable::Name(("x".to_string(), "https://cdn.example/{$".to_string())),
        ]
    );
    assert_eq!(
        pl.segments[0].map,
        Some(InitMap { uri: "https://cdn.example/{$base}/init.mp4".to_string(), byte_range: None })
    );
    assert_eq!(pl.segments[0].uri, "{$base}/a.ts");
}

#[test]
fn imported_variables_come_from_the_options() {
    let input = "#EXTM3U\n#EXT-X-DEFINE:IMPORT=\"token\"\n#EXT-X-MAP:URI=\"init.mp4?t={$token}\"\n#EXTINF:4,\na.ts\n";
    assert_eq!(
        parse(input.as_bytes()),
        Err(ParseError::UnresolvedVariable { name: "token".to_string() })
    );
    let options = ParseOptions {
        strict: true,
        imports: vec![
            Binding { name: "token".to_string(), value: "old".to_string() },
            Binding { name: "other".to_string(), value: "o".to_string() },
            Binding { name: "token".to_string(), value: "abc".to_string() },
        ],
    };
    let parsed = parse_with(input.as_bytes(), &options).unwrap();
    match parsed.playlist {
        Playlist::Media(pl) => {
            assert_eq!(pl.variables, vec![Variable::Import("token".to_string())]);
            assert_eq!(
                pl.segments[0].map,
                Some(InitMap { uri: "init.mp4?t=abc".to_string(), byte_range: None })
            );
        }
        other => panic!("not a media playlist: {:?}", other),
    }
}

#[test]
fn lenient_parse_keeps_a_rejected_tag() {
    let input = "#EXTM3U\n#EXT-X-TARGETDURATION:10\n#EXT-X-BYTERANGE:oops\n#EXTINF:4,\na.ts\n#EXT-X-KEY:METHOD=AES-128,URI=\"k\n#EXTINF:4,\nb.ts\n";
    let parsed = lenient(input);
    let first = ParseError::MalformedTag {
        tag_name: "EXT-X-BYTERANGE".to_string(),
        raw_payload: "oops".to_string(),
        reason: Reason::InvalidValue,
    };
    let second = ParseError::MalformedAttributeList {
        raw_payload: "METHOD=AES-128,URI=\"k".to_string(),
    };
    assert_eq!(
        parsed.diagnostics,
        vec![
            Diagnostic::TagRejected { line: 2, error: first.clone() },
            Diagnostic::TagRejected { line: 5, error: second },
        ]
    );
    match parsed.playlist {
        Playlist::Media(pl) => {
            assert_eq!(pl.segments.len(), 2);
            assert_eq!(pl.segments[0].byte_range, None);
            assert_eq!(
                pl.segments[0].extra_tags,
                vec![ExtTag {
                    tag_name: "EXT-X-BYTERANGE".to_string(),
                    tag_payload: Some("oops".to_string()),
                }]
            );
            assert_eq!(pl.segments[1].key, None);
            assert_eq!(pl.segments[1].extra_tags.len(), 1);
        }
        other => panic!("not a media playlist: {:?}", other),
    }
    assert_eq!(parse_with(input.as_bytes(), &ParseOptions::strict()), Err(first));
}

#[test]
fn missing_marker_is_a_diagnostic() {
    let input = "\n#EXT-X-TARGETDURATION:10\n#EXTINF:4,\na.ts\n";
    let parsed = lenient(input);
    assert_eq!(parsed.diagnostics, vec![Diagnostic::MissingHeader]);
    let strict = parse_with(input.as_bytes(), &ParseOptions::strict()).unwrap();
    assert_eq!(strict, parsed);
    assert_eq!(
        lenient("\n\n#EXTM3U\n#EXT-X-TARGETDURATION:1\n#EXTINF:1,\na.ts").diagnostics,
        vec![]
    );
}

#[test]
fn missing_durations_are_diagnostics() {
    let input = "#EXTM3U\na.ts\n#EXTINF:4,\n#EXT-X-GAP\nb.ts\nc.ts\n";
    assert_eq!(
        lenient(input).diagnostics,
        vec![
            Diagnostic::NoTargetDuration,
            Diagnostic::SegmentWithoutDuration { line: 1 },
            Diagnostic::SegmentWithoutDuration { line: 5 },
        ]
    );
    let zero = "#EXTM3U\n#EXT-X-TARGETDURATION:0\n#EXTINF:0,\na.ts\n";
    assert_eq!(lenient(zero).diagnostics, vec![Diagnostic::NoTargetDuration]);
    let strict = parse_with(input.as_bytes(), &ParseOptions::strict()).unwrap();
    assert_eq!(strict, lenient(input));
    let variants = "#EXTM3U\n#EXT-X-STREAM-INF:BANDWIDTH=1\nlow.m3u8\n";
    assert_eq!(lenient(variants).diagnostics, vec![]);
}

#[test]
fn content_after_the_end_is_flagged() {
    let input = "#EXTM3U\n#EXT-X-TARGETDURATION:10\n#EXTINF:4,\na.ts\n#EXT-X-ENDLIST\n\n#EXTINF:4,\nb.ts\n";
    let parsed = lenient(input);
    assert_eq!(parsed.diagnostics, vec![Diagnostic::ContentAfterEndList { line: 6 }]);
    match parsed.playlist {
        Playlist::Media(pl) => {
            assert!(pl.end_list);
            assert_eq!(pl.segments.len(), 2);
        }
        other => panic!("not a media playlist: {:?}", other),
    }
    let quiet = "#EXTM3U\n#EXT-X-TARGETDURATION:1\n#EXTINF:1,\na.ts\n#EXT-X-ENDLIST\n\n#\n";
    assert_eq!(lenient(quiet).diagnostics, vec![]);
}

#[test]
fn diagnostics_come_in_order() {
    let input = "#EXT-X-VERSION:x\na.ts\n#EXT-X-ENDLIST\nb.ts";
    let rejected = ParseError::MalformedTag {
        tag_name: "EXT-X-VERSION".to_string(),
        raw_payload: "x".to_string(),
        reason: Reason::InvalidInteger,
    };
    assert_eq!(
        lenient(input).diagnostics,
        vec![
            Diagnostic::MissingHeader,
            Diagnostic::TagRejected { line: 0, error: rejected },
            Diagnostic::ContentAfterEndList { line: 3 },
            Diagnostic::NoTargetDuration,
            Diagnostic::SegmentWithoutDuration { line: 1 },
            Diagnostic::SegmentWithoutDuration { line: 3 },
        ]
    );
}

#[test]
fn bytes_that_are_not_text_are_refused() {
    assert_eq!(parse(&[0x23, 0x45, 0xff, 0x0a]), Err(ParseError::InvalidEncoding));
    assert_eq!(parse(&[0xc3]), Err(ParseError::InvalidEncoding));
    assert_eq!(
        parse_with(&[0xed, 0xa0, 0x80], &ParseOptions::strict()),
        Err(ParseError::InvalidEncoding)
    );
}

#[test]
fn text_beyond_ascii_is_decoded() {
    let input = "#EXTM3U\n#EXTINF:4,Épisode – 1\nvidéo/日本語.ts\n";
    let pl = media(input);
    assert_eq!(pl.segments[0].title, Some("Épisode – 1".to_string()));
    assert_eq!(pl.segments[0].uri, "vidéo/日本語.ts");
}

#[test]
fn unsupported_feature_ends_the_parse() {
    let input = "#EXTM3U\n#EXT-X-DEFINE:QUERYPARAM=\"q\"\na.ts\n";
    let expected = ParseError::UnsupportedFeature { name: "QUERYPARAM".to_string() };
    assert_eq!(parse(input.as_bytes()), Err(expected.clone()));
    assert_eq!(parse_with(input.as_bytes(), &ParseOptions::strict()), Err(expected));
}

#[test]
fn parsing_twice_gives_the_same() {
    let inputs = [
        SIMPLE,
        "#EXTM3U\n#EXT-X-STREAM-INF:BANDWIDTH=1280000\nlow.m3u8\n",
        "#EXTM3U\n#EXT-X-STREAM-INF:BANDWIDTH=1280000\n",
        "#EXT-X-BYTERANGE:oops\na.ts",
    ];
    for input in inputs {
        let options = ParseOptions::lenient();
        assert_eq!(parse(input.as_bytes()), parse(input.as_bytes()));
        assert_eq!(
            parse_with(input.as_bytes(), &options),
            parse_with(input.as_bytes(), &options)
        );
    }
}

#[test]
fn media_from_tags_by_hand() {
    let tags = vec![
        Tag::Comment("".to_string()),
        Tag::StreamInf(stream(1)),
        Tag::Key(key("k")),
        Tag::INF(decimal(15, 1), Some("t".to_string())),
        Tag::Uri("a.ts".to_string()),
        Tag::Uri("b.ts".to_string()),
        Tag::UnknownTag("X".to_string(), None),
    ];
    let pl = media_from_tags(&tags).unwrap();
    let mut a = segment("a.ts", decimal(15, 1));
    a.title = Some("t".to_string());
    a.key = Some(key("k"));
    let mut b = segment("b.ts", decimal(0, 0));
    b.key = Some(key("k"));
    assert_eq!(pl.segments, vec![a, b]);
    assert_eq!(pl.version, None);
}

#[test]
fn multivariant_from_tags_by_hand() {
    let tags = vec![
        Tag::Uri("stray".to_string()),
        Tag::StreamInf(stream(5)),
        Tag::TargetDuration(3),
        Tag::Uri("v.m3u8".to_string()),
    ];
    let pl = multivariant_from_tags(&tags).unwrap();
    assert_eq!(
        pl.variants,
        vec![VariantStream { uri: "v.m3u8".to_string(), stream: stream(5) }]
    );
    let waiting = vec![Tag::StreamInf(stream(5)), Tag::EndList];
    assert_eq!(
        multivariant_from_tags(&waiting),
        Err(ParseError::UnassociatedVariantAttributes)
    );
    assert_eq!(multivariant_from_tags(&vec![]).map(|p| p.variants.len()), Ok(0));
}

#[test]
fn one_step_of_the_segment_state() {
    let persistent = Persistent::new();
    let pending = Pending::new();
    let (persistent, pending, done) = segment_step(persistent, pending, &Tag::Key(key("k")));
    assert_eq!(done, None);
    assert_eq!(persistent.key, Some(key("k")));
    let (persistent, pending, done) =
        segment_step(persistent, pending, &Tag::INF(decimal(2, 0), None));
    assert_eq!(done, None);
    assert_eq!(pending.duration, decimal(2, 0));
    let (persistent, pending, done) =
        segment_step(persistent, pending, &Tag::Uri("a.ts".to_string()));
    let mut expected = segment("a.ts", decimal(2, 0));
    expected.key = Some(key("k"));
    assert_eq!(done, Some(expected));
    assert_eq!(pending, Pending::new());
    assert_eq!(persistent.key, Some(key("k")));
}
