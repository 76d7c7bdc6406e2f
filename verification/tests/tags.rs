use hlsrs::parser::{
    parse_tag, ByteRange, Decimal, InitMap, Key, KeyMethod, MediaPlaylistType, ParseError,
    PartialSegment, Reason, Rendition, RenditionType, Resolution, ServerControl, Skip, Start,
    StreamInf, Tag, Variable, VariantStream,
};

fn seconds(d: &Decimal) -> f64 {
    let value = d.mantissa as f64 / 10f64.powi(d.scale as i32);
    if d.negative {
        -value
    } else {
        value
    }
}

fn decimal(mantissa: u64, scale: u32) -> Decimal {
    Decimal { negative: false, mantissa, scale }
}

fn malformed(name: &str, payload: &str, reason: Reason) -> ParseError {
    ParseError::MalformedTag {
        tag_name: name.to_string(),
        raw_payload: payload.to_string(),
        reason,
    }
}

#[test]
fn parse_ext3mu() {
    let res = parse_tag("#EXTM3U").unwrap();
    assert_eq!(Tag::EXTM3U, res)
}

#[test]
fn parse_targetduration() {
    let res = parse_tag("#EXT-X-TARGETDURATION:10").unwrap();
    assert_eq!(Tag::TargetDuration(10), res)
}

#[test]
fn parse_version() {
    let res = parse_tag("#EXT-X-VERSION:3").unwrap();
    assert_eq!(Tag::Version(3), res)
}

#[test]
fn parse_extinf() {
    let res = parse_tag("#EXTINF:9.009,").unwrap();
    assert_eq!(Tag::INF(decimal(9009, 3), None), res);
    match res {
        Tag::INF(d, title) => {
            assert_eq!(seconds(&d), 9.009);
            assert_eq!(title, None);
        }
        other => panic!("not a duration: {:?}", other),
    }
}

#[test]
fn parse_playlisttype() {
    let res = parse_tag("#EXT-X-PLAYLIST-TYPE:VOD").unwrap();
    assert_eq!(Tag::PlaylistType(MediaPlaylistType::Vod), res)
}

#[test]
fn parse_uri() {
    let res = parse_tag("https://chunk-gce-us-west1.fastly.staging.mux.com/v1/chunk/n5HuqAuIlDwB8sadK00kuV02UcHXJZCsOtwmFGnkWXfoCYQrbRvdJcY2I013UZzdknO01aoIkFE02sfzi01KIpcCxaRm21gav97wlpcvAj4DD00mww/0.ts?skid=default&signature=NjJhMTI5ZjBfZDQ5NTcyNjUwMzQyYTI3MzFiMjU5YjlhZjg2MGVhMTQzMjQ5NDY5YjRjMDhhNDVhNmRmY2IwMzRhZTRiNGJiNQ==").unwrap();
    assert_eq!(Tag::Uri("https://chunk-gce-us-west1.fastly.staging.mux.com/v1/chunk/n5HuqAuIlDwB8sadK00kuV02UcHXJZCsOtwmFGnkWXfoCYQrbRvdJcY2I013UZzdknO01aoIkFE02sfzi01KIpcCxaRm21gav97wlpcvAj4DD00mww/0.ts?skid=default&signature=NjJhMTI5ZjBfZDQ5NTcyNjUwMzQyYTI3MzFiMjU5YjlhZjg2MGVhMTQzMjQ5NDY5YjRjMDhhNDVhNmRmY2IwMzRhZTRiNGJiNQ==".to_string()), res)
}

#[test]
fn playlist_type_event() {
    assert_eq!(
        parse_tag("#EXT-X-PLAYLIST-TYPE:EVENT").unwrap(),
        Tag::PlaylistType(MediaPlaylistType::Event)
    );
}

#[test]
fn playlist_type_unknown_is_malformed() {
    assert_eq!(
        parse_tag("#EXT-X-PLAYLIST-TYPE:LIVE"),
        Err(malformed("EXT-X-PLAYLIST-TYPE", "LIVE", Reason::InvalidValue))
    );
}

#[test]
fn extinf_with_title() {
    assert_eq!(
        parse_tag("#EXTINF:10,Intro, part one").unwrap(),
        Tag::INF(decimal(10, 0), Some("Intro, part one".to_string()))
    );
}

#[test]
fn extinf_without_comma() {
    assert_eq!(parse_tag("#EXTINF:3.003").unwrap(), Tag::INF(decimal(3003, 3), None));
}

#[test]
fn extinf_not_a_number_is_malformed() {
    assert_eq!(
        parse_tag("#EXTINF:abc,"),
        Err(malformed("EXTINF", "abc,", Reason::InvalidDecimal))
    );
}

#[test]
fn extinf_below_zero_is_malformed() {
    assert_eq!(parse_tag("#EXTINF:-1,"), Err(malformed("EXTINF", "-1,", Reason::InvalidDecimal)));
}

#[test]
fn target_duration_zero_differs_from_unreadable() {
    assert_eq!(parse_tag("#EXT-X-TARGETDURATION:0").unwrap(), Tag::TargetDuration(0));
    assert_eq!(
        parse_tag("#EXT-X-TARGETDURATION:ten"),
        Err(malformed("EXT-X-TARGETDURATION", "ten", Reason::InvalidInteger))
    );
    assert_eq!(
        parse_tag("#EXT-X-TARGETDURATION"),
        Err(malformed("EXT-X-TARGETDURATION", "", Reason::InvalidInteger))
    );
}

#[test]
fn version_out_of_range_is_malformed() {
    assert_eq!(parse_tag("#EXT-X-VERSION:4294967295").unwrap(), Tag::Version(4294967295));
    assert_eq!(
        parse_tag("#EXT-X-VERSION:4294967296"),
        Err(malformed("EXT-X-VERSION", "4294967296", Reason::InvalidInteger))
    );
}

#[test]
fn sequence_numbers_and_bitrate() {
    assert_eq!(parse_tag("#EXT-X-MEDIA-SEQUENCE:2680").unwrap(), Tag::MediaSequence(2680));
    assert_eq!(
        parse_tag("#EXT-X-DISCONTINUITY-SEQUENCE:7").unwrap(),
        Tag::DiscontinuitySequence(7)
    );
    assert_eq!(parse_tag("#EXT-X-BITRATE:1500").unwrap(), Tag::Bitrate(1500));
    assert_eq!(
        parse_tag("#EXT-X-MEDIA-SEQUENCE:18446744073709551616"),
        Err(malformed("EXT-X-MEDIA-SEQUENCE", "18446744073709551616", Reason::InvalidInteger))
    );
}

#[test]
fn bare_tags() {
    assert_eq!(parse_tag("#EXT-X-ENDLIST").unwrap(), Tag::EndList);
    assert_eq!(parse_tag("#EXT-X-DISCONTINUITY").unwrap(), Tag::Discontinuity);
    assert_eq!(parse_tag("#EXT-X-GAP").unwrap(), Tag::Gap);
    assert_eq!(parse_tag("#EXT-X-INDEPENDENT-SEGMENTS").unwrap(), Tag::IndependentSegments);
    assert_eq!(parse_tag("#EXT-X-I-FRAMES-ONLY").unwrap(), Tag::IFramesOnly);
}

#[test]
fn pass_through_tags() {
    assert_eq!(
        parse_tag("#EXT-X-PROGRAM-DATE-TIME:2010-02-19T14:54:23.031+08:00").unwrap(),
        Tag::ProgramDateTime("2010-02-19T14:54:23.031+08:00".to_string())
    );
    assert_eq!(
        parse_tag("#EXT-X-DATERANGE:ID=\"a\",START-DATE=\"2020-01-01T00:00:00Z\"").unwrap(),
        Tag::DateRange("ID=\"a\",START-DATE=\"2020-01-01T00:00:00Z\"".to_string())
    );
    assert_eq!(
        parse_tag("#EXT-X-PRELOAD-HINT:TYPE=PART,URI=\"p.mp4\"").unwrap(),
        Tag::PreloadHint("TYPE=PART,URI=\"p.mp4\"".to_string())
    );
    assert_eq!(
        parse_tag("#EXT-X-RENDITION-REPORT:URI=\"../1M/w.m3u8\"").unwrap(),
        Tag::RenditionReport("URI=\"../1M/w.m3u8\"".to_string())
    );
}

#[test]
fn byte_range_tag() {
    assert_eq!(
        parse_tag("#EXT-X-BYTERANGE:100@20").unwrap(),
        Tag::ByteRange(ByteRange { length: 100, offset: Some(20) })
    );
    assert_eq!(
        parse_tag("#EXT-X-BYTERANGE:100").unwrap(),
        Tag::ByteRange(ByteRange { length: 100, offset: None })
    );
    assert_eq!(
        parse_tag("#EXT-X-BYTERANGE:100@"),
        Err(malformed("EXT-X-BYTERANGE", "100@", Reason::InvalidValue))
    );
    assert_eq!(
        parse_tag("#EXT-X-BYTERANGE:x"),
        Err(malformed("EXT-X-BYTERANGE", "x", Reason::InvalidValue))
    );
}

#[test]
fn unknown_tag_is_kept() {
    assert_eq!(
        parse_tag("#EXT-X-CUE-OUT:30").unwrap(),
        Tag::UnknownTag("EXT-X-CUE-OUT".to_string(), Some("30".to_string()))
    );
    assert_eq!(
        parse_tag("#EXT-X-CUE-IN").unwrap(),
        Tag::UnknownTag("EXT-X-CUE-IN".to_string(), None)
    );
    assert_eq!(
        parse_tag("#EXT-X-CUE-IN:").unwrap(),
        Tag::UnknownTag("EXT-X-CUE-IN".to_string(), None)
    );
}

#[test]
fn payload_splits_at_first_colon() {
    assert_eq!(
        parse_tag("#EXT-X-FOO:a:b:c").unwrap(),
        Tag::UnknownTag("EXT-X-FOO".to_string(), Some("a:b:c".to_string()))
    );
}

#[test]
fn lines_that_say_nothing() {
    assert_eq!(parse_tag("").unwrap(), Tag::Comment("".to_string()));
    assert_eq!(parse_tag("#").unwrap(), Tag::Comment("#".to_string()));
    assert_eq!(parse_tag("#:payload").unwrap(), Tag::Comment("#:payload".to_string()));
}

#[test]
fn line_of_spaces_is_a_uri() {
    assert_eq!(parse_tag(" ").unwrap(), Tag::Uri(" ".to_string()));
    assert_eq!(parse_tag("  \t").unwrap(), Tag::Uri("  \t".to_string()));
    assert_eq!(parse_tag(" #EXTM3U").unwrap(), Tag::Uri(" #EXTM3U".to_string()));
    assert_eq!(parse_tag("a:b,c").unwrap(), Tag::Uri("a:b,c".to_string()));
}

#[test]
fn uri_line_is_kept_as_written() {
    assert_eq!(parse_tag("seg 1.ts ").unwrap(), Tag::Uri("seg 1.ts ".to_string()));
    assert_eq!(parse_tag("vidéo/été.ts").unwrap(), Tag::Uri("vidéo/été.ts".to_string()));
}

#[test]
fn key_tag() {
    assert_eq!(
        parse_tag("#EXT-X-KEY:METHOD=AES-128,URI=\"https://k.example/key?a=1,b=2\",IV=0x9c7db8778570d05c3177c349fd9236aa,KEYFORMAT=\"identity\",KEYFORMATVERSIONS=\"1/2\"").unwrap(),
        Tag::Key(Key {
            method: KeyMethod::Aes128,
            uri: Some("https://k.example/key?a=1,b=2".to_string()),
            iv: Some("0x9c7db8778570d05c3177c349fd9236aa".to_string()),
            key_format: Some("identity".to_string()),
            key_format_versions: Some("1/2".to_string()),
        })
    );
}

#[test]
fn key_methods() {
    let none = Key {
        method: KeyMethod::NoEncryption,
        uri: None,
        iv: None,
        key_format: None,
        key_format_versions: None,
    };
    assert_eq!(parse_tag("#EXT-X-KEY:METHOD=NONE").unwrap(), Tag::Key(none));
    match parse_tag("#EXT-X-KEY:METHOD=SAMPLE-AES,URI=\"k\"").unwrap() {
        Tag::Key(k) => assert_eq!(k.method, KeyMethod::SampleAes),
        other => panic!("not a key: {:?}", other),
    }
    match parse_tag("#EXT-X-KEY:METHOD=SAMPLE-AES-CTR,URI=\"k\"").unwrap() {
        Tag::Key(k) => assert_eq!(k.method, KeyMethod::Other("SAMPLE-AES-CTR".to_string())),
        other => panic!("not a key: {:?}", other),
    }
}

#[test]
fn key_needs_method_and_uri() {
    assert_eq!(
        parse_tag("#EXT-X-KEY:URI=\"k\""),
        Err(malformed("EXT-X-KEY", "URI=\"k\"", Reason::MissingAttribute))
    );
    assert_eq!(
        parse_tag("#EXT-X-KEY:METHOD=AES-128"),
        Err(malformed("EXT-X-KEY", "METHOD=AES-128", Reason::MissingAttribute))
    );
    assert_eq!(
        parse_tag("#EXT-X-KEY:METHOD=AES-128,URI=k"),
        Err(malformed("EXT-X-KEY", "METHOD=AES-128,URI=k", Reason::InvalidAttribute))
    );
    assert_eq!(
        parse_tag("#EXT-X-KEY:METHOD=AES-128,URI=\"k\",IV=12"),
        Err(malformed("EXT-X-KEY", "METHOD=AES-128,URI=\"k\",IV=12", Reason::InvalidAttribute))
    );
}

#[test]
fn key_with_unbalanced_quote() {
    assert_eq!(
        parse_tag("#EXT-X-KEY:METHOD=AES-128,URI=\"k"),
        Err(ParseError::MalformedAttributeList {
            raw_payload: "METHOD=AES-128,URI=\"k".to_string()
        })
    );
}

#[test]
fn map_tag() {
    assert_eq!(
        parse_tag("#EXT-X-MAP:URI=\"init.mp4\",BYTERANGE=\"720@0\"").unwrap(),
        Tag::InitMap(InitMap {
            uri: "init.mp4".to_string(),
            byte_range: Some(ByteRange { length: 720, offset: Some(0) }),
        })
    );
    assert_eq!(
        parse_tag("#EXT-X-MAP:URI=\"init.mp4\"").unwrap(),
        Tag::InitMap(InitMap { uri: "init.mp4".to_string(), byte_range: None })
    );
    assert_eq!(
        parse_tag("#EXT-X-MAP:BYTERANGE=\"720@0\""),
        Err(malformed("EXT-X-MAP", "BYTERANGE=\"720@0\"", Reason::MissingAttribute))
    );
    assert_eq!(
        parse_tag("#EXT-X-MAP:URI=\"init.mp4\",BYTERANGE=\"x\""),
        Err(malformed("EXT-X-MAP", "URI=\"init.mp4\",BYTERANGE=\"x\"", Reason::InvalidAttribute))
    );
}

#[test]
fn start_tag() {
    assert_eq!(
        parse_tag("#EXT-X-START:TIME-OFFSET=-12.5,PRECISE=YES").unwrap(),
        Tag::Start(Start {
            time_offset: Decimal { negative: true, mantissa: 125, scale: 1 },
            precise: Some(true),
        })
    );
    assert_eq!(
        parse_tag("#EXT-X-START:TIME-OFFSET=25").unwrap(),
        Tag::Start(Start { time_offset: decimal(25, 0), precise: None })
    );
    assert_eq!(
        parse_tag("#EXT-X-START:TIME-OFFSET=25,PRECISE=MAYBE"),
        Err(malformed("EXT-X-START", "TIME-OFFSET=25,PRECISE=MAYBE", Reason::InvalidAttribute))
    );
    assert_eq!(
        parse_tag("#EXT-X-START:PRECISE=NO"),
        Err(malformed("EXT-X-START", "PRECISE=NO", Reason::MissingAttribute))
    );
}

#[test]
fn low_latency_tags() {
    assert_eq!(
        parse_tag("#EXT-X-PART-INF:PART-TARGET=0.33334").unwrap(),
        Tag::PartInf(decimal(33334, 5))
    );
    assert_eq!(
        parse_tag("#EXT-X-SERVER-CONTROL:CAN-BLOCK-RELOAD=YES,PART-HOLD-BACK=1.0,CAN-SKIP-UNTIL=12.0").unwrap(),
        Tag::ServerControl(ServerControl {
            can_block_reload: true,
            can_skip_until: Some(decimal(12, 0)),
            hold_back: None,
            part_hold_back: Some(decimal(1, 0)),
        })
    );
    assert_eq!(
        parse_tag("#EXT-X-SKIP:SKIPPED-SEGMENTS=3").unwrap(),
        Tag::Skip(Skip { skipped_segments: 3 })
    );
    assert_eq!(
        parse_tag("#EXT-X-SKIP:SKIPPED-SEGMENTS=\"3\""),
        Err(malformed("EXT-X-SKIP", "SKIPPED-SEGMENTS=\"3\"", Reason::InvalidAttribute))
    );
    assert_eq!(
        parse_tag("#EXT-X-PART:DURATION=0.33334,URI=\"part.mp4\",BYTERANGE=\"100@0\",INDEPENDENT=YES").unwrap(),
        Tag::Part(PartialSegment {
            uri: "part.mp4".to_string(),
            duration: decimal(33334, 5),
            indepdentent: true,
            byte_range: ByteRange { length: 100, offset: Some(0) },
            gap: false,
        })
    );
    assert_eq!(
        parse_tag("#EXT-X-PART:DURATION=0.3,URI=\"part.mp4\""),
        Err(malformed(
            "EXT-X-PART",
            "DURATION=0.3,URI=\"part.mp4\"",
            Reason::MissingAttribute
        ))
    );
}

#[test]
fn define_tag() {
    assert_eq!(
        parse_tag("#EXT-X-DEFINE:NAME=\"host\",VALUE=\"example.com\"").unwrap(),
        Tag::Define(Variable::Name(("host".to_string(), "example.com".to_string())))
    );
    assert_eq!(
        parse_tag("#EXT-X-DEFINE:IMPORT=\"token\"").unwrap(),
        Tag::Define(Variable::Import("token".to_string()))
    );
    assert_eq!(
        parse_tag("#EXT-X-DEFINE:NAME=\"host\""),
        Err(malformed("EXT-X-DEFINE", "NAME=\"host\"", Reason::MissingAttribute))
    );
    assert_eq!(
        parse_tag("#EXT-X-DEFINE:QUERYPARAM=\"q\""),
        Err(ParseError::UnsupportedFeature { name: "QUERYPARAM".to_string() })
    );
}

#[test]
fn variable_without_value_is_unresolved() {
    assert_eq!(
        parse_tag("#EXT-X-MAP:URI=\"{$base}/init.mp4\""),
        Err(ParseError::UnresolvedVariable { name: "base".to_string() })
    );
}

#[test]
fn stream_inf_tag() {
    assert_eq!(
        parse_tag("#EXT-X-STREAM-INF:BANDWIDTH=1280000,AVERAGE-BANDWIDTH=1000000,CODECS=\"avc1.4d401e,mp4a.40.2\",RESOLUTION=1280x720,FRAME-RATE=29.970,AUDIO=\"aac\",CLOSED-CAPTIONS=NONE").unwrap(),
        Tag::StreamInf(StreamInf {
            bandwidth: 1280000,
            average_bandwidth: Some(1000000),
            codecs: Some("avc1.4d401e,mp4a.40.2".to_string()),
            resolution: Some(Resolution { width: 1280, height: 720 }),
            frame_rate: Some(decimal(2997, 2)),
            audio: Some("aac".to_string()),
            video: None,
            subtitles: None,
            closed_captions: None,
        })
    );
    assert_eq!(
        parse_tag("#EXT-X-STREAM-INF:CODECS=\"avc1\""),
        Err(malformed("EXT-X-STREAM-INF", "CODECS=\"avc1\"", Reason::MissingAttribute))
    );
    assert_eq!(
        parse_tag("#EXT-X-STREAM-INF:BANDWIDTH=fast"),
        Err(malformed("EXT-X-STREAM-INF", "BANDWIDTH=fast", Reason::InvalidAttribute))
    );
}

#[test]
fn i_frame_stream_inf_tag() {
    assert_eq!(
        parse_tag("#EXT-X-I-FRAME-STREAM-INF:BANDWIDTH=86000,URI=\"low/iframe.m3u8\"").unwrap(),
        Tag::IFrameStreamInf(VariantStream {
            uri: "low/iframe.m3u8".to_string(),
            stream: StreamInf {
                bandwidth: 86000,
                average_bandwidth: None,
                codecs: None,
                resolution: None,
                frame_rate: None,
                audio: None,
                video: None,
                subtitles: None,
                closed_captions: None,
            },
        })
    );
    assert_eq!(
        parse_tag("#EXT-X-I-FRAME-STREAM-INF:BANDWIDTH=86000"),
        Err(malformed("EXT-X-I-FRAME-STREAM-INF", "BANDWIDTH=86000", Reason::MissingAttribute))
    );
}

#[test]
fn media_tag() {
    assert_eq!(
        parse_tag("#EXT-X-MEDIA:TYPE=AUDIO,GROUP-ID=\"aac\",NAME=\"English\",LANGUAGE=\"en\",DEFAULT=YES,AUTOSELECT=YES,URI=\"en/a.m3u8\"").unwrap(),
        Tag::Media(Rendition {
            media_type: RenditionType::Audio,
            group_id: "aac".to_string(),
            name: "English".to_string(),
            uri: Some("en/a.m3u8".to_string()),
            language: Some("en".to_string()),
            is_default: true,
            autoselect: true,
        })
    );
    assert_eq!(
        parse_tag("#EXT-X-MEDIA:TYPE=SMELL,GROUP-ID=\"g\",NAME=\"n\""),
        Err(malformed(
            "EXT-X-MEDIA",
            "TYPE=SMELL,GROUP-ID=\"g\",NAME=\"n\"",
            Reason::InvalidAttribute
        ))
    );
    assert_eq!(
        parse_tag("#EXT-X-MEDIA:TYPE=VIDEO,NAME=\"n\""),
        Err(malformed("EXT-X-MEDIA", "TYPE=VIDEO,NAME=\"n\"", Reason::MissingAttribute))
    );
}

#[test]
fn error_messages() {
    assert_eq!(ParseError::InvalidEncoding.message(), "invalid encoding");
    assert_eq!(ParseError::AmbiguousPlaylistType.message(), "ambiguous playlist type");
    assert_eq!(
        ParseError::UnassociatedVariantAttributes.message(),
        "unassociated variant attributes"
    );
    assert_eq!(
        malformed("EXTINF", "x", Reason::InvalidDecimal).message(),
        "malformed tag: EXTINF"
    );
    assert_eq!(
        ParseError::MalformedAttributeList { raw_payload: "A=\"".to_string() }.message(),
        "malformed attribute list: A=\""
    );
    assert_eq!(
        ParseError::UnresolvedVariable { name: "v".to_string() }.message(),
        "unresolved variable: v"
    );
    assert_eq!(
        ParseError::UnsupportedFeature { name: "QUERYPARAM".to_string() }.message(),
        "unsupported feature: QUERYPARAM"
    );
    assert!(malformed("EXTINF", "x", Reason::InvalidDecimal).is_tag_local());
    assert!(!ParseError::InvalidEncoding.is_tag_local());
}
