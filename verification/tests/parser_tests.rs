use m3u8_downloader_core::parser::{
    check_playlist_url, parse_iv, playlist_step, resolve_url, select_best_variant, ParseError,
    PlaylistStep, RawVariant,
};

const MASTER: &str = "#EXTM3U\n\
#EXT-X-STREAM-INF:BANDWIDTH=800000\n\
low/index.m3u8\n\
#EXT-X-STREAM-INF:BANDWIDTH=2500000\n\
high/index.m3u8\n\
#EXT-X-STREAM-INF:BANDWIDTH=1200000\n\
mid/index.m3u8\n";

const MEDIA: &str = "#EXTM3U\n\
#EXT-X-VERSION:3\n\
#EXT-X-TARGETDURATION:10\n\
#EXT-X-MEDIA-SEQUENCE:5\n\
#EXT-X-KEY:METHOD=AES-128,URI=\"key.bin\"\n\
#EXTINF:9.5,\n\
seg0.ts\n\
#EXTINF:9.5,\n\
https://cdn.example.com/seg1.ts\n\
#EXT-X-KEY:METHOD=AES-128,URI=\"https://keys.example.com/k2\",IV=0x000102030405060708090a0b0c0d0e0f\n\
#EXTINF:4.0,\n\
seg2.ts\n\
#EXT-X-KEY:METHOD=NONE,IV=0x0\n\
#EXTINF:3.0,\n\
seg3.ts\n\
#EXT-X-ENDLIST\n";

#[test]
fn master_playlist_follows_highest_bandwidth() {
    let step = playlist_step("https://example.com/live/master.m3u8", MASTER).unwrap();
    match step {
        PlaylistStep::FetchVariant(u) => assert_eq!(u, "https://example.com/live/high/index.m3u8"),
        PlaylistStep::Media(_) => panic!("expected a variant"),
    }
}

#[test]
fn media_playlist_segments_keys_and_ivs() {
    let step = playlist_step("https://example.com/live/index.m3u8", MEDIA).unwrap();
    let p = match step {
        PlaylistStep::Media(p) => p,
        PlaylistStep::FetchVariant(_) => panic!("expected media"),
    };
    assert!(!p.is_master);
    assert_eq!(p.segments.len(), 4);
    // relative URIs are joined onto the playlist URL, absolute ones kept
    assert_eq!(p.segments[0].url, "https://example.com/live/seg0.ts");
    assert_eq!(p.segments[1].url, "https://cdn.example.com/seg1.ts");
    // numbered from the media sequence
    let idx: Vec<u64> = p.segments.iter().map(|s| s.index).collect();
    assert_eq!(idx, vec![5, 6, 7, 8]);
    assert_eq!(f32::from_bits(p.segments[0].duration_bits), 9.5);
    // the first key carries over to the second segment, with the sequence
    // number as IV
    let k0 = p.segments[0].key_info.as_ref().unwrap();
    assert_eq!(k0.uri, "https://example.com/live/key.bin");
    assert!(k0.key.is_none());
    let mut iv5 = vec![0u8; 16];
    iv5[15] = 5;
    assert_eq!(k0.iv.as_ref().unwrap(), &iv5);
    let k1 = p.segments[1].key_info.as_ref().unwrap();
    assert_eq!(k1.uri, "https://example.com/live/key.bin");
    let mut iv6 = vec![0u8; 16];
    iv6[15] = 6;
    assert_eq!(k1.iv.as_ref().unwrap(), &iv6);
    // an explicit IV is used as written
    let k2 = p.segments[2].key_info.as_ref().unwrap();
    assert_eq!(k2.uri, "https://keys.example.com/k2");
    assert_eq!(k2.iv.as_ref().unwrap(), &(0u8..16).collect::<Vec<u8>>());
    // METHOD=NONE ends encryption
    assert!(p.segments[3].key_info.is_none());
}

#[test]
fn empty_master_playlist_is_an_error() {
    let body = "#EXTM3U\n#EXT-X-INDEPENDENT-SEGMENTS\n#EXT-X-STREAM-INF:BANDWIDTH=1\n";
    // a master tag with no URI line yields no variant streams
    match playlist_step("https://example.com/m.m3u8", body) {
        Err(ParseError::Parse(m)) => assert_eq!(m, "Master playlist 中无可用流"),
        Ok(PlaylistStep::FetchVariant(u)) => assert!(!u.is_empty()),
        other => panic!("unexpected: {:?}", other.is_ok()),
    }
}

#[test]
fn garbage_is_a_parse_error() {
    match playlist_step("https://example.com/x.m3u8", "this is not a playlist") {
        Err(ParseError::Parse(m)) => assert!(!m.is_empty()),
        _ => panic!("expected a parse error"),
    }
}

#[test]
fn invalid_playlist_url_is_rejected() {
    match check_playlist_url("not a url") {
        Err(ParseError::InvalidUrl(m)) => assert!(!m.is_empty()),
        _ => panic!("expected InvalidUrl"),
    }
    assert!(check_playlist_url("https://example.com/a.m3u8").is_ok());
}

#[test]
fn resolve_url_cases() {
    assert_eq!(resolve_url("https://a.com/x/y.m3u8", "http://b.com/z.ts").unwrap(), "http://b.com/z.ts");
    assert_eq!(resolve_url("https://a.com/x/y.m3u8", "z.ts").unwrap(), "https://a.com/x/z.ts");
    assert_eq!(resolve_url("https://a.com/x/y.m3u8", "/root.ts").unwrap(), "https://a.com/root.ts");
    match resolve_url("not a base", "z.ts") {
        Err(ParseError::InvalidUrl(_)) => {}
        _ => panic!("expected InvalidUrl"),
    }
}

#[test]
fn parse_iv_cases() {
    let mut one = vec![0u8; 16];
    one[15] = 1;
    assert_eq!(parse_iv("0x00000000000000000000000000000001"), one);
    assert_eq!(parse_iv("0X1"), one);
    assert_eq!(parse_iv("1"), one);
    // not hex: sixteen zero bytes
    assert_eq!(parse_iv("0xZZ"), vec![0u8; 16]);
    // longer than 32 digits decodes as is
    assert_eq!(parse_iv("0x0000000000000000000000000000000001").len(), 17);
}

#[test]
fn best_variant_prefers_the_last_of_equal_bandwidths() {
    let vs = vec![
        RawVariant { uri: "a".into(), bandwidth: 5 },
        RawVariant { uri: "b".into(), bandwidth: 9 },
        RawVariant { uri: "c".into(), bandwidth: 9 },
        RawVariant { uri: "d".into(), bandwidth: 1 },
    ];
    assert_eq!(select_best_variant(&vs), Some(2));
    assert_eq!(select_best_variant(&Vec::new()), None);
}
