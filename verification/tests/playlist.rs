use vop_download::playlist::{parse_m3u8, parse_variant, resolve_playlist, resolve_variant, Playlist, PlaylistStep};
use vop_download::types::{DownloadError, DownloadInfoContext, DownloadTaskInfo};

const MEDIA: &str = "#EXTM3U\n#EXT-X-VERSION:3\n#EXT-X-TARGETDURATION:10\n#EXT-X-MEDIA-SEQUENCE:0\n#EXTINF:10.0,\nseg0.ts\n#EXTINF:10.0,\nseg1.ts\n#EXTINF:10.0,\nseg2.ts\n#EXTINF:10.0,\nseg3.ts\n#EXT-X-ENDLIST\n";

const MASTER: &str = "#EXTM3U\n#EXT-X-STREAM-INF:BANDWIDTH=1280000\nlow/index.m3u8\n#EXT-X-STREAM-INF:BANDWIDTH=2560000\nhigh/index.m3u8\n";

const KEYED: &str = "#EXTM3U\n#EXT-X-VERSION:3\n#EXT-X-TARGETDURATION:10\n#EXT-X-KEY:METHOD=AES-128,URI=\"key.bin\",IV=0x000102030405060708090a0b0c0d0e0f\n#EXTINF:10.0,\nseg0.ts\n#EXTINF:10.0,\nseg1.ts\n#EXT-X-ENDLIST\n";

fn context() -> DownloadInfoContext {
    DownloadInfoContext::new(&DownloadTaskInfo {
        id: "t1".to_string(),
        movie_name: "movie".to_string(),
        url: "https://example.com/a/index.m3u8".to_string(),
        sub_title_name: "ep1".to_string(),
        status: "parseSource".to_string(),
        download_count: 0,
        count: None,
        download_status: "wait".to_string(),
        save_path: "/data".to_string(),
    })
    .unwrap()
}

#[test]
fn a_media_playlist_gives_its_segments() {
    let mut ctx = context();
    match parse_m3u8(&mut ctx, MEDIA.as_bytes()) {
        Ok(PlaylistStep::Segments(s)) => {
            let uris: Vec<&str> = s.iter().map(|x| x.uri.as_str()).collect();
            assert_eq!(uris, vec!["seg0.ts", "seg1.ts", "seg2.ts", "seg3.ts"]);
            assert!(s.iter().all(|x| x.key.is_none()));
        }
        other => panic!("unexpected {:?}", other),
    }
    assert_eq!(ctx.url, "https://example.com/a/index.m3u8");
}

#[test]
fn a_master_playlist_leads_to_its_first_variant() {
    let mut ctx = context();
    match parse_m3u8(&mut ctx, MASTER.as_bytes()) {
        Ok(PlaylistStep::FetchVariant(u)) => assert_eq!(u, "https://example.com/a/low/index.m3u8"),
        other => panic!("unexpected {:?}", other),
    }
    assert_eq!(ctx.url, "https://example.com/a/low/index.m3u8");
    assert_eq!(ctx.id, "t1");
    assert_eq!(ctx.ts_path, "/data/movie/ep1/ts");
}

#[test]
fn a_key_tag_is_attached_to_the_segment_behind_it() {
    let mut ctx = context();
    match parse_m3u8(&mut ctx, KEYED.as_bytes()) {
        Ok(PlaylistStep::Segments(s)) => {
            assert_eq!(s.len(), 2);
            let k = s[0].key.as_ref().unwrap();
            assert_eq!(k.method, "AES-128");
            assert_eq!(k.uri.as_deref(), Some("key.bin"));
            assert_eq!(k.iv.as_deref(), Some("0x000102030405060708090a0b0c0d0e0f"));
        }
        other => panic!("unexpected {:?}", other),
    }
}

#[test]
fn bytes_that_are_no_playlist_are_refused() {
    let mut ctx = context();
    assert_eq!(parse_m3u8(&mut ctx, b"<html></html>").err(), Some(DownloadError::PlaylistNotFound));
    assert_eq!(parse_m3u8(&mut ctx, b"").err(), Some(DownloadError::PlaylistNotFound));
    assert_eq!(parse_variant(b"nothing").err(), Some(DownloadError::PlaylistNotFound));
    assert_eq!(ctx.url, "https://example.com/a/index.m3u8");
}

#[test]
fn a_variant_must_be_a_media_playlist() {
    assert_eq!(parse_variant(MASTER.as_bytes()).err(), Some(DownloadError::NestedMaster));
    let s = parse_variant(MEDIA.as_bytes()).unwrap();
    assert_eq!(s.len(), 4);
    assert_eq!(s[3].uri, "seg3.ts");
}

#[test]
fn a_master_playlist_without_variants_is_refused() {
    let mut ctx = context();
    let r = resolve_playlist(&mut ctx, Some(Playlist::MasterPlaylist(vec![])));
    assert_eq!(r.err(), Some(DownloadError::NoVariant));
    let r = resolve_playlist(&mut ctx, None);
    assert_eq!(r.err(), Some(DownloadError::PlaylistNotFound));
    let r = resolve_playlist(&mut ctx, Some(Playlist::MasterPlaylist(vec!["https://exa mple.com/x".to_string()])));
    assert_eq!(r.err(), Some(DownloadError::BadUrl));
    assert_eq!(ctx.url, "https://example.com/a/index.m3u8");
    assert_eq!(resolve_variant(None).err(), Some(DownloadError::PlaylistNotFound));
    assert_eq!(
        resolve_variant(Some(Playlist::MasterPlaylist(vec!["a".to_string()]))).err(),
        Some(DownloadError::NestedMaster)
    );
    assert_eq!(resolve_variant(Some(Playlist::MediaPlaylist(vec![]))).unwrap().len(), 0);
}
