use vop_download::key::{KeyDescriptor, M3u8EncryptKey};
use vop_download::ledger::{
    entry_for, parse_source, pending_descriptor, pending_key, read_data_to_queue,
};
use vop_download::playlist::MediaSegment;
use vop_download::types::{
    DownloadError, DownloadInfoContext, DownloadInfoDetail, DownloadSourceInfo, DownloadTaskInfo,
};

fn task() -> DownloadTaskInfo {
    DownloadTaskInfo {
        id: "t1".to_string(),
        movie_name: "movie".to_string(),
        url: "https://example.com/a/b/index.m3u8".to_string(),
        sub_title_name: "ep1".to_string(),
        status: "parseSource".to_string(),
        download_count: 0,
        count: None,
        download_status: "wait".to_string(),
        save_path: "/data".to_string(),
    }
}

fn segments(uris: &[&str]) -> Vec<MediaSegment> {
    uris.iter().map(|u| MediaSegment { uri: u.to_string(), key: None }).collect()
}

fn names(list: &[DownloadInfoDetail]) -> Vec<String> {
    list.iter().map(|d| d.file_name.clone()).collect()
}

#[test]
fn context_paths_follow_the_layout() {
    let ctx = DownloadInfoContext::new(&task()).unwrap();
    assert_eq!(ctx.index_path, "/data/movie/ep1/ep1.txt");
    assert_eq!(ctx.json_path, "/data/movie/ep1/ep1.json");
    assert_eq!(ctx.json_success_path, "/data/movie/ep1/ep1_success.json");
    assert_eq!(ctx.ts_path, "/data/movie/ep1/ts");
    assert_eq!(ctx.mes_type, "statusChange");
    assert_eq!(ctx.url, "https://example.com/a/b/index.m3u8");
    assert_eq!(ctx.id, "t1");
    assert_eq!(ctx.status, "parseSource");
}

#[test]
fn context_is_the_same_for_the_same_descriptor() {
    let a = DownloadInfoContext::new(&task()).unwrap();
    let b = DownloadInfoContext::new(&task()).unwrap();
    assert_eq!(a.index_path, b.index_path);
    assert_eq!(a.json_path, b.json_path);
    assert_eq!(a.json_success_path, b.json_success_path);
    assert_eq!(a.ts_path, b.ts_path);
}

#[test]
fn context_holds_the_parsed_address() {
    let mut t = task();
    t.url = "HTTPS://Example.COM".to_string();
    let ctx = DownloadInfoContext::new(&t).unwrap();
    assert_eq!(ctx.url, "https://example.com/");
}

#[test]
fn context_refuses_a_text_that_is_no_address() {
    let mut t = task();
    t.url = "not an address".to_string();
    assert_eq!(DownloadInfoContext::new(&t).err(), Some(DownloadError::BadUrl));
}

#[test]
fn parse_source_enters_every_segment_without_a_log() {
    let ctx = DownloadInfoContext::new(&task()).unwrap();
    let segs = segments(&["seg0.ts", "seg1.ts", "../c/seg2.ts", "https://cdn.example.org/x/seg3.ts"]);
    let plan = parse_source(&ctx, &segs, None, M3u8EncryptKey::default(), "linux").unwrap();
    let list = &plan.source_info.download_info_list;
    assert_eq!(list.len(), 4);
    assert_eq!(list[0].id, 0);
    assert_eq!(list[0].url, "https://example.com/a/b/seg0.ts");
    assert_eq!(list[0].file_name, "/data/movie/ep1/ts/seg0.ts");
    assert_eq!(list[0].data, None);
    assert!(!list[0].success);
    assert_eq!(list[2].url, "https://example.com/a/c/seg2.ts");
    assert_eq!(list[2].file_name, "/data/movie/ep1/ts/seg2.ts");
    assert_eq!(list[3].id, 3);
    assert_eq!(list[3].url, "https://cdn.example.org/x/seg3.ts");
    assert_eq!(plan.source_info.id, "t1");
    assert_eq!(
        plan.index_text,
        "file /data/movie/ep1/ts/seg0.ts \nfile /data/movie/ep1/ts/seg1.ts \nfile /data/movie/ep1/ts/seg2.ts \nfile /data/movie/ep1/ts/seg3.ts \n"
    );
    assert_eq!(plan.response.id, "t1");
    assert_eq!(plan.response.status, "downloadSlice");
    assert_eq!(plan.response.count, Some(4));
    assert_eq!(plan.response.download_count, None);
    assert_eq!(plan.response.download_status, Some("downloading".to_string()));
    assert_eq!(plan.response.mes_type, "parseSourceEnd");
}

#[test]
fn parse_source_skips_what_the_log_lists() {
    let ctx = DownloadInfoContext::new(&task()).unwrap();
    let segs = segments(&["seg0.ts", "seg1.ts", "seg2.ts", "seg3.ts"]);
    let log = "/data/movie/ep1/ts/seg1.ts\r\n/data/movie/ep1/ts/seg3.ts\r\n";
    let plan = parse_source(&ctx, &segs, Some(log), M3u8EncryptKey::default(), "linux").unwrap();
    let list = &plan.source_info.download_info_list;
    assert_eq!(names(list), vec!["/data/movie/ep1/ts/seg0.ts", "/data/movie/ep1/ts/seg2.ts"]);
    assert_eq!(list[0].id, 0);
    assert_eq!(list[1].id, 2);
    assert_eq!(plan.response.count, Some(4));
    assert_eq!(
        plan.index_text,
        "file /data/movie/ep1/ts/seg0.ts \nfile /data/movie/ep1/ts/seg2.ts \n"
    );
}

#[test]
fn a_name_is_listed_only_as_a_whole_line() {
    let ctx = DownloadInfoContext::new(&task()).unwrap();
    let segs = segments(&["seg1.ts"]);
    let log = "/data/movie/ep1/ts/seg1.tsx\nx/data/movie/ep1/ts/seg1.ts\n";
    let plan = parse_source(&ctx, &segs, Some(log), M3u8EncryptKey::default(), "linux").unwrap();
    assert_eq!(plan.source_info.download_info_list.len(), 1);
    let log = "/data/movie/ep1/ts/seg1.tsx\n/data/movie/ep1/ts/seg1.ts";
    let plan = parse_source(&ctx, &segs, Some(log), M3u8EncryptKey::default(), "linux").unwrap();
    assert_eq!(plan.source_info.download_info_list.len(), 0);
}

#[test]
fn resume_is_idempotent() {
    let ctx = DownloadInfoContext::new(&task()).unwrap();
    let segs = segments(&["seg0.ts", "seg1.ts", "seg2.ts", "seg3.ts", "seg4.ts"]);
    let log = "/data/movie/ep1/ts/seg0.ts\r\n/data/movie/ep1/ts/seg4.ts\r\n";
    let once = parse_source(&ctx, &segs, Some(log), M3u8EncryptKey::default(), "linux").unwrap();
    let twice = parse_source(&ctx, &segs, Some(log), M3u8EncryptKey::default(), "linux").unwrap();
    let all = parse_source(&ctx, &segs, None, M3u8EncryptKey::default(), "linux").unwrap();
    let a = names(&once.source_info.download_info_list);
    let b = names(&twice.source_info.download_info_list);
    assert_eq!(a, b);
    let expected: Vec<String> = names(&all.source_info.download_info_list)
        .into_iter()
        .filter(|n| n != "/data/movie/ep1/ts/seg0.ts" && n != "/data/movie/ep1/ts/seg4.ts")
        .collect();
    assert_eq!(a, expected);
    assert_eq!(a.len(), 3);
    assert_eq!(once.index_text, twice.index_text);
}

#[test]
fn parse_source_refuses_a_segment_without_a_name() {
    let ctx = DownloadInfoContext::new(&task()).unwrap();
    for uri in ["", "/", "..", "a/..", "a/../", ".", "./", "/.", "./.", "//./"] {
        let segs = segments(&["seg0.ts", uri]);
        let r = parse_source(&ctx, &segs, None, M3u8EncryptKey::default(), "linux");
        assert_eq!(r.err(), Some(DownloadError::UnnamedSegment));
    }
}

#[test]
fn parse_source_names_a_segment_by_its_last_component() {
    let ctx = DownloadInfoContext::new(&task()).unwrap();
    let uris = [
        "x/y/seg0.ts",
        "dir/seg1.ts//",
        "seg2.ts?token=a/b",
        "dir/seg3.ts/.",
        "seg4.ts/./",
        "a/seg5.ts/.//./",
        "a/.seg6",
        "a/seg7.",
        "a/..seg8",
    ];
    let segs = segments(&uris);
    let plan = parse_source(&ctx, &segs, None, M3u8EncryptKey::default(), "linux").unwrap();
    let expected: Vec<String> = uris
        .iter()
        .map(|u| {
            let name = std::path::Path::new(u).file_name().unwrap().to_str().unwrap();
            format!("/data/movie/ep1/ts/{}", name)
        })
        .collect();
    assert_eq!(names(&plan.source_info.download_info_list), expected);
    assert_eq!(expected[1], "/data/movie/ep1/ts/seg1.ts");
    assert_eq!(expected[2], "/data/movie/ep1/ts/b");
    assert_eq!(expected[3], "/data/movie/ep1/ts/seg3.ts");
    assert_eq!(expected[5], "/data/movie/ep1/ts/seg5.ts");
    assert_eq!(expected[7], "/data/movie/ep1/ts/seg7.");
}

#[test]
fn parse_source_refuses_an_address_that_does_not_resolve() {
    let ctx = DownloadInfoContext::new(&task()).unwrap();
    let segs = segments(&["https://exa mple.com/seg0.ts"]);
    let r = parse_source(&ctx, &segs, None, M3u8EncryptKey::default(), "linux");
    assert_eq!(r.err(), Some(DownloadError::BadUrl));
}

#[test]
fn parse_source_shows_index_paths_for_windows() {
    let mut t = task();
    t.save_path = "\\\\?\\C:\\data".to_string();
    let ctx = DownloadInfoContext::new(&t).unwrap();
    let segs = segments(&["seg0.ts"]);
    let plan = parse_source(&ctx, &segs, None, M3u8EncryptKey::default(), "windows").unwrap();
    assert_eq!(plan.index_text, "file C:/data/movie/ep1/ts/seg0.ts \n");
    assert_eq!(
        plan.source_info.download_info_list[0].file_name,
        "\\\\?\\C:\\data/movie/ep1/ts/seg0.ts"
    );
}

#[test]
fn pending_key_is_the_last_pending_segment_with_a_key() {
    let ctx = DownloadInfoContext::new(&task()).unwrap();
    let key = |uri: &str| {
        Some(KeyDescriptor { method: "AES-128".to_string(), uri: Some(uri.to_string()), iv: None })
    };
    let segs = vec![
        MediaSegment { uri: "seg0.ts".to_string(), key: key("k0") },
        MediaSegment { uri: "seg1.ts".to_string(), key: None },
        MediaSegment { uri: "seg2.ts".to_string(), key: key("k2") },
        MediaSegment { uri: "seg3.ts".to_string(), key: None },
    ];
    assert_eq!(pending_key(&ctx, &segs, None), Some(2));
    assert_eq!(pending_key(&ctx, &segs, Some("/data/movie/ep1/ts/seg2.ts\r\n")), Some(0));
    assert_eq!(
        pending_key(
            &ctx,
            &segs,
            Some("/data/movie/ep1/ts/seg2.ts\r\n/data/movie/ep1/ts/seg0.ts\r\n")
        ),
        None
    );
    assert_eq!(pending_key(&ctx, &segments(&["a.ts"]), None), None);
}

fn manifest(files: &[&str]) -> DownloadSourceInfo {
    DownloadSourceInfo {
        id: "t1".to_string(),
        m3u8_encrypt_key: M3u8EncryptKey::default(),
        download_info_list: files
            .iter()
            .enumerate()
            .map(|(i, f)| DownloadInfoDetail {
                id: i,
                url: format!("https://example.com/{}", i),
                file_name: f.to_string(),
                data: None,
                success: false,
            })
            .collect(),
    }
}

#[test]
fn read_queue_keeps_manifest_order() {
    let m = manifest(&["/ts/a.ts", "/ts/b.ts", "/ts/c.ts"]);
    let q = read_data_to_queue(&m, None);
    let a = q.pop().unwrap();
    assert_eq!((a.id, a.file_name.as_str(), a.url.as_str()), (0, "/ts/a.ts", "https://example.com/0"));
    let b = q.pop().unwrap();
    assert_eq!((b.id, b.file_name.as_str()), (1, "/ts/b.ts"));
    let c = q.pop().unwrap();
    assert_eq!((c.id, c.file_name.as_str()), (2, "/ts/c.ts"));
    assert!(q.pop().is_none());
}

#[test]
fn read_queue_is_a_set_difference() {
    let m = manifest(&["/ts/a.ts", "/ts/b.ts", "/ts/c.ts"]);
    let log = "/ts/b.ts\r\n";
    let q = read_data_to_queue(&m, Some(log));
    let mut first = Vec::new();
    while let Some(d) = q.pop() {
        first.push(d.file_name);
    }
    assert_eq!(first, vec!["/ts/a.ts", "/ts/c.ts"]);
    let q = read_data_to_queue(&m, Some(log));
    let mut second = Vec::new();
    while let Some(d) = q.pop() {
        second.push(d.file_name);
    }
    assert_eq!(first, second);
    let q = read_data_to_queue(&m, Some(""));
    assert_eq!(q.len(), 3);
    let q = read_data_to_queue(&manifest(&[]), None);
    assert!(q.is_empty());
}

#[test]
fn an_empty_manifest_is_empty() {
    let s = DownloadSourceInfo::new();
    assert_eq!(s.id, "");
    assert!(s.download_info_list.is_empty());
    assert!(s.m3u8_encrypt_key.key.is_empty());
}

#[test]
fn an_entry_needs_a_resolved_address() {
    let d = entry_for(3, "/ts/a.ts".to_string(), Some("https://example.com/a.ts".to_string()))
        .unwrap();
    assert_eq!(d.id, 3);
    assert_eq!(d.url, "https://example.com/a.ts");
    assert_eq!(d.file_name, "/ts/a.ts");
    assert_eq!(d.data, None);
    assert!(!d.success);
    assert_eq!(entry_for(3, "/ts/a.ts".to_string(), None).err(), Some(DownloadError::BadUrl));
}

#[test]
fn a_context_is_derived_from_a_parsed_address() {
    let ctx = DownloadInfoContext::from_parts(&task(), "https://other.example/x".to_string());
    assert_eq!(ctx.url, "https://other.example/x");
    assert_eq!(ctx.id, "t1");
    assert_eq!(ctx.movie_name, "movie");
    assert_eq!(ctx.sub_title_name, "ep1");
    assert_eq!(ctx.download_status, "wait");
    assert_eq!(ctx.download_count, 0);
    assert_eq!(ctx.count, None);
    assert_eq!(ctx.index_path, "/data/movie/ep1/ep1.txt");
    assert_eq!(ctx.ts_path, "/data/movie/ep1/ts");
}

#[test]
fn an_empty_log_lists_nothing() {
    let ctx = DownloadInfoContext::new(&task()).unwrap();
    let segs = segments(&["seg0.ts", "seg1.ts"]);
    let with = parse_source(&ctx, &segs, Some(""), M3u8EncryptKey::default(), "linux").unwrap();
    let without = parse_source(&ctx, &segs, None, M3u8EncryptKey::default(), "linux").unwrap();
    assert_eq!(
        names(&with.source_info.download_info_list),
        names(&without.source_info.download_info_list)
    );
    assert_eq!(with.index_text, without.index_text);
}

#[test]
fn a_nameless_segment_is_one_that_std_does_not_name() {
    let ctx = DownloadInfoContext::new(&task()).unwrap();
    for uri in ["", "/", "..", "a/..", ".", "./", "/.", "a", "a/", "a/.", "a/b/..", "..a", "a./."] {
        let named = std::path::Path::new(uri).file_name().is_some();
        let r = parse_source(&ctx, &segments(&[uri]), None, M3u8EncryptKey::default(), "linux");
        assert_eq!(r.is_ok(), named, "{}", uri);
    }
}

#[test]
fn the_pending_descriptor_is_the_one_of_the_key_holder() {
    let ctx = DownloadInfoContext::new(&task()).unwrap();
    let key = |uri: &str| {
        Some(KeyDescriptor { method: "AES-128".to_string(), uri: Some(uri.to_string()), iv: None })
    };
    let segs = vec![
        MediaSegment { uri: "seg0.ts".to_string(), key: key("k0") },
        MediaSegment { uri: "seg1.ts".to_string(), key: key("k1") },
        MediaSegment { uri: "seg2.ts".to_string(), key: None },
    ];
    let d = pending_descriptor(&ctx, &segs, None).unwrap();
    assert_eq!(d.uri.as_deref(), Some("k1"));
    let d = pending_descriptor(&ctx, &segs, Some("/data/movie/ep1/ts/seg1.ts\r\n")).unwrap();
    assert_eq!(d.uri.as_deref(), Some("k0"));
    assert!(pending_descriptor(&ctx, &segments(&["a.ts"]), None).is_none());
}
