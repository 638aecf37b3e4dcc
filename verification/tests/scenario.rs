use vop_download::control::bookkeeping_update;
use vop_download::key::M3u8EncryptKey;
use vop_download::ledger::{parse_source, pending_key};
use vop_download::machine::{check_source, M3u8Download};
use vop_download::merge::{clear_download_fail_ts, index_paths, merge_finished, merger};
use vop_download::playlist::{parse_m3u8, PlaylistStep};
use vop_download::pool::{download_ts, SliceRun};
use vop_download::types::{DownloadOperation, DownloadTaskInfo};

const MEDIA: &str = "#EXTM3U\n#EXT-X-VERSION:3\n#EXT-X-TARGETDURATION:10\n#EXT-X-MEDIA-SEQUENCE:0\n#EXTINF:10.0,\nseg0.ts\n#EXTINF:10.0,\nseg1.ts\n#EXTINF:10.0,\nseg2.ts\n#EXTINF:10.0,\nseg3.ts\n#EXT-X-ENDLIST\n";

#[test]
fn four_segments_from_playlist_to_merged_file() {
    let task = DownloadTaskInfo {
        id: "t1".to_string(),
        movie_name: "movie".to_string(),
        url: "https://example.com/a/index.m3u8".to_string(),
        sub_title_name: "ep1".to_string(),
        status: "parseSource".to_string(),
        download_count: 0,
        count: None,
        download_status: "wait".to_string(),
        save_path: "/data".to_string(),
    };
    let mut download = M3u8Download::new(&task).unwrap();
    let mut sent = Vec::new();
    let mut disk: Vec<(String, Vec<u8>)> = Vec::new();
    let mut success_log = String::new();
    let mut index = String::new();
    let mut stored = None;

    let step = download.start_download();
    assert_eq!(step.next, Some(DownloadOperation::ParseSource));

    let segments = match parse_m3u8(&mut download.download_info_context, MEDIA.as_bytes()) {
        Ok(PlaylistStep::Segments(s)) => s,
        other => panic!("unexpected {:?}", other),
    };
    assert_eq!(pending_key(&download.download_info_context, &segments, None), None);
    let plan = parse_source(
        &download.download_info_context,
        &segments,
        None,
        M3u8EncryptKey::default(),
        "linux",
    )
    .unwrap();
    index.push_str(&plan.index_text);
    let manifest = plan.source_info;
    let step = download.advance(Ok(plan.response));
    assert_eq!(step.next, Some(DownloadOperation::DownloadSlice));
    assert_eq!(step.messages.len(), 1);
    assert_eq!(step.messages[0].mes_type, "parseSourceEnd");
    assert_eq!(step.messages[0].count, Some(4));
    assert_eq!(bookkeeping_update(&step.messages[0]).count, Some(4));
    sent.extend(step.messages);

    let mut run =
        SliceRun::begin(&manifest, Some(""), download.download_info_context.download_count);
    loop {
        while let Some(_) = run.next_fetch() {}
        if run.in_flight.is_empty() {
            break;
        }
        let item = &run.in_flight[0];
        let (id, file) = (item.id, item.file_name.clone());
        let body = format!("payload of {}", item.url).into_bytes();
        let (ok, data) = download_ts(true, body, &item.m3u8_encrypt_key);
        assert!(ok);
        disk.push((file, data));
        assert!(run.record(id, ok, true));
    }
    let progress = run.tick();
    success_log.push_str(&progress.batch);
    assert_eq!(progress.response.mes_type, "progress");
    assert_eq!(progress.response.download_count, Some(4));
    sent.push(progress.response);
    let end = run.finish();
    success_log.push_str(&end.batch);
    assert_eq!(end.batch, "");
    let manifest = end.source_info;
    let step = download.advance(Ok(end.response));
    assert_eq!(step.next, Some(DownloadOperation::CheckSource));
    assert_eq!(step.messages[0].mes_type, "downloadSliceEnd");
    assert_eq!(download.download_info_context.download_count, 4);
    sent.extend(step.messages);
    assert_eq!(disk.len(), 4);
    assert_eq!(disk[2].0, "/data/movie/ep1/ts/seg2.ts");
    assert_eq!(disk[2].1, b"payload of https://example.com/a/seg2.ts".to_vec());
    assert_eq!(
        success_log,
        "/data/movie/ep1/ts/seg0.ts\r\n/data/movie/ep1/ts/seg1.ts\r\n/data/movie/ep1/ts/seg2.ts\r\n/data/movie/ep1/ts/seg3.ts\r\n"
    );

    assert!(manifest.download_info_list.is_empty());
    let check = check_source(&download.download_info_context, &manifest);
    assert_eq!(check.delay_secs, 0);
    let step = download.advance(Ok(check.response));
    assert_eq!(step.next, Some(DownloadOperation::Merger));
    assert_eq!(step.messages[0].mes_type, "checkSourceEnd");
    assert_eq!(step.messages[0].status, "merger");
    sent.extend(step.messages);

    let paths = index_paths(&index);
    let exists: Vec<bool> = paths.iter().map(|p| disk.iter().any(|f| &f.0 == p)).collect();
    assert_eq!(exists, vec![true; 4]);
    assert_eq!(clear_download_fail_ts(&index, &exists), index);
    let command = merger(&download.download_info_context, "linux", "/opt/app");
    assert_eq!(command.args[6], "/data/movie/ep1/ep1.txt");
    assert_eq!(command.output, "/data/movie/ep1/ep1.mp4");
    let merged = merge_finished(&download.download_info_context, true, String::new()).ok().unwrap();
    stored.replace(bookkeeping_update(&merged.response));
    let step = download.advance(Ok(merged.response));
    assert_eq!(step.next, None);
    sent.extend(step.messages);

    let last = sent.last().unwrap();
    assert_eq!(last.download_status, Some("downloadSuccess".to_string()));
    assert_eq!(last.mes_type, "end");
    let kinds: Vec<&str> = sent.iter().map(|m| m.mes_type.as_str()).collect();
    assert_eq!(
        kinds,
        vec!["parseSourceEnd", "progress", "downloadSliceEnd", "checkSourceEnd", "end"]
    );
    let stored = stored.unwrap();
    assert_eq!(stored.status, Some("downloadEnd".to_string()));
    assert_eq!(stored.download_status, Some("downloadSuccess".to_string()));
    assert_eq!(merged.cleanup.delay_secs, 20);
    assert_eq!(merged.cleanup.ts_dir, "/data/movie/ep1/ts");
    assert_eq!(
        merged.cleanup.files,
        vec![
            "/data/movie/ep1/ep1.json",
            "/data/movie/ep1/ep1.txt",
            "/data/movie/ep1/ep1_success.json"
        ]
    );
}

#[test]
fn an_interrupted_download_resumes_without_refetching() {
    let task = DownloadTaskInfo {
        id: "t2".to_string(),
        movie_name: "movie".to_string(),
        url: "https://example.com/a/index.m3u8".to_string(),
        sub_title_name: "ep2".to_string(),
        status: "parseSource".to_string(),
        download_count: 0,
        count: None,
        download_status: "wait".to_string(),
        save_path: "/data".to_string(),
    };
    let mut download = M3u8Download::new(&task).unwrap();
    let segments = match parse_m3u8(&mut download.download_info_context, MEDIA.as_bytes()) {
        Ok(PlaylistStep::Segments(s)) => s,
        other => panic!("unexpected {:?}", other),
    };
    let ctx = &download.download_info_context;
    let plan = parse_source(ctx, &segments, None, M3u8EncryptKey::default(), "linux").unwrap();
    let mut run = SliceRun::begin(&plan.source_info, None, 0);
    let mut fetched = Vec::new();
    while let Some(item) = run.next_fetch() {
        fetched.push(item.id);
    }
    run.record(0, true, true);
    run.record(1, false, false);
    run.record(2, true, true);
    let log = run.tick().batch;
    let end = run.finish();
    assert_eq!(end.download_count, 2);
    assert_eq!(end.source_info.download_info_list.len(), 2);

    let again = parse_source(ctx, &segments, Some(&log), M3u8EncryptKey::default(), "linux").unwrap();
    let left: Vec<usize> = again.source_info.download_info_list.iter().map(|d| d.id).collect();
    assert_eq!(left, vec![1, 3]);
    assert_eq!(again.response.count, Some(4));
    let mut run = SliceRun::begin(&again.source_info, Some(&log), end.download_count);
    let mut refetched = Vec::new();
    while let Some(item) = run.next_fetch() {
        refetched.push(item.id);
    }
    assert_eq!(refetched, vec![1, 3]);
    run.record(1, true, true);
    run.record(3, true, true);
    let end = run.finish();
    assert_eq!(end.download_count, 4);
    assert!(end.source_info.download_info_list.is_empty());
    assert_eq!(end.batch, "/data/movie/ep2/ts/seg1.ts\r\n/data/movie/ep2/ts/seg3.ts\r\n");
}
