use vop_download::control::{
    accept_response, bookkeeping_update, download_info_to_download_task_info, download_request,
    downloaded_file_save, handle_client, movie_merger, queue_reply, request_for, ControlAction,
    DownloadInfo,
};
use vop_download::types::{
    DownloadError, DownloadInfoDetail, DownloadInfoResponse, DownloadRequest, DownloadTaskInfo,
};

fn task() -> DownloadTaskInfo {
    DownloadTaskInfo {
        id: "t1".to_string(),
        movie_name: "movie".to_string(),
        url: "https://example.com/a/index.m3u8".to_string(),
        sub_title_name: "ep1".to_string(),
        status: "parseSource".to_string(),
        download_count: 0,
        count: None,
        download_status: "wait".to_string(),
        save_path: "/data".to_string(),
    }
}

fn row() -> DownloadInfo {
    DownloadInfo {
        id: "t1".to_string(),
        movie_name: "movie".to_string(),
        url: "https://example.com/a/index.m3u8".to_string(),
        sub_title_name: "ep1".to_string(),
        status: "merger".to_string(),
        download_count: 3,
        count: 4,
        download_status: "downloading".to_string(),
        create_time: "2024-01-01 00:00:00".to_string(),
        update_time: None,
    }
}

fn request(message_type: &str, task: Option<DownloadTaskInfo>) -> DownloadRequest {
    DownloadRequest { id: "r9".to_string(), messageType: message_type.to_string(), downloadTaskInfo: task }
}

#[test]
fn a_request_for_a_download_starts_it() {
    match handle_client(request("downloadVideo", Some(task()))) {
        ControlAction::StartDownload(t) => {
            assert_eq!(t.id, "t1");
            assert_eq!(t.save_path, "/data");
        }
        other => panic!("unexpected {:?}", other),
    }
}

#[test]
fn a_request_for_a_queued_task_pops_one() {
    match handle_client(request("get_download_info_by_queue", None)) {
        ControlAction::PopQueued(id) => assert_eq!(id, "r9"),
        other => panic!("unexpected {:?}", other),
    }
    match handle_client(request("get_download_info_by_queue", Some(task()))) {
        ControlAction::PopQueued(id) => assert_eq!(id, "r9"),
        other => panic!("unexpected {:?}", other),
    }
}

#[test]
fn other_requests_are_passed_over() {
    assert!(matches!(handle_client(request("ping", Some(task()))), ControlAction::Ignore));
    assert!(matches!(handle_client(request("", None)), ControlAction::Ignore));
    assert!(matches!(handle_client(request("downloadvideo", None)), ControlAction::Ignore));
    assert!(matches!(handle_client(request("downloadVideo", None)), ControlAction::MissingTask));
}

#[test]
fn the_reply_carries_the_queued_task() {
    let reply = queue_reply("r9".to_string(), Some(task()));
    assert_eq!(reply.id, "r9");
    assert_eq!(reply.messageType, "get_download_info_by_queue");
    assert_eq!(reply.downloadTaskInfo.unwrap().id, "t1");
    let reply = queue_reply("r9".to_string(), None);
    assert!(reply.downloadTaskInfo.is_none());
}

#[test]
fn a_row_becomes_a_task() {
    let t = download_info_to_download_task_info(row(), "/save".to_string());
    assert_eq!(t.id, "t1");
    assert_eq!(t.movie_name, "movie");
    assert_eq!(t.url, "https://example.com/a/index.m3u8");
    assert_eq!(t.sub_title_name, "ep1");
    assert_eq!(t.status, "merger");
    assert_eq!(t.download_count, 3);
    assert_eq!(t.count, Some(4));
    assert_eq!(t.download_status, "downloading");
    assert_eq!(t.save_path, "/save");
}

#[test]
fn a_merge_on_request_finishes_the_row() {
    let r = movie_merger(row(), true);
    assert_eq!(r.status, "downloadEnd");
    assert_eq!(r.download_status, "downloadSuccess");
    assert_eq!(r.download_count, 3);
    assert_eq!(r.create_time, "2024-01-01 00:00:00");
    let r = movie_merger(row(), false);
    assert_eq!(r.status, "merger");
    assert_eq!(r.download_status, "downloading");
}

#[test]
fn the_bookkeeping_is_told_what_the_message_carries() {
    let u = bookkeeping_update(&DownloadInfoResponse {
        id: "t1".to_string(),
        status: "downloadSlice".to_string(),
        download_count: None,
        count: Some(4),
        download_status: Some("downloading".to_string()),
        mes_type: "parseSourceEnd".to_string(),
    });
    assert_eq!(u.id, "t1");
    assert_eq!(u.status, Some("downloadSlice".to_string()));
    assert_eq!(u.count, Some(4));
    assert_eq!(u.download_count, None);
    assert_eq!(u.download_status, Some("downloading".to_string()));
    let u = bookkeeping_update(&DownloadInfoResponse {
        id: "t1".to_string(),
        status: "checkSource".to_string(),
        download_count: Some(7),
        count: Some(usize::MAX),
        download_status: None,
        mes_type: "downloadSliceEnd".to_string(),
    });
    assert_eq!(u.count, Some(i32::MAX));
    assert_eq!(u.download_count, Some(7));
    assert_eq!(u.download_status, None);
}

#[test]
fn a_request_names_its_origin_as_referer() {
    let plan = download_request("https://example.com/a/b/index.m3u8?x=1").unwrap();
    assert_eq!(plan.url, "https://example.com/a/b/index.m3u8?x=1");
    assert_eq!(plan.headers.len(), 2);
    assert_eq!(plan.headers[0].name, "upgrade-insecure-requests");
    assert_eq!(plan.headers[0].value, "1");
    assert_eq!(plan.headers[1].name, "referer");
    assert_eq!(plan.headers[1].value, "https://example.com/?x=1");
    assert_eq!(download_request("no address").err(), Some(DownloadError::BadUrl));
}

#[test]
fn only_an_ok_answer_is_taken() {
    assert_eq!(accept_response(200, vec![1, 2]), Ok(vec![1, 2]));
    assert_eq!(accept_response(200, vec![]), Ok(vec![]));
    assert_eq!(accept_response(404, vec![1, 2]), Err(DownloadError::BadStatus));
    assert_eq!(accept_response(206, vec![1, 2]), Err(DownloadError::BadStatus));
    assert_eq!(accept_response(0, vec![]), Err(DownloadError::BadStatus));
}

#[test]
fn a_segment_is_written_whole() {
    let job = downloaded_file_save(DownloadInfoDetail {
        id: 0,
        url: "https://example.com/seg0.ts".to_string(),
        file_name: "/ts/seg0.ts".to_string(),
        data: Some(vec![9, 8, 7]),
        success: true,
    });
    assert_eq!(job.path, "/ts/seg0.ts");
    assert_eq!(job.data, vec![9, 8, 7]);
    let job = downloaded_file_save(DownloadInfoDetail {
        id: 0,
        url: String::new(),
        file_name: "/ts/seg1.ts".to_string(),
        data: None,
        success: false,
    });
    assert_eq!(job.data, Vec::<u8>::new());
}

#[test]
fn a_request_carries_two_headers() {
    let plan = request_for("https://example.com/a", "https://example.com/".to_string());
    assert_eq!(plan.url, "https://example.com/a");
    assert_eq!(plan.headers.len(), 2);
    assert_eq!(plan.headers[0].name, "upgrade-insecure-requests");
    assert_eq!(plan.headers[0].value, "1");
    assert_eq!(plan.headers[1].name, "referer");
    assert_eq!(plan.headers[1].value, "https://example.com/");
}
