//! The control channel's decisions: what a request asks for, what a request
//! to a server looks like and when its answer is taken, and what the
//! bookkeeping layer is told.

use crate::address::{base_of_url, url_base};
use crate::playlist::text_view;
use crate::pool::WriteJob;
use crate::text::same_text;
use crate::types::{
    DownloadError, DownloadInfoDetail, DownloadInfoResponse, DownloadRequest, DownloadTaskInfo,
};
use vstd::prelude::*;

verus! {

/// A task as it is kept by the bookkeeping layer.
#[derive(Debug)]
pub struct DownloadInfo {
    pub id: String,
    pub movie_name: String,
    pub url: String,
    pub sub_title_name: String,
    pub status: String,
    pub download_count: i32,
    pub count: i32,
    pub download_status: String,
    pub create_time: String,
    pub update_time: Option<String>,
}

/// What the bookkeeping layer is asked to change of a task: each field that
/// is present replaces the stored one.
#[derive(Debug)]
pub struct DownloadInfoUpdate {
    pub id: String,
    pub status: Option<String>,
    pub download_count: Option<i32>,
    pub count: Option<i32>,
    pub download_status: Option<String>,
}

/// What a request on the control channel asks for.
#[derive(Debug)]
pub enum ControlAction {
    /// Take one task from the submission queue and answer with it.
    PopQueued(String),
    /// Start or resume the download of the task it carries.
    StartDownload(DownloadTaskInfo),
    /// A download was asked for without a task.
    MissingTask,
    /// The message type is not one that is served.
    Ignore,
}

/// Reads a request: `get_download_info_by_queue` asks for a queued task,
/// `downloadVideo` for the download of the task it carries; any other
/// message type is passed over.
pub fn handle_client(request: DownloadRequest) -> (action: ControlAction)
    ensures
        match action {
            ControlAction::PopQueued(id) => request.messageType@ == "get_download_info_by_queue"@
                && id == request.id,
            ControlAction::StartDownload(task) => request.messageType@ == "downloadVideo"@
                && request.downloadTaskInfo == Some(task),
            ControlAction::MissingTask => request.messageType@ == "downloadVideo"@
                && request.downloadTaskInfo is None,
            ControlAction::Ignore => request.messageType@ != "get_download_info_by_queue"@
                && request.messageType@ != "downloadVideo"@,
        },
{
    if same_text(request.messageType.as_str(), "get_download_info_by_queue") {
        ControlAction::PopQueued(request.id)
    } else if same_text(request.messageType.as_str(), "downloadVideo") {
        match request.downloadTaskInfo {
            Some(task) => ControlAction::StartDownload(task),
            None => ControlAction::MissingTask,
        }
    } else {
        ControlAction::Ignore
    }
}

/// The answer to a request for a queued task: the request's identity, the
/// task taken from the queue if there was one, and the same message type.
pub fn queue_reply(id: String, task: Option<DownloadTaskInfo>) -> (reply: DownloadRequest)
    ensures
        reply.id == id,
        reply.downloadTaskInfo == task,
        reply.messageType@ == "get_download_info_by_queue"@,
{
    DownloadRequest {
        id,
        messageType: "get_download_info_by_queue".to_owned(),
        downloadTaskInfo: task,
    }
}

/// The task descriptor for a task of the bookkeeping layer, to be saved
/// under the given root.
pub fn download_info_to_download_task_info(download_info: DownloadInfo, save_path: String) -> (task:
    DownloadTaskInfo)
    ensures
        task.id == download_info.id,
        task.movie_name == download_info.movie_name,
        task.url == download_info.url,
        task.sub_title_name == download_info.sub_title_name,
        task.status == download_info.status,
        task.download_count == download_info.download_count,
        task.count == Some(download_info.count),
        task.download_status == download_info.download_status,
        task.save_path == save_path,
{
    DownloadTaskInfo {
        id: download_info.id,
        movie_name: download_info.movie_name,
        url: download_info.url,
        sub_title_name: download_info.sub_title_name,
        status: download_info.status,
        download_count: download_info.download_count,
        count: Some(download_info.count),
        download_status: download_info.download_status,
        save_path,
    }
}

/// A task of the bookkeeping layer after a merge on request: finished and
/// successful where the merge succeeded, unchanged where it failed.
pub fn movie_merger(download: DownloadInfo, merged: bool) -> (r: DownloadInfo)
    ensures
        merged ==> r.download_status@ == "downloadSuccess"@ && r.status@ == "downloadEnd"@ && r
            == (DownloadInfo { download_status: r.download_status, status: r.status, ..download }),
        !merged ==> r == download,
{
    if merged {
        let mut d = download;
        d.download_status = "downloadSuccess".to_owned();
        d.status = "downloadEnd".to_owned();
        d
    } else {
        download
    }
}

/// A number of segments as the bookkeeping layer stores it.
pub open spec fn stored_count(count: usize) -> i32 {
    if count <= i32::MAX {
        count as i32
    } else {
        i32::MAX
    }
}

/// What the bookkeeping layer is told when a message goes out: the phase
/// name, and the counts and the download status where the message carries
/// them.
pub fn bookkeeping_update(response: &DownloadInfoResponse) -> (update: DownloadInfoUpdate)
    ensures
        update.id@ == response.id@,
        update.status is Some && update.status->0@ == response.status@,
        update.download_count == response.download_count,
        update.count == match response.count {
            Some(c) => Some(stored_count(c)),
            None => None,
        },
        text_view(update.download_status) == text_view(
            response.download_status,
        ),
{
    DownloadInfoUpdate {
        id: response.id.clone(),
        status: Some(response.status.clone()),
        download_count: response.download_count,
        count: match response.count {
            Some(c) => Some(
                if c <= 2147483647 {
                    c as i32
                } else {
                    i32::MAX
                },
            ),
            None => None,
        },
        download_status: match &response.download_status {
            Some(s) => Some(s.clone()),
            None => None,
        },
    }
}

/// One header of a request.
#[derive(Debug)]
pub struct Header {
    pub name: String,
    pub value: String,
}

/// A request for a playlist or a key: the address and the headers to send.
#[derive(Debug)]
pub struct RequestPlan {
    pub url: String,
    pub headers: Vec<Header>,
}

/// The request for the given address, with `base` as the referer.
pub fn request_for(url: &str, base: String) -> (plan: RequestPlan)
    ensures
        plan.url@ == url@,
        plan.headers@.len() == 2,
        plan.headers@[0].name@ == "upgrade-insecure-requests"@,
        plan.headers@[0].value@ == "1"@,
        plan.headers@[1].name@ == "referer"@,
        plan.headers@[1].value == base,
{
    let mut headers: Vec<Header> = Vec::new();
    headers.push(Header { name: "upgrade-insecure-requests".to_owned(), value: "1".to_owned() });
    headers.push(Header { name: "referer".to_owned(), value: base });
    RequestPlan { url: url.to_owned(), headers }
}

/// Prepares the request for a playlist or a key. It asks for an upgrade of
/// insecure requests and names, as referer, the address without its path.
/// Fails exactly when the address does not parse.
pub fn download_request(url: &str) -> (r: Result<RequestPlan, DownloadError>)
    ensures
        match r {
            Ok(plan) => {
                &&& url_base(url@) is Some
                &&& plan.url@ == url@
                &&& plan.headers@.len() == 2
                &&& plan.headers@[0].name@ == "upgrade-insecure-requests"@
                &&& plan.headers@[0].value@ == "1"@
                &&& plan.headers@[1].name@ == "referer"@
                &&& plan.headers@[1].value@ == url_base(url@)->0
            },
            Err(e) => e == DownloadError::BadUrl && url_base(url@) is None,
        },
{
    match base_of_url(url) {
        None => Err(DownloadError::BadUrl),
        Some(base) => Ok(request_for(url, base)),
    }
}

/// The status that stands for OK.
pub const STATUS_OK: u16 = 200;

/// Takes the answer to a request for a playlist or a key: the body where
/// the status is OK, an error for any other status.
pub fn accept_response(status: u16, body: Vec<u8>) -> (r: Result<Vec<u8>, DownloadError>)
    ensures
        match r {
            Ok(b) => status == STATUS_OK && b == body,
            Err(e) => status != STATUS_OK && e == DownloadError::BadStatus,
        },
{
    if status == STATUS_OK {
        Ok(body)
    } else {
        Err(DownloadError::BadStatus)
    }
}

/// The write that saves a fetched segment: its file, and its payload in
/// full, or nothing where it carries none.
pub fn downloaded_file_save(p: DownloadInfoDetail) -> (job: WriteJob)
    ensures
        job.path == p.file_name,
        job.data@ == match p.data {
            Some(d) => d@,
            None => Seq::<u8>::empty(),
        },
{
    WriteJob {
        path: p.file_name,
        data: match p.data {
            Some(d) => d,
            None => Vec::new(),
        },
    }
}

} // verus!
