//! The data that travels between the caller, the phase machine and the
//! segment ledger.

use crate::key::{KeyView, M3u8EncryptKey};
use crate::text::{concat_text, join_path, joined, same_text};
use std::sync::Arc;
use crate::address::parse_url;
use crate::address::url_parse;
use vstd::prelude::*;

verus! {

/// One download job as the caller describes it.
#[derive(Debug)]
pub struct DownloadTaskInfo {
    pub id: String,
    pub movie_name: String,
    pub url: String,
    pub sub_title_name: String,
    /// Name of the phase the job is in.
    pub status: String,
    pub download_count: i32,
    pub count: Option<i32>,
    /// One of `wait`, `downloading`, `downloadFail`, `downloadSuccess`.
    pub download_status: String,
    pub save_path: String,
}

/// A message of the control channel.
#[allow(non_snake_case)]
#[derive(Debug)]
pub struct DownloadRequest {
    pub id: String,
    pub messageType: String,
    pub downloadTaskInfo: Option<DownloadTaskInfo>,
}

/// What a phase works on: the job's identity, its playlist address and the
/// four working paths derived from the save root and the two names.
#[derive(Debug)]
pub struct DownloadInfoContext {
    pub id: String,
    pub url: String,
    pub count: Option<i32>,
    pub download_count: i32,
    pub movie_name: String,
    pub sub_title_name: String,
    pub status: String,
    pub mes_type: String,
    pub download_status: String,
    pub index_path: String,
    pub json_path: String,
    pub json_success_path: String,
    pub ts_path: String,
}

/// The phases of a download.
#[derive(PartialEq, Eq, Structural, Clone, Copy, Debug)]
pub enum DownloadOperation {
    ParseSource,
    DownloadSlice,
    CheckSource,
    Merger,
    DownloadEnd,
    UnsupportedOperation,
}

/// What a phase reports when it ends, and what the caller is told.
#[derive(Debug)]
pub struct DownloadInfoResponse {
    pub id: String,
    /// Name of the phase that comes next.
    pub status: String,
    pub download_count: Option<i32>,
    pub count: Option<usize>,
    pub download_status: Option<String>,
    pub mes_type: String,
}

/// Why a phase could not complete.
#[derive(PartialEq, Eq, Structural, Clone, Copy, Debug)]
pub enum DownloadError {
    /// The playlist address, or an address inside the playlist, does not parse.
    BadUrl,
    /// The bytes fetched are no playlist.
    PlaylistNotFound,
    /// A master playlist names no variant.
    NoVariant,
    /// The variant of a master playlist is itself a master playlist.
    NestedMaster,
    /// A segment address has no final path component to name its file by.
    UnnamedSegment,
    /// The key descriptor asks for a scheme that is not handled, or lacks an address.
    UnsupportedKey,
    /// The key material or the initialisation vector has the wrong shape.
    MalformedKey,
    /// A request was answered with a status other than OK.
    BadStatus,
    /// The concatenation tool exited with a failure.
    MergeFailed,
    /// A file or a connection failed.
    Io,
}

/// One segment in the manifest: its place in the playlist, where it is
/// fetched from and the file it is written to. `data` holds the payload only
/// while the segment waits to be written.
#[derive(Debug)]
pub struct DownloadInfoDetail {
    pub id: usize,
    pub url: String,
    pub file_name: String,
    pub data: Option<Vec<u8>>,
    pub success: bool,
}

/// The manifest: the segments still to be fetched and the encryption
/// descriptor they share.
#[derive(Debug)]
pub struct DownloadSourceInfo {
    pub id: String,
    pub m3u8_encrypt_key: M3u8EncryptKey,
    pub download_info_list: Vec<DownloadInfoDetail>,
}

/// One segment in the work queue of the fetch pool.
#[derive(Debug)]
pub struct DownloadInfoQueueDetail {
    pub id: usize,
    pub url: String,
    pub file_name: String,
    pub m3u8_encrypt_key: Arc<M3u8EncryptKey>,
}

/// A manifest entry as a value of the model.
pub struct DetailView {
    pub id: usize,
    pub url: Seq<char>,
    pub file_name: Seq<char>,
    pub data: Option<Seq<u8>>,
    pub success: bool,
}

/// A queue entry as a value of the model.
pub struct QueueDetailView {
    pub id: usize,
    pub url: Seq<char>,
    pub file_name: Seq<char>,
    pub key: KeyView,
}

/// A manifest as a value of the model.
pub struct SourceView {
    pub id: Seq<char>,
    pub key: KeyView,
    pub list: Seq<DetailView>,
}

/// A response as a value of the model.
pub struct ResponseView {
    pub id: Seq<char>,
    pub status: Seq<char>,
    pub download_count: Option<i32>,
    pub count: Option<usize>,
    pub download_status: Option<Seq<char>>,
    pub mes_type: Seq<char>,
}

impl View for DownloadInfoDetail {
    type V = DetailView;

    open spec fn view(&self) -> DetailView {
        DetailView {
            id: self.id,
            url: self.url@,
            file_name: self.file_name@,
            data: match self.data {
                Some(d) => Some(d@),
                None => None,
            },
            success: self.success,
        }
    }
}

impl View for DownloadInfoQueueDetail {
    type V = QueueDetailView;

    open spec fn view(&self) -> QueueDetailView {
        QueueDetailView {
            id: self.id,
            url: self.url@,
            file_name: self.file_name@,
            key: (*self.m3u8_encrypt_key)@,
        }
    }
}

/// The entries of a list as values of the model.
pub open spec fn details_view(list: Seq<DownloadInfoDetail>) -> Seq<DetailView> {
    list.map_values(|d: DownloadInfoDetail| d@)
}

impl View for DownloadSourceInfo {
    type V = SourceView;

    open spec fn view(&self) -> SourceView {
        SourceView {
            id: self.id@,
            key: self.m3u8_encrypt_key@,
            list: details_view(self.download_info_list@),
        }
    }
}

impl View for DownloadInfoResponse {
    type V = ResponseView;

    open spec fn view(&self) -> ResponseView {
        ResponseView {
            id: self.id@,
            status: self.status@,
            download_count: self.download_count,
            count: self.count,
            download_status: match self.download_status {
                Some(s) => Some(s@),
                None => None,
            },
            mes_type: self.mes_type@,
        }
    }
}

impl DownloadSourceInfo {
    /// An empty manifest: no identity, no encryption, no segment.
    pub fn new() -> (s: Self)
        ensures
            s@ == (SourceView {
                id: Seq::empty(),
                key: KeyView { ty: crate::key::KeyType::Clear, key: Seq::empty(), iv: Seq::empty() },
                list: Seq::empty(),
            }),
    {
        let s = DownloadSourceInfo {
            id: String::new(),
            m3u8_encrypt_key: M3u8EncryptKey::default(),
            download_info_list: Vec::new(),
        };
        assert(details_view(s.download_info_list@) =~= Seq::empty());
        s
    }
}

/// The phase that a phase name stands for.
pub open spec fn operation_named(name: Seq<char>) -> DownloadOperation {
    if name == "parseSource"@ {
        DownloadOperation::ParseSource
    } else if name == "downloadSlice"@ {
        DownloadOperation::DownloadSlice
    } else if name == "checkSource"@ {
        DownloadOperation::CheckSource
    } else if name == "merger"@ {
        DownloadOperation::Merger
    } else if name == "downloadEnd"@ {
        DownloadOperation::DownloadEnd
    } else {
        DownloadOperation::UnsupportedOperation
    }
}

/// Reads a phase name. Any text that is not one of the five names is the
/// unsupported operation.
pub fn parse_operation_name(name: &str) -> (op: DownloadOperation)
    ensures
        op == operation_named(name@),
{
    if same_text(name, "parseSource") {
        DownloadOperation::ParseSource
    } else if same_text(name, "downloadSlice") {
        DownloadOperation::DownloadSlice
    } else if same_text(name, "checkSource") {
        DownloadOperation::CheckSource
    } else if same_text(name, "merger") {
        DownloadOperation::Merger
    } else if same_text(name, "downloadEnd") {
        DownloadOperation::DownloadEnd
    } else {
        DownloadOperation::UnsupportedOperation
    }
}

/// The directory that holds everything belonging to one job.
pub open spec fn work_dir(save_path: Seq<char>, movie: Seq<char>, sub: Seq<char>) -> Seq<char> {
    joined(joined(save_path, movie), sub)
}

/// The directory that holds everything belonging to one job:
/// `<save-root>/<movie-name>/<sub-title-name>`.
pub fn movie_path(save_path: &str, movie_name: &str, sub_title_name: &str) -> (dir: String)
    ensures
        dir@ == work_dir(save_path@, movie_name@, sub_title_name@),
{
    let a = join_path(save_path, movie_name);
    join_path(a.as_str(), sub_title_name)
}

impl DownloadInfoContext {
    /// Whether the context is the one derived from `info`, with `url` as the
    /// parsed form of the playlist address.
    pub open spec fn derived_from(&self, info: &DownloadTaskInfo, url: Seq<char>) -> bool {
        let dir = work_dir(info.save_path@, info.movie_name@, info.sub_title_name@);
        &&& self.id@ == info.id@
        &&& self.url@ == url
        &&& self.count == info.count
        &&& self.download_count == info.download_count
        &&& self.movie_name@ == info.movie_name@
        &&& self.sub_title_name@ == info.sub_title_name@
        &&& self.status@ == info.status@
        &&& self.mes_type@ == "statusChange"@
        &&& self.download_status@ == info.download_status@
        &&& self.index_path@ == joined(dir, info.sub_title_name@ + ".txt"@)
        &&& self.json_path@ == joined(dir, info.sub_title_name@ + ".json"@)
        &&& self.json_success_path@ == joined(
            dir,
            info.sub_title_name@ + "_success.json"@,
        )
        &&& self.ts_path@ == joined(dir, "ts"@)
    }

    /// Derives the context of a job whose playlist address has been parsed
    /// into `url`. The four paths depend on the save root and the two names
    /// only, so the same descriptor always gives the same paths.
    pub fn from_parts(download_info: &DownloadTaskInfo, url: String) -> (ctx: Self)
        ensures
            ctx.derived_from(download_info, url@),
    {
        let sub = download_info.sub_title_name.as_str();
        let dir = movie_path(download_info.save_path.as_str(), download_info.movie_name.as_str(), sub);
        let index_name = concat_text(sub, ".txt");
        let json_name = concat_text(sub, ".json");
        let success_name = concat_text(sub, "_success.json");
        DownloadInfoContext {
            id: download_info.id.clone(),
            url,
            count: download_info.count,
            download_count: download_info.download_count,
            movie_name: download_info.movie_name.clone(),
            sub_title_name: download_info.sub_title_name.clone(),
            status: download_info.status.clone(),
            mes_type: "statusChange".to_owned(),
            download_status: download_info.download_status.clone(),
            index_path: join_path(dir.as_str(), index_name.as_str()),
            json_path: join_path(dir.as_str(), json_name.as_str()),
            json_success_path: join_path(dir.as_str(), success_name.as_str()),
            ts_path: join_path(dir.as_str(), "ts"),
        }
    }

    /// Derives the context of a job: see [`DownloadInfoContext::from_parts`].
    /// Fails exactly when the playlist address does not parse.
    pub fn new(download_info: &DownloadTaskInfo) -> (r: Result<Self, DownloadError>)
        ensures
            match r {
                Ok(ctx) => url_parse(download_info.url@) is Some && ctx.derived_from(
                    download_info,
                    url_parse(download_info.url@)->0,
                ),
                Err(e) => e == DownloadError::BadUrl && url_parse(download_info.url@) is None,
            },
    {
        match parse_url(download_info.url.as_str()) {
            Some(url) => Ok(Self::from_parts(download_info, url)),
            None => Err(DownloadError::BadUrl),
        }
    }
}

} // verus!
