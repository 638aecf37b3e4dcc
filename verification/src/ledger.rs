//! The segment ledger: which segments of a playlist remain to be fetched,
//! given the success log, and the manifest, index and work queue built from
//! them.

use crate::address::{join_url, url_join};
use crate::key::{KeyDescriptor, KeyView, M3u8EncryptKey};
use crate::playlist::{segments_view, MediaSegment, MediaSegmentView};
use crate::queue::{queue_items, queue_new, queue_push};
use crate::text::{
    bare_line, chars_of, extend_chars, join_path, joined, lines_of, rows, same_chars, slice_of,
    split_lines, strip_line_end, text_of,
};
use crate::types::{
    details_view, DetailView, DownloadError, DownloadInfoContext, DownloadInfoDetail,
    DownloadInfoQueueDetail, DownloadInfoResponse, DownloadSourceInfo, QueueDetailView,
    ResponseView,
};
use crate::utils::{get_path_name, path_name};
use crossbeam::queue::SegQueue;
use std::sync::Arc;
use vstd::prelude::*;

verus! {

/// Whether the character before `to` does not belong to the last name of a
/// path: it is a slash, or it is the dot of a component `.` that stands
/// behind a slash.
pub open spec fn droppable(s: Seq<char>, to: int) -> bool {
    &&& 0 < to <= s.len()
    &&& (s[to - 1] == '/' || (s[to - 1] == '.' && to >= 2 && s[to - 2] == '/'))
}

/// The length of the text up to `to` once the slashes and the components
/// `.` at its end are dropped.
pub open spec fn name_end(s: Seq<char>, to: int) -> int
    decreases to,
{
    if to <= 0 || to > s.len() {
        0
    } else if droppable(s, to) {
        name_end(s, to - 1)
    } else {
        to
    }
}

/// The position just behind the last slash before `to`, or 0 where there
/// is none.
pub open spec fn component_start(s: Seq<char>, to: int) -> int
    decreases to,
{
    if to <= 0 || to > s.len() {
        0
    } else if s[to - 1] == '/' {
        to
    } else {
        component_start(s, to - 1)
    }
}

/// The last component of an address taken as a path: what stands behind
/// the last slash, once slashes and components `.` at the end of the address
/// are left aside. There is none where that is empty, `.` or `..`: a path
/// that ends in `..`, or that is nothing but `.` and slashes, names no file.
pub open spec fn final_component(uri: Seq<char>) -> Option<Seq<char>> {
    let e = name_end(uri, uri.len() as int);
    let b = component_start(uri, e);
    let name = uri.subrange(b, e);
    if name.len() == 0 || name == seq!['.'] || name == seq!['.', '.'] {
        None
    } else {
        Some(name)
    }
}

proof fn lemma_name_end(s: Seq<char>, to: int, e: int)
    requires
        0 <= e <= to <= s.len(),
        forall|j: int| e < j <= to ==> droppable(s, j),
        e == 0 || !droppable(s, e),
    ensures
        name_end(s, to) == e,
    decreases to - e,
{
    if e < to {
        lemma_name_end(s, to - 1, e);
    }
}

/// Whether the character before `to` is left aside: see [`droppable`].
fn drops_at(uri: &Vec<char>, to: usize) -> (r: bool)
    requires
        to <= uri.len(),
    ensures
        r == droppable(uri@, to as int),
{
    to > 0 && (uri[to - 1] == '/' || (uri[to - 1] == '.' && to >= 2 && uri[to - 2] == '/'))
}

proof fn lemma_component_start(s: Seq<char>, to: int, b: int)
    requires
        0 <= b <= to <= s.len(),
        forall|j: int| b <= j < to ==> s[j] != '/',
        b == 0 || s[b - 1] == '/',
    ensures
        component_start(s, to) == b,
        0 <= component_start(s, to) <= to,
    decreases to - b,
{
    if b < to {
        lemma_component_start(s, to - 1, b);
    }
}

/// The last component of an address: see [`final_component`].
pub fn file_name_of(uri: &Vec<char>) -> (r: Option<Vec<char>>)
    ensures
        r is Some == final_component(uri@) is Some,
        r is Some ==> r->0@ == final_component(uri@)->0,
{
    let mut e: usize = uri.len();
    while drops_at(uri, e)
        invariant
            e <= uri.len(),
            forall|j: int| e < j <= uri.len() ==> droppable(uri@, j),
        decreases e,
    {
        e -= 1;
    }
    let mut b: usize = e;
    while b > 0 && uri[b - 1] != '/'
        invariant
            b <= e <= uri.len(),
            forall|j: int| b <= j < e ==> uri@[j] != '/',
        decreases b,
    {
        b -= 1;
    }
    proof {
        lemma_name_end(uri@, uri.len() as int, e as int);
        lemma_component_start(uri@, e as int, b as int);
    }
    let name = slice_of(uri, b, e);
    let n = name.len();
    if n == 0 || (n == 1 && name[0] == '.') || (n == 2 && name[0] == '.' && name[1] == '.') {
        proof {
            if n == 1 {
                assert(name@ =~= seq!['.']);
            }
            if n == 2 {
                assert(name@ =~= seq!['.', '.']);
            }
        }
        None
    } else {
        proof {
            if n == 1 {
                assert(name@[0] != seq!['.'][0]);
            }
            if n == 2 {
                assert(name@[0] != seq!['.', '.'][0] || name@[1] != seq!['.', '.'][1]);
            }
        }
        Some(name)
    }
}

/// The names that a success log lists: its lines without their endings.
pub open spec fn logged_names(log: Seq<char>) -> Seq<Seq<char>> {
    lines_of(log).map_values(|l: Seq<char>| bare_line(l))
}

/// Whether a name is listed in the success log. Without a log nothing is.
pub open spec fn listed(log: Option<Seq<char>>, name: Seq<char>) -> bool {
    match log {
        Some(t) => logged_names(t).contains(name),
        None => false,
    }
}

/// A success log read into the names it lists.
pub struct SuccessLog {
    pub names: Vec<Vec<char>>,
    pub present: bool,
}

impl SuccessLog {
    /// Whether this is the reading of the given log.
    pub open spec fn reads(&self, log: Option<Seq<char>>) -> bool {
        match log {
            Some(t) => self.present && rows(self.names@) == logged_names(t),
            None => !self.present && self.names@.len() == 0,
        }
    }

    /// Reads a success log: one name on each line. `None` stands for a log
    /// that does not exist yet.
    pub fn read(log: Option<&str>) -> (r: Self)
        ensures
            r.reads(log_text(log)),
    {
        match log {
            None => SuccessLog { names: Vec::new(), present: false },
            Some(t) => {
                let v = chars_of(t);
                let lines = split_lines(&v);
                let mut names: Vec<Vec<char>> = Vec::new();
                let mut i: usize = 0;
                while i < lines.len()
                    invariant
                        i <= lines.len(),
                        rows(lines@) == lines_of(v@),
                        rows(names@) == lines_of(v@).take(i as int).map_values(
                            |l: Seq<char>| bare_line(l),
                        ),
                    decreases lines.len() - i,
                {
                    let bare = strip_line_end(&lines[i]);
                    let ghost before = rows(names@);
                    let ghost bare_text = bare@;
                    names.push(bare);
                    assert(rows(lines@)[i as int] == lines@[i as int]@);
                    assert(rows(names@) =~= before.push(bare_text));
                    i += 1;
                    assert(lines_of(v@).take(i as int) =~= lines_of(v@).take(i - 1).push(
                        lines_of(v@)[i - 1],
                    ));
                    assert(rows(names@) =~= lines_of(v@).take(i as int).map_values(
                        |l: Seq<char>| bare_line(l),
                    ));
                }
                assert(lines_of(v@).take(lines.len() as int) =~= lines_of(v@));
                SuccessLog { names, present: true }
            },
        }
    }

    /// Whether the log lists the name.
    pub fn lists(&self, name: &Vec<char>) -> (r: bool)
        ensures
            r == rows(self.names@).contains(name@),
    {
        let mut i: usize = 0;
        while i < self.names.len()
            invariant
                i <= self.names.len(),
                forall|j: int| 0 <= j < i ==> rows(self.names@)[j] != name@,
            decreases self.names.len() - i,
        {
            if same_chars(&self.names[i], name) {
                assert(rows(self.names@)[i as int] == name@);
                return true;
            }
            i += 1;
        }
        false
    }
}

/// What one segment of the playlist adds to the manifest: nothing where
/// its file is listed in the success log, else an entry with the place of
/// the segment in the playlist, its resolved address and its file under the
/// segment directory.
pub open spec fn entry_of(
    url: Seq<char>,
    ts_path: Seq<char>,
    uri: Seq<char>,
    index: int,
    log: Option<Seq<char>>,
) -> Result<Option<DetailView>, DownloadError> {
    match final_component(uri) {
        None => Err(DownloadError::UnnamedSegment),
        Some(name) => {
            let file = joined(ts_path, name);
            if listed(log, file) {
                Ok(None)
            } else {
                match url_join(url, uri) {
                    None => Err(DownloadError::BadUrl),
                    Some(u) => Ok(
                        Some(
                            DetailView {
                                id: index as usize,
                                url: u,
                                file_name: file,
                                data: None,
                                success: false,
                            },
                        ),
                    ),
                }
            }
        },
    }
}

/// The entries of the manifest for a playlist: the segments, in playlist
/// order, whose files the success log does not list. The first segment that
/// cannot be named or resolved makes the whole an error.
pub open spec fn manifest_entries(
    url: Seq<char>,
    ts_path: Seq<char>,
    segments: Seq<MediaSegmentView>,
    log: Option<Seq<char>>,
) -> Result<Seq<DetailView>, DownloadError>
    decreases segments.len(),
{
    if segments.len() == 0 {
        Ok(Seq::empty())
    } else {
        match manifest_entries(url, ts_path, segments.drop_last(), log) {
            Err(e) => Err(e),
            Ok(before) => match entry_of(
                url,
                ts_path,
                segments.last().uri,
                segments.len() - 1,
                log,
            ) {
                Err(e) => Err(e),
                Ok(None) => Ok(before),
                Ok(Some(d)) => Ok(before.push(d)),
            },
        }
    }
}

/// The manifest entry for a segment at the given place of the playlist,
/// written to `file`, once its address has been resolved. An address that
/// did not resolve is an error.
pub fn entry_for(index: usize, file: String, resolved: Option<String>) -> (r: Result<
    DownloadInfoDetail,
    DownloadError,
>)
    ensures
        match (r, resolved) {
            (Ok(d), Some(u)) => d@ == (DetailView {
                id: index,
                url: u@,
                file_name: file@,
                data: None,
                success: false,
            }),
            (Err(e), None) => e == DownloadError::BadUrl,
            _ => false,
        },
{
    match resolved {
        None => Err(DownloadError::BadUrl),
        Some(url) => Ok(
            DownloadInfoDetail { id: index, url, file_name: file, data: None, success: false },
        ),
    }
}

/// Builds the manifest entry of one segment: see [`entry_of`].
fn segment_entry(
    url: &str,
    ts_path: &str,
    uri: &str,
    index: usize,
    log: &SuccessLog,
) -> (r: Result<Option<DownloadInfoDetail>, DownloadError>)
    ensures
        forall|t: Option<Seq<char>>| #[trigger]
            log.reads(t) ==> match (r, entry_of(url@, ts_path@, uri@, index as int, t)) {
                (Ok(None), Ok(None)) => true,
                (Ok(Some(d)), Ok(Some(v))) => d@ == v,
                (Err(e), Err(f)) => e == f,
                _ => false,
            },
{
    let u = chars_of(uri);
    let name = match file_name_of(&u) {
        None => {
            return Err(DownloadError::UnnamedSegment);
        },
        Some(n) => n,
    };
    let name_text = text_of(&name);
    let file = join_path(ts_path, name_text.as_str());
    let file_chars = chars_of(file.as_str());
    if log.lists(&file_chars) {
        return Ok(None);
    }
    match entry_for(index, file, join_url(url, uri)) {
        Err(e) => Err(e),
        Ok(d) => Ok(Some(d)),
    }
}

/// The line of the index that names one segment file.
pub open spec fn index_line(file: Seq<char>, platform: Seq<char>) -> Seq<char> {
    "file "@ + path_name(file, platform) + " \n"@
}

/// The index for the given entries: one line for each, in order.
pub open spec fn index_text(entries: Seq<DetailView>, platform: Seq<char>) -> Seq<char>
    decreases entries.len(),
{
    if entries.len() == 0 {
        Seq::empty()
    } else {
        index_text(entries.drop_last(), platform) + index_line(
            entries.last().file_name,
            platform,
        )
    }
}

/// What parsing the source hands over: the fresh manifest, the text of the
/// index, and the response that announces the next phase.
#[derive(Debug)]
pub struct ParsePlan {
    pub source_info: DownloadSourceInfo,
    pub index_text: String,
    pub response: DownloadInfoResponse,
}

/// The response that ends the parsing of the source: the fetch phase comes
/// next, and `count` is the number of segments of the playlist.
pub open spec fn parse_source_response(id: Seq<char>, count: usize) -> ResponseView {
    ResponseView {
        id,
        status: "downloadSlice"@,
        download_count: None,
        count: Some(count),
        download_status: Some("downloading"@),
        mes_type: "parseSourceEnd"@,
    }
}

proof fn lemma_entries_error_sticks(
    url: Seq<char>,
    ts_path: Seq<char>,
    segments: Seq<MediaSegmentView>,
    log: Option<Seq<char>>,
    i: int,
)
    requires
        0 <= i <= segments.len(),
        manifest_entries(url, ts_path, segments.take(i), log) is Err,
    ensures
        manifest_entries(url, ts_path, segments, log) == manifest_entries(
            url,
            ts_path,
            segments.take(i),
            log,
        ),
    decreases segments.len() - i,
{
    if i == segments.len() {
        assert(segments.take(i) =~= segments);
    } else {
        assert(segments.take(i + 1).drop_last() =~= segments.take(i));
        lemma_entries_error_sticks(url, ts_path, segments, log, i + 1);
    }
}

/// Builds the manifest and the index for a media playlist. Segments whose
/// files the success log lists are left out; the others are entered in
/// playlist order. The manifest carries the given encryption descriptor.
pub fn parse_source(
    ctx: &DownloadInfoContext,
    segments: &Vec<MediaSegment>,
    success_log: Option<&str>,
    key: M3u8EncryptKey,
    platform: &str,
) -> (r: Result<ParsePlan, DownloadError>)
    ensures
        match (
            r,
            manifest_entries(
                ctx.url@,
                ctx.ts_path@,
                segments_view(segments@),
                log_text(success_log),
            ),
        ) {
            (Ok(plan), Ok(entries)) => {
                &&& plan.source_info@.list == entries
                &&& plan.source_info@.id == ctx.id@
                &&& plan.source_info@.key == key@
                &&& plan.index_text@ == index_text(entries, platform@)
                &&& plan.response@ == parse_source_response(ctx.id@, segments.len())
            },
            (Err(e), Err(f)) => e == f,
            _ => false,
        },
{
    let log = SuccessLog::read(success_log);
    let ghost t = log_text(success_log);
    let ghost segs = segments_view(segments@);
    let mut list: Vec<DownloadInfoDetail> = Vec::new();
    let mut index: Vec<char> = Vec::new();
    let head = chars_of("file ");
    let tail = chars_of(" \n");
    let mut i: usize = 0;
    assert(segs.take(0) =~= Seq::empty());
    assert(details_view(list@) =~= Seq::empty());
    while i < segments.len()
        invariant
            i <= segments.len(),
            log.reads(t),
            t == log_text(success_log),
            segs == segments_view(segments@),
            head@ == "file "@,
            tail@ == " \n"@,
            manifest_entries(ctx.url@, ctx.ts_path@, segs.take(i as int), t) == Ok::<
                Seq<DetailView>,
                DownloadError,
            >(details_view(list@)),
            index@ == index_text(details_view(list@), platform@),
        decreases segments.len() - i,
    {
        let entry = segment_entry(
            ctx.url.as_str(),
            ctx.ts_path.as_str(),
            segments[i].uri.as_str(),
            i,
            &log,
        );
        proof {
            assert(segs.take(i + 1).drop_last() =~= segs.take(i as int));
            assert(segs.take(i + 1).last() == segments@[i as int]@);
        }
        match entry {
            Err(e) => {
                proof {
                    assert(log.reads(t));
                    assert(entry_of(
                        ctx.url@,
                        ctx.ts_path@,
                        segs.take(i + 1).last().uri,
                        segs.take(i + 1).len() - 1,
                        t,
                    ) == Err::<Option<DetailView>, DownloadError>(e));
                    assert(manifest_entries(ctx.url@, ctx.ts_path@, segs.take(i + 1), t) == Err::<
                        Seq<DetailView>,
                        DownloadError,
                    >(e));
                    lemma_entries_error_sticks(ctx.url@, ctx.ts_path@, segs, t, i + 1);
                }
                return Err(e);
            },
            Ok(None) => {},
            Ok(Some(d)) => {
                let shown = get_path_name(d.file_name.as_str(), platform);
                let shown_chars = chars_of(shown.as_str());
                let ghost before = details_view(list@);
                let ghost dv = d@;
                extend_chars(&mut index, &head);
                extend_chars(&mut index, &shown_chars);
                extend_chars(&mut index, &tail);
                list.push(d);
                proof {
                    assert(details_view(list@) =~= before.push(dv));
                    assert(details_view(list@).drop_last() =~= before);
                    assert(index@ =~= index_text(before, platform@) + index_line(
                        dv.file_name,
                        platform@,
                    ));
                }
            },
        }
        i += 1;
    }
    assert(segs.take(segments.len() as int) =~= segs);
    let count = segments.len();
    Ok(
        ParsePlan {
            source_info: DownloadSourceInfo {
                id: ctx.id.clone(),
                m3u8_encrypt_key: key,
                download_info_list: list,
            },
            index_text: text_of(&index),
            response: DownloadInfoResponse {
                id: ctx.id.clone(),
                status: "downloadSlice".to_owned(),
                download_count: None,
                count: Some(count),
                download_status: Some("downloading".to_owned()),
                mes_type: "parseSourceEnd".to_owned(),
            },
        },
    )
}

/// The text of an optional log.
pub open spec fn log_text(log: Option<&str>) -> Option<Seq<char>> {
    match log {
        Some(t) => Some(t@),
        None => None,
    }
}

/// Whether a segment is still to be fetched and declares a key.
pub open spec fn holds_key(ts_path: Seq<char>, segment: MediaSegmentView, log: Option<Seq<char>>) -> bool {
    &&& segment.key is Some
    &&& final_component(segment.uri) is Some
    &&& !listed(log, joined(ts_path, final_component(segment.uri)->0))
}

/// The place of the segment whose key descriptor applies to the download:
/// the last segment still to be fetched that declares one.
pub open spec fn key_holder(
    ts_path: Seq<char>,
    segments: Seq<MediaSegmentView>,
    log: Option<Seq<char>>,
) -> Option<int>
    decreases segments.len(),
{
    if segments.len() == 0 {
        None
    } else if holds_key(ts_path, segments.last(), log) {
        Some(segments.len() - 1)
    } else {
        key_holder(ts_path, segments.drop_last(), log)
    }
}

/// Finds the segment whose key descriptor applies to the download: see
/// [`key_holder`]. `None` means that the download is not encrypted.
pub fn pending_key(
    ctx: &DownloadInfoContext,
    segments: &Vec<MediaSegment>,
    success_log: Option<&str>,
) -> (r: Option<usize>)
    ensures
        match (r, key_holder(ctx.ts_path@, segments_view(segments@), log_text(success_log))) {
            (Some(i), Some(j)) => i == j && i < segments.len() && segments[i as int].key is Some,
            (None, None) => true,
            _ => false,
        },
{
    let log = SuccessLog::read(success_log);
    let ghost t = log_text(success_log);
    let ghost segs = segments_view(segments@);
    let mut i: usize = segments.len();
    assert(segs.take(i as int) =~= segs);
    while i > 0
        invariant
            i <= segments.len(),
            log.reads(t),
            t == log_text(success_log),
            segs == segments_view(segments@),
            key_holder(ctx.ts_path@, segs, t) == key_holder(ctx.ts_path@, segs.take(i as int), t),
        decreases i,
    {
        let seg = &segments[i - 1];
        proof {
            assert(segs.take(i as int).last() == seg@);
            assert(segs.take(i as int).drop_last() =~= segs.take(i - 1));
        }
        if seg.key.is_some() {
            let u = chars_of(seg.uri.as_str());
            match file_name_of(&u) {
                None => {},
                Some(name) => {
                    let name_text = text_of(&name);
                    let file = join_path(ctx.ts_path.as_str(), name_text.as_str());
                    let file_chars = chars_of(file.as_str());
                    if !log.lists(&file_chars) {
                        return Some(i - 1);
                    }
                },
            }
        }
        i -= 1;
    }
    None
}

/// The key descriptor that applies to the download: the one of the segment
/// that [`pending_key`] finds, or none where the download is not encrypted.
pub fn pending_descriptor<'a>(
    ctx: &DownloadInfoContext,
    segments: &'a Vec<MediaSegment>,
    success_log: Option<&str>,
) -> (r: Option<&'a KeyDescriptor>)
    ensures
        match (r, key_holder(ctx.ts_path@, segments_view(segments@), log_text(success_log))) {
            (Some(k), Some(j)) => 0 <= j < segments.len() && segments[j].key == Some(*k),
            (None, None) => true,
            _ => false,
        },
{
    match pending_key(ctx, segments, success_log) {
        None => None,
        Some(i) => match &segments[i].key {
            Some(k) => Some(k),
            None => None,
        },
    }
}

/// The work queue for a manifest: its entries, in order, whose files the
/// success log does not list, each with the manifest's encryption descriptor.
pub open spec fn pending_of(list: Seq<DetailView>, key: KeyView, log: Option<Seq<char>>) -> Seq<
    QueueDetailView,
>
    decreases list.len(),
{
    if list.len() == 0 {
        Seq::empty()
    } else {
        let rest = pending_of(list.drop_last(), key, log);
        let d = list.last();
        if listed(log, d.file_name) {
            rest
        } else {
            rest.push(QueueDetailView { id: d.id, url: d.url, file_name: d.file_name, key })
        }
    }
}

/// Fills the work queue with the entries of the manifest that the success
/// log does not list, in manifest order. The result depends on the manifest
/// and the log alone, so the same two always give the same queue.
pub fn read_data_to_queue(download_source_info: &DownloadSourceInfo, success_log: Option<&str>) -> (q:
    SegQueue<DownloadInfoQueueDetail>)
    ensures
        queue_items(q) == pending_of(
            download_source_info@.list,
            download_source_info@.key,
            log_text(success_log),
        ),
{
    let log = SuccessLog::read(success_log);
    let ghost t = log_text(success_log);
    let ghost list = download_source_info@.list;
    let ghost key = download_source_info@.key;
    let mut q = queue_new();
    let mut i: usize = 0;
    assert(list.take(0) =~= Seq::empty());
    while i < download_source_info.download_info_list.len()
        invariant
            i <= download_source_info.download_info_list.len(),
            log.reads(t),
            list == download_source_info@.list,
            key == download_source_info@.key,
            queue_items(q) == pending_of(list.take(i as int), key, t),
        decreases download_source_info.download_info_list.len() - i,
    {
        let d = &download_source_info.download_info_list[i];
        proof {
            assert(list.take(i + 1).drop_last() =~= list.take(i as int));
            assert(list.take(i + 1).last() == d@);
        }
        let name = chars_of(d.file_name.as_str());
        if !log.lists(&name) {
            queue_push(
                &mut q,
                DownloadInfoQueueDetail {
                    id: d.id,
                    url: d.url.clone(),
                    file_name: d.file_name.clone(),
                    m3u8_encrypt_key: Arc::new(download_source_info.m3u8_encrypt_key.duplicate()),
                },
            );
        }
        i += 1;
    }
    assert(list.take(list.len() as int) =~= list);
    q
}

/// Whether the file of a manifest entry is not listed in the success log.
pub open spec fn unlisted(log: Option<Seq<char>>) -> spec_fn(DetailView) -> bool {
    |d: DetailView| !listed(log, d.file_name)
}

/// Resuming a download drops nothing but what is done. Where parsing a
/// playlist without a success log gives a manifest, parsing it with a log
/// gives that manifest without the entries whose files the log lists: the
/// other entries all stay, in their order and once each.
pub proof fn lemma_resume_drops_only_listed(
    url: Seq<char>,
    ts_path: Seq<char>,
    segments: Seq<MediaSegmentView>,
    log: Seq<char>,
)
    requires
        manifest_entries(url, ts_path, segments, None) is Ok,
    ensures
        manifest_entries(url, ts_path, segments, Some(log)) == Ok::<Seq<DetailView>, DownloadError>(
            manifest_entries(url, ts_path, segments, None)->Ok_0.filter(unlisted(Some(log))),
        ),
    decreases segments.len(),
{
    reveal(Seq::filter);
    if segments.len() > 0 {
        lemma_resume_drops_only_listed(url, ts_path, segments.drop_last(), log);
        let before = manifest_entries(url, ts_path, segments.drop_last(), None)->Ok_0;
        match entry_of(url, ts_path, segments.last().uri, segments.len() - 1, None) {
            Ok(Some(d)) => {
                before.lemma_filter_push(d, unlisted(Some(log)));
            },
            _ => {},
        }
    }
}

/// Every entry of a manifest built against a success log names a file that
/// the log does not list.
pub proof fn lemma_manifest_avoids_log(
    url: Seq<char>,
    ts_path: Seq<char>,
    segments: Seq<MediaSegmentView>,
    log: Option<Seq<char>>,
)
    requires
        manifest_entries(url, ts_path, segments, log) is Ok,
    ensures
        forall|i: int|
            0 <= i < manifest_entries(url, ts_path, segments, log)->Ok_0.len() ==> !listed(
                log,
                (#[trigger] manifest_entries(url, ts_path, segments, log)->Ok_0[i]).file_name,
            ),
    decreases segments.len(),
{
    if segments.len() > 0 {
        lemma_manifest_avoids_log(url, ts_path, segments.drop_last(), log);
    }
}

/// Parsing twice against the same success log changes nothing: a manifest
/// built against a log is left whole when the log is applied to it again.
pub proof fn lemma_parse_source_idempotent(
    url: Seq<char>,
    ts_path: Seq<char>,
    segments: Seq<MediaSegmentView>,
    log: Option<Seq<char>>,
)
    requires
        manifest_entries(url, ts_path, segments, log) is Ok,
    ensures
        manifest_entries(url, ts_path, segments, log)->Ok_0.filter(unlisted(log))
            == manifest_entries(url, ts_path, segments, log)->Ok_0,
{
    let entries = manifest_entries(url, ts_path, segments, log)->Ok_0;
    lemma_manifest_avoids_log(url, ts_path, segments, log);
    lemma_filter_all(entries, unlisted(log));
}

proof fn lemma_filter_all(list: Seq<DetailView>, pred: spec_fn(DetailView) -> bool)
    requires
        forall|i: int| 0 <= i < list.len() ==> pred(#[trigger] list[i]),
    ensures
        list.filter(pred) == list,
    decreases list.len(),
{
    reveal(Seq::filter);
    if list.len() > 0 {
        lemma_filter_all(list.drop_last(), pred);
        assert(list.drop_last().push(list.last()) =~= list);
    }
}

/// A queue entry as a manifest entry without payload.
pub open spec fn as_detail(q: QueueDetailView) -> DetailView {
    DetailView { id: q.id, url: q.url, file_name: q.file_name, data: None, success: false }
}

/// The entries of a queue as manifest entries without payload.
pub open spec fn queued_as_details(queue: Seq<QueueDetailView>) -> Seq<DetailView> {
    queue.map_values(|q: QueueDetailView| as_detail(q))
}

/// Reading the queue is a set difference and nothing more: the queue holds
/// an entry of the manifest exactly where the log does not list its file,
/// and reading again what was read gives the same queue.
pub proof fn lemma_read_queue_idempotent(list: Seq<DetailView>, key: KeyView, log: Option<Seq<char>>)
    ensures
        pending_of(list.filter(unlisted(log)), key, log) == pending_of(list, key, log),
        pending_of(queued_as_details(pending_of(list, key, log)), key, log) == pending_of(
            list,
            key,
            log,
        ),
        pending_of(list, key, log).len() == list.filter(unlisted(log)).len(),
    decreases list.len(),
{
    reveal(Seq::filter);
    if list.len() > 0 {
        lemma_read_queue_idempotent(list.drop_last(), key, log);
        let d = list.last();
        let rest = list.drop_last();
        if !listed(log, d.file_name) {
            let f = rest.filter(unlisted(log));
            assert(f.push(d).drop_last() =~= f);
            let q = pending_of(rest, key, log);
            let item = QueueDetailView { id: d.id, url: d.url, file_name: d.file_name, key };
            assert(queued_as_details(q.push(item)).drop_last() =~= queued_as_details(q));
        }
    } else {
        assert(queued_as_details(Seq::<QueueDetailView>::empty()) =~= Seq::<DetailView>::empty());
    }
}

/// An empty success log lists nothing, so parsing against it gives what
/// parsing without a log gives.
pub proof fn lemma_empty_log_lists_nothing(
    url: Seq<char>,
    ts_path: Seq<char>,
    segments: Seq<MediaSegmentView>,
)
    ensures
        forall|name: Seq<char>| !(#[trigger] listed(Some(Seq::<char>::empty()), name)),
        manifest_entries(url, ts_path, segments, Some(Seq::<char>::empty())) == manifest_entries(
            url,
            ts_path,
            segments,
            None,
        ),
    decreases segments.len(),
{
    assert(logged_names(Seq::<char>::empty()) =~= Seq::<Seq<char>>::empty());
    if segments.len() > 0 {
        lemma_empty_log_lists_nothing(url, ts_path, segments.drop_last());
    }
}

/// The queue read against a success log holds no file that the log lists.
pub proof fn lemma_pending_avoids_log(list: Seq<DetailView>, key: KeyView, log: Option<Seq<char>>)
    ensures
        forall|i: int|
            0 <= i < pending_of(list, key, log).len() ==> !listed(
                log,
                (#[trigger] pending_of(list, key, log)[i]).file_name,
            ),
    decreases list.len(),
{
    if list.len() > 0 {
        lemma_pending_avoids_log(list.drop_last(), key, log);
    }
}

} // verus!
