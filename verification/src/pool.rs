//! The fetch pool's bookkeeping: what a fetched segment counts as, which
//! segment may be fetched next under the concurrency bound, and how the
//! manifest and the success log change as results come in.

use crate::governor::{count_after, next_count};
use crate::key::{decoded, KeyView, M3u8EncryptKey};
use crate::ledger::{as_detail, log_text, pending_of, queued_as_details, read_data_to_queue};
use vstd::seq_lib::lemma_multiset_commutative;
use crate::queue::{queue_items, queue_pop};
use crate::ledger::logged_names;
use crate::text::{
    bare_line, chars_of, extend_chars, is_line, lemma_lines_concat, lemma_single_line, lines_of,
    text_of,
};
use crate::types::{
    details_view, DetailView, DownloadError, DownloadInfoDetail, DownloadInfoQueueDetail,
    DownloadInfoResponse, DownloadSourceInfo, QueueDetailView, ResponseView,
};
use crossbeam::queue::SegQueue;
use std::sync::Arc;
use vstd::multiset::Multiset;
use vstd::prelude::*;

verus! {

broadcast use vstd::seq_lib::group_to_multiset_ensures;

/// How many segments may be in flight at once.
pub const MAX_IN_FLIGHT: usize = 6;

/// What a fetched segment counts as. It is a success only where the status
/// is OK, the body is not empty and, for an encrypted playlist, the body
/// decrypts; the payload is then the body, decrypted where needed. Any other
/// outcome is a failure without payload.
pub open spec fn segment_outcome(status_ok: bool, body: Seq<u8>, key: KeyView) -> (bool, Seq<u8>) {
    if !status_ok || body.len() == 0 {
        (false, Seq::empty())
    } else {
        match decoded(key, body) {
            Ok(Some(plain)) => (true, plain),
            _ => (false, Seq::empty()),
        }
    }
}

/// What the result of decoding counts as: a payload is a success, anything
/// else a failure without payload.
pub fn payload_of(decoded: Result<Option<Vec<u8>>, DownloadError>) -> (r: (bool, Vec<u8>))
    ensures
        match decoded {
            Ok(Some(plain)) => r.0 && r.1 == plain,
            _ => !r.0 && r.1@ == Seq::<u8>::empty(),
        },
{
    match decoded {
        Ok(Some(plain)) => (true, plain),
        _ => (false, Vec::new()),
    }
}

/// Judges one fetched segment: see [`segment_outcome`]. `status_ok` says
/// whether the response carried the status OK, `body` is what it carried.
pub fn download_ts(status_ok: bool, body: Vec<u8>, m3u8_encrypt_key: &M3u8EncryptKey) -> (r: (
    bool,
    Vec<u8>,
))
    ensures
        r.0 == segment_outcome(status_ok, body@, m3u8_encrypt_key@).0,
        r.1@ == segment_outcome(status_ok, body@, m3u8_encrypt_key@).1,
{
    if !status_ok || body.len() == 0 {
        (false, Vec::new())
    } else {
        payload_of(m3u8_encrypt_key.decode(body.as_slice()))
    }
}

/// The file names of queue entries.
pub open spec fn queue_names(queue: Seq<QueueDetailView>) -> Seq<Seq<char>> {
    queue.map_values(|q: QueueDetailView| q.file_name)
}

/// The file names of manifest entries.
pub open spec fn detail_names(list: Seq<DetailView>) -> Seq<Seq<char>> {
    list.map_values(|d: DetailView| d.file_name)
}

/// The texts of a list of strings.
pub open spec fn texts(list: Seq<String>) -> Seq<Seq<char>> {
    list.map_values(|s: String| s@)
}

/// The views of a list of queue entries.
pub open spec fn queue_view(list: Seq<DownloadInfoQueueDetail>) -> Seq<QueueDetailView> {
    list.map_values(|q: DownloadInfoQueueDetail| q@)
}

proof fn lemma_pending_keys(list: Seq<DetailView>, key: KeyView, log: Option<Seq<char>>)
    ensures
        forall|i: int|
            0 <= i < pending_of(list, key, log).len() ==> (#[trigger] pending_of(
                list,
                key,
                log,
            )[i]).key == key,
    decreases list.len(),
{
    if list.len() > 0 {
        lemma_pending_keys(list.drop_last(), key, log);
    }
}

/// The place among the segments in flight of the first one with the given
/// place in the playlist, looking from `from` on.
pub open spec fn flight_of(list: Seq<QueueDetailView>, id: usize, from: int) -> Option<int>
    decreases list.len() - from,
{
    if from < 0 || from >= list.len() {
        None
    } else if list[from].id == id {
        Some(from)
    } else {
        flight_of(list, id, from + 1)
    }
}

proof fn lemma_flight_of(list: Seq<QueueDetailView>, id: usize, from: int, k: int)
    requires
        0 <= from <= k <= list.len(),
        forall|j: int| from <= j < k ==> list[j].id != id,
    ensures
        k == list.len() ==> flight_of(list, id, from) is None,
        k < list.len() && list[k].id == id ==> flight_of(list, id, from) == Some(k),
    decreases k - from,
{
    if from < k {
        lemma_flight_of(list, id, from + 1, k);
    }
}

/// The text that lists the given names in the success log: each name on a
/// line of its own, ended by carriage return and line feed.
pub open spec fn batch_text(names: Seq<Seq<char>>) -> Seq<char>
    decreases names.len(),
{
    if names.len() == 0 {
        Seq::empty()
    } else {
        batch_text(names.drop_last()) + names.last() + "\r\n"@
    }
}

/// What a tick of the progress clock hands over: the lines to append to the
/// success log and the count to report.
#[derive(Debug)]
pub struct Progress {
    pub batch: String,
    pub download_count: i32,
    pub response: DownloadInfoResponse,
}

/// The message that reports progress: the count of segments fetched so far.
pub open spec fn progress_response(id: Seq<char>, download_count: i32) -> ResponseView {
    ResponseView {
        id,
        status: "downloadSlice"@,
        download_count: Some(download_count),
        count: None,
        download_status: None,
        mes_type: "progress"@,
    }
}

/// What the end of a run hands over: the manifest for the next pass, the
/// last lines for the success log, the names of all files written in the
/// run, the count, and the response that announces the next phase.
#[derive(Debug)]
pub struct SliceEnd {
    pub source_info: DownloadSourceInfo,
    pub batch: String,
    pub saved: Vec<String>,
    pub download_count: i32,
    pub response: DownloadInfoResponse,
}

/// The response that ends the fetch phase: the check comes next.
pub open spec fn download_slice_response(id: Seq<char>, download_count: i32) -> ResponseView {
    ResponseView {
        id,
        status: "checkSource"@,
        download_count: Some(download_count),
        count: None,
        download_status: None,
        mes_type: "downloadSliceEnd"@,
    }
}

/// A manifest entry without payload for a queue entry.
fn detail_of(q: &DownloadInfoQueueDetail) -> (d: DownloadInfoDetail)
    ensures
        d@ == as_detail(q@),
{
    DownloadInfoDetail {
        id: q.id,
        url: q.url.clone(),
        file_name: q.file_name.clone(),
        data: None,
        success: false,
    }
}

/// The lines for the success log that list the names from `from` on.
fn batch_of(saved: &Vec<String>, from: usize) -> (r: String)
    requires
        from <= saved@.len(),
    ensures
        r@ == batch_text(texts(saved@).skip(from as int)),
{
    let mut out: Vec<char> = Vec::new();
    let eol = chars_of("\r\n");
    let mut i: usize = from;
    let ghost names = texts(saved@);
    assert(names.subrange(from as int, from as int) =~= Seq::empty());
    while i < saved.len()
        invariant
            from <= i <= saved@.len(),
            names == texts(saved@),
            eol@ == "\r\n"@,
            out@ == batch_text(names.subrange(from as int, i as int)),
        decreases saved.len() - i,
    {
        let name = chars_of(saved[i].as_str());
        extend_chars(&mut out, &name);
        extend_chars(&mut out, &eol);
        i += 1;
        proof {
            assert(names.subrange(from as int, i as int).drop_last() =~= names.subrange(
                from as int,
                i - 1,
            ));
            assert(names.subrange(from as int, i as int).last() == saved@[i - 1]@);
        }
    }
    assert(names.subrange(from as int, saved@.len() as int) =~= names.skip(from as int));
    text_of(&out)
}

/// What is written for a segment: the file and its whole content.
#[derive(Debug)]
pub struct WriteJob {
    pub path: String,
    pub data: Vec<u8>,
}

impl WriteJob {
    /// What is to be removed once the write has been tried: nothing where
    /// the whole content was written, the file where it was not, so that no
    /// file is left with a part of its content.
    pub fn leftover(&self, written: bool) -> (r: Option<String>)
        ensures
            written ==> r is None,
            !written ==> r is Some && r->0@ == self.path@,
    {
        if written {
            None
        } else {
            Some(self.path.clone())
        }
    }
}

/// One run of the fetch phase: the segments that wait, those in flight,
/// those that failed, and the names of the files written.
pub struct SliceRun {
    pub id: String,
    pub key: M3u8EncryptKey,
    pub waiting: SegQueue<DownloadInfoQueueDetail>,
    pub in_flight: Vec<DownloadInfoQueueDetail>,
    pub failed: Vec<DownloadInfoDetail>,
    pub saved: Vec<String>,
    pub flushed: usize,
    pub download_count: i32,
    pub origin: Ghost<Seq<Seq<char>>>,
}

impl SliceRun {
    /// The names of the segments that wait.
    pub open spec fn waiting_names(&self) -> Seq<Seq<char>> {
        queue_names(queue_items(self.waiting))
    }

    /// The names of the segments in flight.
    pub open spec fn flying_names(&self) -> Seq<Seq<char>> {
        queue_names(queue_view(self.in_flight@))
    }

    /// The names of the segments that failed.
    pub open spec fn failed_names(&self) -> Seq<Seq<char>> {
        detail_names(details_view(self.failed@))
    }

    /// The names of the files written in this run.
    pub open spec fn saved_names(&self) -> Seq<Seq<char>> {
        texts(self.saved@)
    }

    /// Every name the run knows of, as often as it knows it.
    pub open spec fn bag(&self) -> Multiset<Seq<char>> {
        self.waiting_names().to_multiset().add(self.flying_names().to_multiset()).add(
            self.failed_names().to_multiset(),
        ).add(self.saved_names().to_multiset())
    }

    /// The run is well formed: no more than six segments are in flight, and
    /// every segment the run started with is in exactly one place: waiting,
    /// in flight, failed or written.
    pub open spec fn wf(&self) -> bool {
        &&& self.in_flight@.len() <= MAX_IN_FLIGHT
        &&& forall|i: int|
            0 <= i < queue_items(self.waiting).len() ==> (#[trigger] queue_items(
                self.waiting,
            )[i]).key == self.key@
        &&& self.flushed <= self.saved@.len()
        &&& self.bag() == self.origin@.to_multiset()
    }

    /// Starts a run: the queue is read from the manifest and the success
    /// log, nothing is in flight, nothing has failed and nothing is written.
    pub fn begin(
        source_info: &DownloadSourceInfo,
        success_log: Option<&str>,
        download_count: i32,
    ) -> (run: Self)
        ensures
            run.wf(),
            queue_items(run.waiting) == pending_of(
                source_info@.list,
                source_info@.key,
                log_text(success_log),
            ),
            run.origin@ == run.waiting_names(),
            run.in_flight@.len() == 0,
            run.failed@.len() == 0,
            run.saved@.len() == 0,
            run.flushed == 0,
            run.download_count == download_count,
            run.id@ == source_info@.id,
            run.key@ == source_info@.key,
    {
        let waiting = read_data_to_queue(source_info, success_log);
        let run = SliceRun {
            id: source_info.id.clone(),
            key: source_info.m3u8_encrypt_key.duplicate(),
            waiting,
            in_flight: Vec::new(),
            failed: Vec::new(),
            saved: Vec::new(),
            flushed: 0,
            download_count,
            origin: Ghost(queue_names(queue_items(waiting))),
        };
        proof {
            lemma_pending_keys(source_info@.list, source_info@.key, log_text(success_log));
            assert(run.flying_names() =~= Seq::empty());
            assert(run.failed_names() =~= Seq::empty());
            assert(run.saved_names() =~= Seq::empty());
            assert(run.bag() =~= run.origin@.to_multiset());
        }
        run
    }

    /// Hands out the next segment to fetch, if one waits and fewer than six
    /// are in flight. The segment handed out is in flight from then on.
    pub fn next_fetch(&mut self) -> (r: Option<DownloadInfoQueueDetail>)
        requires
            old(self).wf(),
        ensures
            final(self).wf(),
            final(self).in_flight@.len() <= MAX_IN_FLIGHT,
            final(self).origin == old(self).origin,
            final(self).failed == old(self).failed,
            final(self).saved == old(self).saved,
            final(self).flushed == old(self).flushed,
            final(self).download_count == old(self).download_count,
            final(self).key == old(self).key,
            final(self).id == old(self).id,
            match r {
                Some(item) => {
                    &&& old(self).in_flight@.len() < MAX_IN_FLIGHT
                    &&& queue_items(old(self).waiting).len() > 0
                    &&& item@ == queue_items(old(self).waiting)[0]
                    &&& queue_items(final(self).waiting) == queue_items(
                        old(self).waiting,
                    ).drop_first()
                    &&& queue_view(final(self).in_flight@) == queue_view(old(self).in_flight@).push(
                        item@,
                    )
                },
                None => {
                    &&& old(self).in_flight@.len() == MAX_IN_FLIGHT || queue_items(
                        old(self).waiting,
                    ).len() == 0
                    &&& queue_items(final(self).waiting) == queue_items(old(self).waiting)
                    &&& final(self).in_flight == old(self).in_flight
                },
            },
    {
        if self.in_flight.len() >= MAX_IN_FLIGHT {
            return None;
        }
        let ghost before_waiting = queue_items(self.waiting);
        let ghost before_flying = queue_view(self.in_flight@);
        match queue_pop(&mut self.waiting) {
            None => None,
            Some(item) => {
                let copy = DownloadInfoQueueDetail {
                    id: item.id,
                    url: item.url.clone(),
                    file_name: item.file_name.clone(),
                    m3u8_encrypt_key: Arc::new(self.key.duplicate()),
                };
                self.in_flight.push(copy);
                proof {
                    assert(item@ == before_waiting[0]);
                    assert(copy@ == item@);
                    assert(before_waiting.drop_first() =~= before_waiting.remove(0));
                    assert(queue_names(before_waiting.remove(0)) =~= queue_names(
                        before_waiting,
                    ).remove(0));
                    assert(queue_view(self.in_flight@) =~= before_flying.push(copy@));
                    assert(queue_names(before_flying.push(copy@)) =~= queue_names(
                        before_flying,
                    ).push(copy@.file_name));
                    assert(self.bag() =~= old(self).bag());
                }
                Some(item)
            },
        }
    }

    /// Judges the answer to the fetch of the segment with the given place in
    /// the playlist, and prepares the write of its file. There is a write
    /// exactly where the segment is in flight and [`download_ts`] judges
    /// the answer a success; it then holds the segment's file and its whole
    /// payload.
    pub fn settle(&self, id: usize, status_ok: bool, body: Vec<u8>) -> (job: Option<WriteJob>)
        ensures
            match job {
                Some(j) => {
                    &&& flight_of(queue_view(self.in_flight@), id, 0) is Some
                    &&& segment_outcome(status_ok, body@, self.key@).0
                    &&& j.path@ == queue_view(self.in_flight@)[flight_of(
                        queue_view(self.in_flight@),
                        id,
                        0,
                    )->0].file_name
                    &&& j.data@ == segment_outcome(status_ok, body@, self.key@).1
                },
                None => flight_of(queue_view(self.in_flight@), id, 0) is None || !segment_outcome(
                    status_ok,
                    body@,
                    self.key@,
                ).0,
            },
    {
        let mut k: usize = 0;
        while k < self.in_flight.len() && self.in_flight[k].id != id
            invariant
                k <= self.in_flight@.len(),
                forall|j: int| 0 <= j < k ==> queue_view(self.in_flight@)[j].id != id,
            decreases self.in_flight.len() - k,
        {
            k += 1;
        }
        proof {
            lemma_flight_of(queue_view(self.in_flight@), id, 0, k as int);
        }
        if k >= self.in_flight.len() {
            return None;
        }
        let (success, data) = download_ts(status_ok, body, &self.key);
        if success {
            Some(WriteJob { path: self.in_flight[k].file_name.clone(), data })
        } else {
            None
        }
    }

    /// Records how the segment with the given place in the playlist ended.
    /// `success` is the verdict of [`download_ts`], `written` whether its
    /// whole payload was written to its file. A segment that was judged a
    /// success and written is entered among the files written and counted;
    /// any other goes back to the manifest. A place that is not in flight
    /// changes nothing.
    pub fn record(&mut self, id: usize, success: bool, written: bool) -> (found: bool)
        requires
            old(self).wf(),
        ensures
            final(self).wf(),
            final(self).in_flight@.len() <= MAX_IN_FLIGHT,
            final(self).origin == old(self).origin,
            final(self).waiting == old(self).waiting,
            final(self).flushed == old(self).flushed,
            final(self).id == old(self).id,
            final(self).key == old(self).key,
            match flight_of(queue_view(old(self).in_flight@), id, 0) {
                None => {
                    &&& !found
                    &&& final(self).in_flight == old(self).in_flight
                    &&& final(self).failed == old(self).failed
                    &&& final(self).saved == old(self).saved
                    &&& final(self).download_count == old(self).download_count
                },
                Some(k) => {
                    let item = queue_view(old(self).in_flight@)[k];
                    &&& found
                    &&& queue_view(final(self).in_flight@) == queue_view(
                        old(self).in_flight@,
                    ).remove(k)
                    &&& if success && written {
                        &&& final(self).saved_names() == old(self).saved_names().push(
                            item.file_name,
                        )
                        &&& final(self).failed == old(self).failed
                        &&& final(self).download_count == count_after(old(self).download_count)
                    } else {
                        &&& details_view(final(self).failed@) == details_view(
                            old(self).failed@,
                        ).push(as_detail(item))
                        &&& final(self).saved == old(self).saved
                        &&& final(self).download_count == old(self).download_count
                    }
                },
            },
    {
        let mut k: usize = 0;
        while k < self.in_flight.len() && self.in_flight[k].id != id
            invariant
                k <= self.in_flight@.len(),
                *self == *old(self),
                forall|j: int| 0 <= j < k ==> queue_view(self.in_flight@)[j].id != id,
            decreases self.in_flight.len() - k,
        {
            k += 1;
        }
        proof {
            lemma_flight_of(queue_view(self.in_flight@), id, 0, k as int);
        }
        if k >= self.in_flight.len() {
            return false;
        }
        let ghost before_flying = queue_view(self.in_flight@);
        let ghost before_failed = details_view(self.failed@);
        let ghost before_saved = texts(self.saved@);
        let item = self.in_flight.remove(k);
        proof {
            assert(queue_view(self.in_flight@) =~= before_flying.remove(k as int));
            assert(queue_names(before_flying.remove(k as int)) =~= queue_names(
                before_flying,
            ).remove(k as int));
            assert(queue_names(before_flying)[k as int] == item@.file_name);
        }
        if success && written {
            self.saved.push(item.file_name.clone());
            self.download_count = next_count(self.download_count);
            proof {
                assert(texts(self.saved@) =~= before_saved.push(item@.file_name));
                assert(self.bag() =~= old(self).bag());
            }
        } else {
            let d = detail_of(&item);
            self.failed.push(d);
            proof {
                assert(details_view(self.failed@) =~= before_failed.push(as_detail(item@)));
                assert(detail_names(before_failed.push(as_detail(item@))) =~= detail_names(
                    before_failed,
                ).push(item@.file_name));
                assert(self.bag() =~= old(self).bag());
            }
        }
        true
    }

    /// A tick of the progress clock: hands over the names written since the
    /// last tick as lines for the success log, and the current count.
    pub fn tick(&mut self) -> (p: Progress)
        requires
            old(self).wf(),
        ensures
            final(self).wf(),
            p.batch@ == batch_text(old(self).saved_names().skip(old(self).flushed as int)),
            p.download_count == old(self).download_count,
            p.response@ == progress_response(old(self).id@, old(self).download_count),
            final(self).flushed == old(self).saved@.len(),
            *final(self) == (SliceRun { flushed: final(self).flushed, ..*old(self) }),
    {
        let batch = batch_of(&self.saved, self.flushed);
        self.flushed = self.saved.len();
        Progress {
            batch,
            download_count: self.download_count,
            response: DownloadInfoResponse {
                id: self.id.clone(),
                status: "downloadSlice".to_owned(),
                download_count: Some(self.download_count),
                count: None,
                download_status: None,
                mes_type: "progress".to_owned(),
            },
        }
    }

    /// The manifest that the run leaves for the next pass: the segments
    /// that failed, then those still in flight, then those that still wait.
    pub open spec fn remainder(&self) -> Seq<DetailView> {
        details_view(self.failed@) + queued_as_details(queue_view(self.in_flight@))
            + queued_as_details(queue_items(self.waiting))
    }

    /// Ends the run. The manifest for the next pass holds what failed and
    /// what was never settled; the names written since the last tick are
    /// handed over for the success log. Each segment the run started with is
    /// then either in that manifest or among the files written, never both
    /// ways at once.
    pub fn finish(self) -> (end: SliceEnd)
        requires
            self.wf(),
        ensures
            end.source_info@.list == self.remainder(),
            end.source_info@.id == self.id@,
            end.source_info@.key == self.key@,
            end.batch@ == batch_text(self.saved_names().skip(self.flushed as int)),
            end.saved == self.saved,
            end.download_count == self.download_count,
            end.response@ == download_slice_response(self.id@, self.download_count),
            detail_names(end.source_info@.list).to_multiset().add(texts(end.saved@).to_multiset())
                == self.origin@.to_multiset(),
    {
        let batch = batch_of(&self.saved, self.flushed);
        let ghost start = self;
        let SliceRun { id, key, waiting, in_flight, failed, saved, flushed, download_count, origin } =
            self;
        let mut list = failed;
        let mut waiting = waiting;
        let ghost failed_view = details_view(list@);
        let ghost flying = queue_view(in_flight@);
        let ghost queue = queue_items(waiting);
        let mut i: usize = 0;
        assert(flying.take(0) =~= Seq::empty());
        assert(queued_as_details(Seq::<QueueDetailView>::empty()) =~= Seq::<DetailView>::empty());
        assert(failed_view + Seq::<DetailView>::empty() =~= failed_view);
        while i < in_flight.len()
            invariant
                i <= in_flight@.len(),
                flying == queue_view(in_flight@),
                details_view(list@) == failed_view + queued_as_details(flying.take(i as int)),
            decreases in_flight.len() - i,
        {
            let d = detail_of(&in_flight[i]);
            let ghost before = details_view(list@);
            list.push(d);
            i += 1;
            proof {
                assert(details_view(list@) =~= before.push(as_detail(flying[i - 1])));
                assert(flying.take(i as int) =~= flying.take(i - 1).push(flying[i - 1]));
                assert(queued_as_details(flying.take(i as int)) =~= queued_as_details(
                    flying.take(i - 1),
                ).push(as_detail(flying[i - 1])));
                assert(details_view(list@) =~= failed_view + queued_as_details(
                    flying.take(i as int),
                ));
            }
        }
        assert(flying.take(in_flight@.len() as int) =~= flying);
        let ghost done: Seq<QueueDetailView> = Seq::empty();
        assert(failed_view + queued_as_details(flying) + queued_as_details(done) =~= failed_view
            + queued_as_details(flying));
        loop
            invariant
                queue == done + queue_items(waiting),
                details_view(list@) == failed_view + queued_as_details(flying) + queued_as_details(
                    done,
                ),
            ensures
                queue == done,
                details_view(list@) == failed_view + queued_as_details(flying) + queued_as_details(
                    done,
                ),
            decreases queue_items(waiting).len(),
        {
            let ghost rest = queue_items(waiting);
            match queue_pop(&mut waiting) {
                None => {
                    proof {
                        assert(done + rest =~= done);
                    }
                    break ;
                },
                Some(item) => {
                    let d = detail_of(&item);
                    let ghost before = details_view(list@);
                    list.push(d);
                    proof {
                        assert(details_view(list@) =~= before.push(as_detail(item@)));
                        assert(queued_as_details(done.push(item@)) =~= queued_as_details(
                            done,
                        ).push(as_detail(item@)));
                        assert(done.push(item@) + rest.drop_first() =~= done + rest);
                        done = done.push(item@);
                        assert(details_view(list@) =~= failed_view + queued_as_details(flying)
                            + queued_as_details(done));
                    }
                },
            }
        }
        proof {
            let names = detail_names(details_view(list@));
            assert(names =~= start.failed_names() + start.flying_names() + start.waiting_names());
            lemma_multiset_commutative(
                start.failed_names() + start.flying_names(),
                start.waiting_names(),
            );
            lemma_multiset_commutative(start.failed_names(), start.flying_names());
            assert(names.to_multiset().add(texts(saved@).to_multiset()) =~= start.bag());
        }
        let response = DownloadInfoResponse {
            id: id.clone(),
            status: "checkSource".to_owned(),
            download_count: Some(download_count),
            count: None,
            download_status: None,
            mes_type: "downloadSliceEnd".to_owned(),
        };
        SliceEnd {
            source_info: DownloadSourceInfo { id, m3u8_encrypt_key: key, download_info_list: list },
            batch,
            saved,
            download_count,
            response,
        }
    }
}

/// Whether two lists of names have no name in common.
pub open spec fn disjoint_names(a: Seq<Seq<char>>, b: Seq<Seq<char>>) -> bool {
    forall|n: Seq<char>| !(a.contains(n) && #[trigger] b.contains(n))
}

/// Whether the names of `a` and `b` together are the names of `c` and `d`
/// together.
pub open spec fn same_names(
    a: Seq<Seq<char>>,
    b: Seq<Seq<char>>,
    c: Seq<Seq<char>>,
    d: Seq<Seq<char>>,
) -> bool {
    forall|n: Seq<char>|
        #![trigger a.contains(n)]
        #![trigger b.contains(n)]
        #![trigger c.contains(n)]
        #![trigger d.contains(n)]
        (a.contains(n) || b.contains(n)) <==> (c.contains(n) || d.contains(n))
}

proof fn lemma_name_on_one_side(
    origin: Seq<Seq<char>>,
    names: Seq<Seq<char>>,
    saved: Seq<Seq<char>>,
    logged: Seq<Seq<char>>,
    n: Seq<char>,
)
    requires
        origin.no_duplicates(),
        forall|i: int| 0 <= i < origin.len() ==> !logged.contains(#[trigger] origin[i]),
        names.to_multiset().add(saved.to_multiset()) == origin.to_multiset(),
    ensures
        !(names.contains(n) && (logged + saved).contains(n)),
        (names.contains(n) || (logged + saved).contains(n)) <==> (origin.contains(n)
            || logged.contains(n)),
{
    origin.lemma_multiset_has_no_duplicates();
    let total = names.to_multiset().add(saved.to_multiset());
    assert(total.count(n) == names.to_multiset().count(n) + saved.to_multiset().count(n));
    assert(origin.to_multiset().count(n) <= 1) by {
        if origin.to_multiset().count(n) > 0 {
            assert(origin.to_multiset().contains(n));
        }
    }
    if (logged + saved).contains(n) {
        let k = choose|k: int| 0 <= k < (logged + saved).len() && (logged + saved)[k] == n;
        if k < logged.len() {
            assert(logged[k] == n);
            assert(logged.contains(n));
        } else {
            assert(saved[k - logged.len()] == n);
            assert(saved.contains(n));
        }
    }
    if logged.contains(n) {
        let k = choose|k: int| 0 <= k < logged.len() && logged[k] == n;
        assert((logged + saved)[k] == n);
        if origin.contains(n) {
            let j = choose|j: int| 0 <= j < origin.len() && origin[j] == n;
            assert(!logged.contains(origin[j]));
        }
    }
    if saved.contains(n) {
        let k = choose|k: int| 0 <= k < saved.len() && saved[k] == n;
        assert((logged + saved)[logged.len() + k] == n);
    }
}

/// At the end of a run the manifest and the success log part the segments
/// between them. `origin` holds the names the run started with, none of
/// them twice and none of them among the names `logged` before; `manifest`
/// is what the run leaves, `saved` the names it adds to the log. Then no
/// name is both in the manifest and in the log, and the two together hold
/// what the run started with and what the log held before.
pub proof fn lemma_manifest_and_log_part(
    origin: Seq<Seq<char>>,
    manifest: Seq<DetailView>,
    saved: Seq<Seq<char>>,
    logged: Seq<Seq<char>>,
)
    requires
        origin.no_duplicates(),
        forall|i: int| 0 <= i < origin.len() ==> !logged.contains(#[trigger] origin[i]),
        detail_names(manifest).to_multiset().add(saved.to_multiset()) == origin.to_multiset(),
    ensures
        disjoint_names(detail_names(manifest), logged + saved),
        same_names(detail_names(manifest), logged + saved, origin, logged),
{
    let names = detail_names(manifest);
    assert forall|n: Seq<char>| !(names.contains(n) && #[trigger] (logged + saved).contains(n)) by {
        lemma_name_on_one_side(origin, names, saved, logged, n);
    };
    assert forall|n: Seq<char>|
        (names.contains(n) || (logged + saved).contains(n)) <==> (origin.contains(n)
            || logged.contains(n)) by {
        lemma_name_on_one_side(origin, names, saved, logged, n);
    };
}

/// Whether no name of the list holds a line feed.
pub open spec fn line_free(names: Seq<Seq<char>>) -> bool {
    forall|i: int, j: int| 0 <= i < names.len() && 0 <= j < names[i].len() ==> names[i][j] != '\n'
}

/// The lines written for a list of names list exactly those names, and end
/// with a line feed unless there are none.
pub proof fn lemma_batch_lists_names(names: Seq<Seq<char>>)
    requires
        line_free(names),
    ensures
        logged_names(batch_text(names)) == names,
        batch_text(names).len() == 0 || batch_text(names).last() == '\n',
        names.len() == 0 ==> batch_text(names).len() == 0,
    decreases names.len(),
{
    reveal_strlit("\r\n");
    if names.len() == 0 {
        assert(lines_of(Seq::<char>::empty()) =~= Seq::<Seq<char>>::empty());
        assert(logged_names(batch_text(names)) =~= names);
    } else {
        let init = names.drop_last();
        let last = names.last();
        lemma_batch_lists_names(init);
        let line = last + "\r\n"@;
        assert("\r\n"@.len() == 2);
        assert(line[line.len() - 1] == '\n');
        assert(line[line.len() - 2] == '\r');
        assert(is_line(line)) by {
            assert forall|j: int| 0 <= j < line.len() - 1 implies line[j] != '\n' by {
                if j < last.len() {
                    assert(line[j] == last[j]);
                }
            }
        }
        lemma_single_line(line);
        assert(batch_text(names) =~= batch_text(init) + line);
        lemma_lines_concat(batch_text(init), line);
        assert(line.drop_last().drop_last() =~= last);
        assert(bare_line(line) == last);
        assert(logged_names(batch_text(names)) =~= logged_names(batch_text(init)).push(last));
        assert(init.push(last) =~= names);
    }
}

/// Flushing in batches writes the same text as flushing at once: the lines
/// for the first `k` names followed by the lines for the others are the
/// lines for all of them.
pub proof fn lemma_batches_add_up(names: Seq<Seq<char>>, k: int)
    requires
        0 <= k <= names.len(),
    ensures
        batch_text(names.take(k)) + batch_text(names.skip(k)) == batch_text(names),
    decreases names.len(),
{
    if k == names.len() {
        assert(names.take(k) =~= names);
        assert(names.skip(k) =~= Seq::<Seq<char>>::empty());
        assert(batch_text(names) + Seq::<char>::empty() =~= batch_text(names));
    } else {
        let init = names.drop_last();
        lemma_batches_add_up(init, k);
        assert(init.take(k) =~= names.take(k));
        assert(names.skip(k).drop_last() =~= init.skip(k));
        assert(names.skip(k).last() == names.last());
        assert(batch_text(names.take(k)) + (batch_text(init.skip(k)) + names.last() + "\r\n"@)
            =~= (batch_text(names.take(k)) + batch_text(init.skip(k))) + names.last() + "\r\n"@);
    }
}

/// Appending the lines written for a list of names to a success log adds
/// exactly those names to what the log lists. The log must be empty or end
/// with a line feed, as every log written this way does.
pub proof fn lemma_log_gains_names(log: Seq<char>, names: Seq<Seq<char>>)
    requires
        log.len() == 0 || log.last() == '\n',
        line_free(names),
    ensures
        logged_names(log + batch_text(names)) == logged_names(log) + names,
        (log + batch_text(names)).len() == 0 || (log + batch_text(names)).last() == '\n',
{
    lemma_batch_lists_names(names);
    lemma_lines_concat(log, batch_text(names));
    assert(logged_names(log + batch_text(names)) =~= logged_names(log) + logged_names(
        batch_text(names),
    ));
}

/// Manifest and success log are disjoint and together complete at the end
/// of a run. `origin` holds the names the run started with, none of them
/// twice and none listed in the log as it was; `manifest` is what the run
/// leaves and `saved` the names of the files it wrote. Once the lines for
/// `saved` are appended to the log, no name is both in the manifest and
/// listed in the log, and a name is in the manifest or listed in the log
/// exactly if the run started with it or the log listed it before.
pub proof fn lemma_run_parts_segments(
    origin: Seq<Seq<char>>,
    manifest: Seq<DetailView>,
    saved: Seq<Seq<char>>,
    log: Seq<char>,
)
    requires
        origin.no_duplicates(),
        forall|i: int| 0 <= i < origin.len() ==> !logged_names(log).contains(#[trigger] origin[i]),
        detail_names(manifest).to_multiset().add(saved.to_multiset()) == origin.to_multiset(),
        log.len() == 0 || log.last() == '\n',
        line_free(saved),
    ensures
        disjoint_names(detail_names(manifest), logged_names(log + batch_text(saved))),
        same_names(
            detail_names(manifest),
            logged_names(log + batch_text(saved)),
            origin,
            logged_names(log),
        ),
{
    lemma_log_gains_names(log, saved);
    lemma_manifest_and_log_part(origin, manifest, saved, logged_names(log));
}

/// Whether two lists hold the same of the given names: each of `names` is
/// in `a` exactly if it is in `b`.
pub open spec fn agree_on(names: Seq<Seq<char>>, a: Seq<Seq<char>>, b: Seq<Seq<char>>) -> bool {
    forall|n: Seq<char>| #[trigger] names.contains(n) ==> (a.contains(n) <==> b.contains(n))
}

proof fn lemma_listed_or_saved(logged: Seq<Seq<char>>, saved: Seq<Seq<char>>, n: Seq<char>)
    requires
        !logged.contains(n),
    ensures
        (logged + saved).contains(n) <==> saved.contains(n),
{
    if (logged + saved).contains(n) {
        let k = choose|k: int| 0 <= k < (logged + saved).len() && (logged + saved)[k] == n;
        if k < logged.len() {
            assert(logged[k] == n);
        } else {
            assert(saved[k - logged.len()] == n);
        }
    }
    if saved.contains(n) {
        let k = choose|k: int| 0 <= k < saved.len() && saved[k] == n;
        assert((logged + saved)[logged.len() + k] == n);
    }
}

/// The success log lists the files that were written, and no other file of
/// the run. `origin` holds the names the run started with, none of them
/// listed in the log as it was; `saved` holds the names that the run
/// entered on the word that their whole file is written. Once the lines for
/// `saved` are appended, the log lists a name of `origin` exactly if it is
/// in `saved`.
pub proof fn lemma_log_lists_what_was_written(
    origin: Seq<Seq<char>>,
    saved: Seq<Seq<char>>,
    log: Seq<char>,
)
    requires
        forall|i: int| 0 <= i < origin.len() ==> !logged_names(log).contains(#[trigger] origin[i]),
        log.len() == 0 || log.last() == '\n',
        line_free(saved),
    ensures
        agree_on(origin, logged_names(log + batch_text(saved)), saved),
{
    lemma_log_gains_names(log, saved);
    let after = logged_names(log + batch_text(saved));
    assert forall|n: Seq<char>| #[trigger] origin.contains(n) implies (after.contains(n)
        <==> saved.contains(n)) by {
        let i = choose|i: int| 0 <= i < origin.len() && origin[i] == n;
        assert(!logged_names(log).contains(origin[i]));
        lemma_listed_or_saved(logged_names(log), saved, n);
    };
}

} // verus!
