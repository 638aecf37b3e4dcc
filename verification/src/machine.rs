//! The phase machine: which phase follows which, what the caller is told at
//! each transition, and when a task is given up.

use crate::address::url_parse;
use crate::governor::{
    cache_max_capacity, cache_time_to_live, count_of_entries, increment, is_exhausted,
    lemma_count_of_entries, new_governor, RETRY_CAPACITY, RETRY_LIMIT, RETRY_TTL_SECS,
};
use crate::ledger::parse_source_response;
use crate::merge::merger_response;
use crate::pool::download_slice_response;
use crate::text::concat_text;
use crate::types::{
    details_view, operation_named, parse_operation_name, DownloadError, DownloadInfoContext,
    DownloadInfoResponse, DownloadOperation, DownloadSourceInfo, DownloadTaskInfo, ResponseView,
};
use moka::sync::Cache;
use vstd::prelude::*;

verus! {

/// How many seconds the check waits before the fetch phase is entered again.
pub const CHECK_BACKOFF_SECS: u64 = 10;

/// A download in progress: its context, the retry governor's cache and the
/// key under which the governor counts it.
pub struct M3u8Download {
    pub download_info_context: DownloadInfoContext,
    pub cache: Cache<String, i32>,
    pub uq_key: String,
}

/// What the machine asks for after a transition: the messages to send to
/// the caller, in order, and the phase to run next, if any. `retries` is
/// the governor's count where the transition consulted it.
#[derive(Debug)]
pub struct Step {
    pub messages: Vec<DownloadInfoResponse>,
    pub next: Option<DownloadOperation>,
    pub retries: Option<i32>,
}

/// A step as a value of the model.
pub struct StepView {
    pub messages: Seq<ResponseView>,
    pub next: Option<DownloadOperation>,
    pub retries: Option<i32>,
}

/// The messages of a list as values of the model.
pub open spec fn responses_view(list: Seq<DownloadInfoResponse>) -> Seq<ResponseView> {
    list.map_values(|r: DownloadInfoResponse| r@)
}

impl View for Step {
    type V = StepView;

    open spec fn view(&self) -> StepView {
        StepView {
            messages: responses_view(self.messages@),
            next: self.next,
            retries: self.retries,
        }
    }
}

/// The one message that ends a task in failure.
pub open spec fn fail_event(id: Seq<char>, status: Seq<char>) -> ResponseView {
    ResponseView {
        id,
        status,
        download_count: None,
        count: None,
        download_status: Some("downloadFail"@),
        mes_type: "end"@,
    }
}

/// Whether a phase is one that the machine runs.
pub open spec fn runnable(op: DownloadOperation) -> bool {
    op == DownloadOperation::ParseSource || op == DownloadOperation::DownloadSlice || op
        == DownloadOperation::CheckSource || op == DownloadOperation::Merger
}

/// Whether the governor's count allows one more entry into the fetch phase.
pub open spec fn within_limit(count: Option<i32>) -> bool {
    count is Some && count->0 <= RETRY_LIMIT
}

/// Whether the governor's count forbids one more entry into the fetch phase.
pub open spec fn over_limit(count: Option<i32>) -> bool {
    count is Some && count->0 > RETRY_LIMIT
}

/// The first step of a task in the phase named by `status`. A finished task
/// asks for nothing. An unknown phase name ends the task in failure, and so
/// does the fetch phase where the governor's count exceeds the limit. Any
/// other phase is run. `count` is the governor's count and is looked at only
/// where the task starts in the fetch phase.
pub open spec fn first_step(id: Seq<char>, status: Seq<char>, count: Option<i32>) -> StepView {
    let op = operation_named(status);
    if op == DownloadOperation::DownloadEnd {
        StepView { messages: Seq::empty(), next: None, retries: count }
    } else if op == DownloadOperation::UnsupportedOperation || (op
        == DownloadOperation::DownloadSlice && over_limit(count)) {
        StepView { messages: seq![fail_event(id, status)], next: None, retries: count }
    } else {
        StepView { messages: Seq::empty(), next: Some(op), retries: count }
    }
}

/// The step that follows the end of a phase.
///
/// A phase that succeeded has its response relayed. The phase it names is
/// run next, unless it is the end, or it is unknown, or it is the fetch
/// phase and the governor's count exceeds the limit: the last two end the
/// task in failure.
///
/// A fetch phase that failed is entered again, without a message, as long
/// as the governor's count is within the limit. Any other failure ends the
/// task with the one message of failure.
///
/// `status` names the phase that was run. `count` is the governor's count
/// and is looked at only where the fetch phase would come next.
pub open spec fn step_after(
    id: Seq<char>,
    status: Seq<char>,
    outcome: Result<ResponseView, DownloadError>,
    count: Option<i32>,
) -> StepView {
    match outcome {
        Err(_) => if operation_named(status) == DownloadOperation::DownloadSlice && within_limit(
            count,
        ) {
            StepView {
                messages: Seq::empty(),
                next: Some(DownloadOperation::DownloadSlice),
                retries: count,
            }
        } else {
            StepView { messages: seq![fail_event(id, status)], next: None, retries: count }
        },
        Ok(response) => {
            let op = operation_named(response.status);
            if op == DownloadOperation::DownloadEnd {
                StepView { messages: seq![response], next: None, retries: count }
            } else if op == DownloadOperation::UnsupportedOperation || (op
                == DownloadOperation::DownloadSlice && over_limit(count)) {
                StepView {
                    messages: seq![response, fail_event(id, status)],
                    next: None,
                    retries: count,
                }
            } else {
                StepView { messages: seq![response], next: Some(op), retries: count }
            }
        },
    }
}

/// The outcome of a phase as a value of the model.
pub open spec fn outcome_view(outcome: Result<DownloadInfoResponse, DownloadError>) -> Result<
    ResponseView,
    DownloadError,
> {
    match outcome {
        Ok(r) => Ok(r@),
        Err(e) => Err(e),
    }
}

/// Whether the outcome of the phase named by `status` leads into the fetch
/// phase: a success whose response names it, or a failure of the fetch
/// phase itself. These are the outcomes on which the governor counts.
pub open spec fn enters_fetch(status: Seq<char>, outcome: Result<ResponseView, DownloadError>) -> bool {
    match outcome {
        Ok(response) => operation_named(response.status) == DownloadOperation::DownloadSlice,
        Err(_) => operation_named(status) == DownloadOperation::DownloadSlice,
    }
}

/// The context after a phase that succeeded and is followed by another: the
/// new phase name and, where the response carries one, the new count of
/// segments fetched.
pub open spec fn moved_on(before: DownloadInfoContext, after: DownloadInfoContext, response: ResponseView) -> bool {
    &&& after.status@ == response.status
    &&& after.download_count == match response.download_count {
        Some(c) => c,
        None => before.download_count,
    }
    &&& after == (DownloadInfoContext {
        status: after.status,
        download_count: after.download_count,
        ..before
    })
}

fn fail_message(ctx: &DownloadInfoContext) -> (m: DownloadInfoResponse)
    ensures
        m@ == fail_event(ctx.id@, ctx.status@),
{
    DownloadInfoResponse {
        id: ctx.id.clone(),
        status: ctx.status.clone(),
        download_count: None,
        count: None,
        download_status: Some("downloadFail".to_owned()),
        mes_type: "end".to_owned(),
    }
}

/// Whether the count, where there is one, is within the limit.
fn allows(count: Option<i32>) -> (r: bool)
    ensures
        r == within_limit(count),
{
    match count {
        Some(c) => !is_exhausted(c),
        None => false,
    }
}

/// Whether the count, where there is one, exceeds the limit.
fn forbids(count: Option<i32>) -> (r: bool)
    ensures
        r == over_limit(count),
{
    match count {
        Some(c) => is_exhausted(c),
        None => false,
    }
}

/// Decides the step that follows the end of a phase: see [`step_after`].
/// Where a phase that succeeded is followed by another, the context moves
/// on to it; else the context stays as it is, also where the fetch phase is
/// entered again.
pub fn decide(
    ctx: &mut DownloadInfoContext,
    outcome: Result<DownloadInfoResponse, DownloadError>,
    count: Option<i32>,
) -> (step: Step)
    ensures
        step@ == step_after(old(ctx).id@, old(ctx).status@, outcome_view(outcome), count),
        match (outcome, step.next) {
            (Ok(response), Some(_)) => moved_on(*old(ctx), *final(ctx), response@),
            _ => *final(ctx) == *old(ctx),
        },
{
    let mut messages: Vec<DownloadInfoResponse> = Vec::new();
    match outcome {
        Err(_) => {
            let op = parse_operation_name(ctx.status.as_str());
            if op == DownloadOperation::DownloadSlice && allows(count) {
                assert(responses_view(messages@) =~= Seq::empty());
                Step { messages, next: Some(DownloadOperation::DownloadSlice), retries: count }
            } else {
                messages.push(fail_message(ctx));
                assert(responses_view(messages@) =~= seq![fail_event(ctx.id@, ctx.status@)]);
                Step { messages, next: None, retries: count }
            }
        },
        Ok(response) => {
            let op = parse_operation_name(response.status.as_str());
            let over = op == DownloadOperation::DownloadSlice && forbids(count);
            let ghost rv = response@;
            if op == DownloadOperation::DownloadEnd {
                messages.push(response);
                assert(responses_view(messages@) =~= seq![rv]);
                Step { messages, next: None, retries: count }
            } else if op == DownloadOperation::UnsupportedOperation || over {
                messages.push(response);
                messages.push(fail_message(ctx));
                assert(responses_view(messages@) =~= seq![rv, fail_event(ctx.id@, ctx.status@)]);
                Step { messages, next: None, retries: count }
            } else {
                ctx.status = response.status.clone();
                match response.download_count {
                    Some(c) => {
                        ctx.download_count = c;
                    },
                    None => {},
                }
                messages.push(response);
                assert(responses_view(messages@) =~= seq![rv]);
                Step { messages, next: Some(op), retries: count }
            }
        },
    }
}

/// Decides the first step of a task: see [`first_step`].
pub fn decide_first(ctx: &DownloadInfoContext, count: Option<i32>) -> (step: Step)
    ensures
        step@ == first_step(ctx.id@, ctx.status@, count),
{
    let op = parse_operation_name(ctx.status.as_str());
    let mut messages: Vec<DownloadInfoResponse> = Vec::new();
    if op == DownloadOperation::DownloadEnd {
        assert(responses_view(messages@) =~= Seq::empty());
        Step { messages, next: None, retries: count }
    } else if op == DownloadOperation::UnsupportedOperation || (op
        == DownloadOperation::DownloadSlice && forbids(count)) {
        messages.push(fail_message(ctx));
        assert(responses_view(messages@) =~= seq![fail_event(ctx.id@, ctx.status@)]);
        Step { messages, next: None, retries: count }
    } else {
        assert(responses_view(messages@) =~= Seq::empty());
        Step { messages, next: Some(op), retries: count }
    }
}

impl M3u8Download {
    /// The key under which the governor counts a task: the playlist
    /// address, an underscore and the display name.
    pub open spec fn task_key(url: Seq<char>, movie_name: Seq<char>) -> Seq<char> {
        url + "_"@ + movie_name
    }

    /// Sets up the download of a task, with a governor of its own: room for
    /// 1024 tasks, entries expire after one hour. Fails exactly when the
    /// context cannot be derived.
    pub fn new(download_info: &DownloadTaskInfo) -> (r: Result<Self, DownloadError>)
        ensures
            match r {
                Ok(d) => {
                    &&& url_parse(download_info.url@) is Some
                    &&& d.download_info_context.derived_from(
                        download_info,
                        url_parse(download_info.url@)->0,
                    )
                    &&& d.uq_key@ == Self::task_key(
                        d.download_info_context.url@,
                        download_info.movie_name@,
                    )
                    &&& cache_max_capacity(d.cache) == Some(RETRY_CAPACITY)
                    &&& cache_time_to_live(d.cache) == Some(RETRY_TTL_SECS)
                },
                Err(e) => e == DownloadError::BadUrl && url_parse(download_info.url@) is None,
            },
    {
        let ctx = match DownloadInfoContext::new(download_info) {
            Ok(c) => c,
            Err(e) => {
                return Err(e);
            },
        };
        let head = concat_text(ctx.url.as_str(), "_");
        let uq_key = concat_text(head.as_str(), ctx.movie_name.as_str());
        Ok(M3u8Download { download_info_context: ctx, cache: new_governor(), uq_key })
    }

    /// The first step of the download. Where the task starts in the fetch
    /// phase, the governor counts the entry, and the step is the one that
    /// [`first_step`] gives for the count reported in `retries`.
    pub fn start_download(&self) -> (step: Step)
        ensures
            step@ == first_step(
                self.download_info_context.id@,
                self.download_info_context.status@,
                step.retries,
            ),
            step.retries is Some <==> operation_named(self.download_info_context.status@)
                == DownloadOperation::DownloadSlice,
    {
        let op = parse_operation_name(self.download_info_context.status.as_str());
        let count = if op == DownloadOperation::DownloadSlice {
            Some(increment(&self.cache, self.uq_key.as_str()))
        } else {
            None
        };
        decide_first(&self.download_info_context, count)
    }

    /// Takes the outcome of the phase that was run and decides the next
    /// step. Where the outcome leads into the fetch phase, by a response
    /// that names it or by a failure of the fetch phase itself, the governor
    /// counts one more entry, and the step is the one that [`step_after`]
    /// gives for the count reported in `retries`.
    pub fn advance(&mut self, outcome: Result<DownloadInfoResponse, DownloadError>) -> (step: Step)
        ensures
            step@ == step_after(
                old(self).download_info_context.id@,
                old(self).download_info_context.status@,
                outcome_view(outcome),
                step.retries,
            ),
            step.retries is Some <==> enters_fetch(
                old(self).download_info_context.status@,
                outcome_view(outcome),
            ),
            final(self).uq_key == old(self).uq_key,
            final(self).cache == old(self).cache,
            match (outcome, step.next) {
                (Ok(response), Some(_)) => moved_on(
                    old(self).download_info_context,
                    final(self).download_info_context,
                    response@,
                ),
                _ => final(self).download_info_context == old(self).download_info_context,
            },
    {
        let enters = match &outcome {
            Ok(response) => parse_operation_name(response.status.as_str())
                == DownloadOperation::DownloadSlice,
            Err(_) => parse_operation_name(self.download_info_context.status.as_str())
                == DownloadOperation::DownloadSlice,
        };
        let count = if enters {
            Some(increment(&self.cache, self.uq_key.as_str()))
        } else {
            None
        };
        decide(&mut self.download_info_context, outcome, count)
    }
}

/// What an outcome has relayed to the caller: the response of a phase that
/// succeeded, nothing for one that failed.
pub open spec fn relayed(outcome: Result<ResponseView, DownloadError>) -> Seq<ResponseView> {
    match outcome {
        Ok(response) => seq![response],
        Err(_) => Seq::empty(),
    }
}

/// The retry bound. Take a task whose governor entry does not expire, and
/// an outcome that leads into the fetch phase for the `entries`-th time: a
/// response that names the fetch phase, or a failure of the fetch phase
/// itself. Up to the fifth time the fetch phase is run next, and a failure
/// is passed over in silence. From the sixth on it is not run: the task
/// ends with the one message of failure. So a task whose fetch phase fails
/// five times in a row is given up without a sixth round.
pub proof fn lemma_retry_bound(
    id: Seq<char>,
    status: Seq<char>,
    outcome: Result<ResponseView, DownloadError>,
    entries: nat,
)
    requires
        enters_fetch(status, outcome),
        1 <= entries <= i32::MAX,
    ensures
        entries <= 5 ==> step_after(id, status, outcome, Some(count_of_entries(entries)))
            == (StepView {
            messages: relayed(outcome),
            next: Some(DownloadOperation::DownloadSlice),
            retries: Some(count_of_entries(entries)),
        }),
        entries > 5 ==> step_after(id, status, outcome, Some(count_of_entries(entries)))
            == (StepView {
            messages: relayed(outcome).push(fail_event(id, status)),
            next: None,
            retries: Some(count_of_entries(entries)),
        }),
        fail_event(id, status).download_status == Some("downloadFail"@),
        fail_event(id, status).mes_type == "end"@,
{
    lemma_count_of_entries(entries);
    match outcome {
        Ok(response) => {
            assert(seq![response].push(fail_event(id, status)) =~= seq![
                response,
                fail_event(id, status),
            ]);
        },
        Err(_) => {
            assert(Seq::<ResponseView>::empty().push(fail_event(id, status)) =~= seq![
                fail_event(id, status),
            ]);
        },
    }
}

/// The same bound for a task that starts in the fetch phase: its first
/// entry is counted like any other.
pub proof fn lemma_retry_bound_at_start(id: Seq<char>, status: Seq<char>, entries: nat)
    requires
        operation_named(status) == DownloadOperation::DownloadSlice,
        1 <= entries <= i32::MAX,
    ensures
        first_step(id, status, Some(count_of_entries(entries))).next == if entries <= 5 {
            Some(DownloadOperation::DownloadSlice)
        } else {
            None
        },
{
    lemma_count_of_entries(entries);
}

/// Every task ends with exactly one closing message. A step that asks for
/// no further phase carries, as its last message, either the message of
/// failure or the response that names the end. A step that asks for a
/// phase carries no closing message of its own: it relays the response of
/// the phase that succeeded, or nothing where the fetch phase is entered
/// again after a failure.
pub proof fn lemma_one_closing_message(
    id: Seq<char>,
    status: Seq<char>,
    outcome: Result<ResponseView, DownloadError>,
    count: Option<i32>,
)
    ensures
        ({
            let step = step_after(id, status, outcome, count);
            &&& step.next is None ==> step.messages.len() >= 1 && (step.messages.last()
                == fail_event(id, status) || (outcome matches Ok(r) && step.messages.last() == r
                && operation_named(r.status) == DownloadOperation::DownloadEnd))
            &&& step.next is Some ==> step.messages == relayed(outcome) && runnable(step.next->0)
                && match outcome {
                Ok(r) => step.next == Some(operation_named(r.status)),
                Err(_) => step.next == Some(DownloadOperation::DownloadSlice) && within_limit(count),
            }
        }),
{
}

/// What the check hands over: the response that names the next phase, and
/// the seconds to wait before it is run.
#[derive(Debug)]
pub struct CheckPlan {
    pub response: DownloadInfoResponse,
    pub delay_secs: u64,
}

/// The response that ends the check: the merge comes next where the
/// manifest is empty, the fetch phase where segments remain.
pub open spec fn check_source_response(id: Seq<char>, remaining: nat) -> ResponseView {
    ResponseView {
        id,
        status: if remaining == 0 {
            "merger"@
        } else {
            "downloadSlice"@
        },
        download_count: None,
        count: None,
        download_status: None,
        mes_type: "checkSourceEnd"@,
    }
}

/// Checks whether the download is complete. With an empty manifest the
/// merge comes next, at once. With segments left the fetch phase comes next
/// after a pause of ten seconds.
pub fn check_source(ctx: &DownloadInfoContext, source_info: &DownloadSourceInfo) -> (plan: CheckPlan)
    ensures
        plan.response@ == check_source_response(ctx.id@, source_info@.list.len()),
        plan.delay_secs == if source_info@.list.len() == 0 {
            0
        } else {
            CHECK_BACKOFF_SECS
        },
{
    let done = source_info.download_info_list.len() == 0;
    assert(details_view(source_info.download_info_list@).len()
        == source_info.download_info_list@.len());
    CheckPlan {
        response: DownloadInfoResponse {
            id: ctx.id.clone(),
            status: if done {
                "merger".to_owned()
            } else {
                "downloadSlice".to_owned()
            },
            download_count: None,
            count: None,
            download_status: None,
            mes_type: "checkSourceEnd".to_owned(),
        },
        delay_secs: if done {
            0
        } else {
            CHECK_BACKOFF_SECS
        },
    }
}

/// A download that meets no failure runs through its four phases and ends
/// in success. Take a task that starts at the parsing of the source, a
/// playlist of `count` segments, a fetch phase that leaves `download_count`
/// segments fetched and an empty manifest, and a merge that succeeds; let
/// `entries` be the governor's count at the entry into the fetch phase,
/// within the limit. Then the machine asks for the four phases in their
/// order and relays exactly the response of each, and the last message is
/// the one that closes the task in success. No message of failure is sent.
pub proof fn lemma_successful_run(id: Seq<char>, count: usize, download_count: i32, entries: i32)
    requires
        entries <= RETRY_LIMIT,
    ensures
        first_step(id, "parseSource"@, None) == (StepView {
            messages: Seq::empty(),
            next: Some(DownloadOperation::ParseSource),
            retries: None,
        }),
        step_after(id, "parseSource"@, Ok(parse_source_response(id, count)), Some(entries)) == (
        StepView {
            messages: seq![parse_source_response(id, count)],
            next: Some(DownloadOperation::DownloadSlice),
            retries: Some(entries),
        }),
        step_after(id, "downloadSlice"@, Ok(download_slice_response(id, download_count)), None)
            == (StepView {
            messages: seq![download_slice_response(id, download_count)],
            next: Some(DownloadOperation::CheckSource),
            retries: None,
        }),
        step_after(id, "checkSource"@, Ok(check_source_response(id, 0)), None) == (StepView {
            messages: seq![check_source_response(id, 0)],
            next: Some(DownloadOperation::Merger),
            retries: None,
        }),
        step_after(id, "merger"@, Ok(merger_response(id)), None) == (StepView {
            messages: seq![merger_response(id)],
            next: None,
            retries: None,
        }),
        merger_response(id).download_status == Some("downloadSuccess"@),
        merger_response(id).mes_type == "end"@,
        parse_source_response(id, count).count == Some(count),
        download_slice_response(id, download_count).download_count == Some(download_count),
{
    lemma_phase_names();
}

/// The five phase names are read as the five phases.
pub proof fn lemma_phase_names()
    ensures
        operation_named("parseSource"@) == DownloadOperation::ParseSource,
        operation_named("downloadSlice"@) == DownloadOperation::DownloadSlice,
        operation_named("checkSource"@) == DownloadOperation::CheckSource,
        operation_named("merger"@) == DownloadOperation::Merger,
        operation_named("downloadEnd"@) == DownloadOperation::DownloadEnd,
{
    reveal_strlit("parseSource");
    reveal_strlit("downloadSlice");
    reveal_strlit("checkSource");
    reveal_strlit("merger");
    reveal_strlit("downloadEnd");
    assert("parseSource"@.len() == 11);
    assert("downloadSlice"@.len() == 13);
    assert("checkSource"@.len() == 11);
    assert("merger"@.len() == 6);
    assert("downloadEnd"@.len() == 11);
    assert("parseSource"@[0] == 'p');
    assert("checkSource"@[0] == 'c');
    assert("downloadEnd"@[0] == 'd');
}

} // verus!
