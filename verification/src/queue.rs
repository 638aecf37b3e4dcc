//! The work queue of the fetch pool: a `crossbeam` segment queue, seen
//! through the sequence of entries it holds.

use crate::types::{DownloadInfoQueueDetail, QueueDetailView};
use crossbeam::queue::SegQueue;
use vstd::prelude::*;

verus! {

#[verifier::external_type_specification]
#[verifier::external_body]
#[verifier::reject_recursive_types(T)]
pub struct ExSegQueue<T>(SegQueue<T>);

/// The entries that a queue holds, head first.
pub uninterp spec fn queue_items(q: SegQueue<DownloadInfoQueueDetail>) -> Seq<QueueDetailView>;

/// `SegQueue::new` creates a queue that holds nothing.
#[verifier::external_body]
pub(crate) fn queue_new() -> (q: SegQueue<DownloadInfoQueueDetail>)
    ensures
        queue_items(q) == Seq::<QueueDetailView>::empty(),
{
    SegQueue::new()
}

/// `SegQueue::push` puts the entry at the tail and leaves the others where
/// they are.
#[verifier::external_body]
pub(crate) fn queue_push(q: &mut SegQueue<DownloadInfoQueueDetail>, item: DownloadInfoQueueDetail)
    ensures
        queue_items(*final(q)) == queue_items(*old(q)).push(item@),
{
    q.push(item)
}

/// `SegQueue::pop` takes the entry at the head, or gives `None` where the
/// queue holds nothing.
#[verifier::external_body]
pub(crate) fn queue_pop(q: &mut SegQueue<DownloadInfoQueueDetail>) -> (r: Option<
    DownloadInfoQueueDetail,
>)
    ensures
        match r {
            Some(item) => {
                &&& queue_items(*old(q)).len() > 0
                &&& item@ == queue_items(*old(q))[0]
                &&& queue_items(*final(q)) == queue_items(*old(q)).drop_first()
            },
            None => queue_items(*old(q)).len() == 0 && queue_items(*final(q)) == queue_items(
                *old(q),
            ),
        },
{
    q.pop()
}

} // verus!
