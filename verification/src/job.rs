//! Background jobs: the rerender job and the marker that keeps a rerender
//! from being queued twice while one is pending.

use crate::text::{push_all, push_decimal_i64, signed_decimal, string_from_chars};
use vstd::prelude::*;

verus! {

/// Starts the key that marks a rerender pending.
pub open spec fn pending_key_prefix() -> Seq<char> {
    seq!['j', 'o', 'b', ':', 'r', 'e', 'r', 'e', 'n', 'd', 'e', 'r', '-', 'p', 'e', 'n', 'd', 'i', 'n', 'g', ':']
}

pub fn pending_key_prefix_chars() -> (out: Vec<char>)
    ensures
        out@ == pending_key_prefix(),
{
    vec!['j', 'o', 'b', ':', 'r', 'e', 'r', 'e', 'n', 'd', 'e', 'r', '-', 'p', 'e', 'n', 'd', 'i', 'n', 'g', ':']
}

/// How a standalone rerender is named.
pub open spec fn standalone_label() -> Seq<char> {
    seq!['S', 't', 'a', 'n', 'd', 'a', 'l', 'o', 'n', 'e']
}

pub fn standalone_label_chars() -> (out: Vec<char>)
    ensures
        out@ == standalone_label(),
{
    vec!['S', 't', 'a', 'n', 'd', 'a', 'l', 'o', 'n', 'e']
}

/// How a navigation rerender is named.
pub open spec fn navigation_label() -> Seq<char> {
    seq!['N', 'a', 'v', 'i', 'g', 'a', 't', 'i', 'o', 'n', 'O', 'n', 'l', 'y']
}

pub fn navigation_label_chars() -> (out: Vec<char>)
    ensures
        out@ == navigation_label(),
{
    vec!['N', 'a', 'v', 'i', 'g', 'a', 't', 'i', 'o', 'n', 'O', 'n', 'l', 'y']
}

/// A page: its site, its category and itself.
#[derive(Debug, Clone, Copy, PartialEq, Eq, Structural)]
pub struct PageId {
    pub site_id: i64,
    pub category_id: i64,
    pub page_id: i64,
}

/// What a rerender renders: the page itself, or only its navigation.
#[derive(Debug, Clone, Copy, PartialEq, Eq, Structural)]
pub enum RerenderType {
    Standalone,
    NavigationOnly,
}

#[derive(Debug, Clone, Copy, PartialEq, Eq, Structural)]
pub enum Job {
    RerenderPage { id: PageId, rerender_type: RerenderType },
    PruneSessions,
    PrunePendingUploads,
    PruneText,
    NameChangeRefill,
    LiftExpiredPunishments,
}

#[derive(Debug)]
pub struct JobService;

/// How long a pending-rerender marker lives, in seconds. A worker removes
/// it when the job starts; the expiry only frees a page whose job was lost.
pub const PENDING_RERENDER_EXPIRY_SECS: u64 = 3600;

pub open spec fn rerender_label(t: RerenderType) -> Seq<char> {
    match t {
        RerenderType::Standalone => standalone_label(),
        RerenderType::NavigationOnly => navigation_label(),
    }
}

/// The key that marks a rerender of a page pending.
pub open spec fn pending_rerender_key_spec(id: PageId, t: RerenderType) -> Seq<char> {
    pending_key_prefix() + signed_decimal(id.page_id as int) + seq![':'] + rerender_label(t)
}

pub fn pending_rerender_key(id: PageId, rerender_type: RerenderType) -> (out: String)
    ensures
        out@ == pending_rerender_key_spec(id, rerender_type),
{
    let mut k = pending_key_prefix_chars();
    push_decimal_i64(&mut k, id.page_id);
    k.push(':');
    match rerender_type {
        RerenderType::Standalone => push_all(&mut k, &standalone_label_chars()),
        RerenderType::NavigationOnly => push_all(&mut k, &navigation_label_chars()),
    }
    string_from_chars(&k)
}

/// The job a rerender queues.
pub fn rerender_job(id: PageId, rerender_type: RerenderType) -> (out: Job)
    ensures
        out == (Job::RerenderPage { id, rerender_type }),
{
    Job::RerenderPage { id, rerender_type }
}

/// What queuing a rerender does next.
#[derive(Debug, Clone, Copy, PartialEq, Eq, Structural)]
pub enum QueueStep {
    /// The same rerender is already pending: nothing to queue.
    AlreadyPending,
    /// Queue the job.
    Queue,
}

/// Whether to queue after setting the pending marker: only a newly set
/// marker queues, so a rerender is pending at most once.
pub fn after_marking(marked: bool) -> (out: QueueStep)
    ensures
        marked <==> out == QueueStep::Queue,
{
    if marked { QueueStep::Queue } else { QueueStep::AlreadyPending }
}

} // verus!
