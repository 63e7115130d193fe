//! The shape of one wakeup bucket of waiting Actors, from its stored counters.
use vstd::prelude::*;

verus! {

/// Position of a wakeup bucket in its clock's cursor heap.
pub type WakeupCursorIndex = u32;

/// A non-empty wakeup bucket: the pages its live entries span, the page a new entry opens, its
/// live entry count and its place in the cursor heap.
#[derive(Clone, Copy, Debug, PartialEq, Eq, Structural)]
pub struct WakeupBucketState {
    pub head_page: u64,
    pub tail_page: u64,
    pub next_page_id: u64,
    pub live_entries: u32,
    pub cursor_index: Option<WakeupCursorIndex>,
}

/// The bucket with `live_entries` live entries between entry index `head` and the end index
/// `tail`, 32 entries per page; none when it is empty or has no entry index.
pub open spec fn spec_wakeup_bucket_state(
    live_entries: u32,
    head: u64,
    tail: u64,
    cursor_index: Option<WakeupCursorIndex>,
) -> Option<WakeupBucketState> {
    if live_entries == 0 || tail == 0 {
        None
    } else {
        Some(
            WakeupBucketState {
                head_page: head / 32,
                tail_page: ((tail - 1) / 32) as u64,
                next_page_id: ((tail + 31) / 32) as u64,
                live_entries,
                cursor_index,
            },
        )
    }
}

/// The state of a wakeup bucket from its occupancy, head and tail entry indices and cursor
/// index.
pub fn wakeup_bucket_state(live_entries: u32, head: u64, tail: u64, cursor_index: Option<WakeupCursorIndex>) -> (r:
    Option<WakeupBucketState>)
    ensures
        r == spec_wakeup_bucket_state(live_entries, head, tail, cursor_index),
{
    if live_entries == 0 || tail == 0 {
        return None;
    }
    let next_page_id = tail / 32 + if tail % 32 != 0 {
        1u64
    } else {
        0u64
    };
    Some(
        WakeupBucketState {
            head_page: head / 32,
            tail_page: (tail - 1) / 32,
            next_page_id,
            live_entries,
            cursor_index,
        },
    )
}


/// A bucket has a state only while it holds live entries: its last entry (index `tail - 1`)
/// lies in its tail page, its head entry in its head page, and the next page id is the one
/// right after the tail page.
pub proof fn lemma_bucket_pages_hold_their_entries(
    live_entries: u32,
    head: u64,
    tail: u64,
    cursor_index: Option<WakeupCursorIndex>,
)
    ensures
        spec_wakeup_bucket_state(live_entries, head, tail, cursor_index) is Some <==> live_entries > 0 && tail > 0,
        spec_wakeup_bucket_state(live_entries, head, tail, cursor_index) matches Some(b) ==> {
            &&& b.tail_page * 32 <= tail - 1 < b.tail_page * 32 + 32
            &&& b.head_page * 32 <= head < b.head_page * 32 + 32
            &&& b.next_page_id == b.tail_page + 1
            &&& b.live_entries == live_entries
            &&& b.cursor_index == cursor_index
        },
{
}

} // verus!
