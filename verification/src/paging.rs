use crate::models::MessageSummaryView;
use crate::order::sort_by;
use crate::rows::{in_mailbox, summaries_of, MessageRowView};
use crate::seqs::keep;
use vstd::prelude::*;

verus! {

/// By what a row is placed in the message list.
#[derive(Clone, Copy, Debug, PartialEq, Eq, Structural)]
pub struct PageKey {
    /// The latest timestamp in the row's thread.
    pub latest: i64,
    /// The thread id, or the message id of a message without a thread.
    pub thread_key: u64,
    /// Whether the row is a reply, that is, stands below the root of its thread.
    pub is_reply: bool,
    /// The row's own timestamp.
    pub timestamp: i64,
    /// The message id.
    pub id: u64,
}

/// What groups a row with its thread: the thread id, or for a message without a thread
/// its own id.
pub open spec fn thread_key(r: MessageRowView) -> u64 {
    match r.thread_id {
        Some(t) => t,
        None => r.envelope_hash,
    }
}

/// An unsigned 64-bit number read as a signed one, which is how thread keys are compared.
pub open spec fn signed(k: u64) -> int {
    if k < 0x8000_0000_0000_0000 {
        k as int
    } else {
        k - 0x1_0000_0000_0000_0000
    }
}

/// The latest timestamp among the rows of the thread `key`; the least timestamp there is,
/// if the thread has no rows.
pub open spec fn thread_latest(rows: Seq<MessageRowView>, key: u64) -> i64
    decreases rows.len(),
{
    if rows.len() == 0 {
        i64::MIN
    } else {
        let rest = thread_latest(rows.drop_last(), key);
        if thread_key(rows.last()) == key && rows.last().timestamp > rest {
            rows.last().timestamp
        } else {
            rest
        }
    }
}

/// The key of a row among the rows of its mailbox.
pub open spec fn page_key(rows: Seq<MessageRowView>, r: MessageRowView) -> PageKey {
    PageKey {
        latest: thread_latest(rows, thread_key(r)),
        thread_key: thread_key(r),
        is_reply: r.thread_depth > 0,
        timestamp: r.timestamp,
        id: r.envelope_hash,
    }
}

/// Whether a row with key `a` may stand before one with key `b`: the thread that was
/// active most recently comes first; threads that were last active at the same time are
/// told apart by their keys; within a thread the root comes before the replies; among
/// the roots, and among the replies, the older message comes first, and of two messages
/// of the same time the one with the lesser id.
pub open spec fn key_le(a: PageKey, b: PageKey) -> bool {
    if a.latest != b.latest {
        a.latest > b.latest
    } else if a.thread_key != b.thread_key {
        signed(a.thread_key) < signed(b.thread_key)
    } else if a.is_reply != b.is_reply {
        !a.is_reply
    } else if a.timestamp != b.timestamp {
        a.timestamp < b.timestamp
    } else {
        a.id <= b.id
    }
}

/// The order of the message list among the rows of one mailbox.
pub open spec fn page_order(rows: Seq<MessageRowView>) -> spec_fn(
    MessageRowView,
    MessageRowView,
) -> bool {
    |a: MessageRowView, b: MessageRowView| key_le(page_key(rows, a), page_key(rows, b))
}

/// The part of `s` that starts at `offset` and has at most `limit` items.
pub open spec fn page_of<T>(s: Seq<T>, limit: u32, offset: u32) -> Seq<T> {
    let from = if offset <= s.len() {
        offset as int
    } else {
        s.len() as int
    };
    let to = if offset + limit <= s.len() {
        offset + limit
    } else {
        s.len() as int
    };
    s.subrange(from, to)
}

/// The rows of one mailbox in the order of the message list.
pub open spec fn mailbox_listing(rows: Seq<MessageRowView>, account: Seq<char>, mailbox: u64) -> Seq<
    MessageRowView,
> {
    let mine = keep(rows, in_mailbox(account, mailbox));
    sort_by(mine, page_order(mine))
}

/// One page of the message list of a mailbox.
pub open spec fn spec_load_messages(
    rows: Seq<MessageRowView>,
    account: Seq<char>,
    mailbox: u64,
    limit: u32,
    offset: u32,
) -> Seq<MessageSummaryView> {
    summaries_of(page_of(mailbox_listing(rows, account, mailbox), limit, offset))
}

/// The test for the rows of an account whose id is among `hits`.
pub open spec fn is_hit(account: Seq<char>, hits: Seq<u64>) -> spec_fn(MessageRowView) -> bool {
    |r: MessageRowView| r.account_id == account && hits.contains(r.envelope_hash)
}

/// The order of search results: the newest first, and of two messages of the same time
/// the one with the lesser id.
pub open spec fn newest_first() -> spec_fn(MessageRowView, MessageRowView) -> bool {
    |a: MessageRowView, b: MessageRowView|
        if a.timestamp != b.timestamp {
            a.timestamp > b.timestamp
        } else {
            a.envelope_hash <= b.envelope_hash
        }
}

/// The most search results that are handed out.
pub const SEARCH_LIMIT: u32 = 200;

/// The default size of a page of the message list.
pub const DEFAULT_PAGE_SIZE: u32 = 50;

/// The search results for an account, given the ids that the full-text index matched:
/// the matched rows of the account, newest first, and no more than the limit.
pub open spec fn spec_search_hits(rows: Seq<MessageRowView>, account: Seq<char>, hits: Seq<u64>) -> Seq<
    MessageSummaryView,
> {
    summaries_of(page_of(sort_by(keep(rows, is_hit(account, hits)), newest_first()), SEARCH_LIMIT, 0))
}

/// The search results for a query: none for a query of nothing but white space,
/// otherwise those for the ids that the full-text index matched.
pub open spec fn spec_search(
    rows: Seq<MessageRowView>,
    account: Seq<char>,
    query: Seq<char>,
    hits: Seq<u64>,
) -> Seq<MessageSummaryView> {
    if crate::text::spec_trim(query).len() == 0 {
        Seq::empty()
    } else {
        spec_search_hits(rows, account, hits)
    }
}

/// Compares two thread keys as signed numbers.
pub fn signed_lt(a: u64, b: u64) -> (r: bool)
    ensures
        r == (signed(a) < signed(b)),
{
    let na = a >= 0x8000_0000_0000_0000;
    let nb = b >= 0x8000_0000_0000_0000;
    if na != nb {
        na
    } else {
        a < b
    }
}

/// Whether a row with key `a` may stand before one with key `b`.
pub fn key_before(a: &PageKey, b: &PageKey) -> (r: bool)
    ensures
        r == key_le(*a, *b),
{
    if a.latest != b.latest {
        a.latest > b.latest
    } else if a.thread_key != b.thread_key {
        signed_lt(a.thread_key, b.thread_key)
    } else if a.is_reply != b.is_reply {
        !a.is_reply
    } else if a.timestamp != b.timestamp {
        a.timestamp < b.timestamp
    } else {
        a.id <= b.id
    }
}

/// The order of the message list ranks any two rows one way or the other.
pub proof fn lemma_page_order_total(rows: Seq<MessageRowView>)
    ensures
        crate::order::total(page_order(rows)),
{
    assert forall|a: MessageRowView, b: MessageRowView| #[trigger]
        page_order(rows)(a, b) || page_order(rows)(b, a) by {}
}

} // verus!
