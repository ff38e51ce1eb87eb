use crate::flags::flags_from_u8;
use crate::models::MessageSummary;
use crate::paging::{
    is_hit, newest_first, page_key, page_of, page_order, spec_load_messages, spec_search,
    spec_search_hits, thread_key, thread_latest, PageKey, SEARCH_LIMIT,
};
use crate::rows::{in_mailbox, summaries_of, summary_of, MessageRow, MessageRowView};
use crate::seqs::{keep, view_all};
use crate::sorting::{pick, sort_positions};
use crate::store::CacheStore;
use crate::text::{opt_clone, str_eq};
use vstd::prelude::*;

verus! {

/// The summary that the message list shows for a row.
pub fn summary_from_row(row: &MessageRow) -> (m: MessageSummary)
    ensures
        m@ == summary_of(row@),
{
    let effective = if row.pending_op.is_some() {
        row.flags_local
    } else {
        row.flags_server
    };
    let (is_read, is_starred) = flags_from_u8(effective);
    MessageSummary {
        account_id: row.account_id.clone(),
        uid: row.envelope_hash,
        subject: row.subject.clone(),
        from: row.sender.clone(),
        date: row.date.clone(),
        is_read,
        is_starred,
        has_attachments: row.has_attachments,
        thread_id: row.thread_id,
        envelope_hash: row.envelope_hash,
        timestamp: row.timestamp,
        mailbox_hash: row.mailbox_hash,
        message_id: row.message_id.clone(),
        in_reply_to: opt_clone(&row.in_reply_to),
        thread_depth: row.thread_depth,
    }
}

/// Whether `id` is among `hits`.
fn is_among(hits: &Vec<u64>, id: u64) -> (r: bool)
    ensures
        r == hits@.contains(id),
{
    let mut i: usize = 0;
    while i < hits.len()
        invariant
            i <= hits.len(),
            forall|j: int| 0 <= j < i ==> hits@[j] != id,
        decreases hits.len() - i,
    {
        if hits[i] == id {
            return true;
        }
        i = i + 1;
    }
    false
}

impl CacheStore {
    /// The places of the rows of one mailbox, in their order in the cache.
    fn positions_in_mailbox(&self, account: &str, mailbox_hash: u64) -> (pos: Vec<usize>)
        ensures
            forall|x: int| 0 <= x < pos.len() ==> (#[trigger] pos[x]) < self.messages.len(),
            pick(self@.messages, pos@) == keep(self@.messages, in_mailbox(account@, mailbox_hash)),
    {
        let ghost rows = self@.messages;
        let ghost p = in_mailbox(account@, mailbox_hash);
        let mut pos: Vec<usize> = Vec::new();
        let mut k: usize = 0;
        proof {
            assert(rows.take(0) =~= Seq::<MessageRowView>::empty());
            assert(pick(rows, pos@) =~= keep(rows.take(0), p));
        }
        while k < self.messages.len()
            invariant
                k <= self.messages.len(),
                rows == self@.messages,
                p == in_mailbox(account@, mailbox_hash),
                forall|x: int| 0 <= x < pos.len() ==> (#[trigger] pos[x]) < self.messages.len(),
                pick(rows, pos@) == keep(rows.take(k as int), p),
            decreases self.messages.len() - k,
        {
            let row = &self.messages[k];
            assert(row@ == rows[k as int]);
            proof {
                assert(rows.take(k + 1).drop_last() =~= rows.take(k as int));
                assert(rows.take(k + 1).last() == rows[k as int]);
            }
            let ghost before = pick(rows, pos@);
            if row.mailbox_hash == mailbox_hash && str_eq(row.account_id.as_str(), account) {
                pos.push(k);
                assert(pick(rows, pos@) =~= before.push(rows[k as int]));
            }
            k = k + 1;
        }
        assert(rows.take(k as int) =~= rows);
        pos
    }

    /// The places of the rows of an account whose id is among `hits`.
    fn positions_of_hits(&self, account: &str, hits: &Vec<u64>) -> (pos: Vec<usize>)
        ensures
            forall|x: int| 0 <= x < pos.len() ==> (#[trigger] pos[x]) < self.messages.len(),
            pick(self@.messages, pos@) == keep(self@.messages, is_hit(account@, hits@)),
    {
        let ghost rows = self@.messages;
        let ghost p = is_hit(account@, hits@);
        let mut pos: Vec<usize> = Vec::new();
        let mut k: usize = 0;
        proof {
            assert(rows.take(0) =~= Seq::<MessageRowView>::empty());
            assert(pick(rows, pos@) =~= keep(rows.take(0), p));
        }
        while k < self.messages.len()
            invariant
                k <= self.messages.len(),
                rows == self@.messages,
                p == is_hit(account@, hits@),
                forall|x: int| 0 <= x < pos.len() ==> (#[trigger] pos[x]) < self.messages.len(),
                pick(rows, pos@) == keep(rows.take(k as int), p),
            decreases self.messages.len() - k,
        {
            let row = &self.messages[k];
            assert(row@ == rows[k as int]);
            proof {
                assert(rows.take(k + 1).drop_last() =~= rows.take(k as int));
                assert(rows.take(k + 1).last() == rows[k as int]);
            }
            let ghost before = pick(rows, pos@);
            if str_eq(row.account_id.as_str(), account) && is_among(hits, row.envelope_hash) {
                pos.push(k);
                assert(pick(rows, pos@) =~= before.push(rows[k as int]));
            }
            k = k + 1;
        }
        assert(rows.take(k as int) =~= rows);
        pos
    }

    /// The latest timestamp of thread `key` among the rows at the given places.
    fn latest_in_thread(&self, pos: &Vec<usize>, key: u64) -> (r: i64)
        requires
            forall|x: int| 0 <= x < pos.len() ==> (#[trigger] pos[x]) < self.messages.len(),
        ensures
            r == thread_latest(pick(self@.messages, pos@), key),
    {
        let ghost mine = pick(self@.messages, pos@);
        let mut latest: i64 = i64::MIN;
        let mut t: usize = 0;
        proof {
            assert(mine.take(0) =~= Seq::<MessageRowView>::empty());
        }
        while t < pos.len()
            invariant
                t <= pos.len(),
                mine == pick(self@.messages, pos@),
                forall|x: int| 0 <= x < pos.len() ==> (#[trigger] pos[x]) < self.messages.len(),
                latest == thread_latest(mine.take(t as int), key),
            decreases pos.len() - t,
        {
            let row = &self.messages[pos[t]];
            assert(row@ == mine[t as int]);
            proof {
                assert(mine.take(t + 1).drop_last() =~= mine.take(t as int));
                assert(mine.take(t + 1).last() == mine[t as int]);
            }
            let k = match row.thread_id {
                Some(id) => id,
                None => row.envelope_hash,
            };
            if k == key && row.timestamp > latest {
                latest = row.timestamp;
            }
            t = t + 1;
        }
        assert(mine.take(t as int) =~= mine);
        latest
    }

    /// The summaries of one page of the rows at the given places, taken in the given order.
    fn emit_page(&self, pos: &Vec<usize>, order: &Vec<usize>, limit: u32, offset: u32) -> (out: Vec<
        MessageSummary,
    >)
        requires
            forall|x: int| 0 <= x < pos.len() ==> (#[trigger] pos[x]) < self.messages.len(),
            forall|x: int| 0 <= x < order.len() ==> (#[trigger] order[x]) < pos.len(),
        ensures
            view_all(out@) == summaries_of(
                page_of(pick(pick(self@.messages, pos@), order@), limit, offset),
            ),
    {
        let ghost listing = pick(pick(self@.messages, pos@), order@);
        let len = order.len();
        let from: usize = if (offset as u64) <= (len as u64) {
            offset as usize
        } else {
            len
        };
        let end: u64 = offset as u64 + limit as u64;
        let to: usize = if end <= (len as u64) {
            end as usize
        } else {
            len
        };
        let mut out: Vec<MessageSummary> = Vec::new();
        let mut x = from;
        proof {
            assert(view_all(out@) =~= summaries_of(listing.subrange(from as int, x as int)));
        }
        while x < to
            invariant
                from <= x <= to <= order.len(),
                listing == pick(pick(self@.messages, pos@), order@),
                forall|x: int| 0 <= x < pos.len() ==> (#[trigger] pos[x]) < self.messages.len(),
                forall|x: int| 0 <= x < order.len() ==> (#[trigger] order[x]) < pos.len(),
                view_all(out@) == summaries_of(listing.subrange(from as int, x as int)),
            decreases to - x,
        {
            let row = &self.messages[pos[order[x]]];
            assert(row@ == listing[x as int]);
            let ghost before = view_all(out@);
            out.push(summary_from_row(row));
            assert(view_all(out@) =~= before.push(summary_of(listing[x as int])));
            assert(view_all(out@) =~= summaries_of(listing.subrange(from as int, x + 1)));
            x = x + 1;
        }
        out
    }

    /// One page of the message list of a mailbox: at most `limit` messages from position
    /// `offset` on. The thread that was active most recently comes first, and the
    /// messages of a thread stand together: first its root, then its replies, the
    /// oldest first.
    pub fn load_messages(&self, account: &str, mailbox_hash: u64, limit: u32, offset: u32) -> (out:
        Vec<MessageSummary>)
        ensures
            view_all(out@) == spec_load_messages(
                self@.messages,
                account@,
                mailbox_hash,
                limit,
                offset,
            ),
    {
        let pos = self.positions_in_mailbox(account, mailbox_hash);
        let ghost mine = pick(self@.messages, pos@);
        let mut keys: Vec<PageKey> = Vec::new();
        let mut j: usize = 0;
        while j < pos.len()
            invariant
                j <= pos.len(),
                keys.len() == j,
                mine == pick(self@.messages, pos@),
                forall|x: int| 0 <= x < pos.len() ==> (#[trigger] pos[x]) < self.messages.len(),
                forall|x: int| 0 <= x < j ==> #[trigger] keys[x] == page_key(mine, mine[x]),
            decreases pos.len() - j,
        {
            let row = &self.messages[pos[j]];
            assert(row@ == mine[j as int]);
            let key = match row.thread_id {
                Some(id) => id,
                None => row.envelope_hash,
            };
            let latest = self.latest_in_thread(&pos, key);
            keys.push(
                PageKey {
                    latest,
                    thread_key: key,
                    is_reply: row.thread_depth > 0,
                    timestamp: row.timestamp,
                    id: row.envelope_hash,
                },
            );
            j = j + 1;
        }
        let order = sort_positions::<PageKey, MessageRowView>(&keys, Ghost(mine), Ghost(page_order(mine)));
        self.emit_page(&pos, &order, limit, offset)
    }

    /// The number of cached messages of a mailbox.
    pub fn message_count(&self, account: &str, mailbox_hash: u64) -> (n: usize)
        ensures
            n == keep(self@.messages, in_mailbox(account@, mailbox_hash)).len(),
    {
        let pos = self.positions_in_mailbox(account, mailbox_hash);
        assert(pick(self@.messages, pos@).len() == pos.len());
        pos.len()
    }

    /// The search results for a query in an account, given the ids of the messages that
    /// the full-text index matched for the query without the white space around it. A
    /// query of nothing but white space has no results, whatever the ids.
    pub fn search(&self, account: &str, query: &str, hits: &Vec<u64>) -> (out: Vec<MessageSummary>)
        ensures
            view_all(out@) == spec_search(self@.messages, account@, query@, hits@),
    {
        if crate::text::is_blank(query) {
            let out: Vec<MessageSummary> = Vec::new();
            assert(view_all(out@) =~= Seq::empty());
            out
        } else {
            self.search_hits(account, hits)
        }
    }

    /// The search results for an account, given the ids of the messages that the
    /// full-text index matched: the matched messages of the account that are cached,
    /// newest first, and no more than the limit.
    pub fn search_hits(&self, account: &str, hits: &Vec<u64>) -> (out: Vec<MessageSummary>)
        ensures
            view_all(out@) == spec_search_hits(self@.messages, account@, hits@),
    {
        let pos = self.positions_of_hits(account, hits);
        let ghost found = pick(self@.messages, pos@);
        let mut keys: Vec<PageKey> = Vec::new();
        let mut j: usize = 0;
        while j < pos.len()
            invariant
                j <= pos.len(),
                keys.len() == j,
                found == pick(self@.messages, pos@),
                forall|x: int| 0 <= x < pos.len() ==> (#[trigger] pos[x]) < self.messages.len(),
                forall|x: int|
                    0 <= x < j ==> #[trigger] keys[x] == (PageKey {
                        latest: found[x].timestamp,
                        thread_key: 0,
                        is_reply: false,
                        timestamp: 0,
                        id: found[x].envelope_hash,
                    }),
            decreases pos.len() - j,
        {
            let row = &self.messages[pos[j]];
            assert(row@ == found[j as int]);
            keys.push(
                PageKey {
                    latest: row.timestamp,
                    thread_key: 0,
                    is_reply: false,
                    timestamp: 0,
                    id: row.envelope_hash,
                },
            );
            j = j + 1;
        }
        let order = sort_positions::<PageKey, MessageRowView>(&keys, Ghost(found), Ghost(newest_first()));
        self.emit_page(&pos, &order, SEARCH_LIMIT, 0)
    }
}

} // verus!
