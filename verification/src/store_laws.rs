use crate::models::MessageSummaryView;
use crate::order::{lemma_sort_by_members, sort_by};
use crate::paging::{mailbox_listing, page_of, page_order, spec_load_messages};
use crate::row_laws::{lemma_find_by_id, lemma_keep_valid, lemma_resync_all_valid, rows_valid};
use crate::rows::{
    has_id, ids_distinct, in_mailbox, refreshed_row, resync_all, spec_save_messages, summaries_of,
    survives_resync, MessageRowView,
};
use crate::store::CacheStore;
use crate::seqs::{first_match, keep, lemma_first_match, lemma_keep_members};
use vstd::prelude::*;

verus! {

/// The flag invariant. In a well-formed cache every message without a pending operation
/// has local flags equal to the server's; every operation of the cache asks for a
/// well-formed cache and leaves one.
pub proof fn lemma_flag_invariant(store: CacheStore, i: int)
    requires
        store.wf(),
        0 <= i < store@.messages.len(),
        store@.messages[i].pending_op is None,
    ensures
        store@.messages[i].flags_local == store@.messages[i].flags_server,
        crate::rows::effective_flags(store@.messages[i]) == store@.messages[i].flags_server,
{
}

/// The last of the fetched messages that has the id `id`, if any has.
pub open spec fn last_with_id(msgs: Seq<MessageSummaryView>, id: u64) -> Option<MessageSummaryView>
    decreases msgs.len(),
{
    if msgs.len() == 0 {
        None
    } else if msgs.last().envelope_hash == id {
        Some(msgs.last())
    } else {
        last_with_id(msgs.drop_last(), id)
    }
}

/// What a pending row is after a resynchronisation that fetched `msgs`: refreshed from
/// the last fetched message with its id, or untouched where the fetch does not list it.
pub open spec fn after_resync(r: MessageRowView, msgs: Seq<MessageSummaryView>) -> MessageRowView {
    match last_with_id(msgs, r.envelope_hash) {
        Some(m) => refreshed_row(r, m),
        None => r,
    }
}

/// Merging fetched messages leaves a pending row of the mailbox at its place and changes
/// of it only what the server reports.
pub proof fn lemma_resync_all_keeps_pending(
    base: Seq<MessageRowView>,
    account: Seq<char>,
    mailbox: u64,
    msgs: Seq<MessageSummaryView>,
    k: int,
)
    requires
        rows_valid(base),
        0 <= k < base.len(),
        in_mailbox(account, mailbox)(base[k]),
        base[k].pending_op is Some,
    ensures
        resync_all(base, account, mailbox, msgs).len() >= base.len(),
        resync_all(base, account, mailbox, msgs)[k] == after_resync(base[k], msgs),
    decreases msgs.len(),
{
    if msgs.len() > 0 {
        let init = msgs.drop_last();
        let m = msgs.last();
        lemma_resync_all_keeps_pending(base, account, mailbox, init, k);
        lemma_resync_all_valid(base, account, mailbox, init);
        let cur = resync_all(base, account, mailbox, init);
        let r = first_match(cur, has_id(m.envelope_hash));
        lemma_first_match(cur, has_id(m.envelope_hash), r);
        if m.envelope_hash == base[k].envelope_hash {
            lemma_find_by_id(cur, k);
        }
    }
}

/// Pending preservation. A resynchronisation of a mailbox keeps every row of it that has
/// a pending operation: the row is still there, its local flags, its pending operation
/// and its cached body are what they were, and the flags of the server, the subject, the
/// sender, the date and the thread data are those of the last fetched message with its
/// id, or unchanged where the fetch no longer lists the message.
pub proof fn lemma_resync_preserves_pending(
    rows: Seq<MessageRowView>,
    account: Seq<char>,
    mailbox: u64,
    msgs: Seq<MessageSummaryView>,
    i: int,
)
    requires
        rows_valid(rows),
        0 <= i < rows.len(),
        in_mailbox(account, mailbox)(rows[i]),
        rows[i].pending_op is Some,
    ensures
        ({
            let after = spec_save_messages(rows, account, mailbox, msgs);
            &&& first_match(after, has_id(rows[i].envelope_hash)) matches Some(j)
            &&& after[j] == after_resync(rows[i], msgs)
            &&& after[j].flags_local == rows[i].flags_local
            &&& after[j].pending_op == rows[i].pending_op
        }),
{
    let p = survives_resync(account, mailbox);
    let base = keep(rows, p);
    lemma_keep_members(rows, p);
    lemma_keep_valid(rows, p);
    assert(p(rows[i]));
    assert(base.contains(rows[i]));
    let k = choose|k: int| 0 <= k < base.len() && base[k] == rows[i];
    lemma_resync_all_keeps_pending(base, account, mailbox, msgs, k);
    lemma_resync_all_valid(base, account, mailbox, msgs);
    let after = resync_all(base, account, mailbox, msgs);
    lemma_find_by_id(after, k);
}

/// Merging fetched messages brings in no row for an id that neither a row nor a fetched
/// message has.
pub proof fn lemma_resync_all_brings_no_stranger(
    base: Seq<MessageRowView>,
    account: Seq<char>,
    mailbox: u64,
    msgs: Seq<MessageSummaryView>,
    id: u64,
)
    requires
        first_match(base, has_id(id)) is None,
        first_match(msgs, crate::model::has_hash(id)) is None,
    ensures
        first_match(resync_all(base, account, mailbox, msgs), has_id(id)) is None,
    decreases msgs.len(),
{
    if msgs.len() > 0 {
        let init = msgs.drop_last();
        let m = msgs.last();
        lemma_first_match(msgs, crate::model::has_hash(id), None);
        assert forall|j: int| 0 <= j < init.len() implies !crate::model::has_hash(id)(
            #[trigger] init[j],
        ) by {
            assert(init[j] == msgs[j]);
        }
        lemma_first_match(init, crate::model::has_hash(id), None);
        lemma_resync_all_brings_no_stranger(base, account, mailbox, init, id);
        let cur = resync_all(base, account, mailbox, init);
        lemma_first_match(cur, has_id(id), None);
        assert(msgs[msgs.len() - 1] == m);
        assert(m.envelope_hash != id);
        let r = first_match(cur, has_id(m.envelope_hash));
        lemma_first_match(cur, has_id(m.envelope_hash), r);
        let out = resync_all(base, account, mailbox, msgs);
        assert forall|j: int| 0 <= j < out.len() implies !has_id(id)(#[trigger] out[j]) by {
            if j < cur.len() {
                assert(out[j].envelope_hash == cur[j].envelope_hash);
            }
        }
        lemma_first_match(out, has_id(id), None);
    }
}

/// Merging fetched messages gives an id that no row has the fresh row of the first
/// fetched message with that id; later messages with the same id are passed over.
pub proof fn lemma_resync_all_takes_first(
    base: Seq<MessageRowView>,
    account: Seq<char>,
    mailbox: u64,
    msgs: Seq<MessageSummaryView>,
    id: u64,
    p: int,
)
    requires
        rows_valid(base),
        first_match(base, has_id(id)) is None,
        first_match(msgs, crate::model::has_hash(id)) == Some(p),
    ensures
        first_match(resync_all(base, account, mailbox, msgs), has_id(id)) matches Some(j)
            && resync_all(base, account, mailbox, msgs)[j] == crate::rows::fresh_row(
            account,
            mailbox,
            msgs[p],
        ),
    decreases msgs.len(),
{
    lemma_first_match(msgs, crate::model::has_hash(id), Some(p));
    let init = msgs.drop_last();
    let m = msgs.last();
    assert(msgs[msgs.len() - 1] == m);
    lemma_resync_all_valid(base, account, mailbox, init);
    lemma_resync_all_valid(base, account, mailbox, msgs);
    let cur = resync_all(base, account, mailbox, init);
    let out = resync_all(base, account, mailbox, msgs);
    let r = first_match(cur, has_id(m.envelope_hash));
    lemma_first_match(cur, has_id(m.envelope_hash), r);
    if p == msgs.len() - 1 {
        assert forall|j: int| 0 <= j < init.len() implies !crate::model::has_hash(id)(
            #[trigger] init[j],
        ) by {
            assert(init[j] == msgs[j]);
        }
        lemma_first_match(init, crate::model::has_hash(id), None);
        lemma_resync_all_brings_no_stranger(base, account, mailbox, init, id);
        assert(out == cur.push(crate::rows::fresh_row(account, mailbox, m)));
        lemma_find_by_id(out, cur.len() as int);
    } else {
        assert(init[p] == msgs[p]);
        assert forall|j: int| 0 <= j < p implies !crate::model::has_hash(id)(#[trigger] init[j]) by {
            assert(init[j] == msgs[j]);
        }
        lemma_first_match(init, crate::model::has_hash(id), Some(p));
        lemma_resync_all_takes_first(base, account, mailbox, init, id, p);
        let j = first_match(cur, has_id(id))->0;
        lemma_first_match(cur, has_id(id), Some(j));
        if m.envelope_hash == id {
            assert(r == Some(j));
            assert(cur[j].pending_op is None);
            assert(out == cur);
        } else {
            assert(out[j] == cur[j]);
            lemma_find_by_id(out, j);
        }
    }
}

/// A resynchronisation replaces the rows of the mailbox that have no pending operation
/// by what was fetched. An id without a row that stays gets the fresh row of the first
/// fetched message with that id, and where the fetch does not list the id there is
/// afterwards no row for it.
pub proof fn lemma_resync_replaces_settled(
    rows: Seq<MessageRowView>,
    account: Seq<char>,
    mailbox: u64,
    msgs: Seq<MessageSummaryView>,
    id: u64,
)
    requires
        rows_valid(rows),
        first_match(rows, has_id(id)) matches Some(i) ==> in_mailbox(account, mailbox)(rows[i])
            && rows[i].pending_op is None,
    ensures
        ({
            let after = spec_save_messages(rows, account, mailbox, msgs);
            match first_match(msgs, crate::model::has_hash(id)) {
                Some(p) => first_match(after, has_id(id)) matches Some(j) && after[j]
                    == crate::rows::fresh_row(account, mailbox, msgs[p]),
                None => first_match(after, has_id(id)) is None,
            }
        }),
{
    let keeps = survives_resync(account, mailbox);
    let base = keep(rows, keeps);
    lemma_keep_members(rows, keeps);
    lemma_keep_valid(rows, keeps);
    let found = first_match(rows, has_id(id));
    lemma_first_match(rows, has_id(id), found);
    assert forall|k: int| 0 <= k < base.len() implies !has_id(id)(#[trigger] base[k]) by {
        assert(rows.contains(base[k]));
        let x = choose|x: int| 0 <= x < rows.len() && rows[x] == base[k];
        assert(keeps(base[k]));
        if rows[x].envelope_hash == id {
            match found {
                Some(i) => {
                    assert(x == i);
                },
                None => {},
            }
        }
    }
    lemma_first_match(base, has_id(id), None);
    match first_match(msgs, crate::model::has_hash(id)) {
        Some(p) => {
            lemma_resync_all_takes_first(base, account, mailbox, msgs, id, p);
        },
        None => {
            lemma_resync_all_brings_no_stranger(base, account, mailbox, msgs, id);
        },
    }
}

/// A resynchronisation touches no row of another mailbox.
pub proof fn lemma_resync_keeps_other_mailboxes(
    rows: Seq<MessageRowView>,
    account: Seq<char>,
    mailbox: u64,
    msgs: Seq<MessageSummaryView>,
    i: int,
)
    requires
        rows_valid(rows),
        0 <= i < rows.len(),
        !in_mailbox(account, mailbox)(rows[i]),
    ensures
        ({
            let after = spec_save_messages(rows, account, mailbox, msgs);
            &&& first_match(after, has_id(rows[i].envelope_hash)) matches Some(j)
            &&& after[j] == rows[i]
        }),
{
    let p = survives_resync(account, mailbox);
    let base = keep(rows, p);
    lemma_keep_members(rows, p);
    lemma_keep_valid(rows, p);
    assert(p(rows[i]));
    assert(base.contains(rows[i]));
    let k = choose|k: int| 0 <= k < base.len() && base[k] == rows[i];
    lemma_resync_all_keeps_others(base, account, mailbox, msgs, k);
    lemma_resync_all_valid(base, account, mailbox, msgs);
    let after = resync_all(base, account, mailbox, msgs);
    lemma_find_by_id(after, k);
}

/// Merging fetched messages leaves a row of another mailbox as it is.
pub proof fn lemma_resync_all_keeps_others(
    base: Seq<MessageRowView>,
    account: Seq<char>,
    mailbox: u64,
    msgs: Seq<MessageSummaryView>,
    k: int,
)
    requires
        rows_valid(base),
        0 <= k < base.len(),
        !in_mailbox(account, mailbox)(base[k]),
    ensures
        resync_all(base, account, mailbox, msgs).len() >= base.len(),
        resync_all(base, account, mailbox, msgs)[k] == base[k],
    decreases msgs.len(),
{
    if msgs.len() > 0 {
        let init = msgs.drop_last();
        let m = msgs.last();
        lemma_resync_all_keeps_others(base, account, mailbox, init, k);
        lemma_resync_all_valid(base, account, mailbox, init);
        let cur = resync_all(base, account, mailbox, init);
        let r = first_match(cur, has_id(m.envelope_hash));
        lemma_first_match(cur, has_id(m.envelope_hash), r);
        if m.envelope_hash == base[k].envelope_hash {
            lemma_find_by_id(cur, k);
        }
    }
}

/// Pagination. A page followed by the page that starts where it ends is the one page of
/// both sizes together: as long as the cache does not change, paging through a mailbox
/// gives its listing piece by piece, in order.
pub proof fn lemma_pages_concatenate(
    rows: Seq<MessageRowView>,
    account: Seq<char>,
    mailbox: u64,
    limit1: u32,
    limit2: u32,
    offset: u32,
)
    requires
        offset + limit1 + limit2 <= u32::MAX,
    ensures
        spec_load_messages(rows, account, mailbox, limit1, offset) + spec_load_messages(
            rows,
            account,
            mailbox,
            limit2,
            (offset + limit1) as u32,
        ) == spec_load_messages(rows, account, mailbox, (limit1 + limit2) as u32, offset),
{
    let listing = mailbox_listing(rows, account, mailbox);
    let a = page_of(listing, limit1, offset);
    let b = page_of(listing, limit2, (offset + limit1) as u32);
    let c = page_of(listing, (limit1 + limit2) as u32, offset);
    assert(a + b =~= c);
    assert(summaries_of(a) + summaries_of(b) =~= summaries_of(c));
}

/// The listing of a mailbox holds each of its messages once.
pub proof fn lemma_listing_ids_distinct(rows: Seq<MessageRowView>, account: Seq<char>, mailbox: u64)
    requires
        rows_valid(rows),
    ensures
        ids_distinct(mailbox_listing(rows, account, mailbox)),
        mailbox_listing(rows, account, mailbox).len() == keep(
            rows,
            in_mailbox(account, mailbox),
        ).len(),
{
    let mine = keep(rows, in_mailbox(account, mailbox));
    lemma_keep_valid(rows, in_mailbox(account, mailbox));
    let le = page_order(mine);
    let listing = sort_by(mine, le);
    assert(mine.no_duplicates()) by {
        assert forall|i: int, j: int| 0 <= i < mine.len() && 0 <= j < mine.len() && i != j implies mine[i]
            != mine[j] by {
            assert(mine[i].envelope_hash != mine[j].envelope_hash);
        }
    }
    lemma_sort_by_members(mine, le);
    crate::order::lemma_sort_by_permutes(mine, le);
    assert forall|x: int, y: int|
        0 <= x < listing.len() && 0 <= y < listing.len() && x != y implies (#[trigger] listing[x]).envelope_hash
        != (#[trigger] listing[y]).envelope_hash by {
        assert(listing[x] != listing[y]);
        assert(listing.contains(listing[x]));
        assert(listing.contains(listing[y]));
        assert(mine.contains(listing[x]));
        assert(mine.contains(listing[y]));
        let i = choose|i: int| 0 <= i < mine.len() && mine[i] == listing[x];
        let j = choose|j: int| 0 <= j < mine.len() && mine[j] == listing[y];
        assert(i != j);
    }
}

/// The listing of a mailbox is its rows put in order: it holds each row of the mailbox
/// as often as the cache does, and each row may stand before the next.
pub proof fn lemma_listing_sorted(rows: Seq<MessageRowView>, account: Seq<char>, mailbox: u64)
    ensures
        ({
            let mine = keep(rows, in_mailbox(account, mailbox));
            let listing = mailbox_listing(rows, account, mailbox);
            &&& listing.to_multiset() == mine.to_multiset()
            &&& crate::order::sorted_by(listing, page_order(mine))
            &&& crate::order::transitive(page_order(mine))
            &&& crate::order::total(page_order(mine))
        }),
{
    let mine = keep(rows, in_mailbox(account, mailbox));
    crate::order::lemma_sort_by_permutes(mine, page_order(mine));
    crate::paging::lemma_page_order_total(mine);
    crate::order::lemma_sort_by_sorted(mine, page_order(mine));
    assert forall|a: MessageRowView, b: MessageRowView, c: MessageRowView| #[trigger]
        page_order(mine)(a, b) && #[trigger] page_order(mine)(b, c) implies page_order(mine)(
        a,
        c,
    ) by {}
}

/// The messages of a thread stand together in the listing of a mailbox: between two
/// rows of one thread there is no row of another.
pub proof fn lemma_threads_contiguous(
    rows: Seq<MessageRowView>,
    account: Seq<char>,
    mailbox: u64,
    i: int,
    j: int,
    k: int,
)
    requires
        0 <= i < j < k < mailbox_listing(rows, account, mailbox).len(),
        crate::paging::thread_key(mailbox_listing(rows, account, mailbox)[i])
            == crate::paging::thread_key(mailbox_listing(rows, account, mailbox)[k]),
    ensures
        crate::paging::thread_key(mailbox_listing(rows, account, mailbox)[j])
            == crate::paging::thread_key(mailbox_listing(rows, account, mailbox)[i]),
{
    let mine = keep(rows, in_mailbox(account, mailbox));
    let listing = mailbox_listing(rows, account, mailbox);
    lemma_listing_sorted(rows, account, mailbox);
    crate::order::lemma_sorted_all_pairs(listing, page_order(mine), i, j);
    crate::order::lemma_sorted_all_pairs(listing, page_order(mine), j, k);
    let a = crate::paging::page_key(mine, listing[i]);
    let b = crate::paging::page_key(mine, listing[j]);
    let c = crate::paging::page_key(mine, listing[k]);
    assert(crate::paging::key_le(a, b));
    assert(crate::paging::key_le(b, c));
    assert(a.latest == c.latest);
    assert(a.thread_key == c.thread_key);
}

/// Within a thread the root comes before the replies. Of two rows of one thread in the
/// listing of a mailbox, the later one is a root only if the earlier one is a root too;
/// and where both are roots, or both are replies, the earlier one is not the younger.
pub proof fn lemma_root_before_replies(
    rows: Seq<MessageRowView>,
    account: Seq<char>,
    mailbox: u64,
    i: int,
    j: int,
)
    requires
        0 <= i < j < mailbox_listing(rows, account, mailbox).len(),
        crate::paging::thread_key(mailbox_listing(rows, account, mailbox)[i])
            == crate::paging::thread_key(mailbox_listing(rows, account, mailbox)[j]),
    ensures
        ({
            let listing = mailbox_listing(rows, account, mailbox);
            &&& listing[j].thread_depth == 0 ==> listing[i].thread_depth == 0
            &&& (listing[i].thread_depth == 0) == (listing[j].thread_depth == 0)
                ==> listing[i].timestamp <= listing[j].timestamp
        }),
{
    let mine = keep(rows, in_mailbox(account, mailbox));
    let listing = mailbox_listing(rows, account, mailbox);
    lemma_listing_sorted(rows, account, mailbox);
    crate::order::lemma_sorted_all_pairs(listing, page_order(mine), i, j);
    let a = crate::paging::page_key(mine, listing[i]);
    let b = crate::paging::page_key(mine, listing[j]);
    assert(crate::paging::key_le(a, b));
    assert(a.latest == b.latest);
}

/// The thread that was active most recently comes first: of two rows in the listing of
/// a mailbox, the thread of the earlier one was last active no earlier than the thread
/// of the later one.
pub proof fn lemma_newest_thread_first(
    rows: Seq<MessageRowView>,
    account: Seq<char>,
    mailbox: u64,
    i: int,
    j: int,
)
    requires
        0 <= i < j < mailbox_listing(rows, account, mailbox).len(),
    ensures
        ({
            let mine = keep(rows, in_mailbox(account, mailbox));
            let listing = mailbox_listing(rows, account, mailbox);
            crate::paging::thread_latest(mine, crate::paging::thread_key(listing[i]))
                >= crate::paging::thread_latest(mine, crate::paging::thread_key(listing[j]))
        }),
{
    let mine = keep(rows, in_mailbox(account, mailbox));
    let listing = mailbox_listing(rows, account, mailbox);
    lemma_listing_sorted(rows, account, mailbox);
    crate::order::lemma_sorted_all_pairs(listing, page_order(mine), i, j);
    let a = crate::paging::page_key(mine, listing[i]);
    let b = crate::paging::page_key(mine, listing[j]);
    assert(crate::paging::key_le(a, b));
}

/// Of two byte strings one comes before the other in the order of dictionaries, or they
/// are the same.
pub proof fn lemma_lex_le_total(a: Seq<u8>, b: Seq<u8>)
    ensures
        crate::store_folders::lex_le(a, b) || crate::store_folders::lex_le(b, a),
    decreases a.len(),
{
    if a.len() > 0 && b.len() > 0 && a[0] == b[0] {
        lemma_lex_le_total(a.drop_first(), b.drop_first());
    }
}

/// The folder list of an account is its folders put in order: it holds each folder of
/// the account as often as the cache does, and each folder may stand before the next,
/// the inbox before all others.
pub proof fn lemma_folder_list_sorted(rows: Seq<crate::rows::FolderRowView>, account: Seq<char>)
    ensures
        ({
            let mine = keep(rows, crate::store_folders::folder_of(account));
            let listed = sort_by(mine, crate::store_folders::folder_order());
            &&& listed.to_multiset() == mine.to_multiset()
            &&& crate::order::sorted_by(listed, crate::store_folders::folder_order())
            &&& crate::store_folders::spec_load_folders(rows, account)
                == crate::store_folders::folders_of(listed)
        }),
{
    let mine = keep(rows, crate::store_folders::folder_of(account));
    let le = crate::store_folders::folder_order();
    crate::order::lemma_sort_by_permutes(mine, le);
    assert forall|a: crate::rows::FolderRowView, b: crate::rows::FolderRowView| #[trigger]
        le(a, b) || le(b, a) by {
        lemma_lex_le_total(
            vstd::utf8::encode_utf8(a.folder.path),
            vstd::utf8::encode_utf8(b.folder.path),
        );
    }
    crate::order::lemma_sort_by_sorted(mine, le);
}

/// The search results are the matched rows of the account put in order, the newest
/// first, and cut off at the limit.
pub proof fn lemma_search_results_sorted(rows: Seq<MessageRowView>, account: Seq<char>, hits: Seq<u64>)
    ensures
        ({
            let found = keep(rows, crate::paging::is_hit(account, hits));
            let listed = sort_by(found, crate::paging::newest_first());
            &&& listed.to_multiset() == found.to_multiset()
            &&& crate::order::sorted_by(listed, crate::paging::newest_first())
            &&& crate::paging::spec_search_hits(rows, account, hits).len() <= crate::paging::SEARCH_LIMIT
        }),
{
    let found = keep(rows, crate::paging::is_hit(account, hits));
    let le = crate::paging::newest_first();
    crate::order::lemma_sort_by_permutes(found, le);
    assert forall|a: MessageRowView, b: MessageRowView| #[trigger] le(a, b) || le(b, a) by {}
    crate::order::lemma_sort_by_sorted(found, le);
}

/// A message that was removed from the cache is in no search result.
pub proof fn lemma_removed_from_search(
    rows: Seq<MessageRowView>,
    id: u64,
    account: Seq<char>,
    query: Seq<char>,
    hits: Seq<u64>,
)
    requires
        rows_valid(rows),
    ensures
        ({
            let after = crate::rows::spec_remove_message(rows, id);
            let results = crate::paging::spec_search(after, account, query, hits);
            let matched = crate::paging::spec_search_hits(after, account, hits);
            &&& forall|x: int| 0 <= x < results.len() ==> (#[trigger] results[x]).envelope_hash != id
            &&& forall|x: int| 0 <= x < matched.len() ==> (#[trigger] matched[x]).envelope_hash != id
        }),
{
    let after = crate::rows::spec_remove_message(rows, id);
    crate::row_laws::lemma_remove_message_valid(rows, id);
    lemma_first_match(after, has_id(id), None);
    let found = keep(after, crate::paging::is_hit(account, hits));
    lemma_keep_members(after, crate::paging::is_hit(account, hits));
    let listed = sort_by(found, crate::paging::newest_first());
    lemma_sort_by_members(found, crate::paging::newest_first());
    let part = page_of(listed, crate::paging::SEARCH_LIMIT, 0);
    let matched = crate::paging::spec_search_hits(after, account, hits);
    assert forall|x: int| 0 <= x < matched.len() implies (#[trigger] matched[x]).envelope_hash
        != id by {
        assert(part[x] == listed[x]);
        assert(listed.contains(listed[x]));
        assert(found.contains(part[x]));
        let y = choose|y: int| 0 <= y < found.len() && found[y] == part[x];
        assert(after.contains(found[y]));
        let z = choose|z: int| 0 <= z < after.len() && after[z] == found[y];
        assert(!has_id(id)(after[z]));
    }
}

/// Pages that do not overlap share no message.
pub proof fn lemma_pages_disjoint(
    rows: Seq<MessageRowView>,
    account: Seq<char>,
    mailbox: u64,
    limit1: u32,
    offset1: u32,
    limit2: u32,
    offset2: u32,
)
    requires
        rows_valid(rows),
        offset1 + limit1 <= offset2,
    ensures
        ({
            let first = spec_load_messages(rows, account, mailbox, limit1, offset1);
            let second = spec_load_messages(rows, account, mailbox, limit2, offset2);
            forall|x: int, y: int|
                0 <= x < first.len() && 0 <= y < second.len() ==> (#[trigger] first[x]).envelope_hash
                    != (#[trigger] second[y]).envelope_hash
        }),
{
    let listing = mailbox_listing(rows, account, mailbox);
    lemma_listing_ids_distinct(rows, account, mailbox);
    let first = spec_load_messages(rows, account, mailbox, limit1, offset1);
    let second = spec_load_messages(rows, account, mailbox, limit2, offset2);
    assert forall|x: int, y: int| 0 <= x < first.len() && 0 <= y < second.len() implies (
    #[trigger] first[x]).envelope_hash != (#[trigger] second[y]).envelope_hash by {
        let a = page_of(listing, limit1, offset1);
        let b = page_of(listing, limit2, offset2);
        assert(first[x].envelope_hash == a[x].envelope_hash);
        assert(second[y].envelope_hash == b[y].envelope_hash);
        assert(a[x] == listing[offset1 + x]);
        assert(b[y] == listing[offset2 + y]);
    }
}

} // verus!
