use crate::actions::{account_of, least, pending_put, remove_optimistic, start_move, step_move_done};
use crate::effects::Effect;
use crate::model::{has_hash, moves_hash, moves_other, AppModelView, PendingMoveView};
use crate::models::MessageSummaryView;
use crate::order::lemma_sort_by_members;
use crate::paging::{mailbox_listing, page_of, page_order, spec_load_messages};
use crate::row_laws::{lemma_remove_message_valid, rows_valid};
use crate::rows::{has_id, in_mailbox, spec_remove_message, MessageRowView};
use crate::seqs::{first_match, keep, lemma_first_match, lemma_keep_members};
use vstd::prelude::*;

verus! {

/// Whether no two messages of a list share an id.
pub open spec fn hashes_distinct(messages: Seq<MessageSummaryView>) -> bool {
    forall|i: int, j: int|
        0 <= i < messages.len() && 0 <= j < messages.len() && i != j ==> (#[trigger] messages[i]).envelope_hash
            != (#[trigger] messages[j]).envelope_hash
}

/// After an entry was put into the table of pending moves, it is the entry of its message.
pub proof fn lemma_pending_put_found(table: Seq<PendingMoveView>, e: PendingMoveView)
    ensures
        first_match(pending_put(table, e), moves_hash(e.envelope_hash)) == Some(
            pending_put(table, e).len() - 1,
        ),
        pending_put(table, e).last() == e,
        keep(pending_put(table, e), moves_other(e.envelope_hash)) == keep(
            table,
            moves_other(e.envelope_hash),
        ),
{
    let q = moves_other(e.envelope_hash);
    let p = moves_hash(e.envelope_hash);
    let kept = keep(table, q);
    let out = kept.push(e);
    lemma_keep_members(table, q);
    assert forall|j: int| 0 <= j < out.len() - 1 implies !p(#[trigger] out[j]) by {
        assert(out[j] == kept[j]);
        assert(q(kept[j]));
    }
    lemma_first_match(out, p, Some(out.len() - 1));
    assert(out.drop_last() =~= kept);
    lemma_keep_idempotent(table, q);
}

/// Keeping twice by the same test is keeping once.
pub proof fn lemma_keep_idempotent<T>(s: Seq<T>, p: spec_fn(T) -> bool)
    ensures
        keep(keep(s, p), p) == keep(s, p),
    decreases s.len(),
{
    if s.len() > 0 {
        lemma_keep_idempotent(s.drop_last(), p);
        if p(s.last()) {
            let k = keep(s.drop_last(), p);
            assert(k.push(s.last()).drop_last() =~= k);
        }
    }
}

/// A failed move is undone in the list. If a move of the message at `index` is started
/// and then fails, with no other change of the list in between, the list is again what
/// it was: the message stands at its old place with exactly its prior data, and it is
/// selected.
pub proof fn lemma_failed_move_restores(
    m: AppModelView,
    index: usize,
    source: u64,
    dest: u64,
    error: Seq<char>,
)
    requires
        index < m.messages.len(),
    ensures
        ({
            let started = start_move(m, index, source, dest).model;
            let back = step_move_done(
                started,
                m.messages[index as int].envelope_hash,
                Err(error),
            ).model;
            &&& back.messages == m.messages
            &&& back.selected_message == Some(index)
            &&& first_match(
                back.pending_move_restore,
                moves_hash(m.messages[index as int].envelope_hash),
            ) is None
        }),
{
    let msg = m.messages[index as int];
    let h = msg.envelope_hash;
    let m1 = remove_optimistic(m, index);
    let e = PendingMoveView { envelope_hash: h, message: msg, position: index };
    let table = pending_put(m1.pending_move_restore, e);
    lemma_pending_put_found(m1.pending_move_restore, e);
    let started = start_move(m, index, source, dest).model;
    assert(started.pending_move_restore == table);
    assert(started.messages == m.messages.remove(index as int));
    let back = step_move_done(started, h, Err(error)).model;
    assert(back.messages =~= m.messages);
    lemma_rest_has_none(started.pending_move_restore, h);
}

/// Once the pending moves of a message are dropped, none is found for it.
pub proof fn lemma_rest_has_none(table: Seq<PendingMoveView>, envelope_hash: u64)
    ensures
        first_match(keep(table, moves_other(envelope_hash)), moves_hash(envelope_hash)) is None,
{
    let q = moves_other(envelope_hash);
    let kept = keep(table, q);
    lemma_keep_members(table, q);
    assert forall|j: int| 0 <= j < kept.len() implies !moves_hash(envelope_hash)(#[trigger] kept[j]) by {
        assert(q(kept[j]));
    }
    lemma_first_match(kept, moves_hash(envelope_hash), None);
}

/// A failed move puts the kept message back. Whatever happened to the list meanwhile,
/// the message that was kept for the move stands afterwards at its old place, or at the
/// end where the list has become shorter than that; it has exactly its prior data, it is
/// selected, the other messages keep their order, and nothing is kept for it any more.
pub proof fn lemma_failed_move_reinserts(m: AppModelView, envelope_hash: u64, error: Seq<char>, k: int)
    requires
        first_match(m.pending_move_restore, moves_hash(envelope_hash)) == Some(k),
    ensures
        ({
            let kept = m.pending_move_restore[k];
            let at = least(kept.position as int, m.messages.len() as int);
            let back = step_move_done(m, envelope_hash, Err(error));
            &&& back.effects.len() == 0
            &&& back.model.messages == m.messages.insert(at, kept.message)
            &&& back.model.messages[at] == kept.message
            &&& back.model.selected_message == Some(at as usize)
            &&& first_match(back.model.pending_move_restore, moves_hash(envelope_hash)) is None
        }),
{
    lemma_rest_has_none(m.pending_move_restore, envelope_hash);
}

/// A started move takes the message out of the list, and a success leaves it out. Where
/// the list names each message once, no message with the id of the moved one is in the
/// list after the move was started, nor after the server confirmed it; and with a cache,
/// the confirmation asks for nothing but the removal of the message from the cache.
pub proof fn lemma_moved_message_absent(m: AppModelView, index: usize, source: u64, dest: u64)
    requires
        index < m.messages.len(),
        hashes_distinct(m.messages),
    ensures
        ({
            let h = m.messages[index as int].envelope_hash;
            let started = start_move(m, index, source, dest).model;
            let done = step_move_done(started, h, Ok(()));
            &&& first_match(started.messages, has_hash(h)) is None
            &&& done.model.messages == started.messages
            &&& first_match(done.model.pending_move_restore, moves_hash(h)) is None
            &&& (m.has_cache && account_of(m, m.messages[index as int].mailbox_hash) is Some
                ==> done.effects == seq![Effect::CacheRemoveMessage { envelope_hash: h }])
        }),
{
    let msg = m.messages[index as int];
    let h = msg.envelope_hash;
    let m1 = remove_optimistic(m, index);
    let e = PendingMoveView { envelope_hash: h, message: msg, position: index };
    lemma_pending_put_found(m1.pending_move_restore, e);
    let started = start_move(m, index, source, dest).model;
    let rest = started.messages;
    assert(rest == m.messages.remove(index as int));
    assert forall|j: int| 0 <= j < rest.len() implies !has_hash(h)(#[trigger] rest[j]) by {
        let j2 = if j < index { j } else { j + 1 };
        assert(rest[j] == m.messages[j2]);
    }
    lemma_first_match(rest, has_hash(h), None);
    lemma_rest_has_none(started.pending_move_restore, h);
    assert(started.accounts == m.accounts);
}

/// A message that was removed from the cache is on no page of any mailbox.
pub proof fn lemma_removed_from_pages(
    rows: Seq<MessageRowView>,
    id: u64,
    account: Seq<char>,
    mailbox: u64,
    limit: u32,
    offset: u32,
)
    requires
        rows_valid(rows),
    ensures
        ({
            let page = spec_load_messages(
                spec_remove_message(rows, id),
                account,
                mailbox,
                limit,
                offset,
            );
            forall|x: int| 0 <= x < page.len() ==> (#[trigger] page[x]).envelope_hash != id
        }),
{
    let after = spec_remove_message(rows, id);
    lemma_remove_message_valid(rows, id);
    lemma_first_match(after, has_id(id), None);
    let mine = keep(after, in_mailbox(account, mailbox));
    lemma_keep_members(after, in_mailbox(account, mailbox));
    let listing = mailbox_listing(after, account, mailbox);
    lemma_sort_by_members(mine, page_order(mine));
    let part = page_of(listing, limit, offset);
    let page = spec_load_messages(after, account, mailbox, limit, offset);
    assert forall|x: int| 0 <= x < page.len() implies (#[trigger] page[x]).envelope_hash != id by {
        let from = if offset <= listing.len() { offset as int } else { listing.len() as int };
        assert(part[x] == listing[from + x]);
        assert(listing.contains(listing[from + x]));
        assert(mine.contains(part[x]));
        let y = choose|y: int| 0 <= y < mine.len() && mine[y] == part[x];
        assert(after.contains(mine[y]));
        let z = choose|z: int| 0 <= z < after.len() && after[z] == mine[y];
        assert(!has_id(id)(after[z]));
    }
}

/// A move to a well-known folder that the account does not have changes nothing but the
/// status line: the list, the selection and the kept messages stay, and neither cache
/// nor server is asked for anything.
pub proof fn lemma_move_without_folder_changes_nothing(
    m: AppModelView,
    index: usize,
    first: Seq<char>,
    second: Seq<char>,
    missing: Seq<char>,
)
    requires
        index < m.messages.len(),
        match account_of(m, m.messages[index as int].mailbox_hash) {
            Some(a) => crate::actions::named_folder(m.accounts[a].folders, first, second) is None,
            None => true,
        },
    ensures
        ({
            let out = crate::actions::step_move_to_named(m, index, first, second, missing);
            &&& out.effects.len() == 0
            &&& out.model == (AppModelView { status_message: missing, ..m })
        }),
{
}

/// A message is not moved between accounts: a drop on a folder of another account
/// leaves list, selection and kept messages as they are and asks for nothing.
pub proof fn lemma_move_between_accounts_is_refused(
    m: AppModelView,
    envelope_hash: u64,
    source: u64,
    dest: u64,
)
    requires
        source != dest,
        account_of(m, source) != account_of(m, dest),
    ensures
        ({
            let out = crate::actions::step_drag_to_folder(m, envelope_hash, source, dest);
            &&& out.effects.len() == 0
            &&& out.model == (AppModelView {
                folder_drag_target: None,
                status_message: "Cannot move messages between accounts"@,
                ..m
            })
        }),
{
}

/// Asking for more messages reads the next page from the cache and asks nothing of the
/// server: whatever the state, the only effect there can be is a read of the cache.
pub proof fn lemma_load_more_reads_cache_only(m: AppModelView)
    ensures
        ({
            let out = crate::sync::step_load_more(m);
            &&& out.effects.len() <= 1
            &&& forall|k: int|
                0 <= k < out.effects.len() ==> (#[trigger] out.effects[k]) is CacheLoadMessages
            &&& out.model.messages == m.messages
        }),
{
}

/// The shown rows are places in the list, in rising order; they are the places of the
/// messages that are not hidden, all of them.
pub proof fn lemma_visible_places(messages: Seq<MessageSummaryView>, collapsed: Seq<u64>)
    requires
        messages.len() <= usize::MAX,
    ensures
        ({
            let shown = crate::model::spec_visible(messages, collapsed);
            &&& shown.len() <= messages.len()
            &&& forall|k: int|
                0 <= k < shown.len() ==> (#[trigger] shown[k]) < messages.len()
                    && !crate::model::hidden(messages[shown[k] as int], collapsed)
            &&& forall|j: int, k: int| 0 <= j < k < shown.len() ==> shown[j] < shown[k]
            &&& forall|i: int|
                0 <= i < messages.len() && !crate::model::hidden(#[trigger] messages[i], collapsed)
                    ==> shown.contains(i as usize)
        }),
    decreases messages.len(),
{
    if messages.len() > 0 {
        let init = messages.drop_last();
        lemma_visible_places(init, collapsed);
        let rest = crate::model::spec_visible(init, collapsed);
        let shown = crate::model::spec_visible(messages, collapsed);
        assert forall|k: int| 0 <= k < shown.len() implies (#[trigger] shown[k]) < messages.len()
            && !crate::model::hidden(messages[shown[k] as int], collapsed) by {
            if k < rest.len() {
                assert(shown[k] == rest[k]);
                assert(init[rest[k] as int] == messages[rest[k] as int]);
            }
        }
        assert forall|j: int, k: int| 0 <= j < k < shown.len() implies shown[j] < shown[k] by {
            if k < rest.len() {
                assert(shown[j] == rest[j] && shown[k] == rest[k]);
            } else {
                assert(shown[j] == rest[j]);
            }
        }
        assert forall|i: int|
            0 <= i < messages.len() && !crate::model::hidden(
                #[trigger] messages[i],
                collapsed,
            ) implies shown.contains(i as usize) by {
            if i < init.len() {
                assert(init[i] == messages[i]);
                assert(rest.contains(i as usize));
                let k = choose|k: int| 0 <= k < rest.len() && rest[k] == i as usize;
                assert(shown[k] == i as usize);
            } else {
                assert(shown[shown.len() - 1] == i as usize);
            }
        }
    }
}

} // verus!
