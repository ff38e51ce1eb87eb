use crate::actions::{flag_of, shown_flags, step_flag_done, step_toggle, with_flag};
use crate::effects::FlagKind;
use crate::flags::{lemma_flags_roundtrip, FlagStateView};
use crate::model::{has_hash, AppModelView};
use crate::move_laws::hashes_distinct;
use crate::row_laws::{lemma_find_by_id, lemma_update_flags_valid, rows_valid};
use crate::rows::{
    spec_clear_pending_op, spec_confirm_pending_op, spec_flag_state, spec_revert_pending_op, spec_update_flags,
    MessageRowView,
};
use crate::seqs::lemma_first_match;
use vstd::prelude::*;

verus! {

/// A failed toggle is undone in the list. If a flag of the message at `index` is toggled
/// and the request then fails, answered with the flags that the request carried as the
/// prior ones, the list is again what it was before the toggle.
pub proof fn lemma_failed_toggle_restores(m: AppModelView, flag: FlagKind, index: usize, error: Seq<char>)
    requires
        index < m.messages.len(),
        hashes_distinct(m.messages),
    ensures
        ({
            let msg = m.messages[index as int];
            let toggled = step_toggle(m, flag, index).model;
            let back = step_flag_done(
                toggled,
                msg.envelope_hash,
                crate::effects::spec_toggle_op(flag, !flag_of(msg, flag)),
                shown_flags(msg),
                Err(error),
            );
            back.model.messages == m.messages
        }),
{
    let msg = m.messages[index as int];
    let h = msg.envelope_hash;
    let toggled = step_toggle(m, flag, index).model;
    let list = toggled.messages;
    assert(list == m.messages.update(index as int, with_flag(msg, flag, !flag_of(msg, flag))));
    assert forall|j: int| 0 <= j < index implies !has_hash(h)(#[trigger] list[j]) by {
        assert(list[j] == m.messages[j]);
    }
    lemma_first_match(list, has_hash(h), Some(index as int));
    lemma_flags_roundtrip(msg.is_read, msg.is_starred);
    let back = step_flag_done(
        toggled,
        h,
        crate::effects::spec_toggle_op(flag, !flag_of(msg, flag)),
        shown_flags(msg),
        Err(error),
    );
    assert(back.model.messages =~= m.messages);
}

/// A second toggle of the same flag, failing with its own prior flags, leaves the first
/// toggle in place: each failure restores exactly what its own request found.
pub proof fn lemma_failed_second_toggle_keeps_first(
    m: AppModelView,
    flag: FlagKind,
    index: usize,
    error: Seq<char>,
)
    requires
        index < m.messages.len(),
        hashes_distinct(m.messages),
    ensures
        ({
            let first = step_toggle(m, flag, index).model;
            let second = step_toggle(first, flag, index).model;
            let msg = first.messages[index as int];
            let back = step_flag_done(
                second,
                msg.envelope_hash,
                crate::effects::spec_toggle_op(flag, !flag_of(msg, flag)),
                shown_flags(msg),
                Err(error),
            );
            back.model.messages == first.messages
        }),
{
    let first = step_toggle(m, flag, index).model;
    assert(first.messages.len() == m.messages.len());
    assert forall|i: int, j: int|
        0 <= i < first.messages.len() && 0 <= j < first.messages.len() && i != j implies (
    #[trigger] first.messages[i]).envelope_hash != (#[trigger] first.messages[j]).envelope_hash by {
        assert(first.messages[i].envelope_hash == m.messages[i].envelope_hash);
        assert(first.messages[j].envelope_hash == m.messages[j].envelope_hash);
    }
    lemma_failed_toggle_restores(first, flag, index, error);
}

/// The states of a message in the cache follow the reconciliation: recording an intent
/// makes the row pending with the intended flags and the tag; a confirmation makes it
/// synced with the confirmed flags; a revert makes it synced with the flags that the
/// server had.
pub proof fn lemma_flag_transitions(rows: Seq<MessageRowView>, i: int, flags: u8, tag: Seq<char>, confirmed: u8)
    requires
        rows_valid(rows),
        0 <= i < rows.len(),
    ensures
        ({
            let id = rows[i].envelope_hash;
            let pending = spec_update_flags(rows, id, flags, tag);
            let cleared = spec_clear_pending_op(pending, id, confirmed);
            let reverted = spec_revert_pending_op(pending, id);
            &&& pending.len() == rows.len()
            &&& spec_flag_state(pending[i]) == (FlagStateView::Pending { intended: flags, tag: tag })
            &&& pending[i].flags_server == rows[i].flags_server
            &&& spec_flag_state(cleared[i]) == FlagStateView::Synced
            &&& cleared[i].flags_server == confirmed
            &&& cleared[i].flags_local == confirmed
            &&& spec_flag_state(reverted[i]) == FlagStateView::Synced
            &&& reverted[i].flags_server == rows[i].flags_server
            &&& reverted[i].flags_local == rows[i].flags_server
            &&& (rows[i].pending_op is None ==> reverted == rows)
        }),
{
    let id = rows[i].envelope_hash;
    lemma_find_by_id(rows, i);
    let pending = spec_update_flags(rows, id, flags, tag);
    lemma_update_flags_valid(rows, id, flags, tag);
    lemma_find_by_id(pending, i);
    let reverted = spec_revert_pending_op(pending, id);
    if rows[i].pending_op is None {
        assert(reverted =~= rows);
    }
}

/// Confirmations may arrive in any order. When a second intent for a message was
/// recorded before the first was confirmed, then once both confirmations have arrived
/// the row is synced with the flags that were confirmed for the second intent, whichever
/// confirmation came first: a confirmation that comes late overwrites nothing.
pub proof fn lemma_confirmations_in_any_order(
    rows: Seq<MessageRowView>,
    i: int,
    first_flags: u8,
    first_tag: Seq<char>,
    first_confirmed: u8,
    second_flags: u8,
    second_tag: Seq<char>,
    second_confirmed: u8,
)
    requires
        rows_valid(rows),
        0 <= i < rows.len(),
        rows[i].pending_op is None,
        first_tag != second_tag,
    ensures
        ({
            let id = rows[i].envelope_hash;
            let pending = spec_update_flags(
                spec_update_flags(rows, id, first_flags, first_tag),
                id,
                second_flags,
                second_tag,
            );
            let in_order = spec_confirm_pending_op(
                spec_confirm_pending_op(pending, id, first_tag, first_confirmed),
                id,
                second_tag,
                second_confirmed,
            );
            let reversed = spec_confirm_pending_op(
                spec_confirm_pending_op(pending, id, second_tag, second_confirmed),
                id,
                first_tag,
                first_confirmed,
            );
            &&& in_order == reversed
            &&& spec_flag_state(pending[i]) == (FlagStateView::Pending {
                intended: second_flags,
                tag: second_tag,
            })
            &&& spec_flag_state(in_order[i]) == FlagStateView::Synced
            &&& in_order[i].flags_server == second_confirmed
            &&& in_order[i].flags_local == second_confirmed
        }),
{
    let id = rows[i].envelope_hash;
    lemma_find_by_id(rows, i);
    let one = spec_update_flags(rows, id, first_flags, first_tag);
    lemma_update_flags_valid(rows, id, first_flags, first_tag);
    lemma_find_by_id(one, i);
    let pending = spec_update_flags(one, id, second_flags, second_tag);
    lemma_update_flags_valid(one, id, second_flags, second_tag);
    lemma_find_by_id(pending, i);
    let a = spec_confirm_pending_op(pending, id, first_tag, first_confirmed);
    crate::row_laws::lemma_confirm_pending_op_valid(pending, id, first_tag, first_confirmed);
    lemma_find_by_id(a, i);
    let b = spec_confirm_pending_op(pending, id, second_tag, second_confirmed);
    crate::row_laws::lemma_confirm_pending_op_valid(pending, id, second_tag, second_confirmed);
    lemma_find_by_id(b, i);
    let in_order = spec_confirm_pending_op(a, id, second_tag, second_confirmed);
    let reversed = spec_confirm_pending_op(b, id, first_tag, first_confirmed);
    assert(in_order =~= reversed);
}

} // verus!
