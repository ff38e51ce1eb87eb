use crate::models::MessageSummaryView;
use crate::rows::{
    flags_consistent, has_id, ids_distinct, in_mailbox, resync_all, resync_one,
    spec_clear_pending_op, spec_confirm_pending_op, spec_remove_message, spec_revert_pending_op, spec_save_body,
    spec_save_messages, spec_update_flags, survives_resync, MessageRowView,
};
use crate::models::AttachmentDataView;
use crate::seqs::{first_match, keep, lemma_first_match, lemma_keep_members};
use vstd::prelude::*;

verus! {

/// Whether a sequence of rows can be the content of a cache: no id occurs twice, and a row
/// without a pending operation has local flags equal to the server's.
pub open spec fn rows_valid(rows: Seq<MessageRowView>) -> bool {
    ids_distinct(rows) && flags_consistent(rows)
}

/// Among rows with distinct ids, the row of an id is found at its place and nowhere else.
pub proof fn lemma_find_by_id(rows: Seq<MessageRowView>, i: int)
    requires
        ids_distinct(rows),
        0 <= i < rows.len(),
    ensures
        first_match(rows, has_id(rows[i].envelope_hash)) == Some(i),
{
    lemma_first_match(rows, has_id(rows[i].envelope_hash), Some(i));
}

/// Dropping rows keeps a valid cache valid.
pub proof fn lemma_keep_valid(rows: Seq<MessageRowView>, p: spec_fn(MessageRowView) -> bool)
    requires
        rows_valid(rows),
    ensures
        rows_valid(keep(rows, p)),
    decreases rows.len(),
{
    if rows.len() > 0 {
        let t = rows.drop_last();
        assert forall|i: int, j: int| 0 <= i < t.len() && 0 <= j < t.len() && i != j implies (
        #[trigger] t[i]).envelope_hash != (#[trigger] t[j]).envelope_hash by {
            assert(t[i] == rows[i] && t[j] == rows[j]);
        }
        assert forall|i: int| 0 <= i < t.len() && (#[trigger] t[i]).pending_op is None implies t[i].flags_local
            == t[i].flags_server by {
            assert(t[i] == rows[i]);
        }
        lemma_keep_valid(t, p);
        lemma_keep_members(t, p);
        let k = keep(rows, p);
        let kt = keep(t, p);
        if p(rows.last()) {
            assert forall|i: int, j: int| 0 <= i < k.len() && 0 <= j < k.len() && i != j implies (
            #[trigger] k[i]).envelope_hash != (#[trigger] k[j]).envelope_hash by {
                if i < kt.len() && j < kt.len() {
                    assert(k[i] == kt[i] && k[j] == kt[j]);
                } else {
                    let a = if i < kt.len() { i } else { j };
                    assert(t.contains(kt[a]));
                    let x = choose|x: int| 0 <= x < t.len() && t[x] == kt[a];
                    assert(rows[x] == kt[a]);
                    assert(rows[rows.len() - 1] == rows.last());
                }
            }
            assert forall|i: int| 0 <= i < k.len() && (#[trigger] k[i]).pending_op is None implies k[i].flags_local
                == k[i].flags_server by {
                if i < kt.len() {
                    assert(k[i] == kt[i]);
                } else {
                    assert(k[i] == rows[rows.len() - 1]);
                }
            }
        }
    }
}

/// Merging one fetched message keeps a valid cache valid.
pub proof fn lemma_resync_one_valid(
    rows: Seq<MessageRowView>,
    account: Seq<char>,
    mailbox: u64,
    m: MessageSummaryView,
)
    requires
        rows_valid(rows),
    ensures
        rows_valid(resync_one(rows, account, mailbox, m)),
{
    let r = first_match(rows, has_id(m.envelope_hash));
    lemma_first_match(rows, has_id(m.envelope_hash), r);
    let out = resync_one(rows, account, mailbox, m);
    match r {
        Some(i) => {
            if in_mailbox(account, mailbox)(rows[i]) && rows[i].pending_op is Some {
                assert forall|a: int, b: int| 0 <= a < out.len() && 0 <= b < out.len() && a != b implies (
                #[trigger] out[a]).envelope_hash != (#[trigger] out[b]).envelope_hash by {
                    assert(out[a].envelope_hash == rows[a].envelope_hash);
                    assert(out[b].envelope_hash == rows[b].envelope_hash);
                }
                assert forall|a: int| 0 <= a < out.len() && (#[trigger] out[a]).pending_op is None implies out[a].flags_local
                    == out[a].flags_server by {
                    if a != i {
                        assert(out[a] == rows[a]);
                    }
                }
            }
        },
        None => {
            assert forall|a: int, b: int| 0 <= a < out.len() && 0 <= b < out.len() && a != b implies (
            #[trigger] out[a]).envelope_hash != (#[trigger] out[b]).envelope_hash by {
                if a < rows.len() && b < rows.len() {
                    assert(out[a] == rows[a] && out[b] == rows[b]);
                } else {
                    let c = if a < rows.len() { a } else { b };
                    assert(out[c] == rows[c]);
                    assert(!has_id(m.envelope_hash)(rows[c]));
                }
            }
            assert forall|a: int| 0 <= a < out.len() && (#[trigger] out[a]).pending_op is None implies out[a].flags_local
                == out[a].flags_server by {
                if a < rows.len() {
                    assert(out[a] == rows[a]);
                }
            }
        },
    }
}

/// Merging any number of fetched messages keeps a valid cache valid.
pub proof fn lemma_resync_all_valid(
    rows: Seq<MessageRowView>,
    account: Seq<char>,
    mailbox: u64,
    msgs: Seq<MessageSummaryView>,
)
    requires
        rows_valid(rows),
    ensures
        rows_valid(resync_all(rows, account, mailbox, msgs)),
    decreases msgs.len(),
{
    if msgs.len() > 0 {
        lemma_resync_all_valid(rows, account, mailbox, msgs.drop_last());
        lemma_resync_one_valid(
            resync_all(rows, account, mailbox, msgs.drop_last()),
            account,
            mailbox,
            msgs.last(),
        );
    }
}

/// A full resynchronisation of a mailbox keeps a valid cache valid: afterwards, too, every
/// row without a pending operation has local flags equal to the server's.
pub proof fn lemma_save_messages_valid(
    rows: Seq<MessageRowView>,
    account: Seq<char>,
    mailbox: u64,
    msgs: Seq<MessageSummaryView>,
)
    requires
        rows_valid(rows),
    ensures
        rows_valid(spec_save_messages(rows, account, mailbox, msgs)),
{
    lemma_keep_valid(rows, survives_resync(account, mailbox));
    lemma_resync_all_valid(keep(rows, survives_resync(account, mailbox)), account, mailbox, msgs);
}

/// Replacing a row by one with the same id keeps the ids distinct.
pub proof fn lemma_update_keeps_ids(rows: Seq<MessageRowView>, i: int, r: MessageRowView)
    requires
        ids_distinct(rows),
        0 <= i < rows.len(),
        r.envelope_hash == rows[i].envelope_hash,
    ensures
        ids_distinct(rows.update(i, r)),
{
    let out = rows.update(i, r);
    assert forall|a: int, b: int| 0 <= a < out.len() && 0 <= b < out.len() && a != b implies (
    #[trigger] out[a]).envelope_hash != (#[trigger] out[b]).envelope_hash by {
        assert(out[a].envelope_hash == rows[a].envelope_hash);
        assert(out[b].envelope_hash == rows[b].envelope_hash);
    }
}

/// Replacing a row by one that is itself consistent keeps the flags consistent.
pub proof fn lemma_update_keeps_flags(rows: Seq<MessageRowView>, i: int, r: MessageRowView)
    requires
        flags_consistent(rows),
        0 <= i < rows.len(),
        r.pending_op is None ==> r.flags_local == r.flags_server,
    ensures
        flags_consistent(rows.update(i, r)),
{
    let out = rows.update(i, r);
    assert forall|a: int| 0 <= a < out.len() && (#[trigger] out[a]).pending_op is None implies out[a].flags_local
        == out[a].flags_server by {
        if a != i {
            assert(out[a] == rows[a]);
        }
    }
}

/// Recording a user intent keeps a valid cache valid.
pub proof fn lemma_update_flags_valid(rows: Seq<MessageRowView>, id: u64, flags: u8, tag: Seq<char>)
    requires
        rows_valid(rows),
    ensures
        rows_valid(spec_update_flags(rows, id, flags, tag)),
{
    let r = first_match(rows, has_id(id));
    lemma_first_match(rows, has_id(id), r);
    if let Some(i) = r {
        let row = MessageRowView { flags_local: flags, pending_op: Some(tag), ..rows[i] };
        lemma_update_keeps_ids(rows, i, row);
        lemma_update_keeps_flags(rows, i, row);
    }
}

/// A confirmation keeps a valid cache valid.
pub proof fn lemma_clear_pending_op_valid(rows: Seq<MessageRowView>, id: u64, flags: u8)
    requires
        rows_valid(rows),
    ensures
        rows_valid(spec_clear_pending_op(rows, id, flags)),
{
    let r = first_match(rows, has_id(id));
    lemma_first_match(rows, has_id(id), r);
    if let Some(i) = r {
        let row = MessageRowView {
            flags_server: flags,
            flags_local: flags,
            pending_op: None,
            ..rows[i]
        };
        lemma_update_keeps_ids(rows, i, row);
        lemma_update_keeps_flags(rows, i, row);
    }
}

/// A confirmation for one operation keeps a valid cache valid.
pub proof fn lemma_confirm_pending_op_valid(rows: Seq<MessageRowView>, id: u64, tag: Seq<char>, flags: u8)
    requires
        rows_valid(rows),
    ensures
        rows_valid(spec_confirm_pending_op(rows, id, tag, flags)),
{
    let r = first_match(rows, has_id(id));
    lemma_first_match(rows, has_id(id), r);
    if let Some(i) = r {
        if let Some(pending) = rows[i].pending_op {
            let row = if pending == tag {
                MessageRowView {
                    flags_server: flags,
                    flags_local: flags,
                    pending_op: None,
                    ..rows[i]
                }
            } else {
                MessageRowView { flags_server: flags, ..rows[i] }
            };
            lemma_update_keeps_ids(rows, i, row);
            lemma_update_keeps_flags(rows, i, row);
        }
    }
}

/// A revert keeps a valid cache valid.
pub proof fn lemma_revert_pending_op_valid(rows: Seq<MessageRowView>, id: u64)
    requires
        rows_valid(rows),
    ensures
        rows_valid(spec_revert_pending_op(rows, id)),
{
    let r = first_match(rows, has_id(id));
    lemma_first_match(rows, has_id(id), r);
    if let Some(i) = r {
        let row = MessageRowView { flags_local: rows[i].flags_server, pending_op: None, ..rows[i] };
        lemma_update_keeps_ids(rows, i, row);
        lemma_update_keeps_flags(rows, i, row);
    }
}

/// Storing a body keeps a valid cache valid.
pub proof fn lemma_save_body_valid(
    rows: Seq<MessageRowView>,
    id: u64,
    markdown: Seq<char>,
    plain: Seq<char>,
    attachments: Seq<AttachmentDataView>,
)
    requires
        rows_valid(rows),
    ensures
        rows_valid(spec_save_body(rows, id, markdown, plain, attachments)),
{
    let r = first_match(rows, has_id(id));
    lemma_first_match(rows, has_id(id), r);
    if let Some(i) = r {
        let row = MessageRowView {
            body_plain: Some(plain),
            body_markdown: Some(markdown),
            attachments: attachments,
            ..rows[i]
        };
        lemma_update_keeps_ids(rows, i, row);
        lemma_update_keeps_flags(rows, i, row);
    }
}

/// Removing a message keeps a valid cache valid, and its id is then in no row.
pub proof fn lemma_remove_message_valid(rows: Seq<MessageRowView>, id: u64)
    requires
        rows_valid(rows),
    ensures
        rows_valid(spec_remove_message(rows, id)),
        first_match(spec_remove_message(rows, id), has_id(id)) is None,
{
    let r = first_match(rows, has_id(id));
    lemma_first_match(rows, has_id(id), r);
    let out = spec_remove_message(rows, id);
    match r {
        Some(i) => {
            assert forall|a: int| 0 <= a < out.len() implies #[trigger] out[a] == rows[if a < i {
                a
            } else {
                a + 1
            }] by {}
            assert forall|a: int, b: int| 0 <= a < out.len() && 0 <= b < out.len() && a != b implies (
            #[trigger] out[a]).envelope_hash != (#[trigger] out[b]).envelope_hash by {
                let a2 = if a < i { a } else { a + 1 };
                let b2 = if b < i { b } else { b + 1 };
                assert(out[a] == rows[a2] && out[b] == rows[b2]);
            }
            assert forall|a: int| 0 <= a < out.len() && (#[trigger] out[a]).pending_op is None implies out[a].flags_local
                == out[a].flags_server by {
                let a2 = if a < i { a } else { a + 1 };
                assert(out[a] == rows[a2]);
            }
            assert forall|a: int| 0 <= a < out.len() implies !has_id(id)(#[trigger] out[a]) by {
                let a2 = if a < i { a } else { a + 1 };
                assert(out[a] == rows[a2]);
                assert(rows[a2].envelope_hash != rows[i].envelope_hash);
            }
            lemma_first_match(out, has_id(id), None);
        },
        None => {},
    }
}

} // verus!
