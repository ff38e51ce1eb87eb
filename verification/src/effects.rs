use crate::text::{decimal, spec_decimal};
use vstd::prelude::*;
use vstd::string::*;

verus! {

/// A flag of a message that the user can set and clear.
#[derive(Clone, Copy, Debug, PartialEq, Eq, Structural)]
pub enum FlagKind {
    Seen,
    Flagged,
}

/// The operation that is pending on a message while the server has not answered.
#[derive(Clone, Copy, Debug, PartialEq, Eq, Structural)]
pub enum PendingOp {
    SetSeen,
    UnsetSeen,
    SetFlagged,
    UnsetFlagged,
    /// A move to the mailbox with this id.
    Move(u64),
}

/// The tag under which the cache records a pending operation.
pub open spec fn spec_tag(op: PendingOp) -> Seq<char> {
    match op {
        PendingOp::SetSeen => "set_seen"@,
        PendingOp::UnsetSeen => "unset_seen"@,
        PendingOp::SetFlagged => "set_flagged"@,
        PendingOp::UnsetFlagged => "unset_flagged"@,
        PendingOp::Move(dest) => "move:"@ + spec_decimal(dest as nat),
    }
}

impl PendingOp {
    /// The tag under which the cache records this operation.
    pub fn tag(&self) -> (s: String)
        ensures
            s@ == spec_tag(*self),
    {
        match self {
            PendingOp::SetSeen => String::from_str("set_seen"),
            PendingOp::UnsetSeen => String::from_str("unset_seen"),
            PendingOp::SetFlagged => String::from_str("set_flagged"),
            PendingOp::UnsetFlagged => String::from_str("unset_flagged"),
            PendingOp::Move(dest) => {
                let mut s = String::from_str("move:");
                let d = decimal(*dest);
                s.append(d.as_str());
                s
            },
        }
    }

    /// The operation that toggling a flag to `set` starts.
    pub fn for_toggle(flag: FlagKind, set: bool) -> (op: PendingOp)
        ensures
            op == spec_toggle_op(flag, set),
    {
        match flag {
            FlagKind::Seen => if set {
                PendingOp::SetSeen
            } else {
                PendingOp::UnsetSeen
            },
            FlagKind::Flagged => if set {
                PendingOp::SetFlagged
            } else {
                PendingOp::UnsetFlagged
            },
        }
    }
}

/// The operation that toggling a flag to `set` starts.
pub open spec fn spec_toggle_op(flag: FlagKind, set: bool) -> PendingOp {
    match flag {
        FlagKind::Seen => if set {
            PendingOp::SetSeen
        } else {
            PendingOp::UnsetSeen
        },
        FlagKind::Flagged => if set {
            PendingOp::SetFlagged
        } else {
            PendingOp::UnsetFlagged
        },
    }
}

/// Work that the state machine asks its surroundings to do. Accounts are named by their
/// place in the list of accounts at the moment the effect is handed out. Each effect but
/// the last five ends in one event that is handed back to the state machine.
#[derive(Clone, Copy, Debug, PartialEq, Eq, Structural)]
pub enum Effect {
    /// Read the folders of an account from the cache; answered by `CachedFoldersLoaded`.
    CacheLoadFolders { account: usize },
    /// Read one page of a mailbox from the cache; answered by `CachedMessagesLoaded`.
    CacheLoadMessages { account: usize, mailbox_hash: u64, limit: u32, offset: u32 },
    /// Record the user's intent for a message in the cache.
    CacheUpdateFlags { envelope_hash: u64, flags: u8, op: PendingOp },
    /// Record in the cache that the server confirmed these flags for this operation.
    CacheConfirmPendingOp { envelope_hash: u64, op: PendingOp, flags: u8 },
    /// Record in the cache that the server holds these flags, whatever is pending.
    CacheClearPendingOp { envelope_hash: u64, flags: u8 },
    /// Record in the cache that the operation on a message failed.
    CacheRevertPendingOp { envelope_hash: u64 },
    /// Remove a message from the cache.
    CacheRemoveMessage { envelope_hash: u64 },
    /// Search the cache for the current query; answered by `SearchResultsLoaded`.
    CacheSearch,
    /// Ask the server to set or clear a flag; answered by `FlagOpComplete` with the
    /// operation of this request, which on success carries the flags that the server
    /// then holds, `new_flags` where it names none.
    SetFlags {
        account: usize,
        envelope_hash: u64,
        mailbox_hash: u64,
        flag: FlagKind,
        set: bool,
        prev_flags: u8,
        new_flags: u8,
    },
    /// Ask the server to move a message; answered by `MoveOpComplete`.
    MoveMessage { account: usize, envelope_hash: u64, source_mailbox: u64, dest_mailbox: u64 },
    /// Fetch the folders of an account and, with a cache, store them; answered by
    /// `SyncFoldersComplete`.
    FetchFolders { account: usize },
    /// Fetch the messages of a mailbox and, with a cache, store them; answered by
    /// `SyncMessagesComplete`.
    FetchMessages { account: usize, mailbox_hash: u64 },
    /// Load a body: from the cache where `use_cache` holds and the cache has it, else from
    /// the session of `session_account`, storing it in the cache; without a session the
    /// answer is `BodyDeferred`, else `BodyLoaded`.
    LoadBody { envelope_hash: u64, use_cache: bool, session_account: Option<usize> },
    /// Connect an account; answered by `AccountConnected`.
    Connect { account: usize },
    /// After the given number of seconds, hand back `ForceReconnect` for the account.
    ReconnectLater { account: usize, delay_secs: u64 },
    /// Show a desktop notification for the new message of the event at hand.
    NotifyNewMessage,
    /// Put the previewed body on the clipboard.
    CopyBody,
    /// Open the link of the event at hand.
    OpenLink,
    /// Write the previewed attachment at this place to the download directory; answered
    /// by `SaveAttachmentComplete`.
    SaveAttachment { index: usize },
    /// Give the search field the keyboard focus.
    FocusSearch,
}

/// The seconds to wait before a lost connection is tried again.
pub const RECONNECT_DELAY_SECS: u64 = 5;

/// The seconds between two refreshes of all connected accounts.
pub const REFRESH_INTERVAL_SECS: u64 = 300;

} // verus!
