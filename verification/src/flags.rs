use vstd::prelude::*;

verus! {

/// The flag byte that stands for a pair of booleans: bit 0 is "seen", bit 1 is "flagged".
pub open spec fn spec_flags_to_u8(is_read: bool, is_starred: bool) -> u8 {
    if is_read {
        if is_starred {
            3u8
        } else {
            1u8
        }
    } else {
        if is_starred {
            2u8
        } else {
            0u8
        }
    }
}

/// The pair of booleans that a flag byte stands for; bits other than the lowest two are
/// not looked at.
pub open spec fn spec_flags_from_u8(f: u8) -> (bool, bool) {
    (f & 1 != 0, f & 2 != 0)
}

/// Encodes the read and starred state of a message in one byte.
pub fn flags_to_u8(is_read: bool, is_starred: bool) -> (f: u8)
    ensures
        f == spec_flags_to_u8(is_read, is_starred),
{
    let mut f: u8 = 0;
    if is_read {
        f = f | 1;
    }
    if is_starred {
        f = f | 2;
    }
    assert(0u8 | 1u8 == 1u8 && 0u8 | 2u8 == 2u8 && 1u8 | 2u8 == 3u8) by (bit_vector);
    f
}

/// Decodes a flag byte into the read and starred state.
pub fn flags_from_u8(f: u8) -> (r: (bool, bool))
    ensures
        r == spec_flags_from_u8(f),
{
    (f & 1 != 0, f & 2 != 0)
}

/// Decoding an encoded pair gives the pair back.
pub proof fn lemma_flags_roundtrip(is_read: bool, is_starred: bool)
    ensures
        spec_flags_from_u8(spec_flags_to_u8(is_read, is_starred)) == (is_read, is_starred),
{
    assert(0u8 & 1 == 0 && 0u8 & 2 == 0 && 1u8 & 1 != 0 && 1u8 & 2 == 0 && 2u8 & 1 == 0 && 2u8 & 2
        != 0 && 3u8 & 1 != 0 && 3u8 & 2 != 0) by (bit_vector);
}

/// Encoding a decoded byte keeps its lowest two bits and clears the others.
pub proof fn lemma_flags_normalise(f: u8)
    ensures
        spec_flags_to_u8(spec_flags_from_u8(f).0, spec_flags_from_u8(f).1) == f & 3,
{
    assert((f & 1 != 0 && f & 2 != 0) ==> f & 3 == 3) by (bit_vector);
    assert((f & 1 != 0 && f & 2 == 0) ==> f & 3 == 1) by (bit_vector);
    assert((f & 1 == 0 && f & 2 != 0) ==> f & 3 == 2) by (bit_vector);
    assert((f & 1 == 0 && f & 2 == 0) ==> f & 3 == 0) by (bit_vector);
}

/// The reconciliation state of one message: either the server's flags are in effect, or a
/// local change waits for the server.
#[derive(Debug, Clone)]
pub enum FlagState {
    /// Nothing is pending; the local flags are the server's.
    Synced,
    /// An operation with this tag is in flight and these flags are shown meanwhile.
    Pending { intended: u8, tag: String },
}

/// The reconciliation state, as plain values.
pub enum FlagStateView {
    Synced,
    Pending { intended: u8, tag: Seq<char> },
}

impl View for FlagState {
    type V = FlagStateView;

    open spec fn view(&self) -> FlagStateView {
        match self {
            FlagState::Synced => FlagStateView::Synced,
            FlagState::Pending { intended, tag } => FlagStateView::Pending {
                intended: *intended,
                tag: tag@,
            },
        }
    }
}

} // verus!
