//! Plain values shared by every component: identities and claim states.

use vstd::prelude::*;

verus! {

/// The identity of an account or of a protocol component.
///
/// An identity is a 256-bit key together with a flag that tells a component
/// from an account. Two identities are the same exactly when all three
/// fields agree. Whoever presents an identity to a state-changing operation
/// must have verified it beforehand; nothing in this crate does so.
#[derive(Clone, Copy, Debug, PartialEq, Eq, Structural, Hash)]
pub struct Address {
    /// Whether this identity names a protocol component rather than an account.
    pub contract: bool,
    /// The upper half of the key.
    pub hi: u128,
    /// The lower half of the key.
    pub lo: u128,
}

impl Address {
    /// The identity of an account with the given key.
    pub fn account(hi: u128, lo: u128) -> (a: Address)
        ensures
            a == (Address { contract: false, hi, lo }),
    {
        Address { contract: false, hi, lo }
    }

    /// The identity of a protocol component with the given key.
    pub fn component(hi: u128, lo: u128) -> (a: Address)
        ensures
            a == (Address { contract: true, hi, lo }),
    {
        Address { contract: true, hi, lo }
    }
}

/// The state of a claim in its approval lifecycle.
#[derive(Clone, Copy, Debug, PartialEq, Eq, Structural, Hash)]
pub enum ClaimStatus {
    /// Filed and waiting for a processor.
    Submitted,
    /// A processor is reviewing the claim.
    UnderReview,
    /// Accepted; liquidity is reserved for the payout.
    Approved,
    /// Declined; terminal.
    Rejected,
    /// Decided, with the dispute window still open.
    PendingSettlement,
    /// Challenged by a governance member inside the dispute window.
    Disputed,
    /// Paid out; terminal.
    Settled,
}

impl ClaimStatus {
    /// The transition table: the pairs listed here, and no others, are legal.
    pub open spec fn can_move_to(self, next: ClaimStatus) -> bool {
        ||| (self == ClaimStatus::Submitted && next == ClaimStatus::UnderReview)
        ||| (self == ClaimStatus::UnderReview && next == ClaimStatus::Approved)
        ||| (self == ClaimStatus::UnderReview && next == ClaimStatus::Rejected)
        ||| (self == ClaimStatus::Approved && next == ClaimStatus::Settled)
        ||| (self == ClaimStatus::PendingSettlement && next == ClaimStatus::Disputed)
    }

    /// Whether no transition leaves this state.
    pub open spec fn is_terminal(self) -> bool {
        forall|next: ClaimStatus| !self.can_move_to(next)
    }
}

/// Decides whether a claim may move from `current` to `next`.
pub fn is_valid_state_transition(current: ClaimStatus, next: ClaimStatus) -> (ok: bool)
    ensures
        ok == current.can_move_to(next),
{
    match (current, next) {
        (ClaimStatus::Submitted, ClaimStatus::UnderReview) => true,
        (ClaimStatus::UnderReview, ClaimStatus::Approved) => true,
        (ClaimStatus::UnderReview, ClaimStatus::Rejected) => true,
        (ClaimStatus::Approved, ClaimStatus::Settled) => true,
        (ClaimStatus::PendingSettlement, ClaimStatus::Disputed) => true,
        _ => false,
    }
}

/// Whether every step of `path` is a move that the transition table lists.
pub open spec fn legal_path(path: Seq<ClaimStatus>) -> bool {
    forall|i: int| 0 <= i < path.len() - 1 ==> (#[trigger] path[i]).can_move_to(path[i + 1])
}

/// The only way to `Settled`: a legal path that starts at `Submitted` and
/// ends at `Settled` is `Submitted`, `UnderReview`, `Approved`, `Settled`,
/// with nothing left out and nothing added.
pub proof fn lemma_only_path_to_settled(path: Seq<ClaimStatus>)
    requires
        path.len() > 0,
        path[0] == ClaimStatus::Submitted,
        path.last() == ClaimStatus::Settled,
        legal_path(path),
    ensures
        path =~= seq![
            ClaimStatus::Submitted,
            ClaimStatus::UnderReview,
            ClaimStatus::Approved,
            ClaimStatus::Settled,
        ],
{
    assert(path.len() > 1);
    assert(path[0].can_move_to(path[1]));
    assert(path.len() > 2);
    assert(path[1].can_move_to(path[2]));
    assert(path.len() > 3);
    assert(path[2].can_move_to(path[3]));
    if path.len() > 4 {
        assert(path[3].can_move_to(path[4]));
    }
}

/// `Rejected`, `Settled` and `Disputed` are terminal, and no move leads
/// back to `Submitted`.
pub proof fn lemma_terminal_states()
    ensures
        ClaimStatus::Rejected.is_terminal(),
        ClaimStatus::Settled.is_terminal(),
        ClaimStatus::Disputed.is_terminal(),
        forall|from: ClaimStatus| !from.can_move_to(ClaimStatus::Submitted),
{
}

} // verus!
