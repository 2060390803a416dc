//! Votes, and the certificates that votes add up to.

use solana_clock::Slot;
use vstd::prelude::*;

verus! {

/// Identifies a block.
pub type Hash = [u8; 32];

/// The different types of [`Vote`]s.
#[derive(Clone, Copy, Debug, PartialEq, Eq, Structural)]
pub enum VoteType {
    /// Finalize vote.
    Finalize,
    /// Notarize vote.
    Notarize,
    /// Notarize fallback vote.
    NotarizeFallback,
    /// Skip vote.
    Skip,
    /// Skip fallback vote.
    SkipFallback,
    /// Genesis vote.
    Genesis,
}

/// A notarization vote.
#[derive(Clone, Copy, Debug, PartialEq, Eq)]
pub struct NotarizationVote {
    /// The slot this vote is cast for.
    pub slot: Slot,
    /// The block this vote is cast for.
    pub block_id: Hash,
}

/// A finalization vote.
#[derive(Clone, Copy, Debug, PartialEq, Eq)]
pub struct FinalizationVote {
    /// The slot this vote is cast for.
    pub slot: Slot,
}

/// A skip vote.
#[derive(Clone, Copy, Debug, PartialEq, Eq)]
pub struct SkipVote {
    /// The slot this vote is cast for.
    pub slot: Slot,
}

/// A notarization fallback vote.
#[derive(Clone, Copy, Debug, PartialEq, Eq)]
pub struct NotarizationFallbackVote {
    /// The slot this vote is cast for.
    pub slot: Slot,
    /// The block this vote is cast for.
    pub block_id: Hash,
}

/// A skip fallback vote.
#[derive(Clone, Copy, Debug, PartialEq, Eq)]
pub struct SkipFallbackVote {
    /// The slot this vote is cast for.
    pub slot: Slot,
}

/// A genesis vote. Only used during the migration from TowerBFT.
#[derive(Clone, Copy, Debug, PartialEq, Eq)]
pub struct GenesisVote {
    /// The slot this vote is cast for.
    pub slot: Slot,
    /// The block this vote is cast for.
    pub block_id: Hash,
}

/// A vote of a validator.
#[derive(Clone, Copy, Debug, PartialEq, Eq)]
pub enum Vote {
    /// A notarization vote.
    Notarize(NotarizationVote),
    /// A finalization vote.
    Finalize(FinalizationVote),
    /// A skip vote.
    Skip(SkipVote),
    /// A notarization fallback vote.
    NotarizeFallback(NotarizationFallbackVote),
    /// A skip fallback vote.
    SkipFallback(SkipFallbackVote),
    /// A genesis vote.
    Genesis(GenesisVote),
}

/// The different types of certificates, each with what it certifies.
#[derive(Clone, Copy, Debug, PartialEq, Eq)]
pub enum CertificateType {
    /// Finalize certificate.
    Finalize(Slot),
    /// Fast finalize certificate.
    FinalizeFast(Slot, Hash),
    /// Notarize certificate.
    Notarize(Slot, Hash),
    /// Notarize fallback certificate.
    NotarizeFallback(Slot, Hash),
    /// Skip certificate.
    Skip(Slot),
    /// Genesis certificate.
    Genesis(Slot, Hash),
}

impl Vote {
    /// The slot that the vote is cast for.
    pub open spec fn slot(self) -> Slot {
        match self {
            Vote::Notarize(vote) => vote.slot,
            Vote::Finalize(vote) => vote.slot,
            Vote::Skip(vote) => vote.slot,
            Vote::NotarizeFallback(vote) => vote.slot,
            Vote::SkipFallback(vote) => vote.slot,
            Vote::Genesis(vote) => vote.slot,
        }
    }

    /// The block that the vote is cast for, if it is cast for one.
    pub open spec fn block_id(self) -> Option<Hash> {
        match self {
            Vote::Notarize(vote) => Some(vote.block_id),
            Vote::NotarizeFallback(vote) => Some(vote.block_id),
            Vote::Genesis(vote) => Some(vote.block_id),
            Vote::Finalize(_) | Vote::Skip(_) | Vote::SkipFallback(_) => None,
        }
    }
}

impl CertificateType {
    /// The slot that the certificate is for.
    pub open spec fn slot(self) -> Slot {
        match self {
            CertificateType::Finalize(slot) => slot,
            CertificateType::FinalizeFast(slot, _) => slot,
            CertificateType::Notarize(slot, _) => slot,
            CertificateType::NotarizeFallback(slot, _) => slot,
            CertificateType::Skip(slot) => slot,
            CertificateType::Genesis(slot, _) => slot,
        }
    }

    /// The block that the certificate is for, if it is for one.
    pub open spec fn block_id(self) -> Option<Hash> {
        match self {
            CertificateType::FinalizeFast(_, block_id) => Some(block_id),
            CertificateType::Notarize(_, block_id) => Some(block_id),
            CertificateType::NotarizeFallback(_, block_id) => Some(block_id),
            CertificateType::Genesis(_, block_id) => Some(block_id),
            CertificateType::Finalize(_) | CertificateType::Skip(_) => None,
        }
    }
}

/// A share of the stake, as numerator and denominator.
#[derive(Clone, Copy, Debug, PartialEq, Eq, Structural)]
pub struct Fraction {
    pub numerator: u64,
    pub denominator: u64,
}

impl Fraction {
    /// Creates a fraction from a percentage.
    pub fn from_percentage(pct: u64) -> (fraction: Fraction)
        ensures
            fraction == (Fraction { numerator: pct, denominator: 100 }),
    {
        Fraction { numerator: pct, denominator: 100 }
    }
}

/// A percentage is that many hundredths.
pub proof fn percentages_are_hundredths(pct: u64, fraction: Fraction)
    requires
        call_ensures(Fraction::from_percentage, (pct,), fraction),
    ensures
        fraction.numerator == pct,
        fraction.denominator == 100,
{
}

} // verus!
