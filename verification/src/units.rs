//! Capacities in bitcoin and in satoshis.
//!
//! The store and the ranking source count satoshis. People read and write
//! bitcoin. A [`BtcAmount`] is an amount in bitcoin to eight decimal places,
//! held as integers, so that the conversion in both directions is exact.

use vstd::prelude::*;

verus! {

/// Satoshis in one bitcoin.
pub const SATS_PER_BTC: u64 = 100_000_000;

/// An amount in bitcoin: a sign, whole bitcoins, and a fraction counted in
/// satoshis, which is always less than one bitcoin.
///
/// A negative amount may have magnitude zero: that is an amount below zero by
/// less than one satoshi.
#[derive(Clone, Copy, Debug, PartialEq, Eq)]
pub struct BtcAmount {
    negative: bool,
    whole: u64,
    frac: u32,
}

impl BtcAmount {
    #[verifier::type_invariant]
    spec fn fraction_in_range(self) -> bool {
        self.frac < SATS_PER_BTC
    }

    /// Whether the amount is below zero.
    pub closed spec fn is_negative(self) -> bool {
        self.negative
    }

    /// The size of the amount in satoshis, without its sign.
    pub closed spec fn magnitude(self) -> nat {
        (self.whole * SATS_PER_BTC + self.frac) as nat
    }

    /// The amount in satoshis, where it is one that a capacity can be: not
    /// below zero and no more than the largest `u64`.
    pub open spec fn sats(self) -> Option<u64> {
        if self.is_negative() || self.magnitude() > u64::MAX {
            None
        } else {
            Some(self.magnitude() as u64)
        }
    }

    /// The amount, not below zero, that is `sats` satoshis.
    pub closed spec fn exactly(sats: u64) -> BtcAmount {
        BtcAmount {
            negative: false,
            whole: sats / SATS_PER_BTC,
            frac: (sats % SATS_PER_BTC) as u32,
        }
    }

    /// An amount of `whole` bitcoins and `frac` satoshis, below zero if
    /// `negative`. There is none if `frac` is a whole bitcoin or more.
    pub fn new(negative: bool, whole: u64, frac: u32) -> (amount: Option<BtcAmount>)
        ensures
            amount is Some <==> frac < SATS_PER_BTC,
            amount matches Some(a) ==> a.is_negative() == negative && a.magnitude() == whole
                * SATS_PER_BTC + frac,
    {
        if (frac as u64) < SATS_PER_BTC {
            Some(BtcAmount { negative, whole, frac })
        } else {
            None
        }
    }

    /// The amount that is `sats` satoshis.
    pub fn from_sats(sats: u64) -> (amount: BtcAmount)
        ensures
            amount == BtcAmount::exactly(sats),
            !amount.is_negative(),
            amount.magnitude() == sats,
            amount.sats() == Some(sats),
    {
        let whole: u64 = sats / SATS_PER_BTC;
        let frac: u64 = sats % SATS_PER_BTC;
        BtcAmount { negative: false, whole, frac: frac as u32 }
    }

    /// The amount of `whole` bitcoins and no satoshis beyond them, below
    /// zero if `negative`.
    pub fn from_whole(negative: bool, whole: u64) -> (amount: BtcAmount)
        ensures
            amount.is_negative() == negative,
            amount.magnitude() == whole * SATS_PER_BTC,
    {
        BtcAmount { negative, whole, frac: 0 }
    }

    /// The amount whose size is `sats` satoshis and that is below zero if
    /// `negative`.
    pub fn from_signed_sats(negative: bool, sats: u64) -> (amount: BtcAmount)
        ensures
            amount.is_negative() == negative,
            amount.magnitude() == sats,
    {
        let whole: u64 = sats / SATS_PER_BTC;
        let frac: u64 = sats % SATS_PER_BTC;
        BtcAmount { negative, whole, frac: frac as u32 }
    }

    /// The amount in satoshis, where it is one that a capacity can be: see
    /// [`BtcAmount::sats`].
    pub fn to_sats(&self) -> (sats: Option<u64>)
        ensures
            sats == self.sats(),
    {
        proof {
            use_type_invariant(self);
        }
        if self.negative {
            return None;
        }
        match self.whole.checked_mul(SATS_PER_BTC) {
            Some(scaled) => scaled.checked_add(self.frac as u64),
            None => None,
        }
    }

    /// What [`BtcAmount::exactly`] gives: an amount that is not below zero,
    /// of just that many satoshis.
    pub proof fn lemma_exactly(sats: u64)
        ensures
            !BtcAmount::exactly(sats).is_negative(),
            BtcAmount::exactly(sats).magnitude() == sats,
            BtcAmount::exactly(sats).sats() == Some(sats),
    {
    }

    /// Whether the amount is below zero.
    pub fn negative(&self) -> (negative: bool)
        ensures
            negative == self.is_negative(),
    {
        self.negative
    }

    /// The whole bitcoins of the amount.
    pub fn whole(&self) -> (whole: u64)
        ensures
            whole == self.magnitude() / (SATS_PER_BTC as nat),
    {
        proof {
            use_type_invariant(self);
        }
        self.whole
    }

    /// The satoshis of the amount beyond its whole bitcoins.
    pub fn frac(&self) -> (frac: u32)
        ensures
            frac == self.magnitude() % (SATS_PER_BTC as nat),
            frac < SATS_PER_BTC,
    {
        proof {
            use_type_invariant(self);
        }
        self.frac
    }
}

} // verus!
