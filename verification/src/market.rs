//! What an obligation takes from the lending market around it.
use vstd::prelude::*;
use vstd::std_specs::convert::FromSpecImpl;

use crate::arrays::filled;

verus! {

/// The elevation group of an obligation that is in none.
pub const ELEVATION_GROUP_NONE: u8 = 0;

/// The tier that stands beside an empty slot.
pub const NO_ASSET_TIER: u8 = 255;

/// How risky the asset of a reserve is.
#[derive(Clone, Copy, PartialEq, Eq, Debug, Structural)]
pub enum AssetTier {
    Regular,
    IsolatedCollateral,
    IsolatedDebt,
}

impl AssetTier {
    /// The byte that stands for a tier.
    pub open spec fn code(self) -> u8 {
        match self {
            AssetTier::Regular => 0,
            AssetTier::IsolatedCollateral => 1,
            AssetTier::IsolatedDebt => 2,
        }
    }

    /// The tier that a byte stands for, if it stands for one.
    pub open spec fn of_code(code: u8) -> Option<AssetTier> {
        if code == 0 {
            Some(AssetTier::Regular)
        } else if code == 1 {
            Some(AssetTier::IsolatedCollateral)
        } else if code == 2 {
            Some(AssetTier::IsolatedDebt)
        } else {
            None
        }
    }

    pub fn from_code(code: u8) -> (r: Option<AssetTier>)
        ensures
            r == AssetTier::of_code(code),
            r is Some <==> code < 3,
            code == 0 ==> r == Some(AssetTier::Regular),
            code == 1 ==> r == Some(AssetTier::IsolatedCollateral),
            code == 2 ==> r == Some(AssetTier::IsolatedDebt),
    {
        if code == 0 {
            Some(AssetTier::Regular)
        } else if code == 1 {
            Some(AssetTier::IsolatedCollateral)
        } else if code == 2 {
            Some(AssetTier::IsolatedDebt)
        } else {
            None
        }
    }
}

impl FromSpecImpl<AssetTier> for u8 {
    open spec fn obeys_from_spec() -> bool {
        true
    }

    open spec fn from_spec(tier: AssetTier) -> u8 {
        tier.code()
    }
}

impl From<AssetTier> for u8 {
    fn from(tier: AssetTier) -> (r: u8)
        ensures
            tier == AssetTier::Regular ==> r == 0,
            tier == AssetTier::IsolatedCollateral ==> r == 1,
            tier == AssetTier::IsolatedDebt ==> r == 2,
    {
        match tier {
            AssetTier::Regular => 0,
            AssetTier::IsolatedCollateral => 1,
            AssetTier::IsolatedDebt => 2,
        }
    }
}

/// Which limit a withdrawal must leave unbroken.
#[derive(Clone, Copy, PartialEq, Eq, Debug, Structural)]
pub enum LtvMaxWithdrawalCheck {
    MaxLtv,
    LiquidationThreshold,
}

/// When an obligation was last brought up to date.
#[derive(Clone, Copy, PartialEq, Eq, Debug)]
pub struct LastUpdate {
    pub slot: u64,
    pub stale: u8,
    pub price_status: u8,
    pub placeholder: [u8; 6],
}

impl LastUpdate {
    /// What `new` gives for `slot`: stale, with no price checked.
    pub open spec fn stale_at(slot: u64) -> LastUpdate {
        LastUpdate { slot, stale: 1, price_status: 0, placeholder: filled(0) }
    }

    /// What `default` gives: nothing recorded.
    pub open spec fn unset() -> LastUpdate {
        LastUpdate { slot: 0, stale: 0, price_status: 0, placeholder: filled(0) }
    }

    pub fn new(slot: u64) -> (r: LastUpdate)
        ensures
            r == LastUpdate::stale_at(slot),
            r.slot == slot,
            r.stale == 1,
            r.price_status == 0,
    {
        LastUpdate { slot, stale: 1, price_status: 0, placeholder: [0u8; 6] }
    }
}

impl Default for LastUpdate {
    fn default() -> (r: LastUpdate)
        ensures
            r == LastUpdate::unset(),
    {
        LastUpdate { slot: 0, stale: 0, price_status: 0, placeholder: [0u8; 6] }
    }
}

} // verus!
