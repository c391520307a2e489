//! Account rate-limit tiers.
//!
//! Each exchange account carries a tier name (`"tier1"`, `"vip3"`, ...)
//! that selects its per-account request budget.

use vstd::prelude::*;
use crate::text::{all_ascii, ascii_lower, str_eq, to_lowercase, unicode_lowercase};

verus! {

/// An account's rate-limit tier.
#[derive(Debug, Clone, Copy, PartialEq, Eq, Hash, Structural)]
pub enum RateTier {
    Tier1,
    Tier2,
    Vip1,
    Vip2,
    Vip3,
    Vip4,
    Vip5,
    MarketMaker,
}

/// The canonical name of a tier.
pub open spec fn tier_name(t: RateTier) -> Seq<char> {
    match t {
        RateTier::Tier1 => "tier1"@,
        RateTier::Tier2 => "tier2"@,
        RateTier::Vip1 => "vip1"@,
        RateTier::Vip2 => "vip2"@,
        RateTier::Vip3 => "vip3"@,
        RateTier::Vip4 => "vip4"@,
        RateTier::Vip5 => "vip5"@,
        RateTier::MarketMaker => "market_maker"@,
    }
}

/// The tier that an already lowercased name selects; unknown names select
/// `Tier1`, and `"mm"` is a short name of `MarketMaker`.
pub open spec fn tier_of_lowercase(name: Seq<char>) -> RateTier {
    if name == "tier2"@ {
        RateTier::Tier2
    } else if name == "vip1"@ {
        RateTier::Vip1
    } else if name == "vip2"@ {
        RateTier::Vip2
    } else if name == "vip3"@ {
        RateTier::Vip3
    } else if name == "vip4"@ {
        RateTier::Vip4
    } else if name == "vip5"@ {
        RateTier::Vip5
    } else if name == "market_maker"@ || name == "mm"@ {
        RateTier::MarketMaker
    } else {
        RateTier::Tier1
    }
}

impl RateTier {
    /// The tier that a lowercased name selects.
    pub fn from_lowercase_name(name: &str) -> (r: RateTier)
        ensures
            r == tier_of_lowercase(name@),
    {
        if str_eq(name, "tier2") {
            RateTier::Tier2
        } else if str_eq(name, "vip1") {
            RateTier::Vip1
        } else if str_eq(name, "vip2") {
            RateTier::Vip2
        } else if str_eq(name, "vip3") {
            RateTier::Vip3
        } else if str_eq(name, "vip4") {
            RateTier::Vip4
        } else if str_eq(name, "vip5") {
            RateTier::Vip5
        } else if str_eq(name, "market_maker") || str_eq(name, "mm") {
            RateTier::MarketMaker
        } else {
            RateTier::Tier1
        }
    }

    /// The tier a name selects, compared without regard to case.
    pub fn from_str(s: &str) -> (r: RateTier)
        ensures
            r == tier_of_lowercase(unicode_lowercase(s@)),
            all_ascii(s@) ==> r == tier_of_lowercase(ascii_lower(s@)),
    {
        let lower = to_lowercase(s);
        Self::from_lowercase_name(lower.as_str())
    }

    /// The canonical name of the tier.
    pub fn as_str(&self) -> (r: &'static str)
        ensures
            r@ == tier_name(*self),
    {
        match self {
            RateTier::Tier1 => "tier1",
            RateTier::Tier2 => "tier2",
            RateTier::Vip1 => "vip1",
            RateTier::Vip2 => "vip2",
            RateTier::Vip3 => "vip3",
            RateTier::Vip4 => "vip4",
            RateTier::Vip5 => "vip5",
            RateTier::MarketMaker => "market_maker",
        }
    }
}

/// A tier's name is ASCII, and reading it back (case-insensitively) gives
/// the same tier.
pub proof fn lemma_tier_name_roundtrip(t: RateTier)
    ensures
        all_ascii(tier_name(t)),
        tier_of_lowercase(ascii_lower(tier_name(t))) == t,
{
    reveal_strlit("tier1");
    reveal_strlit("tier2");
    reveal_strlit("vip1");
    reveal_strlit("vip2");
    reveal_strlit("vip3");
    reveal_strlit("vip4");
    reveal_strlit("vip5");
    reveal_strlit("market_maker");
    reveal_strlit("mm");
    let n = tier_name(t);
    assert(ascii_lower(n) =~= n);
    assert("tier1"@[4] != "tier2"@[4]);
    assert("tier1"@.len() != "vip1"@.len());
    assert("tier1"@.len() != "market_maker"@.len());
    assert("tier1"@.len() != "mm"@.len());
    assert("tier2"@.len() != "vip1"@.len());
    assert("vip1"@[3] != "vip2"@[3]);
    assert("vip1"@[3] != "vip3"@[3]);
    assert("vip1"@[3] != "vip4"@[3]);
    assert("vip1"@[3] != "vip5"@[3]);
    assert("vip2"@[3] != "vip3"@[3]);
    assert("vip2"@[3] != "vip4"@[3]);
    assert("vip2"@[3] != "vip5"@[3]);
    assert("vip3"@[3] != "vip4"@[3]);
    assert("vip3"@[3] != "vip5"@[3]);
    assert("vip4"@[3] != "vip5"@[3]);
    assert("vip1"@.len() != "market_maker"@.len());
    assert("vip1"@.len() != "mm"@.len());
}

} // verus!
