//! The regions in which independent tournaments run.
use vstd::prelude::*;
use crate::text::same_text;

verus! {

/// A geographical region, each with its own bracket and configuration.
#[allow(clippy::upper_case_acronyms)]
#[derive(PartialEq, Eq, Structural, Clone, Copy, Debug, Hash)]
pub enum Region {
    NASA,
    EU,
    APAC,
}

/// The region that an abbreviation names.
pub open spec fn region_of(name: Seq<char>) -> Option<Region> {
    if name == "NASA"@ {
        Some(Region::NASA)
    } else if name == "EU"@ {
        Some(Region::EU)
    } else if name == "APAC"@ {
        Some(Region::APAC)
    } else {
        None
    }
}

/// The human-readable description of a region abbreviation.
pub open spec fn details_of(region: Seq<char>) -> Seq<char> {
    if region == "APAC"@ {
        "Asia & Oceania"@
    } else if region == "EU"@ {
        "Europe"@
    } else if region == "NASA"@ {
        "North America & South America"@
    } else {
        "You are not from Earth, aren't you?"@
    }
}

impl Region {
    /// Finds the region whose abbreviation is `name`.
    pub fn find_key(name: &str) -> (r: Option<Region>)
        ensures
            r == region_of(name@),
    {
        if same_text(name, "NASA") {
            Some(Region::NASA)
        } else if same_text(name, "EU") {
            Some(Region::EU)
        } else if same_text(name, "APAC") {
            Some(Region::APAC)
        } else {
            None
        }
    }
}

/// Human-readable details for a region abbreviation.
pub fn region_details(region: &str) -> (r: &'static str)
    ensures
        r@ == details_of(region@),
{
    if same_text(region, "APAC") {
        "Asia & Oceania"
    } else if same_text(region, "EU") {
        "Europe"
    } else if same_text(region, "NASA") {
        "North America & South America"
    } else {
        "You are not from Earth, aren't you?"
    }
}

} // verus!
