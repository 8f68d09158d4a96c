//! Core data model: instances, tags, backup tiers, and run outcomes.

use vstd::prelude::*;

verus! {

/// A key/value label attached (or to be attached) to an instance.
pub struct TagPair {
    pub key: String,
    pub value: String,
}

impl TagPair {
    /// A tag to be applied must have a non-empty key.
    pub open spec fn wf(self) -> bool {
        self.key@.len() > 0
    }

    pub fn new(key: String, value: String) -> (t: TagPair)
        requires
            key@.len() > 0,
        ensures
            t.key == key,
            t.value == value,
            t.wf(),
    {
        TagPair { key, value }
    }
}

/// One cloud compute instance: an opaque identifier plus its tag set,
/// an immutable snapshot taken at fetch time. Tag keys are not
/// guaranteed unique; the order of the tag list carries no meaning.
pub struct Instance {
    pub instance_id: String,
    pub tags: Vec<TagPair>,
}

impl Instance {
    /// The provider guarantees a non-empty identifier.
    pub open spec fn wf(self) -> bool {
        self.instance_id@.len() > 0
    }
}

/// Backup priority tier, used as the value of the applied tag.
#[derive(Clone, Copy, PartialEq, Eq, Structural, Debug)]
pub enum TierSelection {
    Gold,
    Silver,
    Bronze,
}

/// The tag value that each tier is written as.
pub open spec fn tier_value(t: TierSelection) -> Seq<char> {
    match t {
        TierSelection::Gold => "Gold"@,
        TierSelection::Silver => "Silver"@,
        TierSelection::Bronze => "Bronze"@,
    }
}

impl TierSelection {
    /// Render the tier as its tag value.
    pub fn value_string(self) -> (r: String)
        ensures
            r@ == tier_value(self),
    {
        match self {
            TierSelection::Gold => String::from_str("Gold"),
            TierSelection::Silver => String::from_str("Silver"),
            TierSelection::Bronze => String::from_str("Bronze"),
        }
    }

    /// Read a tier from its tag value; anything else is rejected
    /// before a run begins.
    pub fn parse(s: &String) -> (r: Option<TierSelection>)
        ensures
            s@ == tier_value(TierSelection::Gold) ==> r == Some(TierSelection::Gold),
            s@ == tier_value(TierSelection::Silver) ==> r == Some(TierSelection::Silver),
            s@ == tier_value(TierSelection::Bronze) ==> r == Some(TierSelection::Bronze),
            r matches Some(t) ==> s@ == tier_value(t),
    {
        proof {
            reveal_strlit("Gold");
            reveal_strlit("Silver");
            reveal_strlit("Bronze");
            assert("Gold"@ != "Silver"@ && "Gold"@ != "Bronze"@) by {
                assert("Gold"@.len() == 4);
            }
            assert("Silver"@ != "Bronze"@) by {
                assert("Silver"@[0] == 'S' && "Bronze"@[0] == 'B');
            }
        }
        if *s == String::from_str("Gold") {
            Some(TierSelection::Gold)
        } else if *s == String::from_str("Silver") {
            Some(TierSelection::Silver)
        } else if *s == String::from_str("Bronze") {
            Some(TierSelection::Bronze)
        } else {
            None
        }
    }
}

/// The fixed backup-plan marker key under which the tier is recorded.
pub open spec fn drp_key() -> Seq<char> {
    "DRPBackupPlan"@
}

/// The tag one run applies: the fixed backup-plan key, valued with the
/// selected tier. Built once per run from resolved configuration.
pub fn drp_tag(tier: TierSelection) -> (t: TagPair)
    ensures
        t.key@ == drp_key(),
        t.value@ == tier_value(tier),
        t.wf(),
{
    proof {
        reveal_strlit("DRPBackupPlan");
    }
    TagPair { key: String::from_str("DRPBackupPlan"), value: tier.value_string() }
}

/// The default tier is the lowest priority.
impl Default for TierSelection {
    fn default() -> (r: Self)
        ensures
            r == TierSelection::Bronze,
    {
        TierSelection::Bronze
    }
}

/// Aggregate summary of one run: how many instances were seen in the
/// inventory, how many passed the filter, how many the operator
/// confirmed, and of those how many were tagged or failed; declined
/// candidates are counted as skipped.
#[derive(Clone, Copy, PartialEq, Eq, Structural, Debug)]
pub struct RunOutcome {
    pub seen: usize,
    pub filtered: usize,
    pub confirmed: usize,
    pub tagged: usize,
    pub skipped: usize,
    pub failed: usize,
}

impl RunOutcome {
    /// Internal consistency: every confirmed candidate was either
    /// tagged or failed, and no count exceeds the candidate count.
    pub open spec fn wf(self) -> bool {
        &&& self.confirmed == self.tagged + self.failed
        &&& self.skipped + self.confirmed <= self.filtered
        &&& self.filtered <= self.seen
    }

    pub fn empty() -> (r: RunOutcome)
        ensures
            r == (RunOutcome { seen: 0, filtered: 0, confirmed: 0, tagged: 0, skipped: 0, failed: 0 }),
            r.wf(),
    {
        RunOutcome { seen: 0, filtered: 0, confirmed: 0, tagged: 0, skipped: 0, failed: 0 }
    }
}

/// Transport-level classification of a failed inventory request,
/// mapped from the provider's error shape at the fetch boundary.
#[derive(Clone, Copy, PartialEq, Eq, Structural, Debug)]
pub enum TransportError {
    Construction,
    Timeout,
    Dispatch,
    Response,
    Service,
    Other,
}

/// Why a fetch produced no usable inventory: either the aggregate
/// collection was empty after a successful fetch (nothing to do, not a
/// transport error), or a page could not be retrieved.
#[derive(Clone, Copy, PartialEq, Eq, Structural, Debug)]
pub enum FetchError {
    NoInstancesFound,
    Transport(TransportError),
}

} // verus!
