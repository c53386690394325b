use vstd::prelude::*;

verus! {

/// Integer claimant identity. Names map to ids at the adapter edge; authority
/// logic never parses strings.
#[derive(Copy, Clone, Debug, PartialEq, Eq, Structural)]
pub struct ClaimantId(pub u16);

/// The onboard autonomy claimant. Reserved so that a default grant to
/// autonomy has a target before any remote claimant registers.
pub fn autonomy() -> (id: ClaimantId)
    ensures
        id == ClaimantId(0),
{
    ClaimantId(0)
}

/// A claimant's declared rank; claimants without one rank zero.
#[derive(Copy, Clone, Debug, PartialEq, Eq, Structural)]
pub struct ClaimantPriority {
    pub id: ClaimantId,
    pub priority: u8,
}

/// Filler for fixed-capacity storage; the values carry no meaning.
impl Default for ClaimantPriority {
    fn default() -> (p: ClaimantPriority)
        ensures
            p.id == ClaimantId(0),
            p.priority == 0,
    {
        ClaimantPriority { id: ClaimantId(0), priority: 0 }
    }
}

#[derive(Copy, Clone, Debug, PartialEq, Eq, Structural)]
pub enum ConnState {
    Unheld,
    Held(ClaimantId),
}

#[derive(Copy, Clone, Debug, PartialEq, Eq, Structural)]
pub enum ArmingState {
    Disarmed,
    Armed,
}

} // verus!
