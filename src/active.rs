use vstd::prelude::*;

verus! {

/// Number of active storage providers in each region.
///
/// The four counts are replaced together; no single count is set alone.
#[derive(Clone, Copy, Debug, PartialEq, Eq, Structural, Default)]
pub struct ActivePerRegion {
    pub europe: u32,
    pub asia: u32,
    pub north_america: u32,
    pub other: u32,
}

impl ActivePerRegion {
    /// All four counts at zero.
    pub fn zero() -> (r: ActivePerRegion)
        ensures
            r == (ActivePerRegion { europe: 0, asia: 0, north_america: 0, other: 0 }),
    {
        ActivePerRegion { europe: 0, asia: 0, north_america: 0, other: 0 }
    }
}

} // verus!
