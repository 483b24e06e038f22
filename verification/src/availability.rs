//! Availability metadata of a declaration.

use vstd::prelude::*;

verus! {

/// Whether a declaration may be used at all, and whether its use is
/// discouraged.
#[derive(Debug, Clone, Copy, PartialEq, Eq, Structural)]
pub struct Availability {
    pub unavailable: bool,
    pub deprecated: bool,
}

/// What one platform says of a declaration.
#[derive(Debug, Clone, Copy, PartialEq, Eq, Structural)]
pub struct PlatformAvailability {
    pub unavailable: bool,
    pub deprecated: bool,
}

impl Availability {
    /// What the platforms say together: a declaration is unavailable where
    /// one platform says so, and deprecated where one platform says so.
    pub open spec fn of_platforms(platforms: Seq<PlatformAvailability>) -> Availability {
        Availability {
            unavailable: exists|i: int|
                0 <= i < platforms.len() && (#[trigger] platforms[i]).unavailable,
            deprecated: exists|i: int|
                0 <= i < platforms.len() && (#[trigger] platforms[i]).deprecated,
        }
    }

    /// Gathers what the platforms say of a declaration.
    pub fn parse(platforms: &Vec<PlatformAvailability>) -> (r: Availability)
        ensures
            r == Availability::of_platforms(platforms@),
    {
        let mut unavailable = false;
        let mut deprecated = false;
        let mut i: usize = 0;
        while i < platforms.len()
            invariant
                i <= platforms.len(),
                unavailable == exists|j: int| 0 <= j < i && (#[trigger] platforms@[j]).unavailable,
                deprecated == exists|j: int| 0 <= j < i && (#[trigger] platforms@[j]).deprecated,
            decreases platforms.len() - i,
        {
            if platforms[i].unavailable {
                unavailable = true;
            }
            if platforms[i].deprecated {
                deprecated = true;
            }
            proof {
                let k = i as int;
                if exists|j: int| 0 <= j < k + 1 && (#[trigger] platforms@[j]).unavailable {
                    let j = choose|j: int| 0 <= j < k + 1 && (#[trigger] platforms@[j]).unavailable;
                    assert(j < k || platforms@[k].unavailable);
                }
                if exists|j: int| 0 <= j < k + 1 && (#[trigger] platforms@[j]).deprecated {
                    let j = choose|j: int| 0 <= j < k + 1 && (#[trigger] platforms@[j]).deprecated;
                    assert(j < k || platforms@[k].deprecated);
                }
            }
            i += 1;
        }
        Availability { unavailable, deprecated }
    }

    /// A declaration that is available and not deprecated.
    pub fn new() -> (r: Availability)
        ensures
            r == (Availability { unavailable: false, deprecated: false }),
    {
        Availability { unavailable: false, deprecated: false }
    }
}

impl View for Availability {
    type V = Availability;

    open spec fn view(&self) -> Availability {
        *self
    }
}

impl DeepView for Availability {
    type V = Availability;

    open spec fn deep_view(&self) -> Availability {
        *self
    }
}

} // verus!
