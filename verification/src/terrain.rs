//! The kinds of ground and how much each slows a walker down.

use vstd::prelude::*;
use vstd::std_specs::convert::FromSpecImpl;

verus! {

/// The ground underfoot. `Unknown` stands for a choice that names no
/// preset: the walker gives the adjustment by hand.
#[derive(Clone, Copy, Debug, PartialEq, Eq, Structural)]
pub enum Terrain {
    Unknown,
    Road,
    Path,
    Track,
    Alpine,
}

/// The terrain behind the entry of the terrain menu with this number.
pub open spec fn terrain_at(choice: usize) -> Terrain {
    if choice == 0 {
        Terrain::Road
    } else if choice == 1 {
        Terrain::Path
    } else if choice == 2 {
        Terrain::Track
    } else if choice == 3 {
        Terrain::Alpine
    } else {
        Terrain::Unknown
    }
}

impl From<usize> for Terrain {
    fn from(value: usize) -> (terrain: Self) {
        match value {
            0 => Terrain::Road,
            1 => Terrain::Path,
            2 => Terrain::Track,
            3 => Terrain::Alpine,
            _ => Terrain::Unknown,
        }
    }
}

impl FromSpecImpl<usize> for Terrain {
    open spec fn obeys_from_spec() -> bool {
        true
    }

    open spec fn from_spec(value: usize) -> Self {
        terrain_at(value)
    }
}

impl Terrain {
    /// The preset adjustment in thousandths: 50 on a road, 80 on a path,
    /// 175 on a track, 280 on alpine ground, and none for `Unknown`.
    pub open spec fn preset(self) -> Option<u32> {
        match self {
            Terrain::Unknown => None,
            Terrain::Road => Some(50u32),
            Terrain::Path => Some(80u32),
            Terrain::Track => Some(175u32),
            Terrain::Alpine => Some(280u32),
        }
    }

    /// The entry of the terrain menu that stands for this terrain.
    pub open spec fn label(self) -> Seq<char> {
        match self {
            Terrain::Unknown => "manual"@,
            Terrain::Road => "road"@,
            Terrain::Path => "path"@,
            Terrain::Track => "track"@,
            Terrain::Alpine => "alpine"@,
        }
    }

    /// The adjustment of the slope-speed law for this terrain, in
    /// thousandths; `None` where the walker has to give one.
    pub fn adjustment(&self) -> (per_mille: Option<u32>)
        ensures
            per_mille == self.preset(),
    {
        match self {
            Terrain::Unknown => None,
            Terrain::Road => Some(50),
            Terrain::Path => Some(80),
            Terrain::Track => Some(175),
            Terrain::Alpine => Some(280),
        }
    }

    /// The name of this terrain in the terrain menu.
    pub fn name(&self) -> (name: &'static str)
        ensures
            name@ == self.label(),
    {
        match self {
            Terrain::Unknown => "manual",
            Terrain::Road => "road",
            Terrain::Path => "path",
            Terrain::Track => "track",
            Terrain::Alpine => "alpine",
        }
    }
}

/// The entries of the terrain menu, in order: entry `i` names the terrain
/// that `Terrain::from(i)` gives, the last one the choice by hand.
pub fn terrain_choices() -> (choices: Vec<&'static str>)
    ensures
        choices@.len() == 5,
        forall|i: int| 0 <= i < 5 ==> (#[trigger] choices@[i])@ == terrain_at(i as usize).label(),
{
    let mut choices: Vec<&'static str> = Vec::new();
    let mut i: usize = 0;
    while i < 5
        invariant
            i <= 5,
            choices@.len() == i,
            forall|k: int| 0 <= k < i ==> (#[trigger] choices@[k])@ == terrain_at(k as usize).label(),
        decreases 5 - i,
    {
        let terrain = Terrain::from(i);
        choices.push(terrain.name());
        i += 1;
    }
    choices
}

} // verus!
