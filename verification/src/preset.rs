//! The catalog of named starting patterns and its lookup.
//!
//! The catalog is small and fixed; an unknown name simply finds nothing,
//! so callers wanting failure feedback check the name against the catalog
//! first.

use vstd::prelude::*;
use vstd::string::StringExecFns;
use crate::coordinate::CartesianP;
use crate::universe::{
    camera_range, pt, spec_block, spec_vertical_line, Universe,
};

verus! {

/// One named pattern of the catalog.
#[derive(Debug, Clone)]
pub struct Preset {
    pub id: String,
    pub name: String,
}

/// The identity of a catalog group.
#[derive(Debug, Clone)]
pub struct PresetInfo {
    pub id: String,
    pub name: String,
}

/// A run of related patterns within a group.
#[derive(Debug, Clone)]
pub struct PresetSubGroup {
    pub items: Vec<Preset>,
}

/// A themed group of patterns.
#[derive(Debug, Clone)]
pub struct PresetGroup {
    pub info: PresetInfo,
    pub sub_groups: Vec<PresetSubGroup>,
}

/// The beehive still life centered near the origin.
pub open spec fn spec_beehive() -> Set<(int, int)> {
    Set::new(
        |q: (int, int)|
            q == (0int, 1int) || q == (1int, 1int) || q == (-1int, 0int) || q == (2int, 0int) || q
                == (0int, -1int) || q == (1int, -1int),
    )
}

/// The toad oscillator centered near the origin.
pub open spec fn spec_toad() -> Set<(int, int)> {
    Set::new(
        |q: (int, int)|
            q == (0int, 1int) || q == (1int, 1int) || q == (2int, 1int) || q == (-1int, 0int) || q
                == (0int, 0int) || q == (1int, 0int),
    )
}

/// The r-pentomino centered on the origin.
pub open spec fn spec_r_pentomino() -> Set<(int, int)> {
    Set::new(
        |q: (int, int)|
            q == (0int, 1int) || q == (1int, 1int) || q == (-1int, 0int) || q == (0int, 0int) || q
                == (0int, -1int),
    )
}

/// The live set of the pattern under `id`, or nothing for an unknown id.
pub open spec fn spec_preset_live(id: Seq<char>) -> Option<Set<(int, int)>> {
    if id == "block"@ {
        Some(spec_block(-1, 0))
    } else if id == "beehive"@ {
        Some(spec_beehive())
    } else if id == "blinker"@ {
        Some(spec_vertical_line(0, 0))
    } else if id == "toad"@ {
        Some(spec_toad())
    } else if id == "r_pentomino"@ {
        Some(spec_r_pentomino())
    } else {
        None
    }
}

/// Every pattern of the catalog lies well within the camera bounds.
pub proof fn lemma_preset_live_bounds(id: Seq<char>)
    ensures
        match spec_preset_live(id) {
            Some(l) => camera_range(l),
            None => true,
        },
{
}

/// Looks a pattern up by id: the universe of its cells at age 0, or
/// nothing when the id is not in the catalog.
pub fn get_preset(preset: &String) -> (r: Option<Universe>)
    ensures
        match r {
            Some(u) => spec_preset_live(preset@) == Some(u.live()) && u.age == 0 && u.wf(),
            None => spec_preset_live(preset@) is None,
        },
{
    if *preset == String::from_str("block") {
        let mut xs: Vec<CartesianP> = Vec::new();
        xs.push(CartesianP { x: -1, y: 0 });
        xs.push(CartesianP { x: 0, y: 0 });
        xs.push(CartesianP { x: -1, y: 1 });
        xs.push(CartesianP { x: 0, y: 1 });
        let ghost xsv = xs@;
        let u = Universe::from(xs);
        proof {
            assert forall|q: (int, int)| u.live().contains(q) implies spec_block(-1, 0).contains(q) by {
                let i = choose|i: int| 0 <= i < xsv.len() && pt(#[trigger] xsv[i]) == q;
            }
            assert forall|q: (int, int)| spec_block(-1, 0).contains(q) implies u.live().contains(q) by {
                assert(pt(xsv[0]) == (-1int, 0int));
                assert(pt(xsv[1]) == (0int, 0int));
                assert(pt(xsv[2]) == (-1int, 1int));
                assert(pt(xsv[3]) == (0int, 1int));
            }
            assert(u.live() =~= spec_block(-1, 0));
        }
        Some(u)
    } else if *preset == String::from_str("beehive") {
        let mut xs: Vec<CartesianP> = Vec::new();
        xs.push(CartesianP { x: 0, y: 1 });
        xs.push(CartesianP { x: 1, y: 1 });
        xs.push(CartesianP { x: -1, y: 0 });
        xs.push(CartesianP { x: 2, y: 0 });
        xs.push(CartesianP { x: 0, y: -1 });
        xs.push(CartesianP { x: 1, y: -1 });
        let ghost xsv = xs@;
        let u = Universe::from(xs);
        proof {
            assert forall|q: (int, int)| u.live().contains(q) implies spec_beehive().contains(q) by {
                let i = choose|i: int| 0 <= i < xsv.len() && pt(#[trigger] xsv[i]) == q;
            }
            assert forall|q: (int, int)| spec_beehive().contains(q) implies u.live().contains(q) by {
                assert(pt(xsv[0]) == (0int, 1int));
                assert(pt(xsv[1]) == (1int, 1int));
                assert(pt(xsv[2]) == (-1int, 0int));
                assert(pt(xsv[3]) == (2int, 0int));
                assert(pt(xsv[4]) == (0int, -1int));
                assert(pt(xsv[5]) == (1int, -1int));
            }
            assert(u.live() =~= spec_beehive());
        }
        Some(u)
    } else if *preset == String::from_str("blinker") {
        let mut xs: Vec<CartesianP> = Vec::new();
        xs.push(CartesianP { x: 0, y: -1 });
        xs.push(CartesianP { x: 0, y: 0 });
        xs.push(CartesianP { x: 0, y: 1 });
        let ghost xsv = xs@;
        let u = Universe::from(xs);
        proof {
            assert forall|q: (int, int)| u.live().contains(q) implies spec_vertical_line(0, 0).contains(q) by {
                let i = choose|i: int| 0 <= i < xsv.len() && pt(#[trigger] xsv[i]) == q;
            }
            assert forall|q: (int, int)| spec_vertical_line(0, 0).contains(q) implies u.live().contains(q) by {
                assert(pt(xsv[0]) == (0int, -1int));
                assert(pt(xsv[1]) == (0int, 0int));
                assert(pt(xsv[2]) == (0int, 1int));
            }
            assert(u.live() =~= spec_vertical_line(0, 0));
        }
        Some(u)
    } else if *preset == String::from_str("toad") {
        let mut xs: Vec<CartesianP> = Vec::new();
        xs.push(CartesianP { x: 0, y: 1 });
        xs.push(CartesianP { x: 1, y: 1 });
        xs.push(CartesianP { x: 2, y: 1 });
        xs.push(CartesianP { x: -1, y: 0 });
        xs.push(CartesianP { x: 0, y: 0 });
        xs.push(CartesianP { x: 1, y: 0 });
        let ghost xsv = xs@;
        let u = Universe::from(xs);
        proof {
            assert forall|q: (int, int)| u.live().contains(q) implies spec_toad().contains(q) by {
                let i = choose|i: int| 0 <= i < xsv.len() && pt(#[trigger] xsv[i]) == q;
            }
            assert forall|q: (int, int)| spec_toad().contains(q) implies u.live().contains(q) by {
                assert(pt(xsv[0]) == (0int, 1int));
                assert(pt(xsv[1]) == (1int, 1int));
                assert(pt(xsv[2]) == (2int, 1int));
                assert(pt(xsv[3]) == (-1int, 0int));
                assert(pt(xsv[4]) == (0int, 0int));
                assert(pt(xsv[5]) == (1int, 0int));
            }
            assert(u.live() =~= spec_toad());
        }
        Some(u)
    } else if *preset == String::from_str("r_pentomino") {
        let mut xs: Vec<CartesianP> = Vec::new();
        xs.push(CartesianP { x: 0, y: 1 });
        xs.push(CartesianP { x: 1, y: 1 });
        xs.push(CartesianP { x: -1, y: 0 });
        xs.push(CartesianP { x: 0, y: 0 });
        xs.push(CartesianP { x: 0, y: -1 });
        let ghost xsv = xs@;
        let u = Universe::from(xs);
        proof {
            assert forall|q: (int, int)| u.live().contains(q) implies spec_r_pentomino().contains(q) by {
                let i = choose|i: int| 0 <= i < xsv.len() && pt(#[trigger] xsv[i]) == q;
            }
            assert forall|q: (int, int)| spec_r_pentomino().contains(q) implies u.live().contains(q) by {
                assert(pt(xsv[0]) == (0int, 1int));
                assert(pt(xsv[1]) == (1int, 1int));
                assert(pt(xsv[2]) == (-1int, 0int));
                assert(pt(xsv[3]) == (0int, 0int));
                assert(pt(xsv[4]) == (0int, -1int));
            }
            assert(u.live() =~= spec_r_pentomino());
        }
        Some(u)
    } else {
        None
    }
}

/// Makes one catalog entry.
fn preset_entry(id: &str, name: &str) -> (p: Preset)
    ensures
        p.id@ == id@,
        p.name@ == name@,
{
    Preset { id: String::from_str(id), name: String::from_str(name) }
}

/// The grouped catalog: still lifes, oscillators and methuselahs.
pub fn get_preset_groups() -> (groups: Vec<PresetGroup>)
    ensures
        groups@.len() == 3,
        groups@[0].info.id@ == "still_life"@,
        groups@[0].info.name@ == "Still life"@,
        groups@[0].sub_groups@.len() == 1,
        groups@[0].sub_groups@[0].items@.len() == 2,
        groups@[0].sub_groups@[0].items@[0].id@ == "block"@,
        groups@[0].sub_groups@[0].items@[0].name@ == "Block"@,
        groups@[0].sub_groups@[0].items@[1].id@ == "beehive"@,
        groups@[0].sub_groups@[0].items@[1].name@ == "Beehive"@,
        groups@[1].info.id@ == "oscillators"@,
        groups@[1].info.name@ == "Oscillators"@,
        groups@[1].sub_groups@.len() == 1,
        groups@[1].sub_groups@[0].items@.len() == 2,
        groups@[1].sub_groups@[0].items@[0].id@ == "blinker"@,
        groups@[1].sub_groups@[0].items@[0].name@ == "Blinker"@,
        groups@[1].sub_groups@[0].items@[1].id@ == "toad"@,
        groups@[1].sub_groups@[0].items@[1].name@ == "Toad"@,
        groups@[2].info.id@ == "methuselahs"@,
        groups@[2].info.name@ == "Methuselahs"@,
        groups@[2].sub_groups@.len() == 1,
        groups@[2].sub_groups@[0].items@.len() == 1,
        groups@[2].sub_groups@[0].items@[0].id@ == "r_pentomino"@,
        groups@[2].sub_groups@[0].items@[0].name@ == "R-pentomino"@,
        forall|g: int, s: int, t: int|
            0 <= g < groups@.len() && 0 <= s < groups@[g].sub_groups@.len() && 0 <= t
                < groups@[g].sub_groups@[s].items@.len() ==> spec_preset_live(
                (#[trigger] groups@[g].sub_groups@[s].items@[t]).id@,
            ) is Some,
{
    let mut still: Vec<Preset> = Vec::new();
    still.push(preset_entry("block", "Block"));
    still.push(preset_entry("beehive", "Beehive"));
    let mut osc: Vec<Preset> = Vec::new();
    osc.push(preset_entry("blinker", "Blinker"));
    osc.push(preset_entry("toad", "Toad"));
    let mut met: Vec<Preset> = Vec::new();
    met.push(preset_entry("r_pentomino", "R-pentomino"));
    let mut g1_subs: Vec<PresetSubGroup> = Vec::new();
    g1_subs.push(PresetSubGroup { items: still });
    let mut g2_subs: Vec<PresetSubGroup> = Vec::new();
    g2_subs.push(PresetSubGroup { items: osc });
    let mut g3_subs: Vec<PresetSubGroup> = Vec::new();
    g3_subs.push(PresetSubGroup { items: met });
    let mut groups: Vec<PresetGroup> = Vec::new();
    groups.push(
        PresetGroup {
            info: PresetInfo {
                id: String::from_str("still_life"),
                name: String::from_str("Still life"),
            },
            sub_groups: g1_subs,
        },
    );
    groups.push(
        PresetGroup {
            info: PresetInfo {
                id: String::from_str("oscillators"),
                name: String::from_str("Oscillators"),
            },
            sub_groups: g2_subs,
        },
    );
    groups.push(
        PresetGroup {
            info: PresetInfo {
                id: String::from_str("methuselahs"),
                name: String::from_str("Methuselahs"),
            },
            sub_groups: g3_subs,
        },
    );
    groups
}

} // verus!
