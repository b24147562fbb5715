//! The setup of an animal's field of view: how far it sees, how wide, and
//! into how many cells the view is cut.

use vstd::prelude::*;
use crate::scalar::Scalar;
use crate::world::food::Food;
use crate::world::Position;

verus! {

/// How far an animal sees by default: a quarter of the world's width.
pub const FOV_RANGE_BITS: u32 = 0x3E80_0000;

/// How wide an animal sees by default: five quarters of pi, in radians.
pub const FOV_ANGLE_BITS: u32 = 0x407B_53D2;

/// Into how many cells the view is cut by default.
pub const CELLS: usize = 9;

/// A field of view was asked for with a range, an angle or a number of cells
/// that is not greater than zero.
#[derive(Clone, Copy, Debug, PartialEq, Eq, Structural)]
pub struct InvalidParameter;

/// What the eyes make of one item of food that is in view: the number of
/// whole cells that lie between the edge of the view and the food, and the
/// energy with which the food is seen, which is the greater the nearer it is.
#[derive(Clone, Copy, Debug)]
pub struct Sighting {
    pub whole_cells: usize,
    pub energy: Scalar,
}

/// The cell that a sighting falls into with eyes of `cells` cells: as many
/// cells from the edge as the sighting says, but never beyond the last cell.
pub open spec fn cell_index(cells: usize, whole_cells: usize) -> int {
    if whole_cells < cells {
        whole_cells as int
    } else {
        cells - 1
    }
}

/// Whether `after` is what the cells hold once the eyes have looked at one
/// item of food, where they held `before`: `sight` says whether the food is
/// in view, and where it is, `gather` adds its energy to the cell it falls
/// into, and no other cell changes.
pub open spec fn sees_one<S, A>(
    sight: S,
    gather: A,
    eyes: Eyes,
    position: Position,
    rotation: Scalar,
    food: Position,
    before: Seq<Scalar>,
    after: Seq<Scalar>,
) -> bool where
    S: Fn(&Eyes, Position, Scalar, Position) -> Option<Sighting>,
    A: Fn(Scalar, Scalar) -> Scalar,
 {
    exists|seen: Option<Sighting>| #[trigger]
        call_ensures(sight, (&eyes, position, rotation, food), seen) && match seen {
            None => after == before,
            Some(sighting) => {
                let cell = cell_index(eyes.cell_count(), sighting.whole_cells);
                &&& call_ensures(gather, (before[cell], sighting.energy), after[cell])
                &&& after == before.update(cell, after[cell])
            },
        }
}

/// Where each of `foods` lies, in order.
pub open spec fn places(foods: Seq<Food>) -> Seq<Position> {
    Seq::new(foods.len(), |k: int| foods[k]@.position)
}

/// Whether `vision` is what eyes at `position` that look in the direction
/// `rotation` may see of food at the given places.
pub open spec fn sees<S, A>(
    sight: S,
    gather: A,
    eyes: Eyes,
    position: Position,
    rotation: Scalar,
    foods: Seq<Position>,
    vision: Seq<Scalar>,
) -> bool where
    S: Fn(&Eyes, Position, Scalar, Position) -> Option<Sighting>,
    A: Fn(Scalar, Scalar) -> Scalar,
 {
    exists|states: Seq<Seq<Scalar>>|
        sees_through(sight, gather, eyes, position, rotation, foods, vision, states)
}

/// Whether `states` are what the cells hold as the eyes look at one item of
/// food after the other: nothing at first, and `vision` at last.
pub open spec fn sees_through<S, A>(
    sight: S,
    gather: A,
    eyes: Eyes,
    position: Position,
    rotation: Scalar,
    foods: Seq<Position>,
    vision: Seq<Scalar>,
    states: Seq<Seq<Scalar>>,
) -> bool where
    S: Fn(&Eyes, Position, Scalar, Position) -> Option<Sighting>,
    A: Fn(Scalar, Scalar) -> Scalar,
 {
    &&& states.len() == foods.len() + 1
    &&& states[0] == Seq::new(eyes.cell_count() as nat, |i: int| Scalar { bits: 0 })
    &&& states.last() == vision
    &&& forall|k: int|
        0 <= k < foods.len() ==> sees_one(
            sight,
            gather,
            eyes,
            position,
            rotation,
            #[trigger] foods[k],
            states[k],
            states[k + 1],
        )
}

#[derive(Clone, Copy, Debug)]
pub struct Eyes {
    fov_range: Scalar,
    fov_angle: Scalar,
    cells: usize,
}

impl Eyes {
    #[verifier::type_invariant]
    spec fn valid(self) -> bool {
        &&& self.fov_range.is_positive()
        &&& self.fov_angle.is_positive()
        &&& self.cells > 0
    }

    pub closed spec fn range(&self) -> Scalar {
        self.fov_range
    }

    pub closed spec fn angle(&self) -> Scalar {
        self.fov_angle
    }

    pub closed spec fn cell_count(&self) -> usize {
        self.cells
    }

    /// Eyes that see `fov_range` far and `fov_angle` wide, in `cells` cells.
    /// Each of the three must be greater than zero.
    pub fn new(fov_range: Scalar, fov_angle: Scalar, cells: usize) -> (r: Result<
        Self,
        InvalidParameter,
    >)
        ensures
            r is Ok <==> fov_range.is_positive() && fov_angle.is_positive() && cells > 0,
            r matches Ok(eyes) ==> eyes.range() == fov_range && eyes.angle() == fov_angle
                && eyes.cell_count() == cells,
    {
        if fov_range.positive() && fov_angle.positive() && cells > 0 {
            Ok(Eyes { fov_range, fov_angle, cells })
        } else {
            Err(InvalidParameter)
        }
    }

    pub fn fov_range(&self) -> (r: Scalar)
        ensures
            r == self.range(),
            r.is_positive(),
    {
        proof {
            use_type_invariant(self);
        }
        self.fov_range
    }

    pub fn fov_angle(&self) -> (r: Scalar)
        ensures
            r == self.angle(),
            r.is_positive(),
    {
        proof {
            use_type_invariant(self);
        }
        self.fov_angle
    }

    pub fn cells(&self) -> (r: usize)
        ensures
            r == self.cell_count(),
            r > 0,
    {
        proof {
            use_type_invariant(self);
        }
        self.cells
    }

    /// What eyes at `position` that look in the direction `rotation` see of
    /// the food: one value for each cell, from one edge of the view to the
    /// other. Every cell begins at zero. The eyes look at one item of food
    /// after the other: `sight` says whether the item is in view and, where
    /// it is, in which cell and with what energy; `gather` adds that energy to
    /// what the cell holds.
    pub fn process_vision<S, A>(
        &self,
        position: Position,
        rotation: Scalar,
        foods: &[Food],
        sight: &S,
        gather: &A,
    ) -> (vision: Vec<Scalar>) where
        S: Fn(&Eyes, Position, Scalar, Position) -> Option<Sighting>,
        A: Fn(Scalar, Scalar) -> Scalar,

        requires
            forall|eyes: Eyes, place: Position, heading: Scalar, food: Position| #[trigger]
                call_requires(*sight, (&eyes, place, heading, food)),
            forall|a: Scalar, b: Scalar| #[trigger] call_requires(*gather, (a, b)),
        ensures
            vision@.len() == self.cell_count(),
            sees(*sight, *gather, *self, position, rotation, places(foods@), vision@),
    {
        proof {
            use_type_invariant(self);
        }
        let mut cells: Vec<Scalar> = Vec::new();
        let mut i: usize = 0;
        while i < self.cells
            invariant
                i <= self.cells,
                cells@.len() == i,
                forall|k: int| 0 <= k < i ==> cells@[k] == (Scalar { bits: 0 }),
            decreases self.cells - i,
        {
            cells.push(Scalar::from_bits(0));
            i += 1;
        }
        assert(cells@ =~= Seq::new(self.cell_count() as nat, |i: int| Scalar { bits: 0 }));
        let ghost mut states: Seq<Seq<Scalar>> = seq![cells@];
        let mut k: usize = 0;
        while k < foods.len()
            invariant
                k <= foods@.len(),
                self.cells > 0,
                cells@.len() == self.cell_count(),
                forall|eyes: Eyes, place: Position, heading: Scalar, food: Position| #[trigger]
                    call_requires(*sight, (&eyes, place, heading, food)),
                forall|a: Scalar, b: Scalar| #[trigger] call_requires(*gather, (a, b)),
                sees_through(
                    *sight,
                    *gather,
                    *self,
                    position,
                    rotation,
                    places(foods@).take(k as int),
                    cells@,
                    states,
                ),
            decreases foods@.len() - k,
        {
            let ghost before = cells@;
            let food = foods[k].position();
            let seen = sight(self, position, rotation, food);
            match seen {
                None => {},
                Some(sighting) => {
                    let cell = self.cell_of(sighting.whole_cells);
                    let sum = gather(cells[cell], sighting.energy);
                    cells[cell] = sum;
                    assert(cells@ =~= before.update(cell as int, sum));
                },
            }
            proof {
                assert(sees_one(*sight, *gather, *self, position, rotation, food, before, cells@)) by {
                    assert(call_ensures(*sight, (self, position, rotation, food), seen));
                }
                let shorter = places(foods@).take(k as int);
                let longer = places(foods@).take(k + 1);
                let further = states.push(cells@);
                assert forall|j: int| 0 <= j < longer.len() implies sees_one(
                    *sight,
                    *gather,
                    *self,
                    position,
                    rotation,
                    #[trigger] longer[j],
                    further[j],
                    further[j + 1],
                ) by {
                    if j < k {
                        assert(shorter[j] == longer[j]);
                    }
                }
                states = further;
            }
            k += 1;
        }
        assert(places(foods@).take(k as int) =~= places(foods@));
        cells
    }

    /// The cell that a sighting falls into, given the number of whole cells
    /// that lie between the edge of the view and the sighting: that number,
    /// but never beyond the last cell.
    pub fn cell_of(&self, whole_cells: usize) -> (cell: usize)
        ensures
            cell < self.cell_count(),
            cell == cell_index(self.cell_count(), whole_cells),
    {
        proof {
            use_type_invariant(self);
        }
        if whole_cells < self.cells {
            whole_cells
        } else {
            self.cells - 1
        }
    }
}

/// The eyes that every animal has: they see `FOV_RANGE_BITS` far and
/// `FOV_ANGLE_BITS` wide, in `CELLS` cells.
pub closed spec fn default_eyes() -> Eyes {
    Eyes {
        fov_range: Scalar { bits: FOV_RANGE_BITS },
        fov_angle: Scalar { bits: FOV_ANGLE_BITS },
        cells: CELLS,
    }
}

impl Default for Eyes {
    fn default() -> (r: Self)
        ensures
            r == default_eyes(),
            r.range().bits == FOV_RANGE_BITS,
            r.angle().bits == FOV_ANGLE_BITS,
            r.cell_count() == CELLS,
    {
        Eyes {
            fov_range: Scalar::from_bits(FOV_RANGE_BITS),
            fov_angle: Scalar::from_bits(FOV_ANGLE_BITS),
            cells: CELLS,
        }
    }
}

} // verus!
