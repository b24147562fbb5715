//! One item of food.

use vstd::prelude::*;
use crate::world::Position;

verus! {

/// What an item of food is: where it lies, and the colour it is shown in,
/// which means nothing to this crate.
pub struct FoodModel {
    pub position: Position,
    pub color: Seq<char>,
}

#[derive(Debug)]
pub struct Food {
    pub(crate) position: Position,
    pub(crate) color: String,
}

impl View for Food {
    type V = FoodModel;

    closed spec fn view(&self) -> FoodModel {
        FoodModel { position: self.position, color: self.color@ }
    }
}

impl Food {
    pub fn new(position: Position, color: String) -> (r: Self)
        ensures
            r@ == (FoodModel { position, color: color@ }),
    {
        Food { position, color }
    }

    pub fn position(&self) -> (r: Position)
        ensures
            r == self@.position,
    {
        self.position
    }

    pub fn color(&self) -> (r: &str)
        ensures
            r@ == self@.color,
    {
        self.color.as_str()
    }

    /// Lays the food down elsewhere.
    pub fn move_to(&mut self, position: Position)
        ensures
            final(self)@ == (FoodModel { position, color: old(self)@.color }),
    {
        self.position = position;
    }
}

} // verus!
