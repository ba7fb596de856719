//! Values kept per side.
use vstd::prelude::*;

use crate::game_board::Color;

verus! {

/// A map from sides to values, in which a side may have no value.
#[derive(Clone, Debug, PartialEq, Eq)]
pub struct ColorMap<T> {
    pub red: Option<T>,
    pub blue: Option<T>,
}

impl<T> ColorMap<T> {
    /// The value of `color`, if it has one.
    pub open spec fn entry(self, color: Color) -> Option<T> {
        match color {
            Color::Red => self.red,
            Color::Blue => self.blue,
        }
    }

    /// The map in which no side has a value.
    pub fn new() -> (map: Self)
        ensures
            map.red is None,
            map.blue is None,
    {
        ColorMap { red: None, blue: None }
    }

    /// Gives `color` the value `value` and returns the value it had before.
    pub fn insert(&mut self, color: Color, value: T) -> (previous: Option<T>)
        ensures
            previous == old(self).entry(color),
            final(self).entry(color) == Some(value),
            forall|other: Color| other != color ==> final(self).entry(other) == old(self).entry(other),
    {
        match color {
            Color::Red => {
                let previous = self.red.take();
                self.red = Some(value);
                previous
            },
            Color::Blue => {
                let previous = self.blue.take();
                self.blue = Some(value);
                previous
            },
        }
    }

    /// The value of `color`, if it has one.
    pub fn get(&self, color: Color) -> (value: Option<&T>)
        ensures
            match value {
                Some(value) => self.entry(color) == Some(*value),
                None => self.entry(color) is None,
            },
    {
        match color {
            Color::Red => self.red.as_ref(),
            Color::Blue => self.blue.as_ref(),
        }
    }
}

} // verus!
