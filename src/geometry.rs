//! Sizing intent and alignment values.
use vstd::prelude::*;

verus! {

/// How much space a widget asks for along one axis.
#[derive(Clone, Copy, Debug, PartialEq, Eq, Hash, Structural)]
pub enum Length {
    /// Take all the space available.
    Fill,
    /// Take a share of the available space, weighted by the given factor.
    FillPortion(u16),
    /// Take as little space as the contents need.
    Shrink,
    /// A fixed amount of units.
    Units(u16),
}

/// Alignment on the cross axis.
#[derive(Clone, Copy, Debug, PartialEq, Eq, Hash, Structural)]
pub enum Align {
    Start,
    Center,
    End,
    Stretch,
}

/// Distribution of the contents on the main axis.
#[derive(Clone, Copy, Debug, PartialEq, Eq, Hash, Structural)]
pub enum Justify {
    Start,
    Center,
    End,
    SpaceBetween,
    SpaceAround,
    SpaceEvenly,
}

/// An axis-aligned rectangle.
#[derive(Clone, Copy, Debug, PartialEq, Eq, Hash, Structural)]
pub struct Rectangle<T> {
    pub x: T,
    pub y: T,
    pub width: T,
    pub height: T,
}

} // verus!
