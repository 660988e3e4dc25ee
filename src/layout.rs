//! The unresolved layout tree handed to a flex solver.
use vstd::prelude::*;
use crate::geometry::{Align, Justify, Length};

verus! {

/// The main axis of a flex container.
#[derive(Clone, Copy, Debug, PartialEq, Eq, Hash, Structural)]
pub enum FlexDirection {
    Row,
    Column,
}

/// The constraints of one layout node. `None` leaves a constraint to the
/// solver's default.
#[derive(Clone, Copy, Debug, PartialEq, Eq, Hash, Structural)]
pub struct Style {
    pub width: Option<Length>,
    pub height: Option<Length>,
    pub max_width: Option<Length>,
    pub max_height: Option<Length>,
    pub padding: u16,
    pub align_self: Option<Align>,
    pub align_items: Option<Align>,
    pub justify_content: Option<Justify>,
    pub flex_direction: FlexDirection,
    /// Margin after the node along its parent's main axis.
    pub margin_end: Option<u16>,
}

impl Style {
    pub open spec fn spec_default() -> Style {
        Style {
            width: None,
            height: None,
            max_width: None,
            max_height: None,
            padding: 0,
            align_self: None,
            align_items: None,
            justify_content: None,
            flex_direction: FlexDirection::Row,
            margin_end: None,
        }
    }

    /// The style with every constraint left to the solver.
    pub fn empty() -> (r: Style)
        ensures
            r == Style::spec_default(),
    {
        Style {
            width: None,
            height: None,
            max_width: None,
            max_height: None,
            padding: 0,
            align_self: None,
            align_items: None,
            justify_content: None,
            flex_direction: FlexDirection::Row,
            margin_end: None,
        }
    }
}

/// A node of the layout tree: its style and its children, in order.
pub struct Node {
    pub style: Style,
    pub children: Vec<Node>,
}

impl Node {
    /// A node without children.
    pub fn new(style: Style) -> (r: Node)
        ensures
            r.style == style,
            r.children@.len() == 0,
    {
        Node { style, children: Vec::new() }
    }

    /// A node with the given children, kept in order.
    pub fn with_children(style: Style, children: Vec<Node>) -> (r: Node)
        ensures
            r.style == style,
            r.children == children,
    {
        Node { style, children }
    }
}

} // verus!
